//! Architecture-specific constants, the environment-variable names the
//! loader recognizes, and the entry trampoline.
//!
//! The constants are those of x86-64 Linux, the system this build of the
//! loader runs on.

use vstd::prelude::*;

use crate::args::EnvEdit;
use crate::cstr::{bytes_of, str_bytes};

verus! {

/// The alignment the published stack pointer must have.  The ABI asks for
/// 16; we align to 32.
pub const STACK_ALIGNMENT: usize = 32;

/// The word size of the machine, in bytes.
pub const WORD_SIZE: usize = 8;

/// The ELF machine number of the running architecture (`EM_X86_64`).
pub const EM_SELF: u16 = 62;

/// The relative relocation type of the running architecture
/// (`R_X86_64_RELATIVE`).
pub const R_RELATIVE: u32 = 8;

/// The name of the generic loader-path variable.
pub open spec fn spec_nix_ld() -> Seq<u8> {
    bytes_of("NIX_LD"@)
}

pub fn nix_ld_env() -> (r: Vec<u8>)
    ensures
        r@ == spec_nix_ld(),
{
    proof {
        reveal_strlit("NIX_LD");
    }
    str_bytes("NIX_LD")
}

/// The name of the system-specific loader-path variable: the generic name
/// with the underscored system double appended.
pub open spec fn spec_nix_ld_system() -> Seq<u8> {
    bytes_of("NIX_LD_x86_64_linux"@)
}

pub fn nix_ld_system_env() -> (r: Vec<u8>)
    ensures
        r@ == spec_nix_ld_system(),
{
    proof {
        reveal_strlit("NIX_LD_x86_64_linux");
    }
    str_bytes("NIX_LD_x86_64_linux")
}

/// The name of the generic library-path variable.
pub open spec fn spec_nix_ld_library_path() -> Seq<u8> {
    bytes_of("NIX_LD_LIBRARY_PATH"@)
}

pub fn nix_ld_library_path_env() -> (r: Vec<u8>)
    ensures
        r@ == spec_nix_ld_library_path(),
{
    proof {
        reveal_strlit("NIX_LD_LIBRARY_PATH");
    }
    str_bytes("NIX_LD_LIBRARY_PATH")
}

/// The name of the system-specific library-path variable.
pub open spec fn spec_nix_ld_library_path_system() -> Seq<u8> {
    bytes_of("NIX_LD_LIBRARY_PATH_x86_64_linux"@)
}

pub fn nix_ld_library_path_system_env() -> (r: Vec<u8>)
    ensures
        r@ == spec_nix_ld_library_path_system(),
{
    proof {
        reveal_strlit("NIX_LD_LIBRARY_PATH_x86_64_linux");
    }
    str_bytes("NIX_LD_LIBRARY_PATH_x86_64_linux")
}

/// The name of the variable the real loader reads its search path from.
pub open spec fn spec_ld_library_path() -> Seq<u8> {
    bytes_of("LD_LIBRARY_PATH"@)
}

pub fn ld_library_path_env() -> (r: Vec<u8>)
    ensures
        r@ == spec_ld_library_path(),
{
    proof {
        reveal_strlit("LD_LIBRARY_PATH");
    }
    str_bytes("LD_LIBRARY_PATH")
}

/// The name of the log-level variable.
pub open spec fn spec_nix_ld_log() -> Seq<u8> {
    bytes_of("NIX_LD_LOG"@)
}

pub fn nix_ld_log_env() -> (r: Vec<u8>)
    ensures
        r@ == spec_nix_ld_log(),
{
    proof {
        reveal_strlit("NIX_LD_LOG");
    }
    str_bytes("NIX_LD_LOG")
}

/// The large static stack the loader switches to before running its
/// policy, described by where it sits and how many bytes it spans.
#[derive(Debug, PartialEq, Eq, Structural, Clone, Copy)]
pub struct StackSpace {
    pub base: usize,
    pub size: usize,
}

impl StackSpace {
    /// The address to point the stack register at: the end of the span,
    /// aligned down to the stack alignment.
    pub fn bottom(&self) -> (r: usize)
        requires
            self.base + self.size <= usize::MAX,
        ensures
            r == (((self.base + self.size) as usize) & !((STACK_ALIGNMENT - 1) as usize)),
            r % 32 == 0,
            r <= self.base + self.size,
    {
        let end = self.base + self.size;
        let aligned = end & !(STACK_ALIGNMENT - 1);
        proof {
            assert(STACK_ALIGNMENT - 1 == 31usize);
            assert((end & !31usize) % 32 == 0 && (end & !31usize) <= end) by (bit_vector);
        }
        aligned
    }
}

/// The six variable names are pairwise distinct.
pub proof fn lemma_env_names_distinct()
    ensures
        spec_nix_ld() != spec_nix_ld_system(),
        spec_nix_ld() != spec_nix_ld_library_path(),
        spec_nix_ld() != spec_nix_ld_library_path_system(),
        spec_nix_ld() != spec_ld_library_path(),
        spec_nix_ld() != spec_nix_ld_log(),
        spec_nix_ld_system() != spec_nix_ld_library_path(),
        spec_nix_ld_system() != spec_nix_ld_library_path_system(),
        spec_nix_ld_system() != spec_ld_library_path(),
        spec_nix_ld_system() != spec_nix_ld_log(),
        spec_nix_ld_library_path() != spec_nix_ld_library_path_system(),
        spec_nix_ld_library_path() != spec_ld_library_path(),
        spec_nix_ld_library_path() != spec_nix_ld_log(),
        spec_nix_ld_library_path_system() != spec_ld_library_path(),
        spec_nix_ld_library_path_system() != spec_nix_ld_log(),
        spec_ld_library_path() != spec_nix_ld_log(),
{
    reveal_strlit("NIX_LD");
    reveal_strlit("NIX_LD_x86_64_linux");
    reveal_strlit("NIX_LD_LIBRARY_PATH");
    reveal_strlit("NIX_LD_LIBRARY_PATH_x86_64_linux");
    reveal_strlit("LD_LIBRARY_PATH");
    reveal_strlit("NIX_LD_LOG");
    assert(spec_nix_ld().len() == 6);
    assert(spec_nix_ld_system().len() == 19);
    assert(spec_nix_ld_library_path().len() == 19);
    assert(spec_nix_ld_library_path_system().len() == 32);
    assert(spec_ld_library_path().len() == 15);
    assert(spec_nix_ld_log().len() == 10);
    assert(spec_nix_ld_system()[7] == ('x' as u8));
    assert(spec_nix_ld_library_path()[7] == ('L' as u8));
    assert(spec_nix_ld_system() != spec_nix_ld_library_path()) by {
        if spec_nix_ld_system() == spec_nix_ld_library_path() {
            assert(spec_nix_ld_system()[7] == spec_nix_ld_library_path()[7]);
        }
    }
}

/// Context for the entry-point trampoline.
///
/// The goal is to revert the `LD_LIBRARY_PATH` edit once the real loader
/// has done its job: the trampoline runs as the effective program entry,
/// stores `env_string` back into the environment slot `env_entry` names,
/// and jumps to `elf_entry`.
#[derive(Debug, PartialEq, Eq, Structural, Clone, Copy)]
pub struct TrampolineContext {
    /// The real entry point to jump to.
    pub elf_entry: usize,
    /// The word index of the environment slot to rewrite, if any.
    pub env_entry: Option<usize>,
    /// The string pointer to store into that slot.
    pub env_string: usize,
}

impl TrampolineContext {
    pub fn new() -> (r: Self)
        ensures
            r.elf_entry == 0 && r.env_entry is None && r.env_string == 0,
    {
        TrampolineContext { elf_entry: 0, env_entry: None, env_string: 0 }
    }

    /// Records the real entry point.
    pub fn set_elf_entry(&mut self, entry: usize)
        ensures
            final(self).elf_entry == entry,
            final(self).env_entry == old(self).env_entry,
            final(self).env_string == old(self).env_string,
    {
        self.elf_entry = entry;
    }

    /// Records the edit to undo: the slot, and the pointer it used to
    /// hold.
    pub fn revert_env(&mut self, edit: &EnvEdit)
        ensures
            final(self).elf_entry == old(self).elf_entry,
            final(self).env_entry == edit.entry,
            final(self).env_string == edit.old_string,
    {
        self.env_entry = edit.entry;
        self.env_string = edit.old_string;
    }

    /// Redirects the revert at another environment slot.
    pub fn revert_env_entry(&mut self, entry: usize)
        ensures
            final(self).elf_entry == old(self).elf_entry,
            final(self).env_entry == Some(entry),
            final(self).env_string == old(self).env_string,
    {
        self.env_entry = Some(entry);
    }
}

/// The entry trampoline: what the architecture-specific shim at the
/// effective program entry does.  If an environment slot is recorded, the
/// saved string pointer is stored into it; the returned value is the
/// address execution then jumps to.
pub fn entry_trampoline(ctx: &TrampolineContext, words: &mut Vec<usize>) -> (r: usize)
    requires
        match ctx.env_entry {
            Some(e) => e < old(words)@.len(),
            None => true,
        },
    ensures
        r == ctx.elf_entry,
        match ctx.env_entry {
            Some(e) => final(words)@ == old(words)@.update(e as int, ctx.env_string),
            None => final(words)@ == old(words)@,
        },
{
    match ctx.env_entry {
        Some(e) => {
            words.set(e, ctx.env_string);
        },
        None => {},
    }
    ctx.elf_entry
}

} // verus!
