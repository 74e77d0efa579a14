//! Args wrangling: the initial-stack image, the environment editor, and
//! the stack shifter.
//!
//! The kernel lays the initial stack out as `argc`, the `argv` pointers and
//! a NUL pointer, the `envp` pointers and a NUL pointer, then the aux
//! vector.  This module holds that image as a vector of machine words.
//! The byte strings those words point at live in a [`StringArena`]: a
//! pointer is a small nonzero handle into the arena, and 0 is the NULL
//! pointer.  Fresh strings are allocated by appending to the arena and are
//! never freed, which models the leak-allocated replacement buffers of the
//! running loader.

use vstd::prelude::*;

use crate::arch::STACK_ALIGNMENT;
use crate::auxv::{opt_add, spec_aux_count, AuxVec, Entry};
use crate::cstr::{append_bytes, is_cstr, spec_find_byte, subvec};
use crate::cstr::find_byte;
use crate::sys::Fatal;

verus! {

/// The store of byte strings: the environment strings of the initial
/// stack, and every replacement buffer allocated afterwards.  Pointer `p`
/// (nonzero) names `bufs[p - 1]`; allocated strings live until process
/// exit.
pub struct StringArena {
    pub bufs: Vec<Vec<u8>>,
}

impl StringArena {
    /// Whether `p` names a string of this arena.
    pub open spec fn valid_ptr(&self, p: usize) -> bool {
        1 <= p <= self.bufs@.len()
    }

    /// The bytes `p` points at.
    pub open spec fn str_at(&self, p: usize) -> Seq<u8> {
        self.bufs@[p - 1]@
    }

    /// The old arena is a prefix of the new one: every old pointer still
    /// names the same bytes.
    pub open spec fn extends(&self, other: &StringArena) -> bool {
        &&& other.bufs@.len() <= self.bufs@.len()
        &&& forall|p: usize| other.valid_ptr(p) ==> self.valid_ptr(p) && #[trigger] self.str_at(p)
            == other.str_at(p)
    }

    pub fn new() -> (r: Self)
        ensures
            r.bufs@.len() == 0,
    {
        StringArena { bufs: Vec::new() }
    }

    /// Allocates a fresh string, leaked for the life of the process, and
    /// returns its pointer.
    pub fn new_slice_leak(&mut self, s: Vec<u8>) -> (p: usize)
        requires
            old(self).bufs@.len() < usize::MAX,
        ensures
            p == old(self).bufs@.len() + 1,
            final(self).valid_ptr(p),
            final(self).str_at(p) == s@,
            final(self).bufs@ == old(self).bufs@.push(s),
            final(self).extends(old(self)),
    {
        let n = self.bufs.len();
        self.bufs.push(s);
        n + 1
    }

    /// Reads the string `p` points at.
    pub fn get(&self, p: usize) -> (r: &Vec<u8>)
        requires
            self.valid_ptr(p),
        ensures
            r@ == self.str_at(p),
    {
        &self.bufs[p - 1]
    }

    /// Overwrites the string `p` points at, in place: the pointer itself
    /// and every other string are untouched.
    pub fn set_str(&mut self, p: usize, s: Vec<u8>)
        requires
            old(self).valid_ptr(p),
        ensures
            final(self).bufs@.len() == old(self).bufs@.len(),
            final(self).str_at(p) == s@,
            forall|q: usize| old(self).valid_ptr(q) && q != p ==> #[trigger] final(self).str_at(q)
                == old(self).str_at(q),
            forall|q: usize| old(self).valid_ptr(q) ==> final(self).valid_ptr(q),
    {
        self.bufs.set(p - 1, s);
    }

    /// Whether `p` names a string of this arena, decided at run time.
    pub fn check_ptr(&self, p: usize) -> (r: bool)
        ensures
            r == self.valid_ptr(p),
    {
        1 <= p && p <= self.bufs.len()
    }
}

/// Splits `NAME=value\0` at the first `=`: the name before it, and the
/// value after it including the trailing NUL.
pub open spec fn spec_parse_env(s: Seq<u8>) -> Option<(Seq<u8>, Seq<u8>)> {
    match spec_find_byte(s, '=' as u8) {
        Some(i) => Some((s.subrange(0, i), s.subrange(i + 1, s.len() as int))),
        None => None,
    }
}

/// Splits an environment string at its first `=`.
pub fn parse_env(s: &Vec<u8>) -> (r: Option<(Vec<u8>, Vec<u8>)>)
    ensures
        match r {
            Some(nv) => spec_parse_env(s@) == Some((nv.0@, nv.1@)),
            None => spec_parse_env(s@) is None,
        },
{
    match find_byte(s, '=' as u8) {
        Some(i) => {
            proof {
                crate::cstr::lemma_find_byte_first(s@, '=' as u8, i as int);
            }
            let n = s.len();
            let name = subvec(s, 0, i);
            let value = subvec(s, i + 1, n);
            Some((name, value))
        },
        None => {
            proof {
                crate::cstr::lemma_find_byte_none(s@, '=' as u8);
            }
            None
        },
    }
}

/// The number of environment slots before the NULL terminator, if there
/// is one within the word image.
pub open spec fn spec_env_count(stack: Seq<usize>, from: int) -> Option<int>
    decreases stack.len() - from,
{
    if from < 0 || from >= stack.len() {
        None
    } else if stack[from] == 0 {
        Some(0)
    } else {
        opt_add(spec_env_count(stack, from + 1), 1)
    }
}

/// Facts that follow from a successful count of the environment slots.
pub proof fn lemma_env_count_facts(stack: Seq<usize>, from: int, c: int)
    requires
        spec_env_count(stack, from) == Some(c),
    ensures
        c >= 0,
        from >= 0,
        from + c < stack.len(),
        stack[from + c] == 0,
        forall|i: int| 0 <= i < c ==> #[trigger] stack[from + i] != 0,
    decreases stack.len() - from,
{
    if from < 0 || from >= stack.len() {
    } else if stack[from] == 0 {
    } else {
        lemma_env_count_facts(stack, from + 1, c - 1);
        assert forall|i: int| 0 <= i < c implies #[trigger] stack[from + i] != 0 by {
            if i > 0 {
                assert(stack[(from + 1) + (i - 1)] != 0);
            }
        }
    }
}

/// Counts the environment slots from word index `from` up to the NULL
/// terminator, or reports that none lies within the image.
pub fn count_env(stack: &Vec<usize>, from: usize) -> (r: Option<usize>)
    ensures
        match r {
            Some(c) => spec_env_count(stack@, from as int) == Some(c as int),
            None => spec_env_count(stack@, from as int) is None,
        },
{
    let n = stack.len();
    let mut pos: usize = from;
    loop
        invariant
            n == stack@.len(),
            from <= pos,
            spec_env_count(stack@, from as int) == opt_add(
                spec_env_count(stack@, pos as int),
                pos - from,
            ),
        decreases n - pos,
    {
        if pos >= n {
            return None;
        }
        if stack[pos] == 0 {
            return Some(pos - from);
        }
        pos = pos + 1;
    }
}

/// The logical view of the initial stack: the counts, the word image, the
/// parsed aux vector, and the one extra environment string the loader may
/// splice in at handoff.
pub struct Args {
    /// Whether the environment has already been iterated.
    pub env_iterated: bool,
    /// The byte address of the `argc` word.
    pub base: usize,
    /// The words of the initial stack, `argc` first.
    pub stack: Vec<usize>,
    pub argc: usize,
    /// The number of original environment slots.
    pub envc: usize,
    pub auxv: AuxVec,
    /// The pointer of an environment string to be spliced in at handoff.
    pub extra_env: Option<usize>,
}

/// A word image with the layout the kernel promises: `argc`, `argc`
/// pointers and a NUL, the environment pointers (each a well-formed C
/// string of the arena) and a NUL, then aux pairs and their terminator,
/// with nothing after them.
pub open spec fn spec_image_ok(stack: Seq<usize>, arena: &StringArena) -> bool {
    &&& stack.len() >= 2
    &&& stack[0] + 2 <= stack.len()
    &&& stack[1 + stack[0]] == 0
    &&& spec_env_count(stack, 2 + stack[0]) is Some
    &&& {
        let envc = spec_env_count(stack, 2 + stack[0])->Some_0;
        &&& (forall|i: int|
            0 <= i < envc ==> arena.valid_ptr(#[trigger] stack[2 + stack[0] + i]) && is_cstr(
                arena.str_at(stack[2 + stack[0] + i]),
            ))
        &&& spec_aux_count(stack, 3 + stack[0] + envc) is Some
        &&& stack.len() == 3 + stack[0] + envc + 2 * spec_aux_count(
            stack,
            3 + stack[0] + envc,
        )->Some_0 + 2
    }
}

impl Args {
    /// The word index of the first environment slot.
    pub open spec fn env_start(&self) -> int {
        2 + self.argc
    }

    /// The word index of the first aux pair.
    pub open spec fn aux_start(&self) -> int {
        3 + self.argc + self.envc
    }

    /// Environment slot `i` holds a pointer to a well-formed C string.
    pub open spec fn env_slot_ok(&self, arena: &StringArena, i: int) -> bool {
        &&& arena.valid_ptr(self.stack@[self.env_start() + i])
        &&& is_cstr(arena.str_at(self.stack@[self.env_start() + i]))
    }

    /// The view is faithful to the word image and the arena.
    pub open spec fn wf(&self, arena: &StringArena) -> bool {
        &&& self.stack@.len() == 3 + self.argc + self.envc + 2 * self.auxv.auxvc + 2
        &&& self.stack@[0] == self.argc
        &&& self.stack@[1 + self.argc] == 0
        &&& self.stack@[2 + self.argc + self.envc] == 0
        &&& forall|i: int| 0 <= i < self.envc ==> #[trigger] self.env_slot_ok(arena, i)
        &&& self.auxv.start == 3 + self.argc + self.envc
        &&& self.auxv.wf(self.stack@)
        &&& self.base % 16 == 0
        &&& self.base >= 64
        &&& self.base + 8 * self.stack@.len() <= usize::MAX
        &&& match self.extra_env {
            Some(p) => arena.valid_ptr(p) && is_cstr(arena.str_at(p)),
            None => true,
        }
    }

    /// Builds the logical view of the stack image that starts at byte
    /// address `base`, counting the environment slots and parsing the aux
    /// vector.  Fails exactly when the image does not have the expected
    /// layout.
    pub fn new(stack: Vec<usize>, base: usize, arena: &StringArena) -> (r: Result<Args, Fatal>)
        requires
            base % 16 == 0,
            base >= 64,
            base + 8 * stack@.len() <= usize::MAX,
        ensures
            r is Ok <==> spec_image_ok(stack@, arena),
            match r {
                Ok(a) => a.wf(arena) && a.stack@ == stack@ && a.base == base && a.argc == stack@[0]
                    && a.env_iterated == false && a.extra_env is None && Some(a.envc as int)
                    == spec_env_count(stack@, 2 + stack@[0]),
                Err(_) => true,
            },
    {
        let n = stack.len();
        if n < 2 {
            return Err(Fatal::StackMismatch);
        }
        let argc = stack[0];
        if argc > n - 2 {
            return Err(Fatal::StackMismatch);
        }
        if stack[1 + argc] != 0 {
            return Err(Fatal::StackMismatch);
        }
        // Count the environment slots.
        let envc = match count_env(&stack, 2 + argc) {
            Some(c) => c,
            None => { return Err(Fatal::StackMismatch) },
        };
        proof {
            lemma_env_count_facts(stack@, 2 + argc, envc as int);
        }
        // Check that each slot points at a well-formed C string.
        let mut i: usize = 0;
        while i < envc
            invariant
                n == stack@.len(),
                2 + argc + envc < n,
                i <= envc,
                spec_env_count(stack@, 2 + argc) == Some(envc as int),
                argc == stack@[0],
                forall|j: int|
                    0 <= j < i ==> arena.valid_ptr(#[trigger] stack@[2 + argc + j]) && is_cstr(
                        arena.str_at(stack@[2 + argc + j]),
                    ),
            decreases envc - i,
        {
            let p = stack[2 + argc + i];
            if !arena.check_ptr(p) || !crate::cstr::check_cstr(arena.get(p)) {
                proof {
                    if spec_image_ok(stack@, arena) {
                        assert(arena.valid_ptr(stack@[2 + stack@[0] + i]) && is_cstr(
                            arena.str_at(stack@[2 + stack@[0] + i]),
                        ));
                    }
                }
                return Err(Fatal::BadEnvString);
            }
            i = i + 1;
        }
        // Parse the aux vector, which begins after the NULL that ends the
        // environment.
        let aux_res = AuxVec::from_raw(&stack, 3 + argc + envc);
        let auxv = match aux_res {
            Ok(av) => av,
            Err(f) => { return Err(f) },
        };
        // The span must end exactly at the aux terminator.
        proof {
            crate::auxv::lemma_aux_count_facts(stack@, auxv.start as int, auxv.auxvc as int);
        }
        let expected = auxv.start + 2 * auxv.auxvc + 2;
        if n != expected {
            return Err(Fatal::StackMismatch);
        }
        let a = Args {
            env_iterated: false,
            base,
            stack,
            argc,
            envc,
            auxv,
            extra_env: None,
        };
        Ok(a)
    }

    /// The parsed aux vector.
    pub fn auxv(&self) -> (r: &AuxVec)
        ensures
            r == self.auxv,
    {
        &self.auxv
    }

    pub fn argc(&self) -> (r: usize)
        ensures
            r == self.argc,
    {
        self.argc
    }

    /// Overwrites the value word of the aux pair under cursor `e`, leaving
    /// every other word, and the view's well-formedness, intact.
    pub fn set_auxv_value(&mut self, arena: &StringArena, e: Entry, v: usize)
        requires
            old(self).wf(arena),
            old(self).auxv.start <= e.pos < old(self).auxv.start + 2 * old(self).auxv.auxvc,
            (e.pos - old(self).auxv.start) % 2 == 0,
        ensures
            final(self).wf(arena),
            final(self).stack@ == old(self).stack@.update(e.pos + 1, v),
            final(self).argc == old(self).argc,
            final(self).envc == old(self).envc,
            final(self).auxv == old(self).auxv,
            final(self).base == old(self).base,
            final(self).extra_env == old(self).extra_env,
            final(self).env_iterated == old(self).env_iterated,
    {
        proof {
            crate::auxv::lemma_aux_count_facts(
                self.stack@,
                self.auxv.start as int,
                self.auxv.auxvc as int,
            );
        }
        e.set(&mut self.stack, v);
        proof {
            let old_stack = old(self).stack@;
            let idx = e.pos + 1;
            crate::auxv::lemma_aux_count_update(
                old_stack,
                self.auxv.start as int,
                idx as int,
                v,
            );
            assert forall|i: int| 0 <= i < self.envc implies #[trigger] self.env_slot_ok(
                arena,
                i,
            ) by {
                assert(old(self).env_slot_ok(arena, i));
                assert(self.stack@[self.env_start() + i] == old_stack[self.env_start() + i]);
            }
        }
    }
}

/// Bytes a variable name may hold: anything but NUL and `=`.
pub open spec fn valid_env_name(s: Seq<u8>) -> bool {
    forall|i: int| 0 <= i < s.len() ==> s[i] != 0 && s[i] != ('=' as u8)
}

/// Bytes a variable value may hold: anything but NUL.
pub open spec fn valid_env_value(s: Seq<u8>) -> bool {
    forall|i: int| 0 <= i < s.len() ==> s[i] != 0
}

/// Builds `name=value_c` (the value part brings its own terminator).
fn build_env_string(name: &Vec<u8>, value_c: &Vec<u8>) -> (r: Vec<u8>)
    ensures
        r@ == name@ + seq![('=' as u8)] + value_c@,
{
    let mut b: Vec<u8> = Vec::new();
    append_bytes(&mut b, name);
    b.push('=' as u8);
    append_bytes(&mut b, value_c);
    assert(b@ =~= name@ + seq![('=' as u8)] + value_c@);
    b
}

/// `name=value\0` is a well-formed C string whenever the name and the
/// value hold no forbidden bytes.
pub proof fn lemma_env_string_cstr(name: Seq<u8>, value_c: Seq<u8>)
    requires
        valid_env_name(name),
        value_c.len() >= 1,
        value_c[value_c.len() - 1] == 0,
        valid_env_value(value_c.drop_last()),
    ensures
        is_cstr(name + seq![('=' as u8)] + value_c),
{
    let s = name + seq![('=' as u8)] + value_c;
    assert(s[s.len() - 1] == value_c[value_c.len() - 1]);
    assert forall|i: int| 0 <= i < s.len() - 1 implies s[i] != 0 by {
        if i < name.len() {
            assert(s[i] == name[i]);
        } else if i == name.len() {
            assert(s[i] == ('=' as u8));
        } else {
            assert(s[i] == value_c[i - name.len() - 1]);
            assert(value_c.drop_last()[i - name.len() - 1] == value_c[i - name.len() - 1]);
        }
    }
}

/// A record of a single environment-slot rewrite: which slot was changed,
/// and the string pointer it held before.  `entry` is `None` for the
/// sentinel edit that records no swap.
#[derive(Debug, PartialEq, Eq, Structural, Clone, Copy)]
pub struct EnvEdit {
    pub entry: Option<usize>,
    pub old_string: usize,
}

/// A handle to manipulate one environment variable: the slot it sits in,
/// and the parsed name and value (the value keeps its trailing NUL).
///
/// Any method that mutates the slot consumes the handle, so at most one
/// live handle can refer to a slot that is being edited.
#[derive(Debug)]
pub struct VarHandle {
    pub slot: usize,
    pub name: Vec<u8>,
    pub value_c: Vec<u8>,
}

impl VarHandle {
    /// The handle agrees with the slot it points at.
    pub open spec fn wf(&self, args: &Args, arena: &StringArena) -> bool {
        &&& args.env_start() <= self.slot < args.env_start() + args.envc
        &&& arena.valid_ptr(args.stack@[self.slot as int])
        &&& arena.str_at(args.stack@[self.slot as int]) == self.name@ + seq![('=' as u8)]
            + self.value_c@
        &&& valid_env_name(self.name@)
        &&& self.value_c@.len() >= 1
        &&& self.value_c@[self.value_c@.len() - 1] == 0
        &&& valid_env_value(self.value_c@.drop_last())
    }

    /// Returns the name as bytes.
    pub fn name(&self) -> (r: &Vec<u8>)
        ensures
            r@ == self.name@,
    {
        &self.name
    }

    /// Returns the value as bytes, without the trailing NUL.
    pub fn value(&self) -> (r: Vec<u8>)
        requires
            self.value_c@.len() >= 1,
        ensures
            r@ == self.value_c@.drop_last(),
    {
        let n = self.value_c.len();
        let r = subvec(&self.value_c, 0, n - 1);
        assert(r@ =~= self.value_c@.drop_last());
        r
    }

    /// Returns the value as a NUL-terminated byte string.
    pub fn value_cstr(&self) -> (r: &Vec<u8>)
        ensures
            r@ == self.value_c@,
    {
        &self.value_c
    }

    /// Edits the value, optionally renaming the variable at the same time.
    ///
    /// A fresh string `name=value\0` is allocated and the slot is swapped
    /// to point at it; the returned record names the slot and the pointer
    /// it held before, so the trampoline can undo the swap.
    pub fn edit(
        self,
        args: &mut Args,
        arena: &mut StringArena,
        name: Option<&Vec<u8>>,
        new_value: &Vec<u8>,
    ) -> (r: EnvEdit)
        requires
            old(args).wf(old(arena)),
            self.wf(old(args), old(arena)),
            (match name {
                Some(nm) => valid_env_name(nm@),
                None => true,
            }),
            valid_env_value(new_value@),
            old(arena).bufs@.len() < usize::MAX,
        ensures
            final(args).wf(final(arena)),
            final(arena).extends(old(arena)),
            final(arena).bufs@.len() == old(arena).bufs@.len() + 1,
            final(args).argc == old(args).argc,
            final(args).envc == old(args).envc,
            final(args).base == old(args).base,
            final(args).auxv == old(args).auxv,
            final(args).env_iterated == old(args).env_iterated,
            final(args).extra_env == old(args).extra_env,
            ({
                let newp = (old(arena).bufs@.len() + 1) as usize;
                let chosen = match name {
                    Some(nm) => nm@,
                    None => self.name@,
                };
                &&& final(args).stack@ == old(args).stack@.update(self.slot as int, newp)
                &&& final(arena).str_at(newp) == chosen + seq![('=' as u8)] + new_value@ + seq![
                    0u8,
                ]
                &&& r.entry == Some(self.slot)
                &&& r.old_string == old(args).stack@[self.slot as int]
            }),
    {
        let chosen: &Vec<u8> = match name {
            Some(nm) => nm,
            None => &self.name,
        };
        let mut value_term: Vec<u8> = Vec::new();
        append_bytes(&mut value_term, new_value);
        value_term.push(0u8);
        let buf = build_env_string(chosen, &value_term);
        let newp = arena.new_slice_leak(buf);
        let oldp = args.stack[self.slot];
        args.stack.set(self.slot, newp);
        proof {
            let chosen_s = match name {
                Some(nm) => nm@,
                None => self.name@,
            };
            assert(value_term@ =~= new_value@ + seq![0u8]);
            assert(arena.str_at(newp) =~= chosen_s + seq![('=' as u8)] + new_value@ + seq![0u8]);
            lemma_env_string_cstr(chosen_s, new_value@ + seq![0u8]);
            assert((new_value@ + seq![0u8]).drop_last() =~= new_value@);
            lemma_wf_after_slot_update(old(args), args, old(arena), arena, self.slot, newp);
        }
        EnvEdit { entry: Some(self.slot), old_string: oldp }
    }

    /// Renames the variable without changing its value.
    ///
    /// A name no longer than the old one is rewritten into the existing
    /// buffer, so the slot keeps its pointer; a longer name swaps the slot
    /// to a freshly allocated string, and the returned record says so.
    pub fn rename(self, args: &mut Args, arena: &mut StringArena, new_name: &Vec<u8>) -> (r:
        EnvEdit)
        requires
            old(args).wf(old(arena)),
            self.wf(old(args), old(arena)),
            valid_env_name(new_name@),
            old(arena).bufs@.len() < usize::MAX,
        ensures
            final(args).wf(final(arena)),
            final(args).argc == old(args).argc,
            final(args).envc == old(args).envc,
            final(args).base == old(args).base,
            final(args).auxv == old(args).auxv,
            final(args).env_iterated == old(args).env_iterated,
            final(args).extra_env == old(args).extra_env,
            final(arena).str_at(final(args).stack@[self.slot as int]) == new_name@
                + seq![('=' as u8)] + self.value_c@,
            new_name@.len() <= self.name@.len() ==> ({
                &&& final(args).stack@ == old(args).stack@
                &&& r.entry is None
                &&& r.old_string == 0
                &&& final(arena).bufs@.len() == old(arena).bufs@.len()
                &&& forall|q: usize|
                    old(arena).valid_ptr(q) && q != old(args).stack@[self.slot as int]
                        ==> #[trigger] final(arena).str_at(q) == old(arena).str_at(q)
                        && final(arena).valid_ptr(q)
            }),
            new_name@.len() > self.name@.len() ==> ({
                &&& final(arena).extends(old(arena))
                &&& final(arena).bufs@.len() == old(arena).bufs@.len() + 1
                &&& final(args).stack@ == old(args).stack@.update(
                    self.slot as int,
                    (old(arena).bufs@.len() + 1) as usize,
                )
                &&& r.entry == Some(self.slot)
                &&& r.old_string == old(args).stack@[self.slot as int]
            }),
    {
        if new_name.len() <= self.name.len() {
            let buf = build_env_string(new_name, &self.value_c);
            let p = args.stack[self.slot];
            arena.set_str(p, buf);
            proof {
                lemma_env_string_cstr(new_name@, self.value_c@);
                lemma_wf_after_inplace(old(args), args, old(arena), arena, self.slot);
            }
            EnvEdit { entry: None, old_string: 0 }
        } else {
            let value = self.value();
            let ghost value_c = self.value_c@;
            let r = self.edit(args, arena, Some(new_name), &value);
            proof {
                assert(value_c.drop_last() + seq![0u8] =~= value_c);
                assert(new_name@ + seq![('=' as u8)] + value_c.drop_last() + seq![0u8]
                    =~= new_name@ + seq![('=' as u8)] + value_c);
            }
            r
        }
    }
}

/// A walk over the environment slots, yielding a handle for each.
pub struct EnvIter {
    pub index: usize,
    pub ended: bool,
}

impl Args {
    /// Starts the one permitted walk over the environment.  A second call
    /// returns nothing, which keeps the handles unique per slot.
    pub fn iter_env(&mut self) -> (r: Option<EnvIter>)
        ensures
            final(self).env_iterated == true,
            final(self).stack == old(self).stack,
            final(self).base == old(self).base,
            final(self).argc == old(self).argc,
            final(self).envc == old(self).envc,
            final(self).auxv == old(self).auxv,
            final(self).extra_env == old(self).extra_env,
            old(self).env_iterated ==> r is None,
            !old(self).env_iterated ==> (r matches Some(it) && it.index == 0 && it.ended
                == false),
    {
        if self.env_iterated {
            return None;
        }
        self.env_iterated = true;
        Some(EnvIter { index: 0, ended: false })
    }

    /// Records an extra environment string, `name=value\0`, to be spliced
    /// into the environment at handoff time.  At most one extra is kept;
    /// a second request is refused.
    pub fn add_env(&mut self, arena: &mut StringArena, name: &Vec<u8>, value: &Vec<u8>) -> (r:
        Result<(), Fatal>)
        requires
            old(self).wf(old(arena)),
            valid_env_name(name@),
            valid_env_value(value@),
            old(arena).bufs@.len() < usize::MAX,
        ensures
            final(self).wf(final(arena)),
            final(self).stack == old(self).stack,
            final(self).base == old(self).base,
            final(self).argc == old(self).argc,
            final(self).envc == old(self).envc,
            final(self).auxv == old(self).auxv,
            final(self).env_iterated == old(self).env_iterated,
            final(arena).extends(old(arena)),
            old(self).extra_env is Some ==> (r == Result::<(), Fatal>::Err(Fatal::ExtraEnvTaken)
                && final(self).extra_env == old(self).extra_env && *final(arena) == *old(arena)),
            old(self).extra_env is None ==> ({
                let newp = (old(arena).bufs@.len() + 1) as usize;
                &&& r is Ok
                &&& final(arena).bufs@.len() == old(arena).bufs@.len() + 1
                &&& final(self).extra_env == Some(newp)
                &&& final(arena).str_at(newp) == name@ + seq![('=' as u8)] + value@ + seq![0u8]
            }),
    {
        if self.extra_env.is_some() {
            return Err(Fatal::ExtraEnvTaken);
        }
        let mut value_term: Vec<u8> = Vec::new();
        append_bytes(&mut value_term, value);
        value_term.push(0u8);
        let buf = build_env_string(name, &value_term);
        let newp = arena.new_slice_leak(buf);
        self.extra_env = Some(newp);
        proof {
            assert(value_term@ =~= value@ + seq![0u8]);
            assert(arena.str_at(newp) =~= name@ + seq![('=' as u8)] + value@ + seq![0u8]);
            lemma_env_string_cstr(name@, value@ + seq![0u8]);
            assert((value@ + seq![0u8]).drop_last() =~= value@);
            assert forall|i: int| 0 <= i < self.envc implies #[trigger] self.env_slot_ok(
                arena,
                i,
            ) by {
                assert(old(self).env_slot_ok(old(arena), i));
            }
        }
        Ok(())
    }
}

impl EnvIter {
    /// Yields a handle to the next environment slot: its parsed name, and
    /// its value with the trailing NUL.  The walk ends at the NULL slot,
    /// or early at a string with no `=` in it.
    pub fn next(&mut self, args: &Args, arena: &StringArena) -> (r: Option<VarHandle>)
        requires
            args.wf(arena),
            old(self).index <= args.envc,
        ensures
            final(self).index <= args.envc,
            old(self).ended ==> (r is None && *final(self) == *old(self)),
            (!old(self).ended && old(self).index >= args.envc) ==> (r is None
                && final(self).ended == true && final(self).index == old(self).index),
            (!old(self).ended && old(self).index < args.envc) ==> ({
                let s = arena.str_at(args.stack@[args.env_start() + old(self).index]);
                match spec_parse_env(s) {
                    Some(nv) => r matches Some(h) && h.slot == (args.env_start()
                        + old(self).index) as usize && h.name@ == nv.0 && h.value_c@ == nv.1
                        && h.wf(args, arena)
                        && final(self).index == old(self).index + 1 && final(self).ended == false,
                    None => r is None && final(self).ended == true && final(self).index == old(
                        self,
                    ).index,
                }
            }),
    {
        if self.ended {
            return None;
        }
        if self.index >= args.envc {
            self.ended = true;
            return None;
        }
        proof {
            assert(args.env_slot_ok(arena, self.index as int));
        }
        let n = args.stack.len();
        let slot = 2 + args.argc + self.index;
        let p = args.stack[slot];
        let s = arena.get(p);
        match parse_env(s) {
            Some((name, value_c)) => {
                proof {
                    lemma_parse_env_wf(s@, name@, value_c@);
                }
                self.index = self.index + 1;
                Some(VarHandle { slot, name, value_c })
            },
            None => {
                self.ended = true;
                None
            },
        }
    }
}

/// A parsed well-formed environment string yields a well-formed handle:
/// the name holds no `=` or NUL, and the value is NUL-terminated with no
/// interior NUL.
proof fn lemma_parse_env_wf(s: Seq<u8>, name: Seq<u8>, value_c: Seq<u8>)
    requires
        is_cstr(s),
        spec_parse_env(s) == Some((name, value_c)),
    ensures
        s == name + seq![('=' as u8)] + value_c,
        valid_env_name(name),
        value_c.len() >= 1,
        value_c[value_c.len() - 1] == 0,
        valid_env_value(value_c.drop_last()),
{
    crate::cstr::lemma_find_byte_props(s, '=' as u8);
    let i = spec_find_byte(s, '=' as u8)->Some_0;
    assert(s[s.len() - 1] == 0);
    assert(i < s.len() - 1);
    assert(s =~= name + seq![('=' as u8)] + value_c);
    assert forall|j: int| 0 <= j < name.len() implies name[j] != 0 && name[j] != ('=' as u8) by {
        assert(name[j] == s[j]);
    }
    assert(value_c[value_c.len() - 1] == s[s.len() - 1]);
    assert forall|j: int| 0 <= j < value_c.len() - 1 implies value_c.drop_last()[j] != 0 by {
        assert(value_c[j] == s[i + 1 + j]);
    }
}

/// The context to start the real loader with: the published stack pointer,
/// the word image it points at, and where `argv`, `envp` and the spliced
/// extra slot sit inside that image.
pub struct StartContext {
    /// The byte address of the published stack top (word 0 of `words`).
    pub sp: usize,
    /// The word index of `argv[0]`.
    pub argv: usize,
    /// The word index of `envp[0]`.
    pub envp: usize,
    /// The word index of the spliced extra environment slot, if any.
    pub extra_env: Option<usize>,
    /// The published stack image.
    pub words: Vec<usize>,
}

/// Rebuilds the `argc`/`argv`/`envp`/aux block at a lower, aligned spot of
/// the stack, leaving room for one spliced word.  `arg_slice` is the
/// destination region as words; `orig_idx` is where the old block begins
/// inside it, and `idx` is the write position.
pub struct StackShifter {
    pub arg_slice: Vec<usize>,
    pub orig_idx: usize,
    pub idx: usize,
    pub idx_argv: Option<usize>,
    pub idx_envp: Option<usize>,
    pub idx_extra_env: Option<usize>,
}

impl StackShifter {
    pub fn new(arg_slice: Vec<usize>, orig_idx: usize) -> (r: Self)
        ensures
            r.arg_slice == arg_slice,
            r.orig_idx == orig_idx,
            r.idx == 0,
            r.idx_argv is None,
            r.idx_envp is None,
            r.idx_extra_env is None,
    {
        Self {
            arg_slice,
            orig_idx,
            idx: 0,
            idx_argv: None,
            idx_envp: None,
            idx_extra_env: None,
        }
    }

    /// Copies the next `count` words of the old block down to the write
    /// position.  The copy runs from low to high, so it is safe for the
    /// overlapping ranges involved here (the destination never lies above
    /// the source).
    pub fn copy(&mut self, count: usize)
        requires
            old(self).idx <= old(self).orig_idx,
            old(self).orig_idx + count <= old(self).arg_slice@.len(),
        ensures
            final(self).orig_idx == old(self).orig_idx + count,
            final(self).idx == old(self).idx + count,
            final(self).idx_argv == old(self).idx_argv,
            final(self).idx_envp == old(self).idx_envp,
            final(self).idx_extra_env == old(self).idx_extra_env,
            final(self).arg_slice@.len() == old(self).arg_slice@.len(),
            forall|k: int|
                old(self).idx <= k < old(self).idx + count ==> final(self).arg_slice@[k] == old(
                    self,
                ).arg_slice@[old(self).orig_idx + (k - old(self).idx)],
            forall|k: int|
                0 <= k < old(self).arg_slice@.len() && !(old(self).idx <= k < old(self).idx
                    + count) ==> final(self).arg_slice@[k] == old(self).arg_slice@[k],
    {
        let n = self.arg_slice.len();
        let dst0 = self.idx;
        let src0 = self.orig_idx;
        let mut i: usize = 0;
        while i < count
            invariant
                i <= count,
                dst0 == old(self).idx,
                src0 == old(self).orig_idx,
                self.idx == dst0,
                self.orig_idx == src0,
                self.idx_argv == old(self).idx_argv,
                self.idx_envp == old(self).idx_envp,
                self.idx_extra_env == old(self).idx_extra_env,
                dst0 <= src0,
                src0 + count <= n,
                n == self.arg_slice@.len(),
                n == old(self).arg_slice@.len(),
                forall|k: int|
                    dst0 <= k < dst0 + i ==> self.arg_slice@[k] == old(self).arg_slice@[src0 + (k
                        - dst0)],
                forall|k: int|
                    0 <= k < n && !(dst0 <= k < dst0 + i) ==> self.arg_slice@[k] == old(
                        self,
                    ).arg_slice@[k],
            decreases count - i,
        {
            let v = self.arg_slice[src0 + i];
            self.arg_slice.set(dst0 + i, v);
            i = i + 1;
        }
        self.orig_idx = self.orig_idx + count;
        self.idx = self.idx + count;
    }

    pub fn mark_argv(&mut self)
        ensures
            *final(self) == (StackShifter { idx_argv: Some(old(self).idx), ..*old(self) }),
    {
        self.idx_argv = Some(self.idx);
    }

    pub fn mark_envp(&mut self)
        ensures
            *final(self) == (StackShifter { idx_envp: Some(old(self).idx), ..*old(self) }),
    {
        self.idx_envp = Some(self.idx);
    }

    pub fn mark_extra_env(&mut self)
        ensures
            *final(self) == (StackShifter { idx_extra_env: Some(old(self).idx), ..*old(self) }),
    {
        self.idx_extra_env = Some(self.idx);
    }

    /// Writes one word at the write position without consuming the old
    /// block.
    pub fn push(&mut self, value: usize)
        requires
            old(self).idx < old(self).arg_slice@.len(),
        ensures
            final(self).arg_slice@ == old(self).arg_slice@.update(old(self).idx as int, value),
            final(self).idx == old(self).idx + 1,
            final(self).orig_idx == old(self).orig_idx,
            final(self).idx_argv == old(self).idx_argv,
            final(self).idx_envp == old(self).idx_envp,
            final(self).idx_extra_env == old(self).idx_extra_env,
    {
        let n = self.arg_slice.len();
        self.arg_slice.set(self.idx, value);
        self.idx = self.idx + 1;
    }

    /// Packs the rebuilt block into a start context; `sp` is the byte
    /// address its first word will have.
    pub fn finalize(self, sp: usize) -> (r: StartContext)
        requires
            self.idx_argv is Some,
            self.idx_envp is Some,
        ensures
            r.sp == sp,
            Some(r.argv) == self.idx_argv,
            Some(r.envp) == self.idx_envp,
            r.extra_env == self.idx_extra_env,
            r.words == self.arg_slice,
    {
        let idx_argv = match self.idx_argv {
            Some(i) => i,
            None => 0,
        };
        let idx_envp = match self.idx_envp {
            Some(i) => i,
            None => 0,
        };
        StartContext {
            sp,
            argv: idx_argv,
            envp: idx_envp,
            extra_env: self.idx_extra_env,
            words: self.arg_slice,
        }
    }
}

/// Copies a word image.
fn clone_words(v: &Vec<usize>) -> (r: Vec<usize>)
    ensures
        r@ == v@,
{
    let mut r: Vec<usize> = Vec::new();
    let mut i: usize = 0;
    while i < v.len()
        invariant
            i <= v.len(),
            r@ =~= v@.subrange(0, i as int),
        decreases v.len() - i,
    {
        r.push(v[i]);
        i = i + 1;
    }
    assert(r@ =~= v@);
    r
}

/// What the published stack of a handoff looks like, relative to the
/// view it was built from: `argv` and `envp` at their usual spots, a
/// 16-byte-aligned stack pointer, every original word carried over, and,
/// when an extra environment entry was recorded, that entry spliced in
/// just before the NULL that ends the environment.
pub open spec fn start_context_ok(a: &Args, r: &StartContext) -> bool {
    let argc = a.argc as int;
    let envc = a.envc as int;
    let auxvc = a.auxv.auxvc as int;
    let aux_old = 3 + argc + envc;
    &&& r.argv == 1
    &&& r.envp == 2 + argc
    &&& r.sp % 16 == 0
    &&& r.sp <= a.base
    &&& r.words@.len() >= a.stack@.len()
    &&& r.words@[0] == a.argc
    &&& (forall|i: int| 0 <= i < argc + 1 ==> #[trigger] r.words@[1 + i] == a.stack@[1 + i])
    &&& (forall|i: int|
        0 <= i < envc ==> #[trigger] r.words@[2 + argc + i] == a.stack@[2 + argc + i])
    &&& (match a.extra_env {
        Some(p) => {
            &&& r.words@.len() == a.stack@.len() + 1 + (a.base - 8 - r.sp) / 8
            &&& r.extra_env == Some((2 + argc + envc) as usize)
            &&& r.words@[2 + argc + envc] == p
            &&& r.words@[3 + argc + envc] == 0
            &&& (forall|k: int|
                0 <= k < 2 * auxvc + 2 ==> #[trigger] r.words@[aux_old + 1 + k] == a.stack@[aux_old
                    + k])
            &&& r.sp == (((a.base - 8) as usize) & !((STACK_ALIGNMENT - 1) as usize))
        },
        None => {
            &&& r.extra_env is None
            &&& r.words@ == a.stack@
            &&& r.sp == a.base
        },
    })
}

impl Args {
    /// Performs the stack work of the handoff to the real loader.  The
    /// span checks the running loader makes here are already guaranteed
    /// by a well-formed view, which `Args::new` only builds from an
    /// image whose span matches.
    ///
    /// With no extra environment entry, the published stack is the
    /// original one and the stack pointer is the address of `argc`.  With
    /// one, the whole block is rebuilt one word lower, aligned down to
    /// the stack alignment, with the extra pointer spliced in just before
    /// the NULL that ends the environment; padding, if any, is left at
    /// the high end, so the published stack pointer points at aligned
    /// storage.
    pub fn handoff(&self, arena: &StringArena) -> (r: StartContext)
        requires
            self.wf(arena),
        ensures
            start_context_ok(self, &r),
    {
        let argc = self.argc;
        let envc = self.envc;
        let auxvc = self.auxv.auxvc;
        let n = self.stack.len();
        match self.extra_env {
            None => {
                // No need to mess with the stack.
                StartContext {
                    sp: self.base,
                    argv: 1,
                    envp: 2 + argc,
                    extra_env: None,
                    words: clone_words(&self.stack),
                }
            },
            Some(extra) => {
                // Wiggle the stack to make room for the new environment
                // entry, one word lower and aligned down.
                let unpad = self.base - 8;
                let new_start = unpad & !(STACK_ALIGNMENT - 1);
                assert((unpad & !31usize) % 16 == 0 && (unpad & !31usize) <= unpad && unpad - (
                unpad & !31usize) < 32 && (unpad - (unpad & !31usize)) % 8 == 0)
                    by (bit_vector)
                    requires
                        unpad % 8 == 0,
                ;
                proof {
                    assert(STACK_ALIGNMENT - 1 == 31usize);
                }
                let padding_bytes = unpad - new_start;
                let padding_len = padding_bytes / 8;
                assert(padding_len <= 3);
                // The destination region: room for the spliced word and
                // the padding, then the old block.
                let mut region: Vec<usize> = Vec::new();
                let mut z: usize = 0;
                while z < 1 + padding_len
                    invariant
                        padding_len <= 3,
                        z <= 1 + padding_len,
                        region@.len() == z,
                    decreases 1 + padding_len - z,
                {
                    region.push(0);
                    z = z + 1;
                }
                let mut t: usize = 0;
                while t < n
                    invariant
                        t <= n,
                        n == self.stack@.len(),
                        region@.len() == 1 + padding_len + t,
                        forall|j: int|
                            0 <= j < t ==> #[trigger] region@[1 + padding_len + j]
                                == self.stack@[j],
                    decreases n - t,
                {
                    region.push(self.stack[t]);
                    t = t + 1;
                }
                let orig0: usize = 1 + padding_len;
                let ghost stack0 = self.stack@;
                let ghost o0 = orig0 as int;
                let mut shifter = StackShifter::new(region, orig0);
                let ghost w0 = shifter.arg_slice@;
                proof {
                    assert forall|k: int| o0 <= k < o0 + n implies #[trigger] w0[k] == stack0[k
                        - o0] by {
                        assert(w0[1 + padding_len + (k - o0)] == stack0[k - o0]);
                    }
                }
                shifter.copy(1);  // argc
                let ghost w1 = shifter.arg_slice@;
                shifter.mark_argv();
                shifter.copy(argc + 1);  // argv and its NULL
                let ghost w2 = shifter.arg_slice@;
                shifter.mark_envp();
                shifter.copy(envc);  // envp
                let ghost w3 = shifter.arg_slice@;
                shifter.mark_extra_env();
                shifter.push(extra);
                let ghost w4 = shifter.arg_slice@;
                shifter.copy(1 + 2 * auxvc + 2);  // NULL, aux pairs, terminator
                let ghost w5 = shifter.arg_slice@;
                proof {
                    let argc = argc as int;
                    let envc = envc as int;
                    let auxvc = auxvc as int;
                    assert(w5[0] == stack0[0]);
                    assert forall|i: int| 0 <= i < argc + 1 implies #[trigger] w5[1 + i]
                        == stack0[1 + i] by {
                        assert(w2[1 + i] == w1[o0 + 1 + i]);
                        assert(w1[o0 + 1 + i] == w0[o0 + 1 + i]);
                        assert(w0[o0 + 1 + i] == stack0[(o0 + 1 + i) - o0]);
                        assert(w3[1 + i] == w2[1 + i]);
                        assert(w4[1 + i] == w3[1 + i]);
                        assert(w5[1 + i] == w4[1 + i]);
                    }
                    assert forall|i: int| 0 <= i < envc implies #[trigger] w5[2 + argc + i]
                        == stack0[2 + argc + i] by {
                        assert(w3[2 + argc + i] == w2[o0 + 2 + argc + i]);
                        assert(w2[o0 + 2 + argc + i] == w1[o0 + 2 + argc + i]);
                        assert(w1[o0 + 2 + argc + i] == w0[o0 + 2 + argc + i]);
                        assert(w0[o0 + 2 + argc + i] == stack0[(o0 + 2 + argc + i) - o0]);
                        assert(w4[2 + argc + i] == w3[2 + argc + i]);
                        assert(w5[2 + argc + i] == w4[2 + argc + i]);
                    }
                    assert(w5[2 + argc + envc] == w4[2 + argc + envc]);
                    assert(w4[2 + argc + envc] == extra);
                    assert forall|k: int| 0 <= k < 1 + 2 * auxvc + 2 implies #[trigger] w5[3 + argc
                        + envc + k] == stack0[2 + argc + envc + k] by {
                        assert(w5[3 + argc + envc + k] == w4[o0 + 2 + argc + envc + k]);
                        assert(w4[o0 + 2 + argc + envc + k] == w3[o0 + 2 + argc + envc + k]);
                        assert(w3[o0 + 2 + argc + envc + k] == w2[o0 + 2 + argc + envc + k]);
                        assert(w2[o0 + 2 + argc + envc + k] == w1[o0 + 2 + argc + envc + k]);
                        assert(w1[o0 + 2 + argc + envc + k] == w0[o0 + 2 + argc + envc + k]);
                        assert(w0[o0 + 2 + argc + envc + k] == stack0[(o0 + 2 + argc + envc + k)
                            - o0]);
                    }
                }
                shifter.finalize(new_start)
            },
        }
    }
}

/// A view with the same stack, counts and arena pointers is well-formed
/// whenever the original is: the iteration flag plays no part.
pub proof fn lemma_wf_same_parts(a0: &Args, a1: &Args, arena: &StringArena)
    requires
        a0.wf(arena),
        a1.stack == a0.stack,
        a1.argc == a0.argc,
        a1.envc == a0.envc,
        a1.auxv == a0.auxv,
        a1.base == a0.base,
        a1.extra_env == a0.extra_env,
    ensures
        a1.wf(arena),
{
    assert forall|i: int| 0 <= i < a1.envc implies #[trigger] a1.env_slot_ok(arena, i) by {
        assert(a0.env_slot_ok(arena, i));
    }
}

/// A well-formed view stays well-formed when the arena only grows.
pub proof fn lemma_wf_arena_extends(a: &Args, ar0: &StringArena, ar1: &StringArena)
    requires
        a.wf(ar0),
        ar1.extends(ar0),
    ensures
        a.wf(ar1),
{
    assert forall|i: int| 0 <= i < a.envc implies #[trigger] a.env_slot_ok(ar1, i) by {
        assert(a.env_slot_ok(ar0, i));
    }
}

/// After swapping one environment slot to a fresh, well-formed string,
/// the view is still well-formed.
proof fn lemma_wf_after_slot_update(
    a0: &Args,
    a1: &Args,
    ar0: &StringArena,
    ar1: &StringArena,
    slot: usize,
    newp: usize,
)
    requires
        a0.wf(ar0),
        ar1.extends(ar0),
        a0.env_start() <= slot < a0.env_start() + a0.envc,
        ar1.valid_ptr(newp),
        is_cstr(ar1.str_at(newp)),
        a1.stack@ == a0.stack@.update(slot as int, newp),
        a1.argc == a0.argc,
        a1.envc == a0.envc,
        a1.base == a0.base,
        a1.auxv == a0.auxv,
        a1.extra_env == a0.extra_env,
    ensures
        a1.wf(ar1),
{
    crate::auxv::lemma_aux_count_update(a0.stack@, a0.auxv.start as int, slot as int, newp);
    assert forall|i: int| 0 <= i < a1.envc implies #[trigger] a1.env_slot_ok(ar1, i) by {
        assert(a0.env_slot_ok(ar0, i));
        if a1.env_start() + i != slot {
            assert(a1.stack@[a1.env_start() + i] == a0.stack@[a0.env_start() + i]);
        }
    }
}

/// After rewriting one string of the arena in place with another
/// well-formed C string, the view is still well-formed.
proof fn lemma_wf_after_inplace(
    a0: &Args,
    a1: &Args,
    ar0: &StringArena,
    ar1: &StringArena,
    slot: usize,
)
    requires
        a0.wf(ar0),
        a0.env_start() <= slot < a0.env_start() + a0.envc,
        a1 == a0,
        ar1.bufs@.len() == ar0.bufs@.len(),
        forall|q: usize| ar0.valid_ptr(q) ==> ar1.valid_ptr(q),
        is_cstr(ar1.str_at(a0.stack@[slot as int])),
        forall|q: usize|
            ar0.valid_ptr(q) && q != a0.stack@[slot as int] ==> #[trigger] ar1.str_at(q)
                == ar0.str_at(q),
    ensures
        a1.wf(ar1),
{
    assert forall|i: int| 0 <= i < a1.envc implies #[trigger] a1.env_slot_ok(ar1, i) by {
        assert(a0.env_slot_ok(ar0, i));
        let p = a0.stack@[a0.env_start() + i];
        if p != a0.stack@[slot as int] {
            assert(ar1.str_at(p) == ar0.str_at(p));
        }
    }
    match a0.extra_env {
        Some(p) => {
            if p != a0.stack@[slot as int] {
                assert(ar1.str_at(p) == ar0.str_at(p));
            }
        },
        None => {},
    }
}

} // verus!
