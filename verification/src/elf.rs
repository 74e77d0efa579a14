//! ELF wrangling: header parsing and validation, the program-header
//! table, and the plan for mapping a loader image into the address space.
//!
//! The file's bytes are parsed with explicit little-endian reads; the
//! mapping itself is a sequence of operations (file maps, a zero fill,
//! anonymous maps) computed and checked here and carried out by the
//! runtime around the library.

use vstd::prelude::*;

use crate::arch::EM_SELF;
use crate::cstr::subvec;
use crate::sys::{Error, ENOENT};

verus! {

/// The page size the compatibility helpers below are fixed at.
pub const PAGE_SIZE: usize = 4096;

pub const PT_LOAD: u32 = 1;

pub const PT_DYNAMIC: u32 = 2;

pub const ET_DYN: u16 = 3;

pub const PF_X: u32 = 1;

pub const PF_W: u32 = 2;

pub const PF_R: u32 = 4;

pub const PROT_READ: i32 = 1;

pub const PROT_WRITE: i32 = 2;

pub const PROT_EXEC: i32 = 4;

/// The size of the ELF header on this architecture.
pub const EHDR_SIZE: usize = 64;

/// The native size of one program header record.
pub const PHDR_SIZE: usize = 56;

/// The largest program-header table the loader accepts.
pub const MAX_PHSIZE: usize = 65536;

/// A little-endian 16-bit read.
pub open spec fn spec_le16(s: Seq<u8>, off: int) -> int {
    s[off] + 256 * s[off + 1]
}

/// A little-endian 32-bit read.
pub open spec fn spec_le32(s: Seq<u8>, off: int) -> int {
    spec_le16(s, off) + 65536 * spec_le16(s, off + 2)
}

/// A little-endian 64-bit read.
pub open spec fn spec_le64(s: Seq<u8>, off: int) -> int {
    spec_le32(s, off) + 4294967296 * spec_le32(s, off + 4)
}

pub fn le16(v: &Vec<u8>, off: usize) -> (r: u16)
    requires
        off + 2 <= v@.len(),
    ensures
        r == spec_le16(v@, off as int),
{
    let n = v.len();
    v[off] as u16 + 256 * (v[off + 1] as u16)
}

pub fn le32(v: &Vec<u8>, off: usize) -> (r: u32)
    requires
        off + 4 <= v@.len(),
    ensures
        r == spec_le32(v@, off as int),
{
    let n = v.len();
    le16(v, off) as u32 + 65536 * (le16(v, off + 2) as u32)
}

pub fn le64(v: &Vec<u8>, off: usize) -> (r: u64)
    requires
        off + 8 <= v@.len(),
    ensures
        r == spec_le64(v@, off as int),
{
    let n = v.len();
    le32(v, off) as u64 + 4294967296 * (le32(v, off + 4) as u64)
}

/// The ELF file header, as this loader reads it.
#[derive(Debug)]
pub struct ElfHeader {
    pub e_ident: Vec<u8>,
    pub e_type: u16,
    pub e_machine: u16,
    pub e_version: u32,
    pub e_entry: u64,
    pub e_phoff: u64,
    pub e_shoff: u64,
    pub e_flags: u32,
    pub e_ehsize: u16,
    pub e_phentsize: u16,
    pub e_phnum: u16,
    pub e_shentsize: u16,
    pub e_shnum: u16,
    pub e_shstrndx: u16,
}

/// One program header record.
#[derive(Debug, PartialEq, Eq, Structural, Clone, Copy)]
pub struct ElfProgramHeader {
    pub p_type: u32,
    pub p_flags: u32,
    pub p_offset: u64,
    pub p_vaddr: u64,
    pub p_paddr: u64,
    pub p_filesz: u64,
    pub p_memsz: u64,
    pub p_align: u64,
}

/// Parses the ELF file header from the first `EHDR_SIZE` bytes.
pub fn parse_elf_header(bytes: &Vec<u8>) -> (r: Option<ElfHeader>)
    ensures
        bytes@.len() < EHDR_SIZE ==> r is None,
        bytes@.len() >= EHDR_SIZE ==> (r matches Some(h) && h.e_ident@ == bytes@.subrange(0, 16)
            && h.e_type == spec_le16(bytes@, 16) && h.e_machine == spec_le16(bytes@, 18)
            && h.e_version == spec_le32(bytes@, 20) && h.e_entry == spec_le64(bytes@, 24)
            && h.e_phoff == spec_le64(bytes@, 32) && h.e_shoff == spec_le64(bytes@, 40)
            && h.e_flags == spec_le32(bytes@, 44) && h.e_ehsize == spec_le16(bytes@, 52)
            && h.e_phentsize == spec_le16(bytes@, 54) && h.e_phnum == spec_le16(bytes@, 56)
            && h.e_shentsize == spec_le16(bytes@, 58) && h.e_shnum == spec_le16(bytes@, 60)
            && h.e_shstrndx == spec_le16(bytes@, 62)),
{
    if bytes.len() < EHDR_SIZE {
        return None;
    }
    Some(
        ElfHeader {
            e_ident: subvec(bytes, 0, 16),
            e_type: le16(bytes, 16),
            e_machine: le16(bytes, 18),
            e_version: le32(bytes, 20),
            e_entry: le64(bytes, 24),
            e_phoff: le64(bytes, 32),
            e_shoff: le64(bytes, 40),
            e_flags: le32(bytes, 44),
            e_ehsize: le16(bytes, 52),
            e_phentsize: le16(bytes, 54),
            e_phnum: le16(bytes, 56),
            e_shentsize: le16(bytes, 58),
            e_shnum: le16(bytes, 60),
            e_shstrndx: le16(bytes, 62),
        },
    )
}

/// Parses one program header record at byte offset `off`.
pub fn parse_program_header(bytes: &Vec<u8>, off: usize) -> (r: ElfProgramHeader)
    requires
        off + PHDR_SIZE <= bytes@.len(),
    ensures
        r == spec_program_header(bytes@, off as int),
{
    let n = bytes.len();
    ElfProgramHeader {
        p_type: le32(bytes, off),
        p_flags: le32(bytes, off + 4),
        p_offset: le64(bytes, off + 8),
        p_vaddr: le64(bytes, off + 16),
        p_paddr: le64(bytes, off + 24),
        p_filesz: le64(bytes, off + 32),
        p_memsz: le64(bytes, off + 40),
        p_align: le64(bytes, off + 48),
    }
}

/// The program header record that starts at byte offset `off`.
pub open spec fn spec_program_header(s: Seq<u8>, off: int) -> ElfProgramHeader {
    ElfProgramHeader {
        p_type: spec_le32(s, off) as u32,
        p_flags: spec_le32(s, off + 4) as u32,
        p_offset: spec_le64(s, off + 8) as u64,
        p_vaddr: spec_le64(s, off + 16) as u64,
        p_paddr: spec_le64(s, off + 24) as u64,
        p_filesz: spec_le64(s, off + 32) as u64,
        p_memsz: spec_le64(s, off + 40) as u64,
        p_align: spec_le64(s, off + 48) as u64,
    }
}

/// What a failed check of the loader file means.
#[derive(Debug, PartialEq, Eq, Structural, Clone, Copy)]
pub enum ElfError {
    /// The magic bytes are not `\x7fELF`.
    BadMagic,
    /// The file is for another architecture.
    WrongMachine,
    /// The file is not a dynamic object.
    NotDyn,
    /// The program-header table size is zero or over the limit.
    BadPhSize,
    /// There is no loadable segment.
    NoLoadable,
}

/// Checks the parsed header the way the loader accepts files: correct
/// magic, this machine, `ET_DYN`, and a sane program-header table size.
/// Returns that size, `e_phentsize * e_phnum`, in bytes.
pub fn validate_header(h: &ElfHeader) -> (r: Result<usize, ElfError>)
    ensures
        ({
            let magic_ok = h.e_ident@.len() >= 4 && h.e_ident@[0] == 0x7f && h.e_ident@[1] == ('E'
                as u8) && h.e_ident@[2] == ('L' as u8) && h.e_ident@[3] == ('F' as u8);
            let phsize = h.e_phentsize * h.e_phnum;
            &&& !magic_ok ==> r == Result::<usize, ElfError>::Err(ElfError::BadMagic)
            &&& (magic_ok && h.e_machine != EM_SELF) ==> r == Result::<usize, ElfError>::Err(
                ElfError::WrongMachine,
            )
            &&& (magic_ok && h.e_machine == EM_SELF && h.e_type != ET_DYN) ==> r == Result::<
                usize,
                ElfError,
            >::Err(ElfError::NotDyn)
            &&& (magic_ok && h.e_machine == EM_SELF && h.e_type == ET_DYN && (phsize == 0 || phsize
                > MAX_PHSIZE)) ==> r == Result::<usize, ElfError>::Err(ElfError::BadPhSize)
            &&& (magic_ok && h.e_machine == EM_SELF && h.e_type == ET_DYN && 0 < phsize
                <= MAX_PHSIZE) ==> r == Result::<usize, ElfError>::Ok(phsize as usize)
        }),
{
    if h.e_ident.len() < 4 || h.e_ident[0] != 0x7f || h.e_ident[1] != 'E' as u8 || h.e_ident[2]
        != 'L' as u8 || h.e_ident[3] != 'F' as u8 {
        return Err(ElfError::BadMagic);
    }
    if h.e_machine != EM_SELF {
        return Err(ElfError::WrongMachine);
    }
    if h.e_type != ET_DYN {
        return Err(ElfError::NotDyn);
    }
    proof {
        assert(h.e_phentsize * h.e_phnum <= 65535 * 65535) by (nonlinear_arith)
            requires
                h.e_phentsize <= 65535,
                h.e_phnum <= 65535,
        ;
    }
    let phsize = (h.e_phentsize as usize) * (h.e_phnum as usize);
    if phsize == 0 || phsize > MAX_PHSIZE {
        return Err(ElfError::BadPhSize);
    }
    Ok(phsize)
}

/// The fallback for opening a loader path: when the path was not found
/// and ends in a newline, the open is retried with the newline stripped
/// (some tools record the loader path with a trailing newline).  Returns
/// the path to retry with, still NUL-terminated, or nothing.
pub fn open_fallback_path(path: &Vec<u8>, err: Error) -> (r: Option<Vec<u8>>)
    requires
        path@.len() >= 1,
    ensures
        ({
            let keeps = err == Error::Posix(ENOENT) && path@.len() >= 2 && path@[path@.len() - 2]
                == ('\n' as u8);
            &&& keeps ==> (r matches Some(t) && t@ == path@.subrange(0, path@.len() - 2) + seq![
                0u8,
            ])
            &&& !keeps ==> r is None
        }),
{
    let not_found = match err {
        Error::Posix(e) => e == ENOENT,
        _ => false,
    };
    let n = path.len();
    if !not_found || n < 2 || path[n - 2] != '\n' as u8 {
        return None;
    }
    let mut t = subvec(path, 0, n - 2);
    t.push(0u8);
    assert(t@ =~= path@.subrange(0, path@.len() - 2) + seq![0u8]);
    Some(t)
}

/// A slice of program header records: the raw bytes of the table, and the
/// record size the file declares, honored separately from the native
/// record size to tolerate extra trailing fields.
pub struct ProgramHeaders {
    pub data: Vec<u8>,
    pub entry_size: usize,
    pub num_entries: usize,
}

/// A walk over the program header records.
pub struct ProgramHeadersIter {
    pub index: usize,
}

impl ProgramHeaders {
    /// The declared records all lie within the table bytes.
    pub open spec fn wf(&self) -> bool {
        &&& self.entry_size >= PHDR_SIZE
        &&& self.num_entries * self.entry_size <= self.data@.len()
    }

    /// Record `i` of the table.
    pub open spec fn spec_ph(&self, i: int) -> ElfProgramHeader {
        spec_program_header(self.data@, i * self.entry_size)
    }

    /// The records as a sequence.
    pub open spec fn phs(&self) -> Seq<ElfProgramHeader> {
        Seq::new(self.num_entries as nat, |i: int| self.spec_ph(i))
    }

    /// Wraps a table whose bounds have been checked.
    pub fn from_raw(data: Vec<u8>, entry_size: usize, num_entries: usize) -> (r: ProgramHeaders)
        requires
            entry_size >= PHDR_SIZE,
            num_entries * entry_size <= data@.len(),
        ensures
            r.data == data,
            r.entry_size == entry_size,
            r.num_entries == num_entries,
            r.wf(),
    {
        ProgramHeaders { data, entry_size, num_entries }
    }

    /// Parses record `i`.
    pub fn ph(&self, i: usize) -> (r: ElfProgramHeader)
        requires
            self.wf(),
            i < self.num_entries,
        ensures
            r == self.spec_ph(i as int),
            r == self.phs()[i as int],
    {
        let n = self.data.len();
        proof {
            assert((i + 1) * self.entry_size <= self.num_entries * self.entry_size)
                by (nonlinear_arith)
                requires
                    i + 1 <= self.num_entries,
                    self.entry_size >= 0,
            ;
            assert((i + 1) * self.entry_size == i * self.entry_size + self.entry_size)
                by (nonlinear_arith);
        }
        let off = i * self.entry_size;
        parse_program_header(&self.data, off)
    }

    /// Starts a walk over the records.
    pub fn iter(&self) -> (r: ProgramHeadersIter)
        ensures
            r.index == 0,
    {
        ProgramHeadersIter { index: 0 }
    }
}

impl ProgramHeadersIter {
    /// Yields the next record, parsed, or nothing at the end.
    pub fn next(&mut self, phs: &ProgramHeaders) -> (r: Option<ElfProgramHeader>)
        requires
            phs.wf(),
            old(self).index <= phs.num_entries,
        ensures
            old(self).index < phs.num_entries ==> (r == Some(phs.phs()[old(self).index as int])
                && final(self).index == old(self).index + 1),
            old(self).index >= phs.num_entries ==> (r is None && final(self).index == old(
                self,
            ).index),
    {
        if self.index >= phs.num_entries {
            return None;
        }
        let r = phs.ph(self.index);
        self.index = self.index + 1;
        Some(r)
    }
}

/// Whether a record describes memory to map.
pub open spec fn spec_loadable(ph: ElfProgramHeader) -> bool {
    ph.p_type == PT_LOAD && ph.p_memsz > 0
}

/// Whether any record of the sequence is loadable.
pub open spec fn any_loadable(s: Seq<ElfProgramHeader>) -> bool
    decreases s.len(),
{
    if s.len() == 0 {
        false
    } else {
        any_loadable(s.drop_last()) || spec_loadable(s.last())
    }
}

/// The lowest `p_vaddr` of the loadable records.
pub open spec fn min_vaddr(s: Seq<ElfProgramHeader>) -> int
    recommends
        any_loadable(s),
    decreases s.len(),
{
    if s.len() == 0 {
        0
    } else if !spec_loadable(s.last()) {
        min_vaddr(s.drop_last())
    } else if any_loadable(s.drop_last()) {
        let m = min_vaddr(s.drop_last());
        if s.last().p_vaddr < m {
            s.last().p_vaddr as int
        } else {
            m
        }
    } else {
        s.last().p_vaddr as int
    }
}

/// The highest `p_vaddr + p_memsz` of the loadable records.
pub open spec fn max_vend(s: Seq<ElfProgramHeader>) -> int
    recommends
        any_loadable(s),
    decreases s.len(),
{
    if s.len() == 0 {
        0
    } else if !spec_loadable(s.last()) {
        max_vend(s.drop_last())
    } else if any_loadable(s.drop_last()) {
        let m = max_vend(s.drop_last());
        if s.last().p_vaddr + s.last().p_memsz > m {
            s.last().p_vaddr + s.last().p_memsz
        } else {
            m
        }
    } else {
        s.last().p_vaddr + s.last().p_memsz
    }
}

/// The `p_vaddr` of the first loadable record.
pub open spec fn first_vaddr(s: Seq<ElfProgramHeader>) -> int
    recommends
        any_loadable(s),
    decreases s.len(),
{
    if s.len() == 0 {
        0
    } else if any_loadable(s.drop_last()) {
        first_vaddr(s.drop_last())
    } else if spec_loadable(s.last()) {
        s.last().p_vaddr as int
    } else {
        0
    }
}

/// What the loadable records span.
#[derive(Debug, PartialEq, Eq, Structural, Clone, Copy)]
pub struct LoadableSummary {
    pub total_mapping_size: u64,
    pub first_vaddr: u64,
}

impl ProgramHeaders {
    /// Scans the table for loadable records: the `p_vaddr` of the first
    /// one, and the span from the lowest `p_vaddr` to the highest end
    /// address.  Nothing is loadable in some tables, and then there is no
    /// summary.
    pub fn summarize_loadable(&self) -> (r: Option<LoadableSummary>)
        requires
            self.wf(),
            forall|i: int|
                0 <= i < self.num_entries && spec_loadable(#[trigger] self.phs()[i])
                    ==> self.phs()[i].p_vaddr + self.phs()[i].p_memsz <= u64::MAX,
        ensures
            !any_loadable(self.phs()) ==> r is None,
            any_loadable(self.phs()) ==> (r matches Some(s) && s.first_vaddr == first_vaddr(
                self.phs(),
            ) && s.total_mapping_size == max_vend(self.phs()) - min_vaddr(self.phs())),
    {
        let ghost whole = self.phs();
        let mut first: Option<u64> = None;
        let mut addr_min: u64 = u64::MAX;
        let mut addr_max: u64 = 0;
        let mut i: usize = 0;
        while i < self.num_entries
            invariant
                self.wf(),
                whole == self.phs(),
                i <= self.num_entries,
                forall|k: int|
                    0 <= k < self.num_entries && spec_loadable(#[trigger] whole[k]) ==> whole[
                        k
                    ].p_vaddr + whole[k].p_memsz <= u64::MAX,
                first is Some <==> any_loadable(whole.take(i as int)),
                any_loadable(whole.take(i as int)) ==> (first matches Some(f) && f == first_vaddr(
                    whole.take(i as int),
                ) && addr_min == min_vaddr(whole.take(i as int)) && addr_max == max_vend(
                    whole.take(i as int),
                ) && addr_min <= addr_max),
                !any_loadable(whole.take(i as int)) ==> (addr_min == u64::MAX && addr_max == 0),
            decreases self.num_entries - i,
        {
            let ghost pre = whole.take(i as int);
            let ghost post = whole.take(i + 1);
            proof {
                assert(post.drop_last() =~= pre);
                assert(post.last() == whole[i as int]);
            }
            let ph = self.ph(i);
            if ph.p_type == PT_LOAD && ph.p_memsz > 0 {
                if first.is_none() {
                    first = Some(ph.p_vaddr);
                }
                if ph.p_vaddr < addr_min {
                    addr_min = ph.p_vaddr;
                }
                let vend = ph.p_vaddr + ph.p_memsz;
                if vend > addr_max {
                    addr_max = vend;
                }
            }
            i = i + 1;
        }
        proof {
            assert(whole.take(self.num_entries as int) =~= whole);
        }
        match first {
            None => None,
            Some(fv) => Some(
                LoadableSummary { total_mapping_size: addr_max - addr_min, first_vaddr: fv },
            ),
        }
    }
}

/// The protection flags a segment's `p_flags` ask for.
pub open spec fn spec_prot_flags(p_flags: u32) -> i32 {
    (if p_flags & PF_R != 0 {
        PROT_READ
    } else {
        0
    }) | (if p_flags & PF_W != 0 {
        PROT_WRITE
    } else {
        0
    }) | (if p_flags & PF_X != 0 {
        PROT_EXEC
    } else {
        0
    })
}

/// Translates a segment's `p_flags` into mapping protection bits.
pub fn prot_flags(p_flags: u32) -> (r: i32)
    ensures
        r == spec_prot_flags(p_flags),
{
    (if p_flags & PF_R != 0 {
        PROT_READ
    } else {
        0
    }) | (if p_flags & PF_W != 0 {
        PROT_WRITE
    } else {
        0
    }) | (if p_flags & PF_X != 0 {
        PROT_EXEC
    } else {
        0
    })
}

/// The span from the lowest loadable `p_vaddr` to the highest loadable
/// end address, over already-parsed records.
pub fn total_mapping_size(prog_headers: &Vec<ElfProgramHeader>) -> (r: u64)
    requires
        any_loadable(prog_headers@),
        forall|i: int|
            0 <= i < prog_headers@.len() && spec_loadable(#[trigger] prog_headers@[i])
                ==> prog_headers@[i].p_vaddr + prog_headers@[i].p_memsz <= u64::MAX,
    ensures
        r == max_vend(prog_headers@) - min_vaddr(prog_headers@),
{
    let ghost whole = prog_headers@;
    let mut addr_min: u64 = u64::MAX;
    let mut addr_max: u64 = 0;
    let mut i: usize = 0;
    let n = prog_headers.len();
    while i < n
        invariant
            n == whole.len(),
            whole == prog_headers@,
            i <= n,
            forall|k: int|
                0 <= k < n && spec_loadable(#[trigger] whole[k]) ==> whole[k].p_vaddr + whole[
                    k
                ].p_memsz <= u64::MAX,
            any_loadable(whole.take(i as int)) ==> (addr_min == min_vaddr(whole.take(i as int))
                && addr_max == max_vend(whole.take(i as int)) && addr_min <= addr_max),
            !any_loadable(whole.take(i as int)) ==> (addr_min == u64::MAX && addr_max == 0),
        decreases n - i,
    {
        let ghost pre = whole.take(i as int);
        let ghost post = whole.take(i + 1);
        proof {
            assert(post.drop_last() =~= pre);
            assert(post.last() == whole[i as int]);
        }
        let ph = prog_headers[i];
        if ph.p_type == PT_LOAD && ph.p_memsz > 0 {
            if ph.p_vaddr < addr_min {
                addr_min = ph.p_vaddr;
            }
            let vend = ph.p_vaddr + ph.p_memsz;
            if vend > addr_max {
                addr_max = vend;
            }
        }
        i = i + 1;
    }
    proof {
        assert(whole.take(n as int) =~= whole);
    }
    addr_max - addr_min
}

/// The largest page-multiple not above `v`.
pub open spec fn spec_page_start(v: int, ps: int) -> int {
    v - v % ps
}

/// Where `v` sits within its page.
pub open spec fn spec_page_offset(v: int, ps: int) -> int {
    v % ps
}

/// The smallest page-multiple not below `v`.
pub open spec fn spec_page_align(v: int, ps: int) -> int {
    if v % ps == 0 {
        v
    } else {
        v + ps - v % ps
    }
}

/// Rounds `v` down to the page below, for a run-time page size.
pub fn page_start(v: u64, ps: u64) -> (r: u64)
    requires
        ps >= 1,
    ensures
        r == spec_page_start(v as int, ps as int),
        r <= v,
{
    proof {
        assert(0 <= v % ps < ps && v % ps <= v) by (nonlinear_arith)
            requires
                ps >= 1,
                v >= 0,
        ;
    }
    v - v % ps
}

/// Where `v` sits within its page, for a run-time page size.
pub fn page_offset(v: u64, ps: u64) -> (r: u64)
    requires
        ps >= 1,
    ensures
        r == spec_page_offset(v as int, ps as int),
        r < ps,
{
    proof {
        assert(0 <= v % ps < ps) by (nonlinear_arith)
            requires
                ps >= 1,
                v >= 0,
        ;
    }
    v % ps
}

/// Rounds `v` up to the page above, for a run-time page size.
pub fn page_align(v: u64, ps: u64) -> (r: u64)
    requires
        ps >= 1,
        v + ps <= u64::MAX,
    ensures
        r == spec_page_align(v as int, ps as int),
        v <= r < v + ps,
{
    proof {
        assert(0 <= v % ps < ps) by (nonlinear_arith)
            requires
                ps >= 1,
                v >= 0,
        ;
    }
    let m = v % ps;
    if m == 0 {
        v
    } else {
        v + (ps - m)
    }
}

/// Rounds down to the page below, at the compatibility page size.
pub fn elf_page_start(v: usize) -> (r: usize)
    ensures
        r == spec_page_start(v as int, PAGE_SIZE as int),
{
    let r = v & !(PAGE_SIZE - 1);
    proof {
        assert(PAGE_SIZE - 1 == 4095usize);
        assert((v & !4095usize) == v - v % 4096) by (bit_vector);
    }
    r
}

/// Where `v` sits within its page, at the compatibility page size.
pub fn elf_page_offset(v: usize) -> (r: usize)
    ensures
        r == spec_page_offset(v as int, PAGE_SIZE as int),
{
    let r = v & (PAGE_SIZE - 1);
    proof {
        assert(PAGE_SIZE - 1 == 4095usize);
        assert((v & 4095usize) == v % 4096) by (bit_vector);
    }
    r
}

/// Rounds up to the page above, at the compatibility page size.
pub fn elf_page_align(v: usize) -> (r: usize)
    requires
        v + PAGE_SIZE <= usize::MAX,
    ensures
        r == spec_page_align(v as int, PAGE_SIZE as int),
{
    let m = v % PAGE_SIZE;
    if m == 0 {
        v
    } else {
        v + (PAGE_SIZE - m)
    }
}

/// One step of the mapping plan.
#[derive(Debug, PartialEq, Eq, Structural, Clone, Copy)]
pub enum MapOp {
    /// Map `size` bytes of the file from `offset` at `addr`, fixed,
    /// private, with protection `prot`.
    MapFile { addr: u64, size: u64, prot: i32, offset: u64 },
    /// Write `len` zero bytes at `addr`.
    ZeroFill { addr: u64, len: u64 },
    /// Map `size` anonymous zero bytes at `addr`, fixed, private, with
    /// protection `prot`.
    MapAnon { addr: u64, size: u64, prot: i32 },
}

/// The finished mapping: where a `p_vaddr` of zero lands, the address to
/// jump to, and the operations that build the image inside the reserved
/// span.
pub struct ElfMapping {
    pub load_bias: u64,
    pub entry_point: u64,
    pub ops: Vec<MapOp>,
}

impl ElfMapping {
    pub fn load_bias(&self) -> (r: u64)
        ensures
            r == self.load_bias,
    {
        self.load_bias
    }
}

/// The operations that map one loadable record: the file-backed span if
/// there is one, and, for a writable record with memory beyond the file
/// bytes, the zero fill of the fractional page and an anonymous map of
/// the whole pages after it.
pub open spec fn spec_seg_ops(
    ph: ElfProgramHeader,
    load_bias: int,
    load_addr: int,
    ps: int,
) -> Seq<MapOp> {
    let vaddr = ph.p_vaddr as int;
    let memsz = ph.p_memsz as int;
    let filesz = ph.p_filesz as int;
    let vend = vaddr + memsz;
    let fend = vaddr + filesz;
    let prot = spec_prot_flags(ph.p_flags);
    let total_map = spec_page_align(vend, ps) - spec_page_start(vaddr, ps);
    let fmin = if fend < vend {
        fend
    } else {
        vend
    };
    let file_map = spec_page_align(fmin, ps) - spec_page_start(vaddr, ps);
    (if file_map > 0 {
        seq![
            (MapOp::MapFile {
                addr: spec_page_start(load_bias + vaddr, ps) as u64,
                size: file_map as u64,
                prot,
                offset: spec_page_start(ph.p_offset as int, ps) as u64,
            }),
        ]
    } else {
        Seq::empty()
    }) + (if memsz > filesz && ph.p_flags & PF_W != 0 {
        let zero_addr = load_bias + vaddr + filesz;
        let zero_end = spec_page_align(zero_addr, ps);
        (if zero_end > zero_addr {
            seq![(MapOp::ZeroFill { addr: zero_addr as u64, len: (zero_end - zero_addr) as u64 })]
        } else {
            Seq::empty()
        }) + (if file_map < total_map {
            seq![
                (MapOp::MapAnon {
                    addr: (load_addr + file_map) as u64,
                    size: (total_map - file_map) as u64,
                    prot,
                }),
            ]
        } else {
            Seq::empty()
        })
    } else {
        Seq::empty()
    })
}

/// The operations of the whole plan, in table order, loadable records
/// only.
pub open spec fn spec_plan_ops(
    s: Seq<ElfProgramHeader>,
    load_bias: int,
    load_addr: int,
    ps: int,
) -> Seq<MapOp>
    decreases s.len(),
{
    if s.len() == 0 {
        Seq::empty()
    } else {
        spec_plan_ops(s.drop_last(), load_bias, load_addr, ps) + (if spec_loadable(s.last()) {
            spec_seg_ops(s.last(), load_bias, load_addr, ps)
        } else {
            Seq::empty()
        })
    }
}

/// The arithmetic of mapping one record stays within the machine word.
pub open spec fn seg_fits(ph: ElfProgramHeader, load_bias: int, load_addr: int, ps: int) -> bool {
    &&& ph.p_vaddr + ph.p_memsz + ps <= u64::MAX
    &&& load_bias + ph.p_vaddr + ph.p_filesz + ps <= u64::MAX
    &&& load_addr + ph.p_vaddr + ph.p_memsz + ps <= u64::MAX
}

impl ProgramHeaders {
    /// The number of bytes to reserve for the whole image: the loadable
    /// span, rounded up to whole pages.  Fails when nothing is loadable.
    pub fn reserve_size(&self, page_size: u64) -> (r: Result<u64, ElfError>)
        requires
            self.wf(),
            page_size >= 1,
            forall|i: int|
                0 <= i < self.num_entries && spec_loadable(#[trigger] self.phs()[i]) ==> self.phs()[
                    i
                ].p_vaddr + self.phs()[i].p_memsz + page_size <= u64::MAX,
        ensures
            !any_loadable(self.phs()) ==> r == Result::<u64, ElfError>::Err(ElfError::NoLoadable),
            any_loadable(self.phs()) ==> r == Result::<u64, ElfError>::Ok(
                (spec_page_align(max_vend(self.phs()) - min_vaddr(self.phs()), page_size as int) as u64),
            ),
    {
        let summary = match self.summarize_loadable() {
            Some(s) => s,
            None => { return Err(ElfError::NoLoadable) },
        };
        proof {
            lemma_loadable_span_fits(self.phs(), page_size as int);
        }
        Ok(page_align(summary.total_mapping_size, page_size))
    }

    /// Computes the mapping plan for the reserved span at `load_addr`:
    /// the load bias, the entry point, and the operations that map each
    /// loadable record with the protections its flags ask for.
    pub fn map_segments(&self, page_size: u64, load_addr: u64, entry_point_v: u64) -> (r: Result<
        ElfMapping,
        ElfError,
    >)
        requires
            self.wf(),
            page_size >= 1,
            any_loadable(self.phs()) ==> ({
                let lb = load_addr - spec_page_start(first_vaddr(self.phs()), page_size as int);
                &&& spec_page_start(first_vaddr(self.phs()), page_size as int) <= load_addr
                &&& lb + entry_point_v <= u64::MAX
                &&& forall|i: int|
                    0 <= i < self.num_entries && spec_loadable(#[trigger] self.phs()[i])
                        ==> seg_fits(self.phs()[i], lb, load_addr as int, page_size as int)
            }),
        ensures
            !any_loadable(self.phs()) ==> r == Result::<ElfMapping, ElfError>::Err(
                ElfError::NoLoadable,
            ),
            any_loadable(self.phs()) ==> ({
                let lb = load_addr - spec_page_start(first_vaddr(self.phs()), page_size as int);
                &&& r matches Ok(m)
                &&& m.load_bias == lb
                &&& m.entry_point == lb + entry_point_v
                &&& m.ops@ == spec_plan_ops(self.phs(), lb as int, load_addr as int,
                page_size as int)
            }),
    {
        let ghost whole = self.phs();
        proof {
            lemma_any_loadable_index(whole);
            if any_loadable(whole) {
                assert forall|i: int|
                    0 <= i < self.num_entries && spec_loadable(
                        #[trigger] whole[i],
                    ) implies whole[i].p_vaddr + whole[i].p_memsz <= u64::MAX by {
                    assert(seg_fits(
                        whole[i],
                        load_addr - spec_page_start(first_vaddr(whole), page_size as int),
                        load_addr as int,
                        page_size as int,
                    ));
                }
            }
        }
        let summary = match self.summarize_loadable() {
            Some(s) => s,
            None => { return Err(ElfError::NoLoadable) },
        };
        proof {
            lemma_first_vaddr_in_range(whole);
        }
        let load_bias = load_addr - page_start(summary.first_vaddr, page_size);
        let entry_point = load_bias + entry_point_v;
        let mut ops: Vec<MapOp> = Vec::new();
        let mut i: usize = 0;
        while i < self.num_entries
            invariant
                self.wf(),
                whole == self.phs(),
                page_size >= 1,
                i <= self.num_entries,
                forall|k: int|
                    0 <= k < self.num_entries && spec_loadable(#[trigger] whole[k]) ==> seg_fits(
                        whole[k],
                        load_bias as int,
                        load_addr as int,
                        page_size as int,
                    ),
                ops@ == spec_plan_ops(
                    whole.take(i as int),
                    load_bias as int,
                    load_addr as int,
                    page_size as int,
                ),
            decreases self.num_entries - i,
        {
            let ghost pre = whole.take(i as int);
            let ghost post = whole.take(i + 1);
            proof {
                assert(post.drop_last() =~= pre);
                assert(post.last() == whole[i as int]);
            }
            let ph = self.ph(i);
            if ph.p_type == PT_LOAD && ph.p_memsz > 0 {
                let ghost ops_pre = ops@;
                let vaddr = ph.p_vaddr;
                let memsz = ph.p_memsz;
                let filesz = ph.p_filesz;
                let vend = vaddr + memsz;
                let fend = vaddr + filesz;
                let prot = prot_flags(ph.p_flags);
                let total_map = page_align(vend, page_size) - page_start(vaddr, page_size);
                let fmin = if fend < vend {
                    fend
                } else {
                    vend
                };
                let file_map = page_align(fmin, page_size) - page_start(vaddr, page_size);
                if file_map > 0 {
                    ops.push(
                        MapOp::MapFile {
                            addr: page_start(load_bias + vaddr, page_size),
                            size: file_map,
                            prot,
                            offset: page_start(ph.p_offset, page_size),
                        },
                    );
                }
                if memsz > filesz && ph.p_flags & PF_W != 0 {
                    let zero_addr = load_bias + vaddr + filesz;
                    let zero_end = page_align(zero_addr, page_size);
                    if zero_end > zero_addr {
                        ops.push(MapOp::ZeroFill { addr: zero_addr, len: zero_end - zero_addr });
                    }
                    if file_map < total_map {
                        ops.push(
                            MapOp::MapAnon {
                                addr: load_addr + file_map,
                                size: total_map - file_map,
                                prot,
                            },
                        );
                    }
                }
                proof {
                    assert(ops@ =~= ops_pre + spec_seg_ops(
                        whole[i as int],
                        load_bias as int,
                        load_addr as int,
                        page_size as int,
                    ));
                }
            }
            proof {
                assert(ops@ =~= spec_plan_ops(
                    post,
                    load_bias as int,
                    load_addr as int,
                    page_size as int,
                ));
            }
            i = i + 1;
        }
        proof {
            assert(whole.take(self.num_entries as int) =~= whole);
        }
        Ok(ElfMapping { load_bias, entry_point, ops })
    }
}

/// The loadable span is bounded by the largest loadable end address, so
/// rounding it to whole pages stays within the machine word.
proof fn lemma_loadable_span_fits(s: Seq<ElfProgramHeader>, ps: int)
    requires
        any_loadable(s),
        forall|i: int|
            0 <= i < s.len() && spec_loadable(#[trigger] s[i]) ==> s[i].p_vaddr + s[i].p_memsz + ps
                <= u64::MAX,
    ensures
        min_vaddr(s) >= 0,
        min_vaddr(s) <= max_vend(s),
        max_vend(s) + ps <= u64::MAX,
    decreases s.len(),
{
    if s.len() == 0 {
    } else {
        assert forall|i: int|
            0 <= i < s.drop_last().len() && spec_loadable(
                #[trigger] s.drop_last()[i],
            ) implies s.drop_last()[i].p_vaddr + s.drop_last()[i].p_memsz + ps <= u64::MAX by {
            assert(s.drop_last()[i] == s[i]);
        }
        if !spec_loadable(s.last()) {
            lemma_loadable_span_fits(s.drop_last(), ps);
        } else if any_loadable(s.drop_last()) {
            lemma_loadable_span_fits(s.drop_last(), ps);
            assert(s.last() == s[s.len() - 1]);
        } else {
            assert(s.last() == s[s.len() - 1]);
        }
    }
}

/// The fold over the records agrees with a pointwise search.
pub proof fn lemma_any_loadable_index(s: Seq<ElfProgramHeader>)
    ensures
        any_loadable(s) <==> exists|i: int| 0 <= i < s.len() && spec_loadable(#[trigger] s[i]),
    decreases s.len(),
{
    if s.len() == 0 {
    } else {
        lemma_any_loadable_index(s.drop_last());
        if any_loadable(s.drop_last()) {
            let i = choose|i: int|
                0 <= i < s.drop_last().len() && spec_loadable(#[trigger] s.drop_last()[i]);
            assert(s[i] == s.drop_last()[i]);
            assert(spec_loadable(s[i]));
        } else if spec_loadable(s.last()) {
            assert(spec_loadable(s[s.len() - 1]));
        } else {
            assert forall|i: int| 0 <= i < s.len() implies !spec_loadable(#[trigger] s[i]) by {
                if i < s.len() - 1 {
                    assert(s.drop_last()[i] == s[i]);
                }
            }
        }
    }
}

/// The first loadable virtual address is one of the records', so it fits
/// the machine word.
proof fn lemma_first_vaddr_in_range(s: Seq<ElfProgramHeader>)
    requires
        any_loadable(s),
    ensures
        0 <= first_vaddr(s) <= u64::MAX,
        any_loadable(s) ==> exists|i: int|
            0 <= i < s.len() && first_vaddr(s) == #[trigger] s[i].p_vaddr,
    decreases s.len(),
{
    if s.len() == 0 {
    } else if any_loadable(s.drop_last()) {
        lemma_first_vaddr_in_range(s.drop_last());
        let i = choose|i: int|
            0 <= i < s.drop_last().len() && first_vaddr(s.drop_last()) == #[trigger] s.drop_last()[
                i
            ].p_vaddr;
        assert(s[i] == s.drop_last()[i]);
        assert(first_vaddr(s) == s[i].p_vaddr);
    } else {
        assert(first_vaddr(s) == s[s.len() - 1].p_vaddr);
    }
}

} // verus!
