//! Relocation fixups.
//!
//! The loader is position independent and must apply its own relative
//! relocations before any global is touched.  This module finds the
//! dynamic table through the program headers, walks it for the
//! relocation arrays, and applies each relative relocation to the image,
//! modelled as a span of machine words at a base address.

use vstd::prelude::*;

use crate::arch::R_RELATIVE;
use crate::elf::{ElfHeader, ElfProgramHeader, ProgramHeaders, EHDR_SIZE, PT_DYNAMIC};
use crate::sys::Fatal;

verus! {

pub const DT_NULL: usize = 0;

pub const DT_RELA: usize = 7;

pub const DT_RELASZ: usize = 8;

pub const DT_RELAENT: usize = 9;

pub const DT_REL: usize = 17;

pub const DT_RELSZ: usize = 18;

pub const DT_RELENT: usize = 19;

/// The native size of one `Rela` record, in bytes.
pub const RELA_SIZE: usize = 24;

/// The native size of one `Rel` record, in bytes.
pub const REL_SIZE: usize = 16;

/// One entry of the dynamic table.
#[derive(Debug, PartialEq, Eq, Structural, Clone, Copy)]
pub struct DynEntry {
    pub d_tag: usize,
    pub d_val: usize,
}

/// A span of memory, as whole machine words starting at byte address
/// `base`.
pub struct MemImage {
    pub base: usize,
    pub words: Vec<usize>,
}

impl MemImage {
    /// The span has room to address every word, with headroom for the
    /// relocation records' own arithmetic.
    pub open spec fn wf(&self) -> bool {
        self.base + 8 * self.words@.len() + 8 * RELA_SIZE <= usize::MAX
    }
}

/// Whether byte address `addr` names a word of an image with `len` words
/// at `base`.
pub open spec fn word_in(base: int, len: int, addr: int) -> bool {
    &&& base <= addr
    &&& (addr - base) % 8 == 0
    &&& (addr - base) / 8 < len
}

/// The entries of the dynamic table before its `DT_NULL` terminator (or
/// all of them, if none terminates it).
pub open spec fn dyn_prefix(table: Seq<DynEntry>) -> Seq<DynEntry>
    decreases table.len(),
{
    if table.len() == 0 {
        Seq::empty()
    } else if table[0].d_tag == DT_NULL {
        Seq::empty()
    } else {
        seq![table[0]] + dyn_prefix(table.drop_first())
    }
}

/// The value of the last entry with the given tag, if any.
pub open spec fn last_tag_val(entries: Seq<DynEntry>, tag: usize) -> Option<usize>
    decreases entries.len(),
{
    if entries.len() == 0 {
        None
    } else if entries.last().d_tag == tag {
        Some(entries.last().d_val)
    } else {
        last_tag_val(entries.drop_last(), tag)
    }
}

/// Applying one `Rela` record at byte address `addr`: read its three
/// words, insist on the architecture's relative type, and store
/// `load_offset + r_addend` at `load_offset + r_offset`.
pub open spec fn rela_step(words: Seq<usize>, base: int, lo: int, addr: int) -> Result<
    Seq<usize>,
    Fatal,
> {
    if !(word_in(base, words.len() as int, addr) && word_in(base, words.len() as int, addr + 8)
        && word_in(base, words.len() as int, addr + 16)) {
        Err(Fatal::RelocOutOfBounds)
    } else {
        let r_offset = words[(addr - base) / 8];
        let r_info = words[(addr - base) / 8 + 1];
        let r_addend = words[(addr - base) / 8 + 2];
        if r_info & 0xffffffffusize != R_RELATIVE as usize {
            Err(Fatal::BadRelocType)
        } else if lo + r_offset > usize::MAX || lo + r_addend > usize::MAX || !word_in(
            base,
            words.len() as int,
            lo + r_offset,
        ) {
            Err(Fatal::RelocOutOfBounds)
        } else {
            Ok(words.update((lo + r_offset - base) / 8, (lo + r_addend) as usize))
        }
    }
}

/// Applying `n` `Rela` records from byte address `addr` on, in order,
/// stopping at the first bad one.
pub open spec fn apply_relas(words: Seq<usize>, base: int, lo: int, addr: int, n: nat) -> Result<
    Seq<usize>,
    Fatal,
>
    decreases n,
{
    if n == 0 {
        Ok(words)
    } else {
        match rela_step(words, base, lo, addr) {
            Err(e) => Err(e),
            Ok(w2) => apply_relas(w2, base, lo, addr + RELA_SIZE, (n - 1) as nat),
        }
    }
}

/// Applying one `Rel` record at byte address `addr`: read its two words,
/// insist on the relative type, and add `load_offset` to the word at
/// `load_offset + r_offset`.
pub open spec fn rel_step(words: Seq<usize>, base: int, lo: int, addr: int) -> Result<
    Seq<usize>,
    Fatal,
> {
    if !(word_in(base, words.len() as int, addr) && word_in(base, words.len() as int, addr + 8)) {
        Err(Fatal::RelocOutOfBounds)
    } else {
        let r_offset = words[(addr - base) / 8];
        let r_info = words[(addr - base) / 8 + 1];
        if r_info & 0xffffffffusize != R_RELATIVE as usize {
            Err(Fatal::BadRelocType)
        } else if lo + r_offset > usize::MAX || !word_in(base, words.len() as int, lo + r_offset) {
            Err(Fatal::RelocOutOfBounds)
        } else {
            let target = (lo + r_offset - base) / 8;
            if lo + words[target] > usize::MAX {
                Err(Fatal::RelocOutOfBounds)
            } else {
                Ok(words.update(target, (lo + words[target]) as usize))
            }
        }
    }
}

/// Applying `n` `Rel` records from byte address `addr` on.
pub open spec fn apply_rels(words: Seq<usize>, base: int, lo: int, addr: int, n: nat) -> Result<
    Seq<usize>,
    Fatal,
>
    decreases n,
{
    if n == 0 {
        Ok(words)
    } else {
        match rel_step(words, base, lo, addr) {
            Err(e) => Err(e),
            Ok(w2) => apply_rels(w2, base, lo, addr + REL_SIZE, (n - 1) as nat),
        }
    }
}

/// The prefix agrees with `take(i)` when the terminator sits at `i`.
proof fn lemma_dyn_prefix_take(table: Seq<DynEntry>, i: int)
    requires
        0 <= i <= table.len(),
        forall|j: int| 0 <= j < i ==> (#[trigger] table[j]).d_tag != DT_NULL,
        i == table.len() || table[i].d_tag == DT_NULL,
    ensures
        dyn_prefix(table) =~= table.take(i),
    decreases i,
{
    if table.len() == 0 {
    } else if i == 0 {
    } else {
        assert forall|j: int| 0 <= j < i - 1 implies (#[trigger] table.drop_first()[j]).d_tag
            != DT_NULL by {
            assert(table.drop_first()[j] == table[j + 1]);
        }
        lemma_dyn_prefix_take(table.drop_first(), i - 1);
        assert(table.take(i) =~= seq![table[0]] + table.drop_first().take(i - 1));
    }
}

/// Entries scanned before any terminator are entries of the prefix.
proof fn lemma_dyn_prefix_elem(table: Seq<DynEntry>, i: int)
    requires
        0 <= i < table.len(),
        forall|j: int| 0 <= j <= i ==> (#[trigger] table[j]).d_tag != DT_NULL,
    ensures
        dyn_prefix(table).len() > i,
        dyn_prefix(table)[i] == table[i],
    decreases i,
{
    if i == 0 {
    } else {
        assert forall|j: int| 0 <= j <= i - 1 implies (#[trigger] table.drop_first()[j]).d_tag
            != DT_NULL by {
            assert(table.drop_first()[j] == table[j + 1]);
        }
        lemma_dyn_prefix_elem(table.drop_first(), i - 1);
    }
}

/// Whether some entry carries the tag with a value other than `size`.
pub open spec fn any_bad_ent(entries: Seq<DynEntry>, tag: usize, size: usize) -> bool {
    exists|i: int|
        0 <= i < entries.len() && (#[trigger] entries[i]).d_tag == tag && entries[i].d_val != size
}

/// Applies `n` `Rela` records starting at byte address `addr`.
fn run_relas(image: &mut MemImage, lo: usize, addr: usize, n: usize) -> (r: Result<(), Fatal>)
    requires
        old(image).wf(),
    ensures
        final(image).base == old(image).base,
        final(image).words@.len() == old(image).words@.len(),
        final(image).wf(),
        match r {
            Ok(_) => apply_relas(
                old(image).words@,
                old(image).base as int,
                lo as int,
                addr as int,
                n as nat,
            ) == Result::<Seq<usize>, Fatal>::Ok(final(image).words@),
            Err(e) => apply_relas(
                old(image).words@,
                old(image).base as int,
                lo as int,
                addr as int,
                n as nat,
            ) == Result::<Seq<usize>, Fatal>::Err(e),
        },
{
    let ghost w0 = image.words@;
    let ghost b = image.base as int;
    let len = image.words.len();
    let base = image.base;
    let mut k: usize = 0;
    let mut cur: usize = addr;
    while k < n
        invariant
            image.base == base,
            base == old(image).base,
            b == base as int,
            w0 == old(image).words@,
            image.wf(),
            len == image.words@.len(),
            len == old(image).words@.len(),
            k <= n,
            apply_relas(w0, b, lo as int, addr as int, n as nat) == apply_relas(
                image.words@,
                b,
                lo as int,
                cur as int,
                (n - k) as nat,
            ),
        decreases n - k,
    {
        let ghost wcur = image.words@;
        // The record's three words must lie within the image.
        if cur < base {
            return Err(Fatal::RelocOutOfBounds);
        }
        let off = cur - base;
        if off % 8 != 0 {
            return Err(Fatal::RelocOutOfBounds);
        }
        let idx = off / 8;
        if idx >= len || len - idx < 3 {
            proof {
                assert(((cur + 16) - b) / 8 == idx + 2);
            }
            return Err(Fatal::RelocOutOfBounds);
        }
        proof {
            assert(((cur + 8) - b) / 8 == idx + 1);
            assert(((cur + 16) - b) / 8 == idx + 2);
        }
        let r_offset = image.words[idx];
        let r_info = image.words[idx + 1];
        let r_addend = image.words[idx + 2];
        if r_info & 0xffffffffusize != R_RELATIVE as usize {
            return Err(Fatal::BadRelocType);
        }
        if lo > usize::MAX - r_offset || lo > usize::MAX - r_addend {
            return Err(Fatal::RelocOutOfBounds);
        }
        let target = lo + r_offset;
        if target < base {
            return Err(Fatal::RelocOutOfBounds);
        }
        let toff = target - base;
        if toff % 8 != 0 {
            return Err(Fatal::RelocOutOfBounds);
        }
        let tidx = toff / 8;
        if tidx >= len {
            return Err(Fatal::RelocOutOfBounds);
        }
        image.words.set(tidx, lo + r_addend);
        proof {
            assert(rela_step(wcur, b, lo as int, cur as int) == Result::<Seq<usize>, Fatal>::Ok(
                image.words@,
            ));
        }
        k = k + 1;
        cur = cur + RELA_SIZE;
    }
    Ok(())
}

/// Applies `n` `Rel` records starting at byte address `addr`.
fn run_rels(image: &mut MemImage, lo: usize, addr: usize, n: usize) -> (r: Result<(), Fatal>)
    requires
        old(image).wf(),
    ensures
        final(image).base == old(image).base,
        final(image).words@.len() == old(image).words@.len(),
        final(image).wf(),
        match r {
            Ok(_) => apply_rels(
                old(image).words@,
                old(image).base as int,
                lo as int,
                addr as int,
                n as nat,
            ) == Result::<Seq<usize>, Fatal>::Ok(final(image).words@),
            Err(e) => apply_rels(
                old(image).words@,
                old(image).base as int,
                lo as int,
                addr as int,
                n as nat,
            ) == Result::<Seq<usize>, Fatal>::Err(e),
        },
{
    let ghost w0 = image.words@;
    let ghost b = image.base as int;
    let len = image.words.len();
    let base = image.base;
    let mut k: usize = 0;
    let mut cur: usize = addr;
    while k < n
        invariant
            image.base == base,
            base == old(image).base,
            b == base as int,
            w0 == old(image).words@,
            image.wf(),
            len == image.words@.len(),
            len == old(image).words@.len(),
            k <= n,
            apply_rels(w0, b, lo as int, addr as int, n as nat) == apply_rels(
                image.words@,
                b,
                lo as int,
                cur as int,
                (n - k) as nat,
            ),
        decreases n - k,
    {
        let ghost wcur = image.words@;
        if cur < base {
            return Err(Fatal::RelocOutOfBounds);
        }
        let off = cur - base;
        if off % 8 != 0 {
            return Err(Fatal::RelocOutOfBounds);
        }
        let idx = off / 8;
        if idx >= len || len - idx < 2 {
            proof {
                assert(((cur + 8) - b) / 8 == idx + 1);
            }
            return Err(Fatal::RelocOutOfBounds);
        }
        proof {
            assert(((cur + 8) - b) / 8 == idx + 1);
        }
        let r_offset = image.words[idx];
        let r_info = image.words[idx + 1];
        if r_info & 0xffffffffusize != R_RELATIVE as usize {
            return Err(Fatal::BadRelocType);
        }
        if lo > usize::MAX - r_offset {
            return Err(Fatal::RelocOutOfBounds);
        }
        let target = lo + r_offset;
        if target < base {
            return Err(Fatal::RelocOutOfBounds);
        }
        let toff = target - base;
        if toff % 8 != 0 {
            return Err(Fatal::RelocOutOfBounds);
        }
        let tidx = toff / 8;
        if tidx >= len {
            return Err(Fatal::RelocOutOfBounds);
        }
        let addend = image.words[tidx];
        if lo > usize::MAX - addend {
            return Err(Fatal::RelocOutOfBounds);
        }
        image.words.set(tidx, lo + addend);
        proof {
            assert(rel_step(wcur, b, lo as int, cur as int) == Result::<Seq<usize>, Fatal>::Ok(
                image.words@,
            ));
        }
        k = k + 1;
        cur = cur + REL_SIZE;
    }
    Ok(())
}

/// The dynamic table of the running image: where it sits, and the load
/// offset to apply.
#[derive(Debug, PartialEq, Eq, Structural, Clone, Copy)]
pub struct Dynamic {
    pub ptr: usize,
    pub load_offset: usize,
}

impl Dynamic {
    /// Finds the first `PT_DYNAMIC` record and computes the table's
    /// address from it.
    pub fn from_program_headers(phs: &ProgramHeaders, load_offset: usize) -> (r: Option<Dynamic>)
        requires
            phs.wf(),
            forall|i: int|
                0 <= i < phs.phs().len() && (#[trigger] phs.phs()[i]).p_type == PT_DYNAMIC
                    ==> load_offset + phs.phs()[i].p_vaddr <= usize::MAX,
        ensures
            match r {
                Some(d) => d.load_offset == load_offset && (exists|i: int|
                    0 <= i < phs.phs().len() && (#[trigger] phs.phs()[i]).p_type == PT_DYNAMIC
                        && d.ptr == load_offset + phs.phs()[i].p_vaddr && (forall|j: int|
                        0 <= j < i ==> (#[trigger] phs.phs()[j]).p_type != PT_DYNAMIC)),
                None => forall|i: int|
                    0 <= i < phs.phs().len() ==> (#[trigger] phs.phs()[i]).p_type != PT_DYNAMIC,
            },
    {
        let mut i: usize = 0;
        while i < phs.num_entries
            invariant
                phs.wf(),
                i <= phs.num_entries,
                forall|i2: int|
                    0 <= i2 < phs.phs().len() && (#[trigger] phs.phs()[i2]).p_type == PT_DYNAMIC
                        ==> load_offset + phs.phs()[i2].p_vaddr <= usize::MAX,
                forall|j: int| 0 <= j < i ==> (#[trigger] phs.phs()[j]).p_type != PT_DYNAMIC,
            decreases phs.num_entries - i,
        {
            let ph = phs.ph(i);
            if ph.p_type == PT_DYNAMIC {
                proof {
                    assert(load_offset + phs.phs()[i as int].p_vaddr <= usize::MAX);
                }
                let ptr = load_offset + (ph.p_vaddr as usize);
                return Some(Dynamic { ptr, load_offset });
            }
            i = i + 1;
        }
        None
    }

    /// Walks the dynamic table for the relocation arrays and applies
    /// them to the image: every relocation must be of the architecture's
    /// relative type, and a `DT_RELAENT` or `DT_RELENT` that disagrees
    /// with the native record size is fatal, as is any record or target
    /// outside the image.
    pub fn fixup(&self, table: &Vec<DynEntry>, image: &mut MemImage) -> (r: Result<(), Fatal>)
        requires
            old(image).wf(),
        ensures
            final(image).base == old(image).base,
            final(image).words@.len() == old(image).words@.len(),
            final(image).wf(),
            ({
                let p = dyn_prefix(table@);
                let lo = self.load_offset as int;
                let b = old(image).base as int;
                let w0 = old(image).words@;
                let bad_rela = any_bad_ent(p, DT_RELAENT, RELA_SIZE);
                let bad_rel = any_bad_ent(p, DT_RELENT, REL_SIZE);
                let rela_r = (match (last_tag_val(p, DT_RELA), last_tag_val(p, DT_RELASZ)) {
                    (Some(a), Some(sz)) => apply_relas(
                        w0,
                        b,
                        lo,
                        lo + a,
                        (sz / RELA_SIZE) as nat,
                    ),
                    _ => Ok(w0),
                });
                &&& (bad_rela && !bad_rel) ==> r == Result::<(), Fatal>::Err(Fatal::RelaEntSize)
                &&& (!bad_rela && bad_rel) ==> r == Result::<(), Fatal>::Err(Fatal::RelEntSize)
                &&& (bad_rela && bad_rel) ==> (r == Result::<(), Fatal>::Err(Fatal::RelaEntSize)
                    || r == Result::<(), Fatal>::Err(Fatal::RelEntSize))
                &&& (!bad_rela && !bad_rel) ==> (match rela_r {
                    Err(e) => r == Result::<(), Fatal>::Err(e),
                    Ok(w1) => (match (last_tag_val(p, DT_REL), last_tag_val(p, DT_RELSZ)) {
                        (Some(a2), Some(sz2)) => (match apply_rels(
                            w1,
                            b,
                            lo,
                            lo + a2,
                            (sz2 / REL_SIZE) as nat,
                        ) {
                            Err(e2) => r == Result::<(), Fatal>::Err(e2),
                            Ok(w2) => r is Ok && final(image).words@ == w2,
                        }),
                        _ => r is Ok && final(image).words@ == w1,
                    }),
                })
            }),
    {
        let ghost tbl = table@;
        let n = table.len();
        let mut rela_data: Option<usize> = None;
        let mut rela_sz: Option<usize> = None;
        let mut rel_data: Option<usize> = None;
        let mut rel_sz: Option<usize> = None;
        let mut i: usize = 0;
        loop
            invariant
                n == tbl.len(),
                tbl == table@,
                i <= n,
                image.wf(),
                image.base == old(image).base,
                image.words@ == old(image).words@,
                forall|j: int| 0 <= j < i ==> (#[trigger] tbl[j]).d_tag != DT_NULL,
                rela_data == last_tag_val(tbl.take(i as int), DT_RELA),
                rela_sz == last_tag_val(tbl.take(i as int), DT_RELASZ),
                rel_data == last_tag_val(tbl.take(i as int), DT_REL),
                rel_sz == last_tag_val(tbl.take(i as int), DT_RELSZ),
                forall|j: int|
                    0 <= j < i && (#[trigger] tbl[j]).d_tag == DT_RELAENT ==> tbl[j].d_val
                        == RELA_SIZE,
                forall|j: int|
                    0 <= j < i && (#[trigger] tbl[j]).d_tag == DT_RELENT ==> tbl[j].d_val
                        == REL_SIZE,
            ensures
                n == tbl.len(),
                tbl == table@,
                i <= n,
                image.wf(),
                image.base == old(image).base,
                image.words@ == old(image).words@,
                i == n || tbl[i as int].d_tag == DT_NULL,
                forall|j: int| 0 <= j < i ==> (#[trigger] tbl[j]).d_tag != DT_NULL,
                rela_data == last_tag_val(tbl.take(i as int), DT_RELA),
                rela_sz == last_tag_val(tbl.take(i as int), DT_RELASZ),
                rel_data == last_tag_val(tbl.take(i as int), DT_REL),
                rel_sz == last_tag_val(tbl.take(i as int), DT_RELSZ),
                forall|j: int|
                    0 <= j < i && (#[trigger] tbl[j]).d_tag == DT_RELAENT ==> tbl[j].d_val
                        == RELA_SIZE,
                forall|j: int|
                    0 <= j < i && (#[trigger] tbl[j]).d_tag == DT_RELENT ==> tbl[j].d_val
                        == REL_SIZE,
            decreases n - i,
        {
            if i >= n {
                break ;
            }
            let e = table[i];
            if e.d_tag == DT_NULL {
                break ;
            }
            if e.d_tag == DT_RELAENT && e.d_val != RELA_SIZE {
                proof {
                    lemma_dyn_prefix_elem(tbl, i as int);
                }
                return Err(Fatal::RelaEntSize);
            }
            if e.d_tag == DT_RELENT && e.d_val != REL_SIZE {
                proof {
                    lemma_dyn_prefix_elem(tbl, i as int);
                    if any_bad_ent(dyn_prefix(tbl), DT_RELAENT, RELA_SIZE) {
                        let bi = choose|bi: int|
                            0 <= bi < dyn_prefix(tbl).len() && (#[trigger] dyn_prefix(
                                tbl,
                            )[bi]).d_tag == DT_RELAENT && dyn_prefix(tbl)[bi].d_val != RELA_SIZE;
                    }
                }
                return Err(Fatal::RelEntSize);
            }
            let ghost pre = tbl.take(i as int);
            let ghost post = tbl.take(i + 1);
            proof {
                assert(post.drop_last() =~= pre);
                assert(post.last() == tbl[i as int]);
            }
            if e.d_tag == DT_RELA {
                rela_data = Some(e.d_val);
            } else if e.d_tag == DT_RELASZ {
                rela_sz = Some(e.d_val);
            } else if e.d_tag == DT_REL {
                rel_data = Some(e.d_val);
            } else if e.d_tag == DT_RELSZ {
                rel_sz = Some(e.d_val);
            }
            i = i + 1;
        }
        proof {
            lemma_dyn_prefix_take(tbl, i as int);
            assert(dyn_prefix(tbl) =~= tbl.take(i as int));
            if any_bad_ent(dyn_prefix(tbl), DT_RELAENT, RELA_SIZE) {
                let bi = choose|bi: int|
                    0 <= bi < dyn_prefix(tbl).len() && (#[trigger] dyn_prefix(tbl)[bi]).d_tag
                        == DT_RELAENT && dyn_prefix(tbl)[bi].d_val != RELA_SIZE;
            }
            if any_bad_ent(dyn_prefix(tbl), DT_RELENT, REL_SIZE) {
                let bi = choose|bi: int|
                    0 <= bi < dyn_prefix(tbl).len() && (#[trigger] dyn_prefix(tbl)[bi]).d_tag
                        == DT_RELENT && dyn_prefix(tbl)[bi].d_val != REL_SIZE;
            }
        }
        let ghost w0 = image.words@;
        // Apply the Rela array, if the table names one.
        match (rela_data, rela_sz) {
            (Some(a), Some(sz)) => {
                let cnt = sz / RELA_SIZE;
                if cnt > 0 && self.load_offset > usize::MAX - a {
                    proof {
                        lemma_apply_oob_relas(
                            w0,
                            image.base as int,
                            self.load_offset as int,
                            self.load_offset + a,
                            cnt as nat,
                        );
                    }
                    return Err(Fatal::RelocOutOfBounds);
                }
                if cnt > 0 {
                    match run_relas(image, self.load_offset, self.load_offset + a, cnt) {
                        Ok(_) => {},
                        Err(e) => { return Err(e) },
                    }
                }
            },
            _ => {},
        }
        let ghost w1 = image.words@;
        // Apply the Rel array, if the table names one.
        match (rel_data, rel_sz) {
            (Some(a2), Some(sz2)) => {
                let cnt = sz2 / REL_SIZE;
                if cnt > 0 && self.load_offset > usize::MAX - a2 {
                    proof {
                        lemma_apply_oob_rels(
                            w1,
                            image.base as int,
                            self.load_offset as int,
                            self.load_offset + a2,
                            cnt as nat,
                        );
                    }
                    return Err(Fatal::RelocOutOfBounds);
                }
                if cnt > 0 {
                    match run_rels(image, self.load_offset, self.load_offset + a2, cnt) {
                        Ok(_) => {},
                        Err(e) => { return Err(e) },
                    }
                }
            },
            _ => {},
        }
        Ok(())
    }
}

/// A record address beyond the machine word lies outside the image.
proof fn lemma_apply_oob_relas(words: Seq<usize>, b: int, lo: int, addr: int, n: nat)
    requires
        n >= 1,
        addr > usize::MAX,
        b + 8 * words.len() + 8 * RELA_SIZE <= usize::MAX,
    ensures
        apply_relas(words, b, lo, addr, n) == Result::<Seq<usize>, Fatal>::Err(
            Fatal::RelocOutOfBounds,
        ),
{
    assert((addr - b) / 8 >= words.len()) by (nonlinear_arith)
        requires
            addr - b > 8 * words.len(),
            words.len() >= 0,
    ;
}

/// A record address beyond the machine word lies outside the image.
proof fn lemma_apply_oob_rels(words: Seq<usize>, b: int, lo: int, addr: int, n: nat)
    requires
        n >= 1,
        addr > usize::MAX,
        b + 8 * words.len() + 8 * RELA_SIZE <= usize::MAX,
    ensures
        apply_rels(words, b, lo, addr, n) == Result::<Seq<usize>, Fatal>::Err(
            Fatal::RelocOutOfBounds,
        ),
{
    assert((addr - b) / 8 >= words.len()) by (nonlinear_arith)
        requires
            addr - b > 8 * words.len(),
            words.len() >= 0,
    ;
}

/// Where the loader's own program headers and load offset come from: if
/// `AT_BASE` is set, the kernel mapped us as an interpreter and the
/// header at that address describes us; otherwise `AT_PHDR` points at
/// our own table, one header size into the image.
#[derive(Debug, PartialEq, Eq, Structural, Clone, Copy)]
pub struct FixupPlan {
    pub load_offset: usize,
    pub ph_addr: usize,
    pub entry_size: usize,
    pub num_entries: usize,
}

/// Decides where the program headers of the running image sit and which
/// load offset to relocate with.  `base_header` is the ELF header found
/// at `AT_BASE` when that is set and nonzero.
pub fn fixup_relocs(
    at_base: Option<usize>,
    at_phdr: Option<usize>,
    at_phent: Option<usize>,
    at_phnum: Option<usize>,
    base_header: Option<&ElfHeader>,
) -> (r: Result<FixupPlan, Fatal>)
    requires
        (match at_base {
            Some(b) => b != 0 ==> (base_header matches Some(h) && b + EHDR_SIZE <= usize::MAX),
            None => true,
        }),
    ensures
        ({
            let base = (match at_base {
                Some(b) => b,
                None => 0,
            });
            if base == 0 {
                match (at_phdr, at_phent, at_phnum) {
                    (Some(p), Some(pe), Some(pn)) => if p < EHDR_SIZE {
                        r == Result::<FixupPlan, Fatal>::Err(Fatal::NoAtPhdr)
                    } else {
                        r == Result::<FixupPlan, Fatal>::Ok(
                            (FixupPlan {
                                load_offset: (p - EHDR_SIZE) as usize,
                                ph_addr: p,
                                entry_size: pe,
                                num_entries: pn,
                            }),
                        )
                    },
                    _ => r == Result::<FixupPlan, Fatal>::Err(Fatal::NoAtPhdr),
                }
            } else {
                match base_header {
                    Some(h) => {
                        let magic_ok = h.e_ident@.len() >= 4 && h.e_ident@[0] == 0x7f
                            && h.e_ident@[1] == ('E' as u8) && h.e_ident@[2] == ('L' as u8)
                            && h.e_ident@[3] == ('F' as u8);
                        if !magic_ok {
                            r == Result::<FixupPlan, Fatal>::Err(Fatal::NotElf)
                        } else {
                            r == Result::<FixupPlan, Fatal>::Ok(
                                (FixupPlan {
                                    load_offset: base,
                                    ph_addr: (base + EHDR_SIZE) as usize,
                                    entry_size: h.e_phentsize as usize,
                                    num_entries: h.e_phnum as usize,
                                }),
                            )
                        }
                    },
                    None => r == Result::<FixupPlan, Fatal>::Err(Fatal::NotElf),
                }
            }
        }),
{
    let base = match at_base {
        Some(b) => b,
        None => 0,
    };
    if base == 0 {
        // We were executed directly.
        match (at_phdr, at_phent, at_phnum) {
            (Some(p), Some(pe), Some(pn)) => {
                if p < EHDR_SIZE {
                    return Err(Fatal::NoAtPhdr);
                }
                Ok(
                    FixupPlan {
                        load_offset: p - EHDR_SIZE,
                        ph_addr: p,
                        entry_size: pe,
                        num_entries: pn,
                    },
                )
            },
            _ => Err(Fatal::NoAtPhdr),
        }
    } else {
        // We are the loader for someone else.
        match base_header {
            Some(h) => {
                if h.e_ident.len() < 4 || h.e_ident[0] != 0x7f || h.e_ident[1] != 'E' as u8
                    || h.e_ident[2] != 'L' as u8 || h.e_ident[3] != 'F' as u8 {
                    return Err(Fatal::NotElf);
                }
                Ok(
                    FixupPlan {
                        load_offset: base,
                        ph_addr: base + EHDR_SIZE,
                        entry_size: h.e_phentsize as usize,
                        num_entries: h.e_phnum as usize,
                    },
                )
            },
            None => Err(Fatal::NotElf),
        }
    }
}

} // verus!
