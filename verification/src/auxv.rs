//! Aux vector wrangling.
//!
//! The kernel appends a table of `(key, value)` pairs, terminated by a pair
//! with key 0, after the environment block on the initial stack.  This
//! module parses that table from the stack's word image and gives each
//! interesting entry a cursor through which its value word can be read and
//! overwritten in place.

use vstd::prelude::*;

use crate::sys::Fatal;

verus! {

pub const AT_PHDR: usize = 3;

pub const AT_PHENT: usize = 4;

pub const AT_PHNUM: usize = 5;

pub const AT_PAGESZ: usize = 6;

pub const AT_BASE: usize = 7;

pub const AT_ENTRY: usize = 9;

/// A cursor to one aux pair: the word index of its key within the stack
/// image.  The value is the word after it.
#[derive(Debug, PartialEq, Eq, Structural, Clone, Copy)]
pub struct Entry {
    pub pos: usize,
}

/// An aux entry handed out by the iterator; it cannot outlive the walk.
pub struct BorrowedEntry {
    pub entry: Entry,
}

/// A walk over the aux pairs.
pub struct AuxVecIter {
    pub index: usize,
}

/// The parsed aux vector: where the pairs start in the stack image, how
/// many there are before the terminator, and a cursor for each key the
/// loader cares about.
pub struct AuxVec {
    pub start: usize,
    pub auxvc: usize,
    pub at_base: Option<Entry>,
    pub at_entry: Option<Entry>,
    pub at_phdr: Option<Entry>,
    pub at_phent: Option<Entry>,
    pub at_phnum: Option<Entry>,
    pub at_pagesz: Option<Entry>,
}

/// Adds `k` to a count, if there is one.
pub open spec fn opt_add(o: Option<int>, k: int) -> Option<int> {
    match o {
        Some(c) => Some(c + k),
        None => None,
    }
}

/// The number of aux pairs before the terminating pair, if a complete
/// terminator lies within the word image.
pub open spec fn spec_aux_count(stack: Seq<usize>, start: int) -> Option<int>
    decreases stack.len() - start,
{
    if start < 0 || start + 2 > stack.len() {
        None
    } else if stack[start] == 0 {
        Some(0)
    } else {
        match spec_aux_count(stack, start + 2) {
            Some(c) => Some(c + 1),
            None => None,
        }
    }
}

/// Facts that follow from a successful count of the aux pairs.
pub proof fn lemma_aux_count_facts(stack: Seq<usize>, start: int, c: int)
    requires
        spec_aux_count(stack, start) == Some(c),
    ensures
        c >= 0,
        start >= 0,
        start + 2 * c + 2 <= stack.len(),
        stack[start + 2 * c] == 0,
        forall|j: int| 0 <= j < c ==> #[trigger] stack[start + 2 * j] != 0,
    decreases stack.len() - start,
{
    if start < 0 || start + 2 > stack.len() {
    } else if stack[start] == 0 {
    } else {
        lemma_aux_count_facts(stack, start + 2, c - 1);
        assert forall|j: int| 0 <= j < c implies #[trigger] stack[start + 2 * j] != 0 by {
            if j > 0 {
                assert(stack[(start + 2) + 2 * (j - 1)] != 0);
                assert((start + 2) + 2 * (j - 1) == start + 2 * j);
            }
        }
    }
}

/// Updating a word below the aux area, or a value word inside it, does not
/// change the count of aux pairs.
pub proof fn lemma_aux_count_update(stack: Seq<usize>, start: int, idx: int, v: usize)
    requires
        0 <= idx < stack.len(),
        idx < start || (idx - start) % 2 == 1,
    ensures
        spec_aux_count(stack.update(idx, v), start) == spec_aux_count(stack, start),
    decreases stack.len() - start,
{
    if start < 0 || start + 2 > stack.len() {
    } else {
        assert(stack.update(idx, v)[start] == stack[start]);
        if stack[start] != 0 {
            lemma_aux_count_update(stack, start + 2, idx, v);
        }
    }
}

/// What it means for a recorded cursor to be right for `key`: if present it
/// points at a pair with that key, and if absent no pair carries the key.
pub open spec fn entry_ok(
    e: Option<Entry>,
    key: usize,
    stack: Seq<usize>,
    start: int,
    auxvc: int,
) -> bool {
    match e {
        Some(en) => start <= en.pos && en.pos < start + 2 * auxvc && (en.pos - start) % 2 == 0
            && en.pos + 1 < stack.len() && stack[en.pos as int] == key,
        None => forall|j: int| 0 <= j < auxvc ==> #[trigger] stack[start + 2 * j] != key,
    }
}

impl Entry {
    /// The cursor stays within the word image.
    pub open spec fn wf(&self, stack: Seq<usize>) -> bool {
        self.pos + 1 < stack.len()
    }

    /// The key word of this pair.
    pub fn key(&self, stack: &Vec<usize>) -> (r: usize)
        requires
            self.wf(stack@),
        ensures
            r == stack@[self.pos as int],
    {
        stack[self.pos]
    }

    /// The value word of this pair.
    pub fn value(&self, stack: &Vec<usize>) -> (r: usize)
        requires
            self.wf(stack@),
        ensures
            r == stack@[self.pos + 1],
    {
        let n = stack.len();
        stack[self.pos + 1]
    }

    /// Overwrites the value word of this pair, in place, leaving every
    /// other word of the image as it was.
    pub fn set(&self, stack: &mut Vec<usize>, value: usize)
        requires
            self.wf(old(stack)@),
        ensures
            final(stack)@ == old(stack)@.update(self.pos + 1, value),
    {
        let n = stack.len();
        stack.set(self.pos + 1, value);
    }

    /// A second cursor to the same pair.
    pub fn steal(&self) -> (r: Entry)
        ensures
            r == *self,
    {
        Entry { pos: self.pos }
    }
}

impl BorrowedEntry {
    pub fn new(entry: Entry) -> (r: Self)
        ensures
            r.entry == entry,
    {
        Self { entry }
    }

    pub fn get(&self) -> (r: &Entry)
        ensures
            r == self.entry,
    {
        &self.entry
    }
}

impl AuxVec {
    /// The parse is faithful to the word image: the count is the real
    /// count, and each recorded cursor is right for its key.
    pub open spec fn wf(&self, stack: Seq<usize>) -> bool {
        &&& spec_aux_count(stack, self.start as int) == Some(self.auxvc as int)
        &&& self.start + 2 * self.auxvc + 2 <= stack.len()
        &&& entry_ok(self.at_base, AT_BASE, stack, self.start as int, self.auxvc as int)
        &&& entry_ok(self.at_entry, AT_ENTRY, stack, self.start as int, self.auxvc as int)
        &&& entry_ok(self.at_phdr, AT_PHDR, stack, self.start as int, self.auxvc as int)
        &&& entry_ok(self.at_phent, AT_PHENT, stack, self.start as int, self.auxvc as int)
        &&& entry_ok(self.at_phnum, AT_PHNUM, stack, self.start as int, self.auxvc as int)
        &&& entry_ok(self.at_pagesz, AT_PAGESZ, stack, self.start as int, self.auxvc as int)
    }

    /// Parses the aux pairs that start at word index `start` of the stack
    /// image, recording a cursor for each key of interest (the last pair
    /// wins if a key repeats).  Fails if no terminator pair lies within
    /// the image.
    pub fn from_raw(stack: &Vec<usize>, start: usize) -> (r: Result<AuxVec, Fatal>)
        ensures
            match r {
                Ok(av) => av.start == start && av.wf(stack@),
                Err(f) => f == Fatal::AuxvTruncated && spec_aux_count(stack@, start as int)
                    is None,
            },
    {
        let mut pos: usize = start;
        let mut j: usize = 0;
        let mut at_base: Option<Entry> = None;
        let mut at_entry: Option<Entry> = None;
        let mut at_phdr: Option<Entry> = None;
        let mut at_phent: Option<Entry> = None;
        let mut at_phnum: Option<Entry> = None;
        let mut at_pagesz: Option<Entry> = None;
        loop
            invariant
                pos == start + 2 * j,
                spec_aux_count(stack@, start as int) == opt_add(
                    spec_aux_count(stack@, pos as int),
                    j as int,
                ),
                forall|jj: int| 0 <= jj < j ==> #[trigger] stack@[start + 2 * jj] != 0,
                entry_ok(at_base, AT_BASE, stack@, start as int, j as int),
                entry_ok(at_entry, AT_ENTRY, stack@, start as int, j as int),
                entry_ok(at_phdr, AT_PHDR, stack@, start as int, j as int),
                entry_ok(at_phent, AT_PHENT, stack@, start as int, j as int),
                entry_ok(at_phnum, AT_PHNUM, stack@, start as int, j as int),
                entry_ok(at_pagesz, AT_PAGESZ, stack@, start as int, j as int),
            decreases stack@.len() - pos,
        {
            if pos >= stack.len() || stack.len() - pos < 2 {
                return Err(Fatal::AuxvTruncated);
            }
            let k = stack[pos];
            if k == 0 {
                let av = AuxVec {
                    start,
                    auxvc: j,
                    at_base,
                    at_entry,
                    at_phdr,
                    at_phent,
                    at_phnum,
                    at_pagesz,
                };
                proof {
                    assert(spec_aux_count(stack@, pos as int) == Some(0int));
                    assert(spec_aux_count(stack@, start as int) == Some(j as int));
                    lemma_aux_count_facts(stack@, start as int, j as int);
                }
                return Ok(av);
            }
            let e = Entry { pos };
            if k == AT_BASE {
                at_base = Some(e);
            } else if k == AT_ENTRY {
                at_entry = Some(e);
            } else if k == AT_PHDR {
                at_phdr = Some(e);
            } else if k == AT_PHENT {
                at_phent = Some(e);
            } else if k == AT_PHNUM {
                at_phnum = Some(e);
            } else if k == AT_PAGESZ {
                at_pagesz = Some(e);
            }
            proof {
                assert forall|jj: int| 0 <= jj < j + 1 implies #[trigger] stack@[start + 2 * jj] != 0 by {
                    if jj == j {
                        assert(stack@[pos as int] != 0);
                    }
                }
            }
            pos = pos + 2;
            j = j + 1;
        }
    }

    /// The number of pairs before the terminator.
    pub fn count(&self) -> (r: usize)
        ensures
            r == self.auxvc,
    {
        self.auxvc
    }

    /// Starts a walk over the pairs.
    pub fn iter(&self) -> (r: AuxVecIter)
        ensures
            r.index == 0,
    {
        AuxVecIter { index: 0 }
    }
}

impl AuxVecIter {
    /// Yields a cursor to the next pair, or nothing past the terminator.
    pub fn next(&mut self, auxv: &AuxVec, stack: &Vec<usize>) -> (r: Option<BorrowedEntry>)
        requires
            auxv.wf(stack@),
            old(self).index <= auxv.auxvc,
        ensures
            old(self).index < auxv.auxvc ==> (r matches Some(b) && b.entry.pos == auxv.start + 2
                * old(self).index && final(self).index == old(self).index + 1),
            old(self).index >= auxv.auxvc ==> r is None && final(self).index == old(self).index,
    {
        if self.index >= auxv.auxvc {
            return None;
        }
        let n = stack.len();
        let pos = auxv.start + 2 * self.index;
        self.index = self.index + 1;
        Some(BorrowedEntry::new(Entry { pos }))
    }
}

} // verus!
