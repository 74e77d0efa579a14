//! Byte-string utilities.
//!
//! The rest of the crate works on NUL-terminated byte strings held in
//! `Vec<u8>`; this module provides the primitive operations on them:
//! comparison, search, slicing, concatenation, and the `mem*`-style
//! primitives the loader substrate exposes.

use vstd::prelude::*;
use vstd::slice::slice_to_vec;

verus! {

/// The byte sequence of an ASCII character sequence, one byte per character.
pub open spec fn bytes_of(cs: Seq<char>) -> Seq<u8> {
    Seq::new(cs.len(), |i: int| cs[i] as u8)
}

/// A well-formed C string: at least the terminator, which is the only NUL.
pub open spec fn is_cstr(s: Seq<u8>) -> bool {
    &&& s.len() >= 1
    &&& s[s.len() - 1] == 0
    &&& forall|i: int| 0 <= i < s.len() - 1 ==> s[i] != 0
}

/// Decides `is_cstr` at run time.
pub fn check_cstr(v: &Vec<u8>) -> (r: bool)
    ensures
        r == is_cstr(v@),
{
    let n = v.len();
    if n == 0 {
        return false;
    }
    if v[n - 1] != 0 {
        return false;
    }
    let mut i: usize = 0;
    while i < n - 1
        invariant
            n == v@.len(),
            n >= 1,
            i <= n - 1,
            forall|j: int| 0 <= j < i ==> v@[j] != 0,
        decreases n - 1 - i,
    {
        if v[i] == 0 {
            return false;
        }
        i = i + 1;
    }
    true
}

/// Copies the bytes of an ASCII string literal into a vector.
pub fn str_bytes(s: &str) -> (r: Vec<u8>)
    requires
        vstd::string::is_ascii(s),
    ensures
        r@ == bytes_of(s@),
{
    proof {
        vstd::string::is_ascii_spec_bytes(s);
    }
    let bs = s.as_bytes();
    let r = slice_to_vec(bs);
    assert(r@ =~= bytes_of(s@));
    r
}

/// Byte-for-byte equality of two byte strings.
pub fn bytes_eq(a: &Vec<u8>, b: &Vec<u8>) -> (r: bool)
    ensures
        r <==> a@ =~= b@,
{
    if a.len() != b.len() {
        return false;
    }
    let mut i: usize = 0;
    while i < a.len()
        invariant
            i <= a.len(),
            a.len() == b.len(),
            forall|j: int| 0 <= j < i ==> a@[j] == b@[j],
        decreases a.len() - i,
    {
        if a[i] != b[i] {
            return false;
        }
        i = i + 1;
    }
    true
}

/// Whether `v` starts with `prefix`.
pub fn starts_with(v: &Vec<u8>, prefix: &Vec<u8>) -> (r: bool)
    ensures
        r <==> (prefix@.len() <= v@.len() && v@.subrange(0, prefix@.len() as int) =~= prefix@),
{
    if v.len() < prefix.len() {
        return false;
    }
    let mut i: usize = 0;
    while i < prefix.len()
        invariant
            i <= prefix.len(),
            prefix.len() <= v.len(),
            forall|j: int| 0 <= j < i ==> v@[j] == prefix@[j],
        decreases prefix.len() - i,
    {
        if v[i] != prefix[i] {
            return false;
        }
        i = i + 1;
    }
    true
}

/// The index of the first `b` in `s`, if any.
pub open spec fn spec_find_byte(s: Seq<u8>, b: u8) -> Option<int>
    decreases s.len(),
{
    if s.len() == 0 {
        None
    } else if s[0] == b {
        Some(0)
    } else {
        match spec_find_byte(s.subrange(1, s.len() as int), b) {
            Some(i) => Some(i + 1),
            None => None,
        }
    }
}

/// A first occurrence pins `spec_find_byte` down.
pub proof fn lemma_find_byte_first(s: Seq<u8>, b: u8, i: int)
    requires
        0 <= i < s.len(),
        s[i] == b,
        forall|j: int| 0 <= j < i ==> s[j] != b,
    ensures
        spec_find_byte(s, b) == Some(i),
    decreases s.len(),
{
    if s[0] == b {
    } else {
        let s1 = s.subrange(1, s.len() as int);
        assert(s1[i - 1] == b);
        assert forall|j: int| 0 <= j < i - 1 implies s1[j] != b by {
            assert(s1[j] == s[j + 1]);
        }
        lemma_find_byte_first(s1, b, i - 1);
    }
}

/// A found index is a first occurrence.
pub proof fn lemma_find_byte_props(s: Seq<u8>, b: u8)
    requires
        spec_find_byte(s, b) is Some,
    ensures
        ({
            let i = spec_find_byte(s, b)->Some_0;
            0 <= i < s.len() && s[i] == b && forall|j: int| 0 <= j < i ==> s[j] != b
        }),
    decreases s.len(),
{
    if s.len() == 0 {
    } else if s[0] == b {
    } else {
        let s1 = s.subrange(1, s.len() as int);
        lemma_find_byte_props(s1, b);
        let i1 = spec_find_byte(s1, b)->Some_0;
        assert(s[i1 + 1] == s1[i1]);
        assert forall|j: int| 0 <= j < 1 + i1 implies s[j] != b by {
            if j > 0 {
                assert(s1[j - 1] != b);
            }
        }
    }
}

/// With no occurrence at all, `spec_find_byte` finds nothing.
pub proof fn lemma_find_byte_none(s: Seq<u8>, b: u8)
    requires
        forall|j: int| 0 <= j < s.len() ==> s[j] != b,
    ensures
        spec_find_byte(s, b) is None,
    decreases s.len(),
{
    if s.len() == 0 {
    } else {
        let s1 = s.subrange(1, s.len() as int);
        assert forall|j: int| 0 <= j < s1.len() implies s1[j] != b by {
            assert(s1[j] == s[j + 1]);
        }
        lemma_find_byte_none(s1, b);
    }
}

/// Finds the first occurrence of a byte.
pub fn find_byte(v: &Vec<u8>, b: u8) -> (r: Option<usize>)
    ensures
        match r {
            Some(i) => 0 <= i < v@.len() && v@[i as int] == b && forall|j: int|
                0 <= j < i ==> v@[j] != b,
            None => forall|j: int| 0 <= j < v@.len() ==> v@[j] != b,
        },
{
    let mut i: usize = 0;
    while i < v.len()
        invariant
            i <= v.len(),
            forall|j: int| 0 <= j < i ==> v@[j] != b,
        decreases v.len() - i,
    {
        if v[i] == b {
            return Some(i);
        }
        i = i + 1;
    }
    None
}

/// Copies `v[from..to]` into a fresh vector.
pub fn subvec(v: &Vec<u8>, from: usize, to: usize) -> (r: Vec<u8>)
    requires
        from <= to <= v@.len(),
    ensures
        r@ == v@.subrange(from as int, to as int),
{
    let mut r: Vec<u8> = Vec::new();
    let mut i: usize = from;
    while i < to
        invariant
            from <= i <= to <= v@.len(),
            r@ =~= v@.subrange(from as int, i as int),
        decreases to - i,
    {
        r.push(v[i]);
        i = i + 1;
    }
    assert(r@ =~= v@.subrange(from as int, to as int));
    r
}

/// Appends all of `src` to `dst`.
pub fn append_bytes(dst: &mut Vec<u8>, src: &Vec<u8>)
    ensures
        final(dst)@ == old(dst)@ + src@,
{
    let mut i: usize = 0;
    while i < src.len()
        invariant
            i <= src.len(),
            dst@ =~= old(dst)@ + src@.subrange(0, i as int),
        decreases src.len() - i,
    {
        dst.push(src[i]);
        i = i + 1;
    }
    assert(dst@ =~= old(dst)@ + src@);
}

/// Concatenates a list of byte strings, in order.
///
/// This is the runtime counterpart of the compile-time concatenation the
/// loader uses to assemble environment-variable names and default paths.
pub fn concat_slices(parts: &Vec<Vec<u8>>) -> (r: Vec<u8>)
    ensures
        r@ == parts@.map_values(|p: Vec<u8>| p@).flatten(),
{
    let mut r: Vec<u8> = Vec::new();
    let mut i: usize = 0;
    while i < parts.len()
        invariant
            i <= parts.len(),
            r@ =~= parts@.subrange(0, i as int).map_values(|p: Vec<u8>| p@).flatten(),
        decreases parts.len() - i,
    {
        proof {
            let m = parts@.map_values(|p: Vec<u8>| p@);
            assert(m.subrange(0, i + 1) =~= m.subrange(0, i as int).push(m[i as int]));
            m.subrange(0, i as int).lemma_flatten_push(m[i as int]);
            assert(parts@.subrange(0, i + 1).map_values(|p: Vec<u8>| p@) =~= m.subrange(
                0,
                i + 1,
            ));
            assert(parts@.subrange(0, i as int).map_values(|p: Vec<u8>| p@) =~= m.subrange(
                0,
                i as int,
            ));
        }
        append_bytes(&mut r, &parts[i]);
        i = i + 1;
    }
    proof {
        assert(parts@.subrange(0, parts@.len() as int) =~= parts@);
    }
    r
}

/// The result of comparing two equal-length byte sequences, C `memcmp` style.
pub open spec fn spec_memcmp(a: Seq<u8>, b: Seq<u8>) -> int
    recommends
        a.len() == b.len(),
    decreases a.len(),
{
    if a.len() == 0 {
        0
    } else if a[0] != b[0] {
        a[0] - b[0]
    } else {
        spec_memcmp(a.drop_first(), b.drop_first())
    }
}

/// Compares the first `n` bytes of two buffers.
///
/// Returns 0 when they agree, and otherwise the difference of the first
/// disagreeing pair of bytes.
pub fn memcmp(s1: &Vec<u8>, s2: &Vec<u8>, n: usize) -> (r: i32)
    requires
        n <= s1@.len(),
        n <= s2@.len(),
    ensures
        r == spec_memcmp(s1@.subrange(0, n as int), s2@.subrange(0, n as int)),
{
    let mut i: usize = 0;
    while i < n
        invariant
            i <= n <= s1@.len(),
            n <= s2@.len(),
            forall|j: int| 0 <= j < i ==> s1@[j] == s2@[j],
            spec_memcmp(s1@.subrange(0, n as int), s2@.subrange(0, n as int)) == spec_memcmp(
                s1@.subrange(i as int, n as int),
                s2@.subrange(i as int, n as int),
            ),
        decreases n - i,
    {
        if s1[i] != s2[i] {
            proof {
                let sa = s1@.subrange(i as int, n as int);
                let sb = s2@.subrange(i as int, n as int);
                assert(sa[0] == s1@[i as int]);
                assert(sb[0] == s2@[i as int]);
            }
            return s1[i] as i32 - s2[i] as i32;
        }
        proof {
            let sa = s1@.subrange(i as int, n as int);
            let sb = s2@.subrange(i as int, n as int);
            assert(sa[0] == sb[0]);
            assert(sa.drop_first() =~= s1@.subrange(i + 1, n as int));
            assert(sb.drop_first() =~= s2@.subrange(i + 1, n as int));
        }
        i = i + 1;
    }
    proof {
        assert(s1@.subrange(n as int, n as int) =~= Seq::<u8>::empty());
        assert(s2@.subrange(n as int, n as int) =~= Seq::<u8>::empty());
    }
    0
}

/// Same comparison as `memcmp`; only the zero/nonzero answer is meaningful.
pub fn bcmp(first: &Vec<u8>, second: &Vec<u8>, n: usize) -> (r: i32)
    requires
        n <= first@.len(),
        n <= second@.len(),
    ensures
        r == spec_memcmp(first@.subrange(0, n as int), second@.subrange(0, n as int)),
{
    memcmp(first, second, n)
}

/// Copies `n` bytes from the start of `s2` over the start of `s1`.
pub fn memcpy(s1: &mut Vec<u8>, s2: &Vec<u8>, n: usize)
    requires
        n <= old(s1)@.len(),
        n <= s2@.len(),
    ensures
        final(s1)@.len() == old(s1)@.len(),
        forall|j: int| 0 <= j < n ==> final(s1)@[j] == s2@[j],
        forall|j: int| n <= j < final(s1)@.len() ==> final(s1)@[j] == old(s1)@[j],
{
    let mut i: usize = 0;
    while i < n
        invariant
            i <= n <= s1@.len(),
            n <= s2@.len(),
            s1@.len() == old(s1)@.len(),
            forall|j: int| 0 <= j < i ==> s1@[j] == s2@[j],
            forall|j: int| i <= j < s1@.len() ==> s1@[j] == old(s1)@[j],
        decreases n - i,
    {
        let b = s2[i];
        s1.set(i, b);
        i = i + 1;
    }
}

/// Writes the byte `c` over the first `n` bytes of `s`.
pub fn memset(s: &mut Vec<u8>, c: u8, n: usize)
    requires
        n <= old(s)@.len(),
    ensures
        final(s)@.len() == old(s)@.len(),
        forall|j: int| 0 <= j < n ==> final(s)@[j] == c,
        forall|j: int| n <= j < final(s)@.len() ==> final(s)@[j] == old(s)@[j],
{
    let mut i: usize = 0;
    while i < n
        invariant
            i <= n <= s@.len(),
            s@.len() == old(s)@.len(),
            forall|j: int| 0 <= j < i ==> s@[j] == c,
            forall|j: int| i <= j < s@.len() ==> s@[j] == old(s)@[j],
        decreases n - i,
    {
        s.set(i, c);
        i = i + 1;
    }
}

} // verus!
