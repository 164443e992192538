//! Byte-sequence helpers shared by the parser, the detector and the
//! envelope builders: appending byte runs to buffers, ASCII case folding
//! and substring search.

use vstd::prelude::*;

verus! {

use vstd::string::StringSliceAdditionalSpecFns;

/// ASCII lower-casing of one byte; other bytes are unchanged.
pub open spec fn ascii_lower(c: u8) -> u8 {
    if 65 <= c && c <= 90 {
        (c + 32) as u8
    } else {
        c
    }
}

/// ASCII lower-casing of a byte sequence.
pub open spec fn lower(s: Seq<u8>) -> Seq<u8> {
    s.map_values(|c: u8| ascii_lower(c))
}

/// Whether `s[i]` begins an occurrence of `n` in `s`.
pub open spec fn is_match_at(h: Seq<u8>, n: Seq<u8>, i: int) -> bool {
    0 <= i && i + n.len() <= h.len() && h.subrange(i, i + n.len() as int) == n
}

/// Whether `n` occurs in `h` as a contiguous run.
pub open spec fn contains_sub(h: Seq<u8>, n: Seq<u8>) -> bool {
    exists|i: int| is_match_at(h, n, i)
}

/// Index of the last occurrence of `c` in `s`, or -1 if there is none.
pub open spec fn last_index_of(s: Seq<u8>, c: u8) -> int
    decreases s.len(),
{
    if s.len() == 0 {
        -1
    } else if s[s.len() - 1] == c {
        s.len() - 1
    } else {
        last_index_of(s.drop_last(), c)
    }
}

/// Appends all of `src` to `dst`.
pub fn push_bytes(dst: &mut Vec<u8>, src: &[u8])
    ensures
        final(dst)@ == old(dst)@ + src@,
{
    let mut i: usize = 0;
    while i < src.len()
        invariant
            i <= src@.len(),
            dst@ == old(dst)@ + src@.subrange(0, i as int),
        decreases src@.len() - i,
    {
        dst.push(src[i]);
        i += 1;
        proof {
            assert(src@.subrange(0, i as int) == src@.subrange(0, i - 1) + seq![src@[i - 1]]);
        }
    }
    proof {
        assert(src@.subrange(0, src@.len() as int) == src@);
    }
}

/// Appends the bytes of `s` to `dst`.
pub fn push_str(dst: &mut Vec<u8>, s: &str)
    ensures
        final(dst)@ == old(dst)@ + s.spec_bytes(),
{
    push_bytes(dst, s.as_bytes());
}

/// Appends `src[from..to]` to `dst`.
pub fn push_range(dst: &mut Vec<u8>, src: &[u8], from: usize, to: usize)
    requires
        from <= to <= src@.len(),
    ensures
        final(dst)@ == old(dst)@ + src@.subrange(from as int, to as int),
{
    let mut i: usize = from;
    while i < to
        invariant
            from <= i <= to <= src@.len(),
            dst@ == old(dst)@ + src@.subrange(from as int, i as int),
        decreases to - i,
    {
        dst.push(src[i]);
        i += 1;
        proof {
            assert(src@.subrange(from as int, i as int) == src@.subrange(from as int, i - 1)
                + seq![src@[i - 1]]);
        }
    }
}

/// Whether the two byte runs are equal.
pub fn eq_bytes(a: &[u8], b: &[u8]) -> (r: bool)
    ensures
        r == (a@ == b@),
{
    if a.len() != b.len() {
        return false;
    }
    let mut i: usize = 0;
    while i < a.len()
        invariant
            i <= a@.len(),
            a@.len() == b@.len(),
            forall|j: int| 0 <= j < i ==> a@[j] == b@[j],
        decreases a@.len() - i,
    {
        if a[i] != b[i] {
            return false;
        }
        i += 1;
    }
    proof {
        assert(a@ =~= b@);
    }
    true
}

/// Whether `a`, lower-cased, equals `b` (callers pass `b` already in
/// lower case).
pub fn matches_lower(a: &[u8], b: &[u8]) -> (r: bool)
    ensures
        r == (lower(a@) == b@),
{
    if a.len() != b.len() {
        proof {
            assert(lower(a@).len() == a@.len());
        }
        return false;
    }
    let mut i: usize = 0;
    while i < a.len()
        invariant
            i <= a@.len(),
            a@.len() == b@.len(),
            forall|j: int| 0 <= j < i ==> lower(a@)[j] == b@[j],
        decreases a@.len() - i,
    {
        let c = a[i];
        let lc = if 65 <= c && c <= 90 {
            c + 32
        } else {
            c
        };
        proof {
            assert(lower(a@)[i as int] == ascii_lower(a@[i as int]));
        }
        if lc != b[i] {
            proof {
                assert(lower(a@)[i as int] != b@[i as int]);
            }
            return false;
        }
        i += 1;
    }
    proof {
        assert(lower(a@) =~= b@);
    }
    true
}

/// Whether `a[from..]`, lower-cased, equals `b` (callers pass `b`
/// already in lower case).
pub fn matches_lower_from(a: &[u8], from: usize, b: &[u8]) -> (r: bool)
    requires
        from <= a@.len(),
    ensures
        r == (lower(a@.skip(from as int)) == b@),
{
    let al: usize = a.len();
    if al - from != b.len() {
        proof {
            assert(lower(a@.skip(from as int)).len() == a@.len() - from);
        }
        return false;
    }
    let mut i: usize = 0;
    while i < b.len()
        invariant
            i <= b@.len(),
            al == a@.len(),
            from + b@.len() == a@.len(),
            forall|j: int| 0 <= j < i ==> lower(a@.skip(from as int))[j] == b@[j],
        decreases b@.len() - i,
    {
        let c = a[from + i];
        let lc = if 65 <= c && c <= 90 {
            c + 32
        } else {
            c
        };
        proof {
            assert(lower(a@.skip(from as int))[i as int] == ascii_lower(a@[from + i]));
        }
        if lc != b[i] {
            proof {
                assert(lower(a@.skip(from as int))[i as int] != b@[i as int]);
            }
            return false;
        }
        i += 1;
    }
    proof {
        assert(lower(a@.skip(from as int)) =~= b@);
    }
    true
}

/// If `c` appears at `i` and nowhere later, `i` is the last index of `c`.
pub proof fn lemma_last_index_of_at(s: Seq<u8>, c: u8, i: int)
    requires
        0 <= i < s.len(),
        s[i] == c,
        forall|j: int| i < j < s.len() ==> s[j] != c,
    ensures
        last_index_of(s, c) == i,
    decreases s.len(),
{
    if i == s.len() - 1 {
    } else {
        assert(s[s.len() - 1] != c);
        assert(forall|j: int| 0 <= j < s.len() - 1 ==> s.drop_last()[j] == s[j]);
        lemma_last_index_of_at(s.drop_last(), c, i);
    }
}

/// If `c` appears nowhere in `s`, there is no last index.
pub proof fn lemma_last_index_of_none(s: Seq<u8>, c: u8)
    requires
        forall|j: int| 0 <= j < s.len() ==> s[j] != c,
    ensures
        last_index_of(s, c) == -1,
    decreases s.len(),
{
    if s.len() > 0 {
        assert(forall|j: int| 0 <= j < s.len() - 1 ==> s.drop_last()[j] == s[j]);
        lemma_last_index_of_none(s.drop_last(), c);
    }
}

/// Whether an occurrence of `n` starts at position `i` of `h`.
fn match_at(h: &[u8], n: &[u8], i: usize) -> (r: bool)
    requires
        i + n@.len() <= h@.len(),
    ensures
        r == is_match_at(h@, n@, i as int),
{
    let hl: usize = h.len();
    let nl: usize = n.len();
    let mut j: usize = 0;
    while j < nl
        invariant
            0 <= j <= nl,
            nl == n@.len(),
            hl == h@.len(),
            i + nl <= hl,
            forall|t: int| 0 <= t < j ==> h@[i + t] == n@[t],
        decreases nl - j,
    {
        if h[i + j] != n[j] {
            proof {
                if is_match_at(h@, n@, i as int) {
                    assert(h@.subrange(i as int, i + n@.len() as int)[j as int] == n@[j as int]);
                }
            }
            return false;
        }
        j += 1;
    }
    proof {
        assert(h@.subrange(i as int, i + n@.len() as int) =~= n@);
    }
    true
}

/// Whether the needle `n` occurs in `h`.
pub fn find_sub(h: &[u8], n: &[u8]) -> (r: bool)
    ensures
        r == contains_sub(h@, n@),
{
    if n.len() == 0 {
        proof {
            assert(h@.subrange(0, 0) =~= n@);
            assert(is_match_at(h@, n@, 0));
        }
        return true;
    }
    if n.len() > h.len() {
        proof {
            assert(forall|i: int| !is_match_at(h@, n@, i));
        }
        return false;
    }
    let mut i: usize = 0;
    let hl: usize = h.len();
    let last = hl - n.len();
    while i <= last
        invariant
            0 <= i <= last + 1,
            1 <= n@.len() <= h@.len(),
            hl == h@.len(),
            last == h@.len() - n@.len(),
            forall|k: int| 0 <= k < i ==> !is_match_at(h@, n@, k),
        decreases last + 1 - i,
    {
        if match_at(h, n, i) {
            return true;
        }
        i += 1;
    }
    proof {
        assert(forall|k: int| is_match_at(h@, n@, k) ==> 0 <= k <= last as int);
    }
    false
}

} // verus!
