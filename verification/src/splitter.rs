//! Response splitting: locating the four-byte header/body separator in a raw
//! response and returning everything after its first occurrence.

use vstd::prelude::*;

verus! {

/// The separator occupies positions `i .. i + 4` of `s`: carriage return,
/// line feed, carriage return, line feed.
pub open spec fn is_separator_at(s: Seq<u8>, i: int) -> bool {
    &&& 0 <= i
    &&& i + 4 <= s.len()
    &&& s[i] == 13u8
    &&& s[i + 1] == 10u8
    &&& s[i + 2] == 13u8
    &&& s[i + 3] == 10u8
}

/// The separator occurs somewhere in `s`.
pub open spec fn has_sep(s: Seq<u8>) -> bool {
    exists|i: int| is_separator_at(s, i)
}

/// The body of a raw response: the bytes after the first occurrence of the
/// separator, scanned left to right; empty when no separator occurs.
pub open spec fn body_of(s: Seq<u8>) -> Seq<u8>
    decreases s.len(),
{
    if s.len() < 4 {
        Seq::empty()
    } else if s[0] == 13u8 && s[1] == 10u8 && s[2] == 13u8 && s[3] == 10u8 {
        s.subrange(4, s.len() as int)
    } else {
        body_of(s.subrange(1, s.len() as int))
    }
}

/// When the first separator occurrence is at `i`, the body is exactly the
/// bytes from `i + 4` on.
pub proof fn lemma_body_after_first_separator(s: Seq<u8>, i: int)
    requires
        is_separator_at(s, i),
        forall|j: int| 0 <= j < i ==> !is_separator_at(s, j),
    ensures
        body_of(s) == s.subrange(i + 4, s.len() as int),
    decreases i,
{
    if i == 0 {
        assert(body_of(s) == s.subrange(4, s.len() as int));
    } else {
        let t = s.subrange(1, s.len() as int);
        assert(!is_separator_at(s, 0));
        assert(is_separator_at(t, i - 1));
        assert forall|j: int| 0 <= j < i - 1 implies !is_separator_at(t, j) by {
            if is_separator_at(t, j) {
                assert(t[j] == s[j + 1]);
                assert(t[j + 1] == s[j + 2]);
                assert(t[j + 2] == s[j + 3]);
                assert(t[j + 3] == s[j + 4]);
                assert(is_separator_at(s, j + 1));
            }
        }
        lemma_body_after_first_separator(t, i - 1);
        assert(t.subrange(i + 3, t.len() as int) =~= s.subrange(i + 4, s.len() as int));
    }
}

/// When no separator occurs anywhere in `s`, the body is empty.
pub proof fn lemma_body_without_separator(s: Seq<u8>)
    requires
        !has_sep(s),
    ensures
        body_of(s) == Seq::<u8>::empty(),
    decreases s.len(),
{
    if s.len() >= 4 {
        let t = s.subrange(1, s.len() as int);
        assert(!is_separator_at(s, 0));
        assert forall|j: int| !(#[trigger] is_separator_at(t, j)) by {
            if is_separator_at(t, j) {
                assert(t[j] == s[j + 1]);
                assert(t[j + 1] == s[j + 2]);
                assert(t[j + 2] == s[j + 3]);
                assert(t[j + 3] == s[j + 4]);
                assert(is_separator_at(s, j + 1));
            }
        }
        lemma_body_without_separator(t);
    }
}

/// Reports whether the header/body separator occurs anywhere in `buf`.
pub fn has_separator(buf: &Vec<u8>) -> (r: bool)
    ensures
        r == has_sep(buf@),
{
    let n = buf.len();
    if n < 4 {
        return false;
    }
    let mut i: usize = 0;
    while i <= n - 4
        invariant
            4 <= n,
            n == buf@.len(),
            i <= n - 3,
            forall|j: int| 0 <= j < i ==> !is_separator_at(buf@, j),
        decreases n - i,
    {
        if buf[i] == 13 && buf[i + 1] == 10 && buf[i + 2] == 13 && buf[i + 3] == 10 {
            assert(is_separator_at(buf@, i as int));
            return true;
        }
        i = i + 1;
    }
    false
}

/// The Response Splitter: returns the bytes after the first occurrence of
/// the separator, and an empty vector when no separator is present.
pub fn extract_body(response: &Vec<u8>) -> (body: Vec<u8>)
    ensures
        body@ == body_of(response@),
{
    let n = response.len();
    if n < 4 {
        proof {
            lemma_body_without_separator(response@);
        }
        return Vec::new();
    }
    let mut i: usize = 0;
    while i <= n - 4
        invariant
            4 <= n,
            n == response@.len(),
            i <= n - 3,
            forall|j: int| 0 <= j < i ==> !is_separator_at(response@, j),
        decreases n - i,
    {
        if response[i] == 13 && response[i + 1] == 10 && response[i + 2] == 13
            && response[i + 3] == 10 {
            assert(is_separator_at(response@, i as int));
            let mut out: Vec<u8> = Vec::new();
            let mut k: usize = i + 4;
            while k < n
                invariant
                    n == response@.len(),
                    i + 4 <= k <= n,
                    is_separator_at(response@, i as int),
                    forall|j: int| 0 <= j < i ==> !is_separator_at(response@, j),
                    out@ =~= response@.subrange(i + 4, k as int),
                decreases n - k,
            {
                out.push(response[k]);
                k = k + 1;
            }
            proof {
                lemma_body_after_first_separator(response@, i as int);
            }
            return out;
        }
        i = i + 1;
    }
    proof {
        assert forall|j: int| !(#[trigger] is_separator_at(response@, j)) by {
            if is_separator_at(response@, j) {
                assert(0 <= j && j + 4 <= n);
            }
        }
        lemma_body_without_separator(response@);
    }
    Vec::new()
}

} // verus!
