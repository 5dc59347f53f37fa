//! Size discovery: finding the content-length field in the header section of
//! a raw response and parsing its value as a base-10 non-negative integer.
//!
//! A header line begins at the start of the response or right after a line
//! feed. The field name is matched case-insensitively; the value is the text
//! between the field's colon and the next colon or line end, trimmed of
//! whitespace, with one optional leading plus sign.

use vstd::prelude::*;

use crate::FetchError;

verus! {

/// ASCII lowercasing of a single byte.
pub open spec fn lower(b: u8) -> u8 {
    if 65 <= b && b <= 90 {
        (b + 32) as u8
    } else {
        b
    }
}

/// The byte at position `k` of the field name `content-length:`.
pub open spec fn cl_name_at(k: int) -> u8 {
    if k == 0 { 99u8 }
    else if k == 1 { 111u8 }
    else if k == 2 { 110u8 }
    else if k == 3 { 116u8 }
    else if k == 4 { 101u8 }
    else if k == 5 { 110u8 }
    else if k == 6 { 116u8 }
    else if k == 7 { 45u8 }
    else if k == 8 { 108u8 }
    else if k == 9 { 101u8 }
    else if k == 10 { 110u8 }
    else if k == 11 { 103u8 }
    else if k == 12 { 116u8 }
    else if k == 13 { 104u8 }
    else { 58u8 }
}

/// A line starting at position `p` of `s` begins, case-insensitively, with
/// the content-length field name.
pub open spec fn cl_at(s: Seq<u8>, p: int) -> bool {
    &&& 0 <= p
    &&& p + 15 <= s.len()
    &&& (p == 0 || s[p - 1] == 10u8)
    &&& forall|k: int| 0 <= k < 15 ==> lower(#[trigger] s[p + k]) == cl_name_at(k)
}

/// The first position at or after `p` where a content-length line begins.
pub open spec fn find_cl_from(s: Seq<u8>, p: int) -> Option<int>
    decreases s.len() - p,
{
    if p < 0 {
        None
    } else if p + 15 > s.len() {
        None
    } else if cl_at(s, p) {
        Some(p)
    } else {
        find_cl_from(s, p + 1)
    }
}

/// The first position at or after `q` holding a line feed or a colon; the
/// length of `s` when no such byte follows.
pub open spec fn value_end_from(s: Seq<u8>, q: int) -> int
    decreases s.len() - q,
{
    if q < 0 {
        0
    } else if q >= s.len() {
        s.len() as int
    } else if s[q] == 10u8 || s[q] == 58u8 {
        q
    } else {
        value_end_from(s, q + 1)
    }
}

/// ASCII whitespace, as removed from the ends of a field value.
pub open spec fn is_ws(b: u8) -> bool {
    b == 32u8 || b == 9u8 || b == 10u8 || b == 11u8 || b == 12u8 || b == 13u8
}

/// `s` without its leading whitespace.
pub open spec fn trim_front(s: Seq<u8>) -> Seq<u8>
    decreases s.len(),
{
    if s.len() > 0 && is_ws(s[0]) {
        trim_front(s.drop_first())
    } else {
        s
    }
}

/// `s` without its trailing whitespace.
pub open spec fn trim_back(s: Seq<u8>) -> Seq<u8>
    decreases s.len(),
{
    if s.len() > 0 && is_ws(s.last()) {
        trim_back(s.drop_last())
    } else {
        s
    }
}

/// `s` without leading and trailing whitespace.
pub open spec fn trim(s: Seq<u8>) -> Seq<u8> {
    trim_back(trim_front(s))
}

/// An ASCII decimal digit.
pub open spec fn is_digit(b: u8) -> bool {
    48 <= b && b <= 57
}

/// Every byte of `s` is a decimal digit.
pub open spec fn all_digits(s: Seq<u8>) -> bool {
    forall|i: int| 0 <= i < s.len() ==> is_digit(#[trigger] s[i])
}

/// The value of `s` read as base-10 digits, most significant first.
pub open spec fn dec_val(s: Seq<u8>) -> int
    decreases s.len(),
{
    if s.len() == 0 {
        0
    } else {
        dec_val(s.drop_last()) * 10 + (s.last() - 48)
    }
}

/// The value of a trimmed field value: its digits, after one optional
/// leading plus sign, read in base 10; nothing when the text is empty, holds
/// a non-digit, or exceeds the machine's word range.
pub open spec fn parse_usize_spec(s: Seq<u8>) -> Option<int> {
    let d = if s.len() > 0 && s[0] == 43u8 {
        s.drop_first()
    } else {
        s
    };
    if d.len() > 0 && all_digits(d) && dec_val(d) <= usize::MAX {
        Some(dec_val(d))
    } else {
        None
    }
}

/// The content length a raw response declares: the parsed value of the first
/// content-length line, or nothing when no such line exists or its value
/// does not parse.
pub open spec fn content_length_spec(s: Seq<u8>) -> Option<int> {
    match find_cl_from(s, 0) {
        Option::None => Option::None,
        Option::Some(p) => parse_usize_spec(
            trim(s.subrange(p + 15, value_end_from(s, p + 15))),
        ),
    }
}

proof fn lemma_dec_val_nonneg(s: Seq<u8>)
    requires
        all_digits(s),
    ensures
        dec_val(s) >= 0,
    decreases s.len(),
{
    if s.len() > 0 {
        assert(all_digits(s.drop_last())) by {
            assert(forall|i: int| 0 <= i < s.len() - 1 ==> s.drop_last()[i] == s[i]);
        }
        lemma_dec_val_nonneg(s.drop_last());
    }
}

/// Reading more digits never shrinks the value.
proof fn lemma_dec_val_prefix(s: Seq<u8>, j: int)
    requires
        all_digits(s),
        0 <= j <= s.len(),
    ensures
        dec_val(s.take(j)) <= dec_val(s),
    decreases s.len() - j,
{
    if j == s.len() {
        assert(s.take(j) =~= s);
    } else {
        assert(s.take(j + 1).drop_last() =~= s.take(j));
        assert(s.take(j + 1).last() == s[j]);
        assert(all_digits(s.take(j))) by {
            assert(forall|i: int| 0 <= i < j ==> s.take(j)[i] == s[i]);
        }
        lemma_dec_val_nonneg(s.take(j));
        assert(dec_val(s.take(j)) <= dec_val(s.take(j + 1)));
        lemma_dec_val_prefix(s, j + 1);
    }
}

fn lower_byte(b: u8) -> (r: u8)
    ensures
        r == lower(b),
{
    if 65 <= b && b <= 90 {
        b + 32
    } else {
        b
    }
}

fn cl_name_byte(k: usize) -> (r: u8)
    requires
        k < 15,
    ensures
        r == cl_name_at(k as int),
{
    if k == 0 { 99 }
    else if k == 1 { 111 }
    else if k == 2 { 110 }
    else if k == 3 { 116 }
    else if k == 4 { 101 }
    else if k == 5 { 110 }
    else if k == 6 { 116 }
    else if k == 7 { 45 }
    else if k == 8 { 108 }
    else if k == 9 { 101 }
    else if k == 10 { 110 }
    else if k == 11 { 103 }
    else if k == 12 { 116 }
    else if k == 13 { 104 }
    else { 58 }
}

fn matches_cl_name(s: &Vec<u8>, p: usize) -> (r: bool)
    requires
        p + 15 <= s@.len(),
    ensures
        r == (forall|k: int| 0 <= k < 15 ==> lower(#[trigger] s@[p + k]) == cl_name_at(k)),
{
    let n = s.len();
    let mut k: usize = 0;
    while k < 15
        invariant
            p + 15 <= n,
            n == s@.len(),
            k <= 15,
            forall|j: int| 0 <= j < k ==> lower(#[trigger] s@[p + j]) == cl_name_at(j),
        decreases 15 - k,
    {
        if lower_byte(s[p + k]) != cl_name_byte(k) {
            assert(lower(s@[p + k as int]) != cl_name_at(k as int));
            return false;
        }
        k = k + 1;
    }
    true
}

fn is_ws_byte(b: u8) -> (r: bool)
    ensures
        r == is_ws(b),
{
    b == 32 || b == 9 || b == 10 || b == 11 || b == 12 || b == 13
}

fn parse_trimmed(raw: &Vec<u8>) -> (r: Option<usize>)
    ensures
        match r {
            Option::Some(v) => parse_usize_spec(trim(raw@)) == Option::Some(v as int),
            Option::None => parse_usize_spec(trim(raw@)) is None,
        },
{
    let n = raw.len();
    proof {
        assert(raw@.subrange(0, n as int) =~= raw@);
    }
    let mut lo: usize = 0;
    while lo < n && is_ws_byte(raw[lo])
        invariant
            lo <= n,
            n == raw@.len(),
            trim_front(raw@) == trim_front(raw@.subrange(lo as int, n as int)),
        decreases n - lo,
    {
        proof {
            let sub = raw@.subrange(lo as int, n as int);
            assert(sub.drop_first() =~= raw@.subrange(lo as int + 1, n as int));
        }
        lo = lo + 1;
    }
    proof {
        let sub = raw@.subrange(lo as int, n as int);
        assert(trim_front(sub) == sub);
        assert(trim(raw@) == trim_back(sub));
    }
    let mut hi: usize = n;
    while hi > lo && is_ws_byte(raw[hi - 1])
        invariant
            lo <= hi <= n,
            n == raw@.len(),
            trim(raw@) == trim_back(raw@.subrange(lo as int, hi as int)),
        decreases hi,
    {
        proof {
            let sub = raw@.subrange(lo as int, hi as int);
            assert(sub.last() == raw@[hi - 1]);
            assert(sub.drop_last() =~= raw@.subrange(lo as int, hi as int - 1));
        }
        hi = hi - 1;
    }
    proof {
        let sub = raw@.subrange(lo as int, hi as int);
        assert(trim_back(sub) == sub);
        assert(trim(raw@) == sub);
    }
    let ghost t = raw@.subrange(lo as int, hi as int);
    let mut d_lo: usize = lo;
    if hi > lo && raw[lo] == 43 {
        d_lo = lo + 1;
        proof {
            assert(t[0] == 43u8);
            assert(t.drop_first() =~= raw@.subrange(d_lo as int, hi as int));
        }
    }
    let ghost d = raw@.subrange(d_lo as int, hi as int);
    proof {
        if t.len() > 0 && t[0] == 43u8 {
            assert(d == t.drop_first());
        } else {
            assert(d == t);
        }
    }
    if d_lo == hi {
        assert(d.len() == 0);
        return None;
    }
    let mut acc: usize = 0;
    let mut k: usize = d_lo;
    while k < hi
        invariant
            d_lo <= k <= hi <= n,
            n == raw@.len(),
            d == raw@.subrange(d_lo as int, hi as int),
            d.len() == hi - d_lo,
            d.len() > 0,
            trim(raw@) == t,
            d == (if t.len() > 0 && t[0] == 43u8 { t.drop_first() } else { t }),
            all_digits(d.take(k - d_lo)),
            acc == dec_val(d.take(k - d_lo)),
        decreases hi - k,
    {
        let b = raw[k];
        assert(d[k - d_lo] == b);
        if b < 48 || b > 57 {
            assert(!is_digit(d[k - d_lo]));
            assert(!all_digits(d));
            return None;
        }
        let v = b - 48;
        proof {
            let t1 = d.take(k - d_lo + 1);
            assert(t1.drop_last() =~= d.take(k - d_lo));
            assert(t1.last() == d[k - d_lo]);
            assert(all_digits(t1)) by {
                assert(forall|i: int| 0 <= i < t1.len() - 1 ==> t1[i] == d.take(k - d_lo)[i]);
            }
        }
        let m = acc.checked_mul(10);
        match m {
            Option::None => {
                proof {
                    lemma_dec_val_nonneg(d.take(k - d_lo));
                    assert(dec_val(d.take(k - d_lo + 1)) > usize::MAX);
                    if all_digits(d) {
                        lemma_dec_val_prefix(d, k - d_lo + 1);
                    }
                }
                return None;
            },
            Option::Some(m10) => {
                let a = m10.checked_add(v as usize);
                match a {
                    Option::None => {
                        proof {
                            assert(dec_val(d.take(k - d_lo + 1)) > usize::MAX);
                            if all_digits(d) {
                                lemma_dec_val_prefix(d, k - d_lo + 1);
                            }
                        }
                        return None;
                    },
                    Option::Some(sum) => {
                        acc = sum;
                    },
                }
            },
        }
        k = k + 1;
    }
    proof {
        assert(d.take(hi - d_lo) =~= d);
    }
    Some(acc)
}

/// Parses the declared content length out of a raw response, per
/// `content_length_spec`.
pub fn content_length_of(response: &Vec<u8>) -> (r: Option<usize>)
    ensures
        match r {
            Option::Some(v) => content_length_spec(response@) == Option::Some(v as int),
            Option::None => content_length_spec(response@) is None,
        },
{
    let n = response.len();
    if n < 15 {
        assert(find_cl_from(response@, 0) is None);
        return None;
    }
    let mut p: usize = 0;
    let mut found: bool = false;
    while !found && p <= n - 15
        invariant
            15 <= n,
            n == response@.len(),
            p <= n - 14,
            find_cl_from(response@, 0) == find_cl_from(response@, p as int),
            found ==> cl_at(response@, p as int) && p <= n - 15,
        decreases n - p + (if found { 0int } else { 1int }),
    {
        let boundary = p == 0 || response[p - 1] == 10;
        if boundary && matches_cl_name(response, p) {
            assert(cl_at(response@, p as int));
            found = true;
        } else {
            assert(!cl_at(response@, p as int));
            p = p + 1;
        }
    }
    if !found {
        assert(find_cl_from(response@, p as int) is None);
        return None;
    }
    assert(find_cl_from(response@, 0) == Some(p as int));
    let mut q: usize = p + 15;
    while q < n && response[q] != 10 && response[q] != 58
        invariant
            p + 15 <= q <= n,
            n == response@.len(),
            value_end_from(response@, p + 15) == value_end_from(response@, q as int),
        decreases n - q,
    {
        q = q + 1;
    }
    assert(value_end_from(response@, p + 15) == q as int);
    let mut raw: Vec<u8> = Vec::new();
    let mut k: usize = p + 15;
    while k < q
        invariant
            p + 15 <= k <= q <= n,
            n == response@.len(),
            raw@ =~= response@.subrange(p + 15, k as int),
        decreases q - k,
    {
        raw.push(response[k]);
        k = k + 1;
    }
    assert(raw@ == response@.subrange(p + 15, value_end_from(response@, p + 15)));
    parse_trimmed(&raw)
}

/// The Size Discoverer's decision on a drained discovery response: the
/// declared content length, or the failure that aborts the run before any
/// chunk is fetched.
pub fn discover_size(response: &Vec<u8>) -> (r: Result<usize, FetchError>)
    ensures
        match r {
            Result::Ok(v) => content_length_spec(response@) == Option::Some(v as int),
            Result::Err(e) => e == FetchError::MissingLength
                && content_length_spec(response@) is None,
        },
{
    match content_length_of(response) {
        Option::Some(v) => Ok(v),
        Option::None => Err(FetchError::MissingLength),
    }
}

} // verus!
