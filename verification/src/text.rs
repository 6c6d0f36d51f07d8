//! Byte-level text helpers: ASCII classification, trimming, substring
//! search and unsigned decimal parsing, as robots files use them.

use vstd::prelude::*;
use vstd::slice::slice_subrange;

verus! {

/// An ASCII decimal digit.
pub open spec fn is_digit(b: u8) -> bool {
    48 <= b <= 57
}

/// Every byte of `s` is an ASCII decimal digit.
pub open spec fn all_digits(s: Seq<u8>) -> bool {
    forall|i: int| 0 <= i < s.len() ==> is_digit(#[trigger] s[i])
}

/// The number a digit string denotes, most significant digit first.
pub open spec fn digits_value(s: Seq<u8>) -> nat
    decreases s.len(),
{
    if s.len() == 0 {
        0
    } else {
        digits_value(s.drop_last()) * 10 + ((s.last() - 48) as nat)
    }
}

/// What `str::parse::<u64>` accepts: an optional leading `+`, then at
/// least one digit, denoting a value that fits in a `u64`.
pub open spec fn parsed_u64(s: Seq<u8>) -> Option<u64> {
    let d = if s.len() > 0 && s[0] == 43 {
        s.subrange(1, s.len() as int)
    } else {
        s
    };
    if d.len() > 0 && all_digits(d) && digits_value(d) <= u64::MAX {
        Some(digits_value(d) as u64)
    } else {
        None
    }
}

/// Appending digits never lowers the denoted value.
proof fn lemma_digits_value_grows(s: Seq<u8>, t: Seq<u8>)
    ensures
        digits_value(s + t) >= digits_value(s),
    decreases t.len(),
{
    if t.len() == 0 {
        assert(s + t =~= s);
    } else {
        lemma_digits_value_grows(s, t.drop_last());
        assert((s + t).drop_last() =~= s + t.drop_last());
        assert(digits_value(s + t) == digits_value(s + t.drop_last()) * 10 + (((s + t).last()
            - 48) as nat));
    }
}

/// Parse an unsigned decimal number as `str::parse::<u64>` would:
/// an optional `+` sign, then digits; reject anything else, the empty
/// string, and values past `u64::MAX`.
pub fn parse_u64_ascii(s: &[u8]) -> (r: Option<u64>)
    ensures
        r == parsed_u64(s@),
{
    let ghost whole = s@;
    let start: usize = if s.len() > 0 && s[0] == 43 {
        1
    } else {
        0
    };
    let ghost d = whole.subrange(start as int, whole.len() as int);
    proof {
        if whole.len() > 0 && whole[0] == 43 {
            assert(d =~= whole.subrange(1, whole.len() as int));
        } else {
            assert(d =~= whole);
        }
    }
    if s.len() == start {
        return None;
    }
    let mut val: u64 = 0;
    let mut i: usize = start;
    while i < s.len()
        invariant
            start <= i <= s.len(),
            s.len() > start,
            start == if whole.len() > 0 && whole[0] == 43 {
                1usize
            } else {
                0usize
            },
            d == whole.subrange(start as int, whole.len() as int),
            d == if whole.len() > 0 && whole[0] == 43 {
                whole.subrange(1, whole.len() as int)
            } else {
                whole
            },
            whole == s@,
            all_digits(whole.subrange(start as int, i as int)),
            val == digits_value(whole.subrange(start as int, i as int)),
        decreases s.len() - i,
    {
        let b = s[i];
        if b < 48 || b > 57 {
            proof {
                assert(d[i - start] == whole[i as int]);
                assert(!is_digit(d[i - start]));
            }
            return None;
        }
        let digit = (b - 48) as u64;
        let ghost pre = whole.subrange(start as int, i as int);
        let ghost ext = whole.subrange(start as int, i + 1 as int);
        proof {
            assert(ext.drop_last() =~= pre);
            assert(ext.last() == b);
            assert(digits_value(ext) == digits_value(pre) * 10 + digit);
        }
        let stepped = match val.checked_mul(10) {
            Some(m) => m.checked_add(digit),
            None => None,
        };
        match stepped {
            Some(n) => {
                val = n;
            },
            None => {
                proof {
                    assert(digits_value(ext) > u64::MAX);
                    let rest = whole.subrange(i + 1 as int, whole.len() as int);
                    assert(d =~= ext + rest);
                    lemma_digits_value_grows(ext, rest);
                    assert(digits_value(d) > u64::MAX);
                }
                return None;
            },
        }
        i = i + 1;
    }
    proof {
        assert(whole.subrange(start as int, i as int) =~= d);
    }
    Some(val)
}

/// The needle `n` occurs in `h` starting at position `i`.
pub open spec fn matches_at(h: Seq<u8>, n: Seq<u8>, i: int) -> bool {
    0 <= i && i + n.len() <= h.len() && h.subrange(i, i + n.len()) == n
}

/// The needle `n` occurs somewhere in `h`.
pub open spec fn contains_seq(h: Seq<u8>, n: Seq<u8>) -> bool {
    exists|i: int| matches_at(h, n, i)
}

/// Substring search: does `n` occur in `h`?
pub fn contains_bytes(h: &[u8], n: &[u8]) -> (r: bool)
    ensures
        r == contains_seq(h@, n@),
{
    if n.len() > h.len() {
        proof {
            assert(forall|i: int| !matches_at(h@, n@, i));
        }
        return false;
    }
    let mut i: usize = 0;
    while i <= h.len() - n.len()
        invariant
            n@.len() <= h@.len(),
            h@.len() <= usize::MAX,
            i <= h@.len() - n@.len() + 1,
            forall|ii: int| 0 <= ii < i ==> !matches_at(h@, n@, ii),
        decreases h.len() - i,
    {
        let mut j: usize = 0;
        while j < n.len() && h[i + j] == n[j]
            invariant
                n@.len() <= h@.len(),
                h@.len() <= usize::MAX,
                i + n@.len() <= h@.len(),
                j <= n@.len(),
                forall|jj: int| 0 <= jj < j ==> h@[i + jj] == n@[jj],
            decreases n.len() - j,
        {
            j = j + 1;
        }
        if j == n.len() {
            proof {
                assert(h@.subrange(i as int, i + n@.len()) =~= n@);
                assert(matches_at(h@, n@, i as int));
            }
            return true;
        }
        proof {
            assert(h@.subrange(i as int, i + n@.len())[j as int] != n@[j as int]);
            assert(!matches_at(h@, n@, i as int));
        }
        i = i + 1;
    }
    proof {
        assert forall|ii: int| !matches_at(h@, n@, ii) by {
            if ii >= i {
                assert(ii + n@.len() > h@.len());
            }
        }
    }
    false
}

/// What follows the last occurrence of `b` in `s`; all of `s` when `b`
/// does not occur, as the last piece of a split at `b` is.
pub open spec fn tail_after_last(s: Seq<u8>, b: u8) -> Seq<u8>
    decreases s.len(),
{
    if s.len() == 0 {
        s
    } else if s.last() == b {
        Seq::empty()
    } else {
        tail_after_last(s.drop_last(), b).push(s.last())
    }
}

proof fn lemma_tail_after_last_none(s: Seq<u8>, b: u8)
    requires
        forall|j: int| 0 <= j < s.len() ==> s[j] != b,
    ensures
        tail_after_last(s, b) == s,
    decreases s.len(),
{
    if s.len() > 0 {
        lemma_tail_after_last_none(s.drop_last(), b);
        assert(tail_after_last(s, b) =~= s);
    }
}

proof fn lemma_tail_after_last_at(s: Seq<u8>, b: u8, c: int)
    requires
        0 <= c < s.len(),
        s[c] == b,
        forall|j: int| c < j < s.len() ==> s[j] != b,
    ensures
        tail_after_last(s, b) == s.subrange(c + 1, s.len() as int),
    decreases s.len(),
{
    if c == s.len() - 1 {
        assert(tail_after_last(s, b) =~= s.subrange(c + 1, s.len() as int));
    } else {
        lemma_tail_after_last_at(s.drop_last(), b, c);
        assert(tail_after_last(s, b) =~= s.subrange(c + 1, s.len() as int));
    }
}

/// The piece of `s` after its last `b`, as `split(b).last()` yields it.
pub fn tail_after_last_byte<'a>(s: &'a [u8], b: u8) -> (r: &'a [u8])
    ensures
        r@ == tail_after_last(s@, b),
{
    let mut k: usize = s.len();
    while k > 0 && s[k - 1] != b
        invariant
            k <= s@.len(),
            forall|j: int| k <= j < s@.len() ==> s@[j] != b,
        decreases k,
    {
        k = k - 1;
    }
    proof {
        if k == 0 {
            lemma_tail_after_last_none(s@, b);
        } else {
            lemma_tail_after_last_at(s@, b, k - 1);
        }
    }
    slice_subrange(s, k, s.len())
}

/// ASCII whitespace, as a byte: space, tab, line feed, vertical tab,
/// form feed or carriage return.
pub open spec fn is_ascii_space(b: u8) -> bool {
    b == 32 || 9 <= b <= 13
}

/// `s` with leading ASCII whitespace removed.
pub open spec fn trim_front(s: Seq<u8>) -> Seq<u8>
    decreases s.len(),
{
    if s.len() > 0 && is_ascii_space(s[0]) {
        trim_front(s.drop_first())
    } else {
        s
    }
}

/// `s` with trailing ASCII whitespace removed.
pub open spec fn trim_back(s: Seq<u8>) -> Seq<u8>
    decreases s.len(),
{
    if s.len() > 0 && is_ascii_space(s.last()) {
        trim_back(s.drop_last())
    } else {
        s
    }
}

/// `s` with ASCII whitespace removed from both ends.
pub open spec fn trimmed(s: Seq<u8>) -> Seq<u8> {
    trim_back(trim_front(s))
}

proof fn lemma_trim_front_at(s: Seq<u8>, lo: int)
    requires
        0 <= lo <= s.len(),
        forall|j: int| 0 <= j < lo ==> is_ascii_space(s[j]),
        lo < s.len() ==> !is_ascii_space(s[lo]),
    ensures
        trim_front(s) == s.subrange(lo, s.len() as int),
    decreases lo,
{
    if lo == 0 {
        assert(trim_front(s) =~= s.subrange(0, s.len() as int));
    } else {
        lemma_trim_front_at(s.drop_first(), lo - 1);
        assert(s.drop_first().subrange(lo - 1, s.drop_first().len() as int) =~= s.subrange(
            lo,
            s.len() as int,
        ));
    }
}

proof fn lemma_trim_back_at(s: Seq<u8>, hi: int)
    requires
        0 <= hi <= s.len(),
        forall|j: int| hi <= j < s.len() ==> is_ascii_space(s[j]),
        hi > 0 ==> !is_ascii_space(s[hi - 1]),
    ensures
        trim_back(s) == s.subrange(0, hi),
    decreases s.len() - hi,
{
    if hi == s.len() {
        assert(trim_back(s) =~= s.subrange(0, hi));
    } else {
        lemma_trim_back_at(s.drop_last(), hi);
        assert(s.drop_last().subrange(0, hi) =~= s.subrange(0, hi));
    }
}

/// Remove ASCII whitespace from both ends, as `str::trim` does for
/// ASCII text.
pub fn trim_ascii<'a>(s: &'a [u8]) -> (r: &'a [u8])
    ensures
        r@ == trimmed(s@),
{
    let mut lo: usize = 0;
    while lo < s.len() && (s[lo] == 32 || (9 <= s[lo] && s[lo] <= 13))
        invariant
            lo <= s@.len(),
            forall|j: int| 0 <= j < lo ==> is_ascii_space(s@[j]),
        decreases s.len() - lo,
    {
        lo = lo + 1;
    }
    proof {
        lemma_trim_front_at(s@, lo as int);
    }
    let ghost t = trim_front(s@);
    let mut hi: usize = s.len();
    while hi > lo && (s[hi - 1] == 32 || (9 <= s[hi - 1] && s[hi - 1] <= 13))
        invariant
            lo <= hi <= s@.len(),
            forall|j: int| hi <= j < s@.len() ==> is_ascii_space(s@[j]),
        decreases hi,
    {
        hi = hi - 1;
    }
    proof {
        assert forall|j: int| hi - lo <= j < t.len() implies is_ascii_space(t[j]) by {
            assert(t[j] == s@[j + lo]);
        }
        if hi > lo {
            assert(t[hi - lo - 1] == s@[hi - 1]);
        }
        lemma_trim_back_at(t, hi - lo);
        assert(t.subrange(0, hi - lo) =~= s@.subrange(lo as int, hi as int));
    }
    slice_subrange(s, lo, hi)
}

} // verus!
