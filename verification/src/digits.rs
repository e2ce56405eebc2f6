//! Decimal digit sequences as numbers: values, bounds, and a checked parser.
//!
//! Version segments and HTTP header fields are compared and parsed through
//! these definitions, so the lemmas here relate the numeric value of a digit
//! string to its length and its characters.

use vstd::prelude::*;
use vstd::string::StrSliceExecFns;

verus! {

/// The character is a decimal digit.
pub open spec fn is_digit_char(c: char) -> bool {
    48 <= (c as u32) <= 57
}

/// The numeric value of a digit character; zero for any other character.
pub open spec fn digit_val(c: char) -> nat {
    if is_digit_char(c) {
        ((c as u32) - 48) as nat
    } else {
        0
    }
}

/// Every character of the sequence is a decimal digit.
pub open spec fn all_digits(s: Seq<char>) -> bool {
    forall|i: int| 0 <= i < s.len() ==> is_digit_char(s[i])
}

/// A non-empty sequence of decimal digits.
pub open spec fn is_numeric_seg(s: Seq<char>) -> bool {
    s.len() > 0 && all_digits(s)
}

/// The number denoted by a digit sequence, most significant digit first.
pub open spec fn digits_val(s: Seq<char>) -> nat
    decreases s.len(),
{
    if s.len() == 0 {
        0
    } else {
        digits_val(s.drop_last()) * 10 + digit_val(s.last())
    }
}

/// Ten to the given power.
pub open spec fn pow10(n: nat) -> nat
    decreases n,
{
    if n == 0 {
        1
    } else {
        10 * pow10((n - 1) as nat)
    }
}

pub proof fn lemma_pow10_pos(n: nat)
    ensures
        pow10(n) >= 1,
    decreases n,
{
    if n > 0 {
        lemma_pow10_pos((n - 1) as nat);
    }
}

pub proof fn lemma_pow10_mono(m: nat, n: nat)
    requires
        m <= n,
    ensures
        pow10(m) <= pow10(n),
    decreases n,
{
    if m < n {
        lemma_pow10_mono(m, (n - 1) as nat);
    }
}

/// A digit string of length `n` denotes a number below ten to the `n`.
pub proof fn lemma_digits_val_upper(s: Seq<char>)
    ensures
        digits_val(s) < pow10(s.len()),
    decreases s.len(),
{
    if s.len() > 0 {
        lemma_digits_val_upper(s.drop_last());
    }
}

/// A digit string without a leading zero denotes at least ten to the
/// length minus one.
pub proof fn lemma_digits_val_lower(s: Seq<char>)
    requires
        s.len() > 0,
        all_digits(s),
        digit_val(s[0]) != 0,
    ensures
        digits_val(s) >= pow10((s.len() - 1) as nat),
    decreases s.len(),
{
    if s.len() == 1 {
        assert(digit_val(s[0]) >= 1);
    } else {
        let p = s.drop_last();
        assert(p[0] == s[0]);
        lemma_digits_val_lower(p);
    }
}

/// A leading digit that denotes zero does not change the denoted number.
pub proof fn lemma_digits_val_strip_one(s: Seq<char>)
    requires
        s.len() > 0,
        digit_val(s[0]) == 0,
    ensures
        digits_val(s) == digits_val(s.subrange(1, s.len() as int)),
    decreases s.len(),
{
    if s.len() == 1 {
        assert(s.drop_last().len() == 0);
        assert(digits_val(s.drop_last()) == 0);
        assert(s.last() == s[0]);
        assert(digits_val(s) == digit_val(s[0]));
        assert(s.subrange(1, s.len() as int) =~= Seq::<char>::empty());
        assert(digits_val(s.subrange(1, s.len() as int)) == 0);
    } else {
        let p = s.drop_last();
        assert(p[0] == s[0]);
        lemma_digits_val_strip_one(p);
        let t = s.subrange(1, s.len() as int);
        assert(t.len() == s.len() - 1);
        assert(t.drop_last() =~= p.subrange(1, p.len() as int));
        assert(t.last() == s.last());
        assert(digits_val(t) == digits_val(t.drop_last()) * 10 + digit_val(t.last()));
        assert(digits_val(t.drop_last()) == digits_val(p));
        assert(digits_val(s) == digits_val(p) * 10 + digit_val(s.last()));
    }
}

/// Leading zeros do not change the denoted number.
pub proof fn lemma_digits_val_strip(s: Seq<char>, k: int)
    requires
        0 <= k <= s.len(),
        forall|j: int| 0 <= j < k ==> digit_val(s[j]) == 0,
    ensures
        digits_val(s) == digits_val(s.subrange(k, s.len() as int)),
    decreases k,
{
    if k == 0 {
        assert(s.subrange(0, s.len() as int) =~= s);
    } else {
        lemma_digits_val_strip_one(s);
        let t = s.subrange(1, s.len() as int);
        lemma_digits_val_strip(t, k - 1);
        assert(t.subrange(k - 1, t.len() as int) =~= s.subrange(k, s.len() as int));
    }
}

/// A one-digit string denotes the value of its digit.
pub proof fn lemma_digits_val_singleton(c: char)
    ensures
        digits_val(seq![c]) == digit_val(c),
{
    let s = seq![c];
    assert(s.len() == 1);
    assert(s.last() == c);
    assert(s.drop_last() =~= Seq::<char>::empty());
    assert(digits_val(s.drop_last()) == 0);
}

/// Concatenation shifts the left part by ten to the length of the right part.
pub proof fn lemma_digits_val_append(s: Seq<char>, t: Seq<char>)
    ensures
        digits_val(s + t) == digits_val(s) * pow10(t.len()) + digits_val(t),
    decreases t.len(),
{
    if t.len() == 0 {
        assert(s + t =~= s);
        assert(pow10(t.len()) == 1);
        assert(digits_val(t) == 0);
        assert(digits_val(s) * 1 == digits_val(s));
    } else {
        let t1 = t.drop_last();
        lemma_digits_val_append(s, t1);
        assert((s + t).drop_last() =~= s + t1);
        assert((s + t).last() == t.last());
        let x = digits_val(s);
        let p = pow10(t1.len());
        assert(digits_val(s + t) == digits_val(s + t1) * 10 + digit_val(t.last()));
        assert(digits_val(t) == digits_val(t1) * 10 + digit_val(t.last()));
        assert((x * p) * 10 == x * (p * 10)) by (nonlinear_arith);
        assert(pow10(t.len()) == 10 * pow10(t1.len()));
        assert(x * (p * 10) == x * pow10(t.len()));
        assert(digits_val(s + t) == (x * p + digits_val(t1)) * 10 + digit_val(t.last()));
        assert(digits_val(s + t) == digits_val(s) * pow10(t.len()) + digits_val(t));
    }
}

/// The value of a whole digit string is at least the value of any prefix.
pub proof fn lemma_digits_val_prefix(s: Seq<char>, k: int)
    requires
        0 <= k <= s.len(),
    ensures
        digits_val(s) >= digits_val(s.subrange(0, k)),
{
    let pre = s.subrange(0, k);
    let suf = s.subrange(k, s.len() as int);
    assert(s =~= pre + suf);
    lemma_digits_val_append(pre, suf);
    lemma_pow10_pos(suf.len());
    let x = digits_val(pre);
    let p = pow10(suf.len());
    assert(x * p >= x) by (nonlinear_arith)
        requires
            p >= 1,
            x >= 0,
    ;
}

/// Among digit strings without leading zeros, a longer string denotes a
/// larger number.
pub proof fn lemma_digits_cmp_by_len(a: Seq<char>, b: Seq<char>)
    requires
        all_digits(a),
        all_digits(b),
        a.len() < b.len(),
        digit_val(b[0]) != 0,
    ensures
        digits_val(a) < digits_val(b),
{
    lemma_digits_val_upper(a);
    lemma_digits_val_lower(b);
    lemma_pow10_mono(a.len(), (b.len() - 1) as nat);
}

/// Among equal-length digit strings, the first differing digit decides.
pub proof fn lemma_digits_cmp_first_diff(a: Seq<char>, b: Seq<char>, i: int)
    requires
        all_digits(a),
        all_digits(b),
        a.len() == b.len(),
        0 <= i < a.len(),
        forall|j: int| 0 <= j < i ==> a[j] == b[j],
        digit_val(a[i]) < digit_val(b[i]),
    ensures
        digits_val(a) < digits_val(b),
{
    let len = a.len() as int;
    let pa = a.subrange(0, i);
    let pb = b.subrange(0, i);
    let sa = a.subrange(i, len);
    let sb = b.subrange(i, len);
    assert(pa =~= pb);
    assert(a =~= pa + sa);
    assert(b =~= pb + sb);
    lemma_digits_val_append(pa, sa);
    lemma_digits_val_append(pb, sb);
    // Reduce to the suffixes that start at the differing digit.
    let ra = a.subrange(i + 1, len);
    let rb = b.subrange(i + 1, len);
    assert(sa =~= seq![a[i]] + ra);
    assert(sb =~= seq![b[i]] + rb);
    lemma_digits_val_append(seq![a[i]], ra);
    lemma_digits_val_append(seq![b[i]], rb);
    lemma_digits_val_singleton(a[i]);
    lemma_digits_val_singleton(b[i]);
    let p = pow10(ra.len());
    lemma_digits_val_upper(ra);
    assert(ra.len() == rb.len());
    let da = digit_val(a[i]);
    let db = digit_val(b[i]);
    assert(da * p + p <= db * p) by (nonlinear_arith)
        requires
            da < db,
            p >= 0,
    ;
    assert(digits_val(sa) < digits_val(sb));
    let q = pow10(sa.len());
    assert(digits_val(pa) * q + digits_val(sa) < digits_val(pb) * q + digits_val(sb));
}

/// Parse a non-empty all-digit string into a 64-bit number; anything else,
/// and any value past the 64-bit range, is rejected.
pub fn parse_u64(s: &str) -> (r: Option<u64>)
    ensures
        match r {
            Some(v) => is_numeric_seg(s@) && digits_val(s@) == v as nat,
            None => !is_numeric_seg(s@) || digits_val(s@) > u64::MAX,
        },
{
    let len = s.unicode_len();
    if len == 0 {
        return None;
    }
    let mut acc: u64 = 0;
    let mut i: usize = 0;
    while i < len
        invariant
            len == s@.len(),
            0 <= i <= len,
            forall|j: int| 0 <= j < i ==> is_digit_char(s@[j]),
            acc as nat == digits_val(s@.subrange(0, i as int)),
        decreases len - i,
    {
        let c = s.get_char(i);
        let cu = c as u32;
        if cu < 48 || cu > 57 {
            return None;
        }
        let d = (cu - 48) as u64;
        let ghost pre = s@.subrange(0, i as int);
        let ghost pre1 = s@.subrange(0, i + 1);
        proof {
            assert(pre1.drop_last() =~= pre);
            assert(pre1.last() == s@[i as int]);
            assert(digits_val(pre1) == digits_val(pre) * 10 + digit_val(s@[i as int]));
        }
        let next = match acc.checked_mul(10) {
            Some(m) => m.checked_add(d),
            None => None,
        };
        match next {
            Some(v) => {
                acc = v;
            },
            None => {
                proof {
                    assert(digits_val(pre1) > u64::MAX);
                    lemma_digits_val_prefix(s@, i + 1);
                }
                return None;
            },
        }
        i += 1;
    }
    proof {
        assert(s@.subrange(0, len as int) =~= s@);
    }
    Some(acc)
}

} // verus!
