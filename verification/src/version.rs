//! Version-string comparison: split on dots, read each segment as a
//! non-negative integer (a segment that is not all digits counts as zero),
//! pad the shorter sequence with zeros, and compare element-wise.
//!
//! This is deliberately not full semantic-versioning order: pre-release and
//! build-metadata tags have no special meaning here.

use vstd::prelude::*;
use vstd::string::StrSliceExecFns;

use crate::digits::all_digits;
use crate::digits::digit_val;
use crate::digits::digits_val;
use crate::digits::is_digit_char;
use crate::digits::is_numeric_seg;
use crate::digits::lemma_digits_cmp_by_len;
use crate::digits::lemma_digits_cmp_first_diff;
use crate::digits::lemma_digits_val_strip;
use crate::text::split_on;
use crate::text::split_string;

verus! {

/// The number a version segment denotes: its digit value if it is all
/// digits, and zero otherwise.
pub open spec fn seg_val(s: Seq<char>) -> nat {
    if is_numeric_seg(s) {
        digits_val(s)
    } else {
        0
    }
}

/// The numbers denoted by the dot-separated segments of a version string.
pub open spec fn version_segments(s: Seq<char>) -> Seq<nat> {
    split_on(s, '.').map_values(|seg: Seq<char>| seg_val(seg))
}

/// The segment at position `i`, reading zero past the end.
pub open spec fn seg_at(v: Seq<nat>, i: int) -> nat {
    if 0 <= i < v.len() {
        v[i]
    } else {
        0
    }
}

/// `lat` is newer than `cur`, deciding at the first position from `i` on
/// where the zero-padded segment sequences differ.
pub open spec fn newer_from(cur: Seq<nat>, lat: Seq<nat>, i: int) -> bool
    decreases cur.len() + lat.len() - i + 1,
{
    if i >= cur.len() && i >= lat.len() {
        false
    } else if seg_at(lat, i) > seg_at(cur, i) {
        true
    } else if seg_at(lat, i) < seg_at(cur, i) {
        false
    } else {
        newer_from(cur, lat, i + 1)
    }
}

/// The latest version string is strictly newer than the current one.
pub open spec fn is_newer(current: Seq<char>, latest: Seq<char>) -> bool {
    newer_from(version_segments(current), version_segments(latest), 0)
}

proof fn lemma_newer_from_unfold(cur: Seq<nat>, lat: Seq<nat>, i: int)
    requires
        0 <= i,
    ensures
        newer_from(cur, lat, i) <==> exists|k: int|
            i <= k && seg_at(lat, k) > seg_at(cur, k) && (forall|j: int|
                i <= j < k ==> seg_at(lat, j) == seg_at(cur, j)),
    decreases cur.len() + lat.len() - i + 1,
{
    if i >= cur.len() && i >= lat.len() {
        // Past both ends every padded segment is zero, so no position wins.
        assert forall|k: int|
            !(i <= k && seg_at(lat, k) > seg_at(cur, k) && (forall|j: int|
                i <= j < k ==> seg_at(lat, j) == seg_at(cur, j))) by {
            if i <= k {
                assert(seg_at(lat, k) == 0 && seg_at(cur, k) == 0);
            }
        }
    } else if seg_at(lat, i) > seg_at(cur, i) {
        assert(i <= i && seg_at(lat, i) > seg_at(cur, i) && (forall|j: int|
            i <= j < i ==> seg_at(lat, j) == seg_at(cur, j)));
    } else if seg_at(lat, i) < seg_at(cur, i) {
        assert forall|k: int|
            !(i <= k && seg_at(lat, k) > seg_at(cur, k) && (forall|j: int|
                i <= j < k ==> seg_at(lat, j) == seg_at(cur, j))) by {
            if i < k && (forall|j: int| i <= j < k ==> seg_at(lat, j) == seg_at(cur, j)) {
                assert(seg_at(lat, i) == seg_at(cur, i));
            }
        }
    } else {
        lemma_newer_from_unfold(cur, lat, i + 1);
        if newer_from(cur, lat, i + 1) {
            let k = choose|k: int|
                i + 1 <= k && seg_at(lat, k) > seg_at(cur, k) && (forall|j: int|
                    i + 1 <= j < k ==> seg_at(lat, j) == seg_at(cur, j));
            assert(i <= k && seg_at(lat, k) > seg_at(cur, k) && (forall|j: int|
                i <= j < k ==> seg_at(lat, j) == seg_at(cur, j)));
        } else {
            assert forall|k: int|
                !(i <= k && seg_at(lat, k) > seg_at(cur, k) && (forall|j: int|
                    i <= j < k ==> seg_at(lat, j) == seg_at(cur, j))) by {
                if i <= k && seg_at(lat, k) > seg_at(cur, k) {
                    if k == i {
                    } else {
                        if (forall|j: int| i <= j < k ==> seg_at(lat, j) == seg_at(cur, j)) {
                            assert(forall|j: int|
                                i + 1 <= j < k ==> seg_at(lat, j) == seg_at(cur, j));
                        }
                    }
                }
            }
        }
    }
}

/// The comparison is true exactly when the zero-padded segment sequence of
/// the latest version is lexicographically greater than that of the current
/// one: some position holds a greater segment while all earlier positions
/// agree.
pub proof fn lemma_newer_iff_lex_greater(current: Seq<char>, latest: Seq<char>)
    ensures
        is_newer(current, latest) <==> exists|k: int|
            0 <= k && seg_at(version_segments(latest), k) > seg_at(version_segments(current), k)
                && (forall|j: int|
                0 <= j < k ==> seg_at(version_segments(latest), j) == seg_at(
                    version_segments(current),
                    j,
                )),
{
    lemma_newer_from_unfold(version_segments(current), version_segments(latest), 0);
}

/// Compare the numbers denoted by two segments; the result is the sign of
/// `seg_val(a) - seg_val(b)`.
fn seg_cmp(a: &str, b: &str) -> (c: i32)
    ensures
        c == 1 ==> seg_val(a@) > seg_val(b@),
        c == -1 ==> seg_val(a@) < seg_val(b@),
        c == 0 ==> seg_val(a@) == seg_val(b@),
        c == 1 || c == -1 || c == 0,
{
    let (a_num, a_start, a_len) = seg_scan(a);
    let (b_num, b_start, b_len) = seg_scan(b);
    let ghost na = norm_of(a@);
    let ghost nb = norm_of(b@);
    proof {
        lemma_seg_val_is_norm(a@);
        lemma_seg_val_is_norm(b@);
    }
    let a_eff = if a_num {
        a_len - a_start
    } else {
        0
    };
    let b_eff = if b_num {
        b_len - b_start
    } else {
        0
    };
    proof {
        assert(na.len() == a_eff);
        assert(nb.len() == b_eff);
    }
    if a_eff < b_eff {
        proof {
            lemma_digits_cmp_by_len(na, nb);
        }
        return -1;
    }
    if b_eff < a_eff {
        proof {
            lemma_digits_cmp_by_len(nb, na);
        }
        return 1;
    }
    if a_eff == 0 {
        proof {
            assert(na =~= nb);
        }
        return 0;
    }
    // Equal-length digit strings: the first differing digit decides.
    let mut k: usize = 0;
    while k < a_eff
        invariant
            a_num && b_num,
            a_len == a@.len(),
            b_len == b@.len(),
            a_start <= a_len,
            b_start <= b_len,
            a_eff == a_len - a_start,
            a_eff == b_len - b_start,
            0 <= k <= a_eff,
            na == a@.subrange(a_start as int, a_len as int),
            nb == b@.subrange(b_start as int, b_len as int),
            all_digits(na),
            all_digits(nb),
            seg_val(a@) == digits_val(na),
            seg_val(b@) == digits_val(nb),
            forall|j: int| 0 <= j < k ==> na[j] == nb[j],
        decreases a_eff - k,
    {
        let ca = a.get_char(a_start + k);
        let cb = b.get_char(b_start + k);
        let cau = ca as u32;
        let cbu = cb as u32;
        proof {
            assert(na[k as int] == a@[a_start + k]);
            assert(nb[k as int] == b@[b_start + k]);
        }
        if cau < cbu {
            proof {
                lemma_digits_cmp_first_diff(na, nb, k as int);
            }
            return -1;
        }
        if cbu < cau {
            proof {
                lemma_digits_cmp_first_diff(nb, na, k as int);
            }
            return 1;
        }
        proof {
            // Equal code points mean equal characters at this position.
            assert(ca == cb);
        }
        k += 1;
    }
    proof {
        assert(na =~= nb);
    }
    0
}

/// The normal form a segment denotes: its digits with leading zeros removed
/// if it is numeric, and the empty string otherwise.
spec fn norm_of(s: Seq<char>) -> Seq<char> {
    if is_numeric_seg(s) {
        s.subrange(zeros_prefix(s, 0), s.len() as int)
    } else {
        Seq::empty()
    }
}

/// Length of the run of zero digits at the start of `s`, scanning from `i`.
spec fn zeros_prefix(s: Seq<char>, i: int) -> int
    decreases s.len() - i + 1,
{
    if 0 <= i < s.len() && digit_val(s[i]) == 0 && is_digit_char(s[i]) {
        zeros_prefix(s, i + 1)
    } else {
        i
    }
}

proof fn lemma_zeros_prefix_bounds(s: Seq<char>, i: int)
    requires
        0 <= i <= s.len(),
    ensures
        i <= zeros_prefix(s, i) <= s.len(),
        forall|j: int| i <= j < zeros_prefix(s, i) ==> digit_val(s[j]) == 0,
        zeros_prefix(s, i) < s.len() ==> !(digit_val(s[zeros_prefix(s, i)]) == 0 && is_digit_char(
            s[zeros_prefix(s, i)],
        )),
    decreases s.len() - i + 1,
{
    if 0 <= i < s.len() && digit_val(s[i]) == 0 && is_digit_char(s[i]) {
        lemma_zeros_prefix_bounds(s, i + 1);
    }
}

proof fn lemma_seg_val_is_norm(s: Seq<char>)
    ensures
        seg_val(s) == digits_val(norm_of(s)),
        all_digits(norm_of(s)),
        norm_of(s).len() > 0 ==> digit_val(norm_of(s)[0]) != 0,
{
    if is_numeric_seg(s) {
        lemma_zeros_prefix_bounds(s, 0);
        let z = zeros_prefix(s, 0);
        lemma_digits_val_strip(s, z);
    }
}

/// Scan a segment: whether it is all digits and non-empty, the index of its
/// first non-zero digit (its length if all zeros), and its length.
fn seg_scan(s: &str) -> (r: (bool, usize, usize))
    ensures
        r.1 <= r.2,
        r.2 == s@.len(),
        r.0 == is_numeric_seg(s@),
        r.0 ==> r.1 == zeros_prefix(s@, 0),
        r.0 ==> norm_of(s@) == s@.subrange(r.1 as int, r.2 as int),
{
    let len = s.unicode_len();
    if len == 0 {
        return (false, 0, 0);
    }
    let mut i: usize = 0;
    while i < len
        invariant
            len == s@.len(),
            0 <= i <= len,
            forall|j: int| 0 <= j < i ==> is_digit_char(s@[j]),
        decreases len - i,
    {
        let cu = s.get_char(i) as u32;
        if cu < 48 || cu > 57 {
            return (false, 0, len);
        }
        i += 1;
    }
    assert(is_numeric_seg(s@));
    let mut z: usize = 0;
    while z < len
        invariant
            len == s@.len(),
            is_numeric_seg(s@),
            0 <= z <= len,
            zeros_prefix(s@, 0) == zeros_prefix(s@, z as int),
        decreases len - z,
    {
        let cu = s.get_char(z) as u32;
        if cu != 48 {
            proof {
                assert(digit_val(s@[z as int]) != 0);
                assert(zeros_prefix(s@, z as int) == z);
            }
            return (true, z, len);
        }
        proof {
            assert(digit_val(s@[z as int]) == 0 && is_digit_char(s@[z as int]));
            assert(zeros_prefix(s@, z as int) == zeros_prefix(s@, z + 1));
        }
        z += 1;
    }
    proof {
        assert(zeros_prefix(s@, len as int) == len);
    }
    (true, len, len)
}

/// Decide whether `latest` is strictly newer than `current`.
///
/// True exactly when the zero-padded, dot-segment, integer-parsed sequence
/// of `latest` is lexicographically greater than that of `current`.
pub fn is_newer_version(current: &str, latest: &str) -> (b: bool)
    ensures
        b == is_newer(current@, latest@),
{
    let cur_segs = split_string(current, '.');
    let lat_segs = split_string(latest, '.');
    let ghost vc = version_segments(current@);
    let ghost vl = version_segments(latest@);
    proof {
        assert(cur_segs.deep_view().map_values(|seg: Seq<char>| seg_val(seg)) == vc);
        assert(lat_segs.deep_view().map_values(|seg: Seq<char>| seg_val(seg)) == vl);
    }
    let n_cur = cur_segs.len();
    let n_lat = lat_segs.len();
    let n = if n_cur > n_lat {
        n_cur
    } else {
        n_lat
    };
    let mut i: usize = 0;
    while i < n
        invariant
            n_cur == cur_segs.len(),
            n_lat == lat_segs.len(),
            n == if n_cur > n_lat {
                n_cur
            } else {
                n_lat
            },
            0 <= i <= n,
            vc == version_segments(current@),
            vl == version_segments(latest@),
            vc.len() == n_cur,
            vl.len() == n_lat,
            cur_segs.deep_view().map_values(|seg: Seq<char>| seg_val(seg)) == vc,
            lat_segs.deep_view().map_values(|seg: Seq<char>| seg_val(seg)) == vl,
            newer_from(vc, vl, 0) == newer_from(vc, vl, i as int),
        decreases n - i,
    {
        let ca = if i < n_cur {
            cur_segs[i].as_str()
        } else {
            ""
        };
        let la = if i < n_lat {
            lat_segs[i].as_str()
        } else {
            ""
        };
        proof {
            reveal_strlit("");
            if i < n_cur {
                assert(cur_segs.deep_view()[i as int] == cur_segs@[i as int]@);
                assert(seg_at(vc, i as int) == seg_val(ca@));
            } else {
                assert(seg_at(vc, i as int) == 0);
                assert(seg_val(ca@) == 0);
            }
            if i < n_lat {
                assert(lat_segs.deep_view()[i as int] == lat_segs@[i as int]@);
                assert(seg_at(vl, i as int) == seg_val(la@));
            } else {
                assert(seg_at(vl, i as int) == 0);
                assert(seg_val(la@) == 0);
            }
        }
        let c = seg_cmp(la, ca);
        if c == 1 {
            assert(newer_from(vc, vl, i as int));
            return true;
        }
        if c == -1 {
            assert(!newer_from(vc, vl, i as int));
            return false;
        }
        assert(newer_from(vc, vl, i as int) == newer_from(vc, vl, i + 1));
        i += 1;
    }
    assert(i >= vc.len() && i >= vl.len());
    assert(!newer_from(vc, vl, i as int));
    false
}

} // verus!
