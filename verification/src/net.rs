//! Address and hostname grammars.  An address is an IPv4 dotted quad or an
//! IPv6 literal (with optional zone identifier and optional embedded IPv4
//! tail); a hostname is a non-empty token of alphanumerics, `-`, `.`, `%`.

use vstd::prelude::*;

use crate::text::{
    all_digits, dec_val, digit_char, hex_digit_char, alnum_char, is_alnum, is_digit, is_hex_digit,
    split, split_s, subvec,
};

verus! {

// ---------------------------------------------------------------------------
// IPv4
// ---------------------------------------------------------------------------

/// One dotted-quad component: one to three digits with value at most 255.
pub open spec fn is_octet(g: Seq<char>) -> bool {
    1 <= g.len() <= 3 && all_digits(g) && dec_val(g) <= 255
}

/// A dotted quad: exactly four octets separated by dots.
pub open spec fn is_ipv4_s(s: Seq<char>) -> bool {
    let ps = split_s(s, '.');
    ps.len() == 4 && forall|i: int| 0 <= i < 4 ==> is_octet(#[trigger] ps[i])
}

fn octet_chars(g: &Vec<char>) -> (r: bool)
    ensures
        r == is_octet(g@),
{
    let n = g.len();
    if n < 1 || n > 3 {
        return false;
    }
    let mut acc: usize = 0;
    let mut i: usize = 0;
    while i < n
        invariant
            i <= n == g@.len(),
            n <= 3,
            forall|k: int| 0 <= k < i ==> is_digit(g@[k]),
            acc as int == dec_val(g@.take(i as int)),
            acc <= 255,
        decreases n - i,
    {
        let c = g[i];
        if !digit_char(c) {
            return false;
        }
        let d: usize = (c as u32 as usize) - ('0' as u32 as usize);
        proof {
            assert(g@.take(i as int) =~= g@.take(i + 1).take(i as int));
        }
        acc = acc * 10 + d;
        i = i + 1;
        if acc > 255 {
            proof {
                assert(g@.take(n as int) =~= g@);
                if all_digits(g@) {
                    crate::text::lemma_dec_val_monotone(g@, i as int, n as int);
                }
            }
            return false;
        }
    }
    proof {
        assert(g@.take(n as int) =~= g@);
    }
    true
}

/// Decides the dotted-quad grammar.
pub fn is_valid_ipv4(v: &Vec<char>) -> (r: bool)
    ensures
        r == is_ipv4_s(v@),
{
    let ps = split(v, '.');
    let n = ps.len();
    if n != 4 {
        return false;
    }
    let mut i: usize = 0;
    while i < n
        invariant
            i <= n == 4,
            ps.deep_view() == split_s(v@, '.'),
            ps@.len() == 4,
            forall|k: int| 0 <= k < i ==> is_octet(#[trigger] ps.deep_view()[k]),
        decreases n - i,
    {
        proof {
            assert(ps[i as int]@ == ps.deep_view()[i as int]);
        }
        if !octet_chars(&ps[i]) {
            return false;
        }
        i = i + 1;
    }
    true
}

// ---------------------------------------------------------------------------
// IPv6
// ---------------------------------------------------------------------------

/// One colon-separated group: one to four hexadecimal digits.
pub open spec fn is_hex_group(g: Seq<char>) -> bool {
    1 <= g.len() <= 4 && forall|i: int| 0 <= i < g.len() ==> is_hex_digit(#[trigger] g[i])
}

fn hex_group_chars(g: &Vec<char>) -> (r: bool)
    ensures
        r == is_hex_group(g@),
{
    let n = g.len();
    if n < 1 || n > 4 {
        return false;
    }
    let mut i: usize = 0;
    while i < n
        invariant
            i <= n == g@.len(),
            forall|k: int| 0 <= k < i ==> is_hex_digit(#[trigger] g@[k]),
        decreases n - i,
    {
        if !hex_digit_char(g[i]) {
            return false;
        }
        i = i + 1;
    }
    true
}

pub open spec fn hex_between(ps: Seq<Seq<char>>, lo: int, hi: int) -> bool {
    forall|j: int| lo <= j < hi ==> is_hex_group(#[trigger] ps[j])
}

pub open spec fn nonempty_between(ps: Seq<Seq<char>>, lo: int, hi: int) -> bool {
    forall|j: int| lo <= j < hi ==> (#[trigger] ps[j]).len() > 0
}

/// The groups `ps[lo..hi]` form a valid run of hex groups whose last element
/// may instead be an embedded dotted quad.
pub open spec fn tail_ok(ps: Seq<Seq<char>>, lo: int, hi: int) -> bool {
    lo >= hi || (hex_between(ps, lo, hi - 1) && (is_hex_group(ps[hi - 1]) || is_ipv4_s(
        ps[hi - 1],
    )))
}

/// How many 16-bit groups `ps[lo..hi]` stand for: an embedded dotted quad
/// at the end counts as two groups.
pub open spec fn tail_weight(ps: Seq<Seq<char>>, lo: int, hi: int) -> int {
    if lo >= hi {
        0
    } else if is_hex_group(ps[hi - 1]) {
        hi - lo
    } else {
        hi - lo + 1
    }
}

/// The colon-separated pieces of a valid IPv6 literal (without zone).
/// Either eight groups with no `::`, or one `::` (seen as adjacent empty
/// pieces, or one inner empty piece) whose remaining groups number at most
/// seven so the gap stands for at least one zero group.
pub open spec fn is_ipv6_parts(ps: Seq<Seq<char>>) -> bool {
    let n = ps.len() as int;
    ||| (nonempty_between(ps, 0, n) && tail_ok(ps, 0, n) && tail_weight(ps, 0, n) == 8)
    ||| (exists|i: int|
        1 <= i <= n - 2 && (#[trigger] ps[i]).len() == 0 && nonempty_between(ps, 0, i)
            && nonempty_between(ps, i + 1, n) && hex_between(ps, 0, i) && tail_ok(ps, i + 1, n)
            && i + tail_weight(ps, i + 1, n) <= 7)
    ||| (n >= 3 && ps[0].len() == 0 && ps[1].len() == 0 && nonempty_between(ps, 2, n) && tail_ok(
        ps,
        2,
        n,
    ) && tail_weight(ps, 2, n) <= 7)
    ||| (n >= 3 && ps[n - 2].len() == 0 && ps[n - 1].len() == 0 && nonempty_between(ps, 0, n - 2)
        && hex_between(ps, 0, n - 2) && n - 2 <= 7)
    ||| (n == 3 && ps[0].len() == 0 && ps[1].len() == 0 && ps[2].len() == 0)
}

// --- counting empty pieces, to connect one scan to the case analysis ---

spec fn count_empty(ps: Seq<Seq<char>>, lo: int, hi: int) -> int
    decreases hi - lo,
{
    if lo >= hi {
        0
    } else {
        count_empty(ps, lo, hi - 1) + if ps[hi - 1].len() == 0 {
            1int
        } else {
            0int
        }
    }
}

proof fn lemma_count_nonneg(ps: Seq<Seq<char>>, lo: int, hi: int)
    ensures
        count_empty(ps, lo, hi) >= 0,
    decreases hi - lo,
{
    if lo < hi {
        lemma_count_nonneg(ps, lo, hi - 1);
    }
}

proof fn lemma_count_split(ps: Seq<Seq<char>>, lo: int, mid: int, hi: int)
    requires
        lo <= mid <= hi,
    ensures
        count_empty(ps, lo, hi) == count_empty(ps, lo, mid) + count_empty(ps, mid, hi),
    decreases hi - mid,
{
    if mid < hi {
        lemma_count_split(ps, lo, mid, hi - 1);
    }
}

proof fn lemma_count_zero(ps: Seq<Seq<char>>, lo: int, hi: int)
    ensures
        count_empty(ps, lo, hi) == 0 <==> nonempty_between(ps, lo, hi),
    decreases hi - lo,
{
    if lo >= hi {
    } else {
        lemma_count_zero(ps, lo, hi - 1);
        lemma_count_nonneg(ps, lo, hi - 1);
    }
}

// --- executable checks over the piece vector ---

fn hex_range(ps: &Vec<Vec<char>>, lo: usize, hi: usize) -> (r: bool)
    requires
        lo <= hi <= ps@.len(),
    ensures
        r == hex_between(ps.deep_view(), lo as int, hi as int),
{
    let mut j: usize = lo;
    while j < hi
        invariant
            lo <= j <= hi <= ps@.len(),
            forall|k: int| lo <= k < j ==> is_hex_group(#[trigger] ps.deep_view()[k]),
        decreases hi - j,
    {
        proof {
            assert(ps[j as int]@ =~= ps.deep_view()[j as int]);
        }
        if !hex_group_chars(&ps[j]) {
            return false;
        }
        j = j + 1;
    }
    true
}

/// Checks `tail_ok` over `ps[lo..hi]` and reports the group weight.
fn tail_check(ps: &Vec<Vec<char>>, lo: usize, hi: usize) -> (r: (bool, usize))
    requires
        lo <= hi <= ps@.len(),
        ps@.len() <= 9,
    ensures
        r.0 == tail_ok(ps.deep_view(), lo as int, hi as int),
        r.0 ==> r.1 as int == tail_weight(ps.deep_view(), lo as int, hi as int),

{
    if lo >= hi {
        return (true, 0);
    }
    if !hex_range(ps, lo, hi - 1) {
        return (false, 0);
    }
    proof {
        assert(ps[hi - 1]@ =~= ps.deep_view()[hi - 1]);
    }
    if hex_group_chars(&ps[hi - 1]) {
        (true, hi - lo)
    } else if is_valid_ipv4(&ps[hi - 1]) {
        (true, hi - lo + 1)
    } else {
        (false, 0)
    }
}

fn ipv6_groups(ps: &Vec<Vec<char>>) -> (r: bool)
    requires
        ps@.len() >= 1,
        ps@.len() <= 9,
    ensures
        r == is_ipv6_parts(ps.deep_view()),
{
    let ghost dv = ps.deep_view();
    let n = ps.len();
    let mut cnt: usize = 0;
    let mut e1: usize = 0;
    let mut e2: usize = 0;
    let mut i: usize = 0;
    while i < n
        invariant
            i <= n == dv.len(),
            dv == ps.deep_view(),
            cnt <= i,
            cnt as int == count_empty(dv, 0, i as int),
            cnt >= 1 ==> e1 < i && dv[e1 as int].len() == 0 && count_empty(dv, 0, e1 as int) == 0,
            cnt >= 2 ==> e1 < e2 && e2 < i && dv[e2 as int].len() == 0 && count_empty(
                dv,
                e1 + 1,
                e2 as int,
            ) == 0,
            cnt == 1 ==> count_empty(dv, e1 + 1, i as int) == 0,
            cnt == 2 ==> count_empty(dv, e2 + 1, i as int) == 0,
        decreases n - i,
    {
        proof {
            assert(ps[i as int]@ =~= dv[i as int]);
        }
        if ps[i].len() == 0 {
            if cnt == 0 {
                e1 = i;
            } else if cnt == 1 {
                e2 = i;
            }
            cnt = cnt + 1;
        }
        i = i + 1;
    }
    proof {
        lemma_count_nonneg(dv, 0, n as int);
    }
    if cnt == 0 {
        proof {
            lemma_count_zero(dv, 0, n as int);
        }
        let (ok, w) = tail_check(ps, 0, n);
        let r = ok && w == 8;
        proof {
            no_empty_cases(dv, r);
        }
        r
    } else if cnt == 1 {
        proof {
            lemma_count_split(dv, 0, e1 as int, n as int);
            lemma_count_split(dv, e1 as int, e1 + 1, n as int);
            lemma_count_zero(dv, 0, e1 as int);
            lemma_count_zero(dv, e1 + 1, n as int);
        }
        if 1 <= e1 && e1 + 2 <= n {
            let hexok = hex_range(ps, 0, e1);
            let (ok, w) = tail_check(ps, e1 + 1, n);
            let r = hexok && ok && e1 + w <= 7;
            proof {
                single_empty_cases(dv, e1 as int, r);
            }
            r
        } else {
            proof {
                single_empty_cases(dv, e1 as int, false);
            }
            false
        }
    } else if cnt == 2 {
        proof {
            lemma_count_split(dv, 0, e1 as int, n as int);
            lemma_count_split(dv, e1 as int, e1 + 1, n as int);
            lemma_count_split(dv, e1 + 1, e2 as int, n as int);
            lemma_count_split(dv, e2 as int, e2 + 1, n as int);
            lemma_count_zero(dv, 0, e1 as int);
            lemma_count_zero(dv, e1 + 1, e2 as int);
            lemma_count_zero(dv, e2 + 1, n as int);
        }
        if e1 == 0 && e2 == 1 && n >= 3 {
            let (ok, w) = tail_check(ps, 2, n);
            let r = ok && w <= 7;
            proof {
                double_empty_cases(dv, e1 as int, e2 as int, r);
            }
            r
        } else if e1 + 2 == n && e2 + 1 == n && n >= 3 {
            let r = hex_range(ps, 0, n - 2) && n - 2 <= 7;
            proof {
                double_empty_cases(dv, e1 as int, e2 as int, r);
            }
            r
        } else {
            proof {
                double_empty_cases(dv, e1 as int, e2 as int, false);
            }
            false
        }
    } else {
        // three or more empty pieces: only the bare `::` (three empty pieces
        // from two colons) is a valid shape
        let r = cnt == 3 && n == 3;
        proof {
            many_empty_cases(dv, cnt as int, r);
        }
        r
    }
}

proof fn no_empty_cases(ps: Seq<Seq<char>>, r: bool)
    requires
        nonempty_between(ps, 0, ps.len() as int),
        r <==> (tail_ok(ps, 0, ps.len() as int) && tail_weight(ps, 0, ps.len() as int) == 8),
    ensures
        r == is_ipv6_parts(ps),
{
    let n = ps.len() as int;
    if !r {
        assert forall|i: int| !(1 <= i <= n - 2 && (#[trigger] ps[i]).len() == 0
            && nonempty_between(ps, 0, i) && nonempty_between(ps, i + 1, n) && hex_between(
            ps,
            0,
            i,
        ) && tail_ok(ps, i + 1, n) && i + tail_weight(ps, i + 1, n) <= 7) by {
            if 1 <= i <= n - 2 {
                assert(ps[i].len() > 0);
            }
        }
        if n >= 3 {
            assert(ps[0].len() > 0);
            assert(ps[1].len() > 0);
            assert(ps[n - 2].len() > 0);
            assert(ps[n - 1].len() > 0);
        }
        assert(!is_ipv6_parts(ps));
    }
}

proof fn single_empty_cases(ps: Seq<Seq<char>>, e: int, r: bool)
    requires
        0 <= e < ps.len(),
        ps[e].len() == 0,
        nonempty_between(ps, 0, e),
        nonempty_between(ps, e + 1, ps.len() as int),
        r <==> (1 <= e <= ps.len() - 2 && hex_between(ps, 0, e) && tail_ok(
            ps,
            e + 1,
            ps.len() as int,
        ) && e + tail_weight(ps, e + 1, ps.len() as int) <= 7),
    ensures
        r == is_ipv6_parts(ps),
{
    let n = ps.len() as int;
    if r {
        assert(is_ipv6_parts(ps));
    } else {
        assert(!nonempty_between(ps, 0, n));
        assert forall|i: int| !(1 <= i <= n - 2 && (#[trigger] ps[i]).len() == 0
            && nonempty_between(ps, 0, i) && nonempty_between(ps, i + 1, n) && hex_between(
            ps,
            0,
            i,
        ) && tail_ok(ps, i + 1, n) && i + tail_weight(ps, i + 1, n) <= 7) by {
            if 1 <= i <= n - 2 && ps[i].len() == 0 && nonempty_between(ps, 0, i)
                && nonempty_between(ps, i + 1, n) {
                if i < e {
                    assert(ps[i].len() > 0);
                } else if i > e {
                    assert(ps[e].len() > 0);
                }
            }
        }
        if n >= 3 && ps[0].len() == 0 && ps[1].len() == 0 {
            // two distinct empty pieces, but only position `e` is empty
            if e == 0 {
                assert(ps[1].len() > 0);
            } else if e == 1 {
                assert(ps[0].len() > 0);
            } else {
                assert(ps[0].len() > 0);
            }
        }
        if n >= 3 && ps[n - 2].len() == 0 && ps[n - 1].len() == 0 {
            if e == n - 2 {
                assert(ps[n - 1].len() > 0);
            } else if e == n - 1 {
                assert(ps[n - 2].len() > 0);
            } else {
                assert(ps[n - 1].len() > 0);
            }
        }
        assert(!is_ipv6_parts(ps));
    }
}

proof fn double_empty_cases(ps: Seq<Seq<char>>, e1: int, e2: int, r: bool)
    requires
        0 <= e1 < e2 < ps.len(),
        ps[e1].len() == 0,
        ps[e2].len() == 0,
        nonempty_between(ps, 0, e1),
        nonempty_between(ps, e1 + 1, e2),
        nonempty_between(ps, e2 + 1, ps.len() as int),
        r <==> ((e1 == 0 && e2 == 1 && ps.len() >= 3 && tail_ok(ps, 2, ps.len() as int)
            && tail_weight(ps, 2, ps.len() as int) <= 7) || (e1 == ps.len() - 2 && e2 == ps.len()
            - 1 && ps.len() >= 3 && hex_between(ps, 0, ps.len() - 2) && ps.len() - 2 <= 7)),
    ensures
        r == is_ipv6_parts(ps),
{
    let n = ps.len() as int;
    if r {
        assert(is_ipv6_parts(ps));
    } else {
        assert(!nonempty_between(ps, 0, n));
        assert forall|i: int| !(1 <= i <= n - 2 && (#[trigger] ps[i]).len() == 0
            && nonempty_between(ps, 0, i) && nonempty_between(ps, i + 1, n) && hex_between(
            ps,
            0,
            i,
        ) && tail_ok(ps, i + 1, n) && i + tail_weight(ps, i + 1, n) <= 7) by {
            if 1 <= i <= n - 2 && ps[i].len() == 0 && nonempty_between(ps, 0, i)
                && nonempty_between(ps, i + 1, n) {
                if i == e1 {
                    assert(ps[e2].len() > 0);
                } else if i == e2 {
                    assert(ps[e1].len() > 0);
                } else if i < e1 {
                    assert(ps[i].len() > 0);
                } else if i < e2 {
                    assert(ps[i].len() > 0);
                } else {
                    assert(ps[i].len() > 0);
                }
            }
        }
        if n >= 3 && ps[0].len() == 0 && ps[1].len() == 0 {
            // the empty pieces are exactly e1 and e2
            if e1 != 0 {
                assert(ps[0].len() > 0);
            }
            if e1 == 0 && e2 != 1 {
                assert(ps[1].len() > 0);
            }
        }
        if n >= 3 && ps[n - 2].len() == 0 && ps[n - 1].len() == 0 {
            if e2 != n - 1 {
                assert(ps[n - 1].len() > 0);
            }
            if e2 == n - 1 && e1 != n - 2 {
                assert(ps[n - 2].len() > 0);
            }
        }
        if n == 3 && ps[0].len() == 0 && ps[1].len() == 0 && ps[2].len() == 0 {
            // three empty pieces, but only two positions are empty
            if e1 != 0 {
                assert(ps[0].len() > 0);
            } else if e2 != 1 {
                assert(ps[1].len() > 0);
            } else {
                assert(ps[2].len() > 0);
            }
        }
        assert(!is_ipv6_parts(ps));
    }
}

proof fn many_empty_cases(ps: Seq<Seq<char>>, cnt: int, r: bool)
    requires
        cnt >= 3,
        cnt == count_empty(ps, 0, ps.len() as int),
        r <==> (cnt == 3 && ps.len() == 3),
    ensures
        r == is_ipv6_parts(ps),
{
    let n = ps.len() as int;
    if r {
        assert(count_empty(ps, 0, 3) == count_empty(ps, 0, 2) + if ps[2].len() == 0 {
            1int
        } else {
            0int
        });
        assert(count_empty(ps, 0, 2) == count_empty(ps, 0, 1) + if ps[1].len() == 0 {
            1int
        } else {
            0int
        });
        assert(count_empty(ps, 0, 0) == 0);
        assert(count_empty(ps, 0, 1) == if ps[0].len() == 0 {
            1int
        } else {
            0int
        });
        assert(ps[0].len() == 0 && ps[1].len() == 0 && ps[2].len() == 0);
        assert(is_ipv6_parts(ps));
    } else {
        // whichever shape held, the empty pieces would number at most three,
        // and exactly three only for the bare `::`
        if nonempty_between(ps, 0, n) {
            lemma_count_zero(ps, 0, n);
        }
        assert forall|i: int| !(1 <= i <= n - 2 && (#[trigger] ps[i]).len() == 0
            && nonempty_between(ps, 0, i) && nonempty_between(ps, i + 1, n) && hex_between(
            ps,
            0,
            i,
        ) && tail_ok(ps, i + 1, n) && i + tail_weight(ps, i + 1, n) <= 7) by {
            if 1 <= i <= n - 2 && ps[i].len() == 0 && nonempty_between(ps, 0, i)
                && nonempty_between(ps, i + 1, n) {
                lemma_count_split(ps, 0, i, n);
                lemma_count_split(ps, i, i + 1, n);
                lemma_count_zero(ps, 0, i);
                lemma_count_zero(ps, i + 1, n);
                assert(count_empty(ps, i, i) == 0);
                assert(count_empty(ps, i, i + 1) == 1);
            }
        }
        if n >= 3 && ps[0].len() == 0 && ps[1].len() == 0 && nonempty_between(ps, 2, n) {
            lemma_count_split(ps, 0, 2, n);
            lemma_count_zero(ps, 2, n);
            assert(count_empty(ps, 0, 0) == 0);
            assert(count_empty(ps, 0, 2) == count_empty(ps, 0, 1) + 1);
            assert(count_empty(ps, 0, 1) == 1);
        }
        if n >= 3 && ps[n - 2].len() == 0 && ps[n - 1].len() == 0 && nonempty_between(
            ps,
            0,
            n - 2,
        ) {
            lemma_count_split(ps, 0, n - 2, n);
            lemma_count_zero(ps, 0, n - 2);
            assert(count_empty(ps, 0, n) == count_empty(ps, 0, n - 1) + 1);
            assert(count_empty(ps, 0, n - 1) == count_empty(ps, 0, n - 2) + 1);
        }
        if n == 3 && ps[0].len() == 0 && ps[1].len() == 0 && ps[2].len() == 0 {
            assert(count_empty(ps, 0, 0) == 0);
            assert(count_empty(ps, 0, 3) == count_empty(ps, 0, 2) + 1);
            assert(count_empty(ps, 0, 2) == count_empty(ps, 0, 1) + 1);
            assert(count_empty(ps, 0, 1) == 1);
        }
        assert(!is_ipv6_parts(ps));
    }
}

proof fn big_parts_invalid(ps: Seq<Seq<char>>)
    requires
        ps.len() > 9,
    ensures
        !is_ipv6_parts(ps),
{
    let n = ps.len() as int;
    assert(tail_weight(ps, 0, n) >= n);
    assert forall|i: int| !(1 <= i <= n - 2 && (#[trigger] ps[i]).len() == 0 && nonempty_between(
        ps,
        0,
        i,
    ) && nonempty_between(ps, i + 1, n) && hex_between(ps, 0, i) && tail_ok(ps, i + 1, n) && i
        + tail_weight(ps, i + 1, n) <= 7) by {
        if 1 <= i <= n - 2 {
            assert(tail_weight(ps, i + 1, n) >= n - i - 1);
        }
    }
    assert(tail_weight(ps, 2, n) >= n - 2);
}

/// The index of the first occurrence of `c` at or after `from`, or the
/// length when `c` does not occur.
pub open spec fn idx_scan(s: Seq<char>, c: char, from: int) -> int
    decreases s.len() - from,
{
    if from < 0 || from >= s.len() {
        s.len() as int
    } else if s[from] == c {
        from
    } else {
        idx_scan(s, c, from + 1)
    }
}

/// A zone identifier: non-empty, alphanumeric.
pub open spec fn is_zone_s(z: Seq<char>) -> bool {
    z.len() > 0 && forall|i: int| 0 <= i < z.len() ==> is_alnum(#[trigger] z[i])
}

/// An IPv6 literal without zone identifier.
pub open spec fn is_ipv6_base(s: Seq<char>) -> bool {
    is_ipv6_parts(split_s(s, ':'))
}

/// An IPv6 literal, with an optional `%zone` suffix after the first `%`.
pub open spec fn is_ipv6_s(s: Seq<char>) -> bool {
    let p = idx_scan(s, '%', 0);
    if p == s.len() {
        is_ipv6_base(s)
    } else {
        is_ipv6_base(s.take(p)) && is_zone_s(s.skip(p + 1))
    }
}

/// Decides the IPv6 grammar.
pub fn is_valid_ipv6(v: &Vec<char>) -> (r: bool)
    ensures
        r == is_ipv6_s(v@),
{
    let n = v.len();
    // locate a zone separator
    let mut p: usize = 0;
    while p < n && v[p] != '%'
        invariant
            p <= n == v@.len(),
            idx_scan(v@, '%', 0) == idx_scan(v@, '%', p as int),
        decreases n - p,
    {
        p = p + 1;
    }
    let base = if p < n {
        // zone must be non-empty and alphanumeric
        let mut j: usize = p + 1;
        if j == n {
            proof {
                assert(idx_scan(v@, '%', 0) == p);
                assert(v@.skip(p + 1).len() == 0);
            }
            return false;
        }
        while j < n
            invariant
                p + 1 <= j <= n == v@.len(),
                p < n,
                idx_scan(v@, '%', 0) == p as int,
                forall|k: int| p + 1 <= k < j ==> is_alnum(#[trigger] v@[k]),
            decreases n - j,
        {
            if !alnum_char(v[j]) {
                proof {
                    assert(idx_scan(v@, '%', 0) == p);
                    assert(v@.skip(p + 1)[j - p - 1] == v@[j as int]);
                }
                return false;
            }
            j = j + 1;
        }
        proof {
            assert(is_zone_s(v@.skip(p + 1))) by {
                assert(forall|k: int|
                    0 <= k < v@.skip(p + 1).len() ==> #[trigger] v@.skip(p + 1)[k] == v@[k + p
                        + 1]);
            }
        }
        subvec(v, 0, p)
    } else {
        subvec(v, 0, n)
    };
    proof {
        if p == n {
            assert(base@ =~= v@);
        }
    }
    let ps = split(&base, ':');
    if ps.len() > 9 {
        proof {
            big_parts_invalid(ps.deep_view());
        }
        return false;
    }
    ipv6_groups(&ps)
}

/// An address accepted by the record parser: IPv4 or IPv6.
pub open spec fn is_address_s(s: Seq<char>) -> bool {
    is_ipv4_s(s) || is_ipv6_s(s)
}

/// Decides the address grammar.
pub fn is_valid_ip(v: &Vec<char>) -> (r: bool)
    ensures
        r == is_address_s(v@),
{
    if is_valid_ipv4(v) {
        true
    } else {
        is_valid_ipv6(v)
    }
}

/// A character allowed in a hostname.
pub open spec fn is_name_char(c: char) -> bool {
    is_alnum(c) || c == '-' || c == '.' || c == '%'
}

/// A valid hostname: non-empty, every character from the hostname alphabet
/// (which contains no whitespace and no `#`).
pub open spec fn is_hostname_s(s: Seq<char>) -> bool {
    s.len() > 0 && forall|i: int| 0 <= i < s.len() ==> is_name_char(#[trigger] s[i])
}

/// Decides the hostname grammar.
pub fn is_valid_hostname(v: &Vec<char>) -> (r: bool)
    ensures
        r == is_hostname_s(v@),
{
    let n = v.len();
    if n == 0 {
        return false;
    }
    let mut i: usize = 0;
    while i < n
        invariant
            i <= n == v@.len(),
            forall|k: int| 0 <= k < i ==> is_name_char(#[trigger] v@[k]),
        decreases n - i,
    {
        let c = v[i];
        if !(alnum_char(c) || c == '-' || c == '.' || c == '%') {
            return false;
        }
        i = i + 1;
    }
    true
}

} // verus!
