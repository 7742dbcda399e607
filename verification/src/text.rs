//! Character-level building blocks shared by the record parser, the query
//! parser and the writer: character classes, trimming, whitespace
//! tokenisation, splitting on a separator, joining, and decimal parsing.

use vstd::prelude::*;

verus! {

// ---------------------------------------------------------------------------
// Character classes
// ---------------------------------------------------------------------------

/// Whitespace inside a line: space, tab, or carriage return.
pub open spec fn is_ws(c: char) -> bool {
    c == ' ' || c == '\t' || c == '\r'
}

pub open spec fn is_digit(c: char) -> bool {
    '0' as int <= c as int && c as int <= '9' as int
}

pub open spec fn is_hex_digit(c: char) -> bool {
    is_digit(c) || ('a' as int <= c as int && c as int <= 'f' as int) || ('A' as int <= c as int
        && c as int <= 'F' as int)
}

pub open spec fn is_alpha(c: char) -> bool {
    ('a' as int <= c as int && c as int <= 'z' as int) || ('A' as int <= c as int && c as int
        <= 'Z' as int)
}

pub open spec fn is_alnum(c: char) -> bool {
    is_digit(c) || is_alpha(c)
}

/// The numeric value of a decimal digit.
pub open spec fn digit_val(c: char) -> int {
    c as int - '0' as int
}

pub fn ws_char(c: char) -> (r: bool)
    ensures
        r == is_ws(c),
{
    c == ' ' || c == '\t' || c == '\r'
}

pub fn digit_char(c: char) -> (r: bool)
    ensures
        r == is_digit(c),
{
    let u = c as u32;
    '0' as u32 <= u && u <= '9' as u32
}

pub fn hex_digit_char(c: char) -> (r: bool)
    ensures
        r == is_hex_digit(c),
{
    let u = c as u32;
    digit_char(c) || ('a' as u32 <= u && u <= 'f' as u32) || ('A' as u32 <= u && u <= 'F' as u32)
}

pub fn alnum_char(c: char) -> (r: bool)
    ensures
        r == is_alnum(c),
{
    let u = c as u32;
    digit_char(c) || ('a' as u32 <= u && u <= 'z' as u32) || ('A' as u32 <= u && u <= 'Z' as u32)
}

// ---------------------------------------------------------------------------
// Conversions between strings and character vectors
// ---------------------------------------------------------------------------

/// Collects the characters of a string slice into a vector.
pub fn to_chars(s: &str) -> (r: Vec<char>)
    ensures
        r@ == s@,
{
    let n = s.unicode_len();
    let mut r: Vec<char> = Vec::new();
    let mut i: usize = 0;
    while i < n
        invariant
            n == s@.len(),
            i <= n,
            r@ == s@.take(i as int),
        decreases n - i,
    {
        r.push(s.get_char(i));
        i = i + 1;
        assert(r@ =~= s@.take(i as int));
    }
    assert(r@ =~= s@);
    r
}

/// Relies on `String`'s `FromIterator` implementation: collecting an
/// iterator of characters yields a string holding exactly those characters.
#[verifier::external_body]
pub fn chars_to_string(v: &Vec<char>) -> (r: String)
    ensures
        r@ == v@,
{
    v.iter().collect()
}

/// Copies `v[lo..hi]` into a fresh vector.
pub fn subvec(v: &Vec<char>, lo: usize, hi: usize) -> (r: Vec<char>)
    requires
        lo <= hi <= v@.len(),
    ensures
        r@ == v@.subrange(lo as int, hi as int),
{
    let mut r: Vec<char> = Vec::new();
    let mut i: usize = lo;
    while i < hi
        invariant
            lo <= i <= hi <= v@.len(),
            r@ == v@.subrange(lo as int, i as int),
        decreases hi - i,
    {
        r.push(v[i]);
        i = i + 1;
        assert(r@ =~= v@.subrange(lo as int, i as int));
    }
    r
}

/// Compares two character vectors for equality of contents.
pub fn chars_eq(a: &Vec<char>, b: &Vec<char>) -> (r: bool)
    ensures
        r == (a@ == b@),
{
    let n = a.len();
    if n != b.len() {
        return false;
    }
    let mut i: usize = 0;
    while i < n
        invariant
            i <= n == a@.len(),
            n == b@.len(),
            forall|k: int| 0 <= k < i ==> a@[k] == b@[k],
        decreases n - i,
    {
        if a[i] != b[i] {
            return false;
        }
        i = i + 1;
    }
    proof {
        assert(a@ =~= b@);
    }
    true
}

/// Appends all of `src` to `dst`.
pub fn push_all(dst: &mut Vec<char>, src: &Vec<char>)
    ensures
        final(dst)@ == old(dst)@ + src@,
{
    let n = src.len();
    let mut i: usize = 0;
    while i < n
        invariant
            n == src@.len(),
            i <= n,
            dst@ == old(dst)@ + src@.take(i as int),
        decreases n - i,
    {
        dst.push(src[i]);
        i = i + 1;
        assert(dst@ =~= old(dst)@ + src@.take(i as int));
    }
    assert(dst@ =~= old(dst)@ + src@);
}

// ---------------------------------------------------------------------------
// Trimming
// ---------------------------------------------------------------------------

pub open spec fn trim_start_s(s: Seq<char>) -> Seq<char>
    decreases s.len(),
{
    if s.len() > 0 && is_ws(s[0]) {
        trim_start_s(s.skip(1))
    } else {
        s
    }
}

pub open spec fn trim_end_s(s: Seq<char>) -> Seq<char>
    decreases s.len(),
{
    if s.len() > 0 && is_ws(s[s.len() - 1]) {
        trim_end_s(s.take(s.len() - 1))
    } else {
        s
    }
}

/// The line with surrounding whitespace removed.
pub open spec fn trim_s(s: Seq<char>) -> Seq<char> {
    trim_end_s(trim_start_s(s))
}

proof fn lemma_trim_start_at(s: Seq<char>, lo: int)
    requires
        0 <= lo <= s.len(),
        forall|k: int| 0 <= k < lo ==> is_ws(s[k]),
        lo == s.len() || !is_ws(s[lo]),
    ensures
        trim_start_s(s) == s.skip(lo),
    decreases lo,
{
    if lo == 0 {
        assert(s.skip(0) =~= s);
    } else {
        lemma_trim_start_at(s.skip(1), lo - 1);
        assert(s.skip(1).skip(lo - 1) =~= s.skip(lo));
    }
}

proof fn lemma_trim_end_at(s: Seq<char>, hi: int)
    requires
        0 <= hi <= s.len(),
        forall|k: int| hi <= k < s.len() ==> is_ws(s[k]),
        hi == 0 || !is_ws(s[hi - 1]),
    ensures
        trim_end_s(s) == s.take(hi),
    decreases s.len() - hi,
{
    if hi == s.len() {
        assert(s.take(hi) =~= s);
    } else {
        lemma_trim_end_at(s.take(s.len() - 1), hi);
    }
}

proof fn lemma_trim_start_head(s: Seq<char>)
    ensures
        trim_start_s(s).len() > 0 ==> !is_ws(trim_start_s(s)[0]),
    decreases s.len(),
{
    if s.len() > 0 && is_ws(s[0]) {
        lemma_trim_start_head(s.skip(1));
    }
}

proof fn lemma_trim_end_props(s: Seq<char>)
    ensures
        trim_end_s(s).len() > 0 ==> !is_ws(trim_end_s(s)[trim_end_s(s).len() - 1]),
        trim_end_s(s).len() > 0 ==> trim_end_s(s)[0] == s[0],
    decreases s.len(),
{
    if s.len() > 0 && is_ws(s[s.len() - 1]) {
        lemma_trim_end_props(s.take(s.len() - 1));
    }
}

/// A non-empty trimmed line neither starts nor ends with whitespace.
pub proof fn lemma_trim_ends(s: Seq<char>)
    ensures
        trim_s(s).len() > 0 ==> !is_ws(trim_s(s)[0]) && !is_ws(trim_s(s)[trim_s(s).len() - 1]),
{
    lemma_trim_start_head(s);
    lemma_trim_end_props(trim_start_s(s));
}

/// A sequence with no surrounding whitespace trims to itself.
pub proof fn lemma_trim_fixed(s: Seq<char>)
    requires
        s.len() == 0 || (!is_ws(s[0]) && !is_ws(s[s.len() - 1])),
    ensures
        trim_s(s) == s,
{
    lemma_trim_start_at(s, 0);
    assert(s.skip(0) =~= s);
    lemma_trim_end_at(s, s.len() as int);
    assert(s.take(s.len() as int) =~= s);
}

/// Removes surrounding whitespace.
pub fn trim(v: &Vec<char>) -> (r: Vec<char>)
    ensures
        r@ == trim_s(v@),
        r@.len() > 0 ==> !is_ws(r@[0]) && !is_ws(r@[r@.len() - 1]),
{
    let n = v.len();
    let mut lo: usize = 0;
    while lo < n && ws_char(v[lo])
        invariant
            lo <= n == v@.len(),
            forall|k: int| 0 <= k < lo ==> is_ws(v@[k]),
        decreases n - lo,
    {
        lo = lo + 1;
    }
    if lo == n {
        proof {
            lemma_trim_start_at(v@, n as int);
            assert(v@.skip(n as int) =~= Seq::<char>::empty());
            lemma_trim_end_at(Seq::<char>::empty(), 0);
        }
        return Vec::new();
    }
    let mut hi: usize = n;
    while hi > lo && ws_char(v[hi - 1])
        invariant
            lo <= hi <= n == v@.len(),
            forall|k: int| hi <= k < n ==> is_ws(v@[k]),
        decreases hi,
    {
        hi = hi - 1;
    }
    proof {
        lemma_trim_start_at(v@, lo as int);
        lemma_trim_end_at(v@.skip(lo as int), hi - lo);
        assert(v@.skip(lo as int).take(hi - lo) =~= v@.subrange(lo as int, hi as int));
    }
    subvec(v, lo, hi)
}

// ---------------------------------------------------------------------------
// Whitespace tokenisation
// ---------------------------------------------------------------------------

/// The tokens of `s[from..]`.  When `in_tok` holds, a token began at `start`
/// and its characters `s[start..from]` have already been scanned.
pub open spec fn tokens_scan(s: Seq<char>, from: int, start: int, in_tok: bool) -> Seq<Seq<char>>
    decreases s.len() - from,
{
    if from < 0 || from >= s.len() {
        if in_tok {
            seq![s.subrange(start, s.len() as int)]
        } else {
            seq![]
        }
    } else if is_ws(s[from]) {
        if in_tok {
            seq![s.subrange(start, from)] + tokens_scan(s, from + 1, 0, false)
        } else {
            tokens_scan(s, from + 1, 0, false)
        }
    } else {
        if in_tok {
            tokens_scan(s, from + 1, start, true)
        } else {
            tokens_scan(s, from + 1, from, true)
        }
    }
}

/// The maximal runs of non-whitespace characters, in order.
pub open spec fn tokens_s(s: Seq<char>) -> Seq<Seq<char>> {
    tokens_scan(s, 0, 0, false)
}

/// Splits on runs of whitespace, discarding the whitespace.
pub fn tokenize(v: &Vec<char>) -> (r: Vec<Vec<char>>)
    ensures
        r.deep_view() == tokens_s(v@),
{
    let n = v.len();
    let mut r: Vec<Vec<char>> = Vec::new();
    let mut start: usize = 0;
    let mut in_tok: bool = false;
    let mut i: usize = 0;
    while i < n
        invariant
            i <= n == v@.len(),
            in_tok ==> start <= i,
            tokens_s(v@) == r.deep_view() + tokens_scan(
                v@,
                i as int,
                if in_tok {
                    start as int
                } else {
                    0
                },
                in_tok,
            ),
        decreases n - i,
    {
        if ws_char(v[i]) {
            if in_tok {
                let ghost pre = r.deep_view();
                let t = subvec(v, start, i);
                let ghost tv = t@;
                r.push(t);
                proof {
                    assert(r.deep_view() =~~= pre.push(tv));
                }
                in_tok = false;
            }
        } else {
            if !in_tok {
                start = i;
                in_tok = true;
            }
        }
        i = i + 1;
    }
    if in_tok {
        let ghost pre = r.deep_view();
        let t = subvec(v, start, n);
        let ghost tv = t@;
        r.push(t);
        proof {
            assert(r.deep_view() =~~= pre.push(tv));
        }
    }
    assert(tokens_s(v@) =~= r.deep_view());
    r
}

// --- facts about tokenisation, used by the round-trip law ---

/// The index of the first whitespace character at or after `from`, or the
/// length when there is none.
pub open spec fn ws_from(s: Seq<char>, from: int) -> int
    decreases s.len() - from,
{
    if from < 0 || from >= s.len() {
        s.len() as int
    } else if is_ws(s[from]) {
        from
    } else {
        ws_from(s, from + 1)
    }
}

proof fn lemma_ws_from_at(s: Seq<char>, from: int, j: int)
    requires
        0 <= from <= j < s.len(),
        forall|k: int| from <= k < j ==> !is_ws(s[k]),
        is_ws(s[j]),
    ensures
        ws_from(s, from) == j,
    decreases j - from,
{
    if from < j {
        lemma_ws_from_at(s, from + 1, j);
    }
}

proof fn lemma_ws_from_none(s: Seq<char>, from: int)
    requires
        0 <= from <= s.len(),
        forall|k: int| from <= k < s.len() ==> !is_ws(s[k]),
    ensures
        ws_from(s, from) == s.len(),
    decreases s.len() - from,
{
    if from < s.len() {
        lemma_ws_from_none(s, from + 1);
    }
}

proof fn lemma_ws_from_ge(s: Seq<char>, from: int)
    requires
        0 <= from <= s.len(),
    ensures
        from <= ws_from(s, from) <= s.len(),
    decreases s.len() - from,
{
    if from < s.len() && !is_ws(s[from]) {
        lemma_ws_from_ge(s, from + 1);
    }
}

proof fn lemma_scan_token(s: Seq<char>, from: int, start: int)
    requires
        0 <= start < from <= s.len(),
        forall|k: int| start <= k < from ==> !is_ws(s[k]),
    ensures
        tokens_scan(s, from, start, true) == seq![s.subrange(start, ws_from(s, from))]
            + tokens_scan(s, ws_from(s, from), 0, false),
    decreases s.len() - from,
{
    if from == s.len() {
        assert(tokens_scan(s, s.len() as int, 0, false) =~= Seq::<Seq<char>>::empty());
        assert(tokens_scan(s, from, start, true) =~= seq![s.subrange(start, ws_from(s, from))]
            + tokens_scan(s, ws_from(s, from), 0, false));
    } else if is_ws(s[from]) {
        assert(ws_from(s, from) == from);
    } else {
        lemma_scan_token(s, from + 1, start);
    }
}

/// Every listed token is non-empty and free of whitespace.
pub open spec fn toks_wf(ts: Seq<Seq<char>>) -> bool {
    forall|k: int|
        0 <= k < ts.len() ==> (#[trigger] ts[k]).len() > 0 && (forall|j: int|
            0 <= j < ts[k].len() ==> !is_ws(ts[k][j]))
}

proof fn lemma_tokens_scan_wf(s: Seq<char>, from: int, start: int, in_tok: bool)
    requires
        0 <= from <= s.len(),
        in_tok ==> 0 <= start < from && (forall|k: int| start <= k < from ==> !is_ws(s[k])),
    ensures
        toks_wf(tokens_scan(s, from, start, in_tok)),
    decreases s.len() - from,
{
    let ts = tokens_scan(s, from, start, in_tok);
    if from >= s.len() {
        if in_tok {
            assert(ts[0].len() == s.len() - start);
            assert(forall|j: int| 0 <= j < ts[0].len() ==> !is_ws(ts[0][j]));
        }
        assert(toks_wf(ts));
    } else if is_ws(s[from]) {
        lemma_tokens_scan_wf(s, from + 1, 0, false);
        if in_tok {
            let rest = tokens_scan(s, from + 1, 0, false);
            assert forall|k: int|
                0 <= k < ts.len() implies (#[trigger] ts[k]).len() > 0 && (forall|j: int|
                0 <= j < ts[k].len() ==> !is_ws(ts[k][j])) by {
                if k == 0 {
                    assert(ts[0].len() == from - start);
                    assert(forall|j: int| 0 <= j < ts[0].len() ==> !is_ws(ts[0][j]));
                } else {
                    assert(ts[k] == rest[k - 1]);
                }
            }
        }
        assert(toks_wf(ts));
    } else {
        if in_tok {
            lemma_tokens_scan_wf(s, from + 1, start, true);
            assert(ts == tokens_scan(s, from + 1, start, true));
        } else {
            lemma_tokens_scan_wf(s, from + 1, from, true);
            assert(ts == tokens_scan(s, from + 1, from, true));
        }
        assert(toks_wf(ts));
    }
}

/// Every token of a line is non-empty and free of whitespace.
pub proof fn lemma_tokens_wf(s: Seq<char>)
    ensures
        toks_wf(tokens_s(s)),
{
    lemma_tokens_scan_wf(s, 0, 0, false);
}

/// The first token of a line that starts with a non-whitespace character is
/// the run of non-whitespace characters at its start, and the remaining
/// tokens are those after it.
pub proof fn lemma_tokens_head(s: Seq<char>)
    requires
        s.len() > 0,
        !is_ws(s[0]),
    ensures
        tokens_s(s) == seq![s.subrange(0, ws_from(s, 1))] + tokens_scan(s, ws_from(s, 1), 0, false),
        tokens_s(s).len() >= 1,
        tokens_s(s)[0] == s.subrange(0, ws_from(s, 1)),
        tokens_s(s)[0][0] == s[0],
        ws_from(s, 1) >= 1,
{
    lemma_scan_token(s, 1, 0);
    lemma_ws_from_ge(s, 1);
    assert(tokens_s(s)[0] == s.subrange(0, ws_from(s, 1)));
    assert(tokens_s(s)[0][0] == s[0]);
}

/// Tokenising `a<sp>b`, with `a` and `b` non-empty and free of whitespace,
/// yields exactly the tokens `a` and `b`.
pub proof fn lemma_tokens_two(a: Seq<char>, b: Seq<char>)
    requires
        a.len() > 0,
        b.len() > 0,
        forall|k: int| 0 <= k < a.len() ==> !is_ws(a[k]),
        forall|k: int| 0 <= k < b.len() ==> !is_ws(b[k]),
    ensures
        tokens_s(a + seq![' '] + b) == seq![a, b],
{
    let l = a + seq![' '] + b;
    let m = a.len() as int;
    assert(forall|k: int| 0 <= k < m ==> l[k] == a[k]);
    assert(l[m] == ' ');
    assert(forall|k: int| m + 1 <= k < l.len() ==> l[k] == b[k - m - 1]);
    // the first token runs to the space
    lemma_scan_token(l, 1, 0);
    lemma_ws_from_at(l, 1, m);
    assert(l.subrange(0, m) =~= a);
    // after the space, the second token runs to the end
    assert(tokens_scan(l, m, 0, false) == tokens_scan(l, m + 1, 0, false));
    assert(!is_ws(l[m + 1]));
    assert(tokens_scan(l, m + 1, 0, false) == tokens_scan(l, m + 2, m + 1, true));
    if m + 2 <= l.len() {
        lemma_scan_token(l, m + 2, m + 1);
        lemma_ws_from_none(l, m + 2);
        assert(l.subrange(m + 1, l.len() as int) =~= b);
        assert(tokens_scan(l, l.len() as int, 0, false) =~= Seq::<Seq<char>>::empty());
    }
    assert(tokens_s(l) =~= seq![a, b]);
}

// ---------------------------------------------------------------------------
// Splitting on a separator
// ---------------------------------------------------------------------------

/// The pieces of `s[from..]` split on `sep`, where the piece being scanned
/// began at `start`.
pub open spec fn split_scan(s: Seq<char>, sep: char, start: int, from: int) -> Seq<Seq<char>>
    decreases s.len() - from,
{
    if from < 0 || from >= s.len() {
        seq![s.subrange(start, s.len() as int)]
    } else if s[from] == sep {
        seq![s.subrange(start, from)] + split_scan(s, sep, from + 1, from + 1)
    } else {
        split_scan(s, sep, start, from + 1)
    }
}

/// The pieces of `s` between occurrences of `sep`, in order.  There is
/// always at least one piece; an empty input gives one empty piece.
pub open spec fn split_s(s: Seq<char>, sep: char) -> Seq<Seq<char>> {
    split_scan(s, sep, 0, 0)
}

/// Splits on every occurrence of `sep`.
pub fn split(v: &Vec<char>, sep: char) -> (r: Vec<Vec<char>>)
    ensures
        r.deep_view() == split_s(v@, sep),
        r@.len() >= 1,
{
    let n = v.len();
    let mut r: Vec<Vec<char>> = Vec::new();
    let mut start: usize = 0;
    let mut i: usize = 0;
    while i < n
        invariant
            start <= i <= n == v@.len(),
            split_s(v@, sep) == r.deep_view() + split_scan(v@, sep, start as int, i as int),
        decreases n - i,
    {
        if v[i] == sep {
            let ghost pre = r.deep_view();
            let t = subvec(v, start, i);
            let ghost tv = t@;
            r.push(t);
            proof {
                assert(r.deep_view() =~~= pre.push(tv));
            }
            start = i + 1;
        }
        i = i + 1;
    }
    let ghost pre = r.deep_view();
    let t = subvec(v, start, n);
    let ghost tv = t@;
    r.push(t);
    proof {
        assert(r.deep_view() =~~= pre.push(tv));
        assert(split_s(v@, sep) =~= r.deep_view());
    }
    r
}

// ---------------------------------------------------------------------------
// Joining with single spaces
// ---------------------------------------------------------------------------

/// The pieces joined by one space between consecutive pieces.
pub open spec fn join_sp(parts: Seq<Seq<char>>) -> Seq<char>
    decreases parts.len(),
{
    if parts.len() == 0 {
        Seq::empty()
    } else if parts.len() == 1 {
        parts[0]
    } else {
        parts[0] + seq![' '] + join_sp(parts.skip(1))
    }
}

/// Joins `parts[from..]` with single spaces.
pub fn join_from(parts: &Vec<Vec<char>>, from: usize) -> (r: Vec<char>)
    requires
        from <= parts@.len(),
    ensures
        r@ == join_sp(parts.deep_view().skip(from as int)),
{
    let n = parts.len();
    let mut r: Vec<char> = Vec::new();
    let mut j: usize = n;
    while j > from
        invariant
            from <= j <= n == parts@.len(),
            r@ == join_sp(parts.deep_view().skip(j as int)),
        decreases j,
    {
        j = j - 1;
        let mut piece: Vec<char> = Vec::new();
        push_all(&mut piece, &parts[j]);
        if j + 1 < n {
            piece.push(' ');
        }
        push_all(&mut piece, &r);
        proof {
            let dv = parts.deep_view();
            assert(parts[j as int].deep_view() =~= dv[j as int]);
            if j + 1 < n {
                assert(dv.skip(j as int)[0] == dv[j as int]);
                assert(dv.skip(j as int).skip(1) =~= dv.skip(j + 1));
                assert(dv.skip(j as int).len() > 1);
                assert(piece@ =~= join_sp(dv.skip(j as int)));
            } else {
                assert(dv.skip(j as int).len() == 1);
                assert(dv.skip(j as int)[0] == dv[j as int]);
                assert(piece@ =~= join_sp(dv.skip(j as int)));
            }
        }
        r = piece;
    }
    r
}

// ---------------------------------------------------------------------------
// Decimal numbers
// ---------------------------------------------------------------------------

pub open spec fn all_digits(s: Seq<char>) -> bool {
    forall|i: int| 0 <= i < s.len() ==> is_digit(s[i])
}

/// The value of a string of decimal digits.
pub open spec fn dec_val(s: Seq<char>) -> int
    decreases s.len(),
{
    if s.len() == 0 {
        0
    } else {
        dec_val(s.take(s.len() - 1)) * 10 + digit_val(s[s.len() - 1])
    }
}

proof fn lemma_dec_val_nonneg(s: Seq<char>, i: int)
    requires
        0 <= i <= s.len(),
        forall|k: int| 0 <= k < i ==> is_digit(s[k]),
    ensures
        dec_val(s.take(i)) >= 0,
    decreases i,
{
    if i > 0 {
        lemma_dec_val_nonneg(s, i - 1);
        assert(s.take(i).take(i - 1) =~= s.take(i - 1));
        assert(dec_val(s.take(i - 1)) * 10 >= 0) by (nonlinear_arith)
            requires
                dec_val(s.take(i - 1)) >= 0,
        ;
    }
}

pub proof fn lemma_dec_val_monotone(s: Seq<char>, i: int, j: int)
    requires
        0 <= i <= j <= s.len(),
        all_digits(s),
    ensures
        dec_val(s.take(i)) <= dec_val(s.take(j)),
    decreases j - i,
{
    if i < j {
        lemma_dec_val_monotone(s, i, j - 1);
        lemma_dec_val_nonneg(s, j - 1);
        let t = s.take(j);
        assert(t.take(j - 1) =~= s.take(j - 1));
        assert(dec_val(s.take(j)) == dec_val(s.take(j - 1)) * 10 + digit_val(s[j - 1]));
        assert(dec_val(s.take(j - 1)) * 10 >= dec_val(s.take(j - 1))) by (nonlinear_arith)
            requires
                dec_val(s.take(j - 1)) >= 0,
        ;
    }
}

/// Renders a number as decimal digits.
pub fn u64_to_dec(n: u64) -> (r: Vec<char>)
    ensures
        r@.len() > 0,
        all_digits(r@),
        dec_val(r@) == n,
    decreases n,
{
    let d: u8 = (n % 10) as u8;
    let c: char = (d + 48) as char;
    proof {
        assert(c as int == d as int + 48);
        assert(is_digit(c) && digit_val(c) == d as int);
    }
    if n < 10 {
        let mut r: Vec<char> = Vec::new();
        r.push(c);
        proof {
            vstd::arithmetic::div_mod::lemma_small_mod(n as nat, 10);
            assert(r@ =~= seq![c]);
            assert(r@.take(0) =~= Seq::<char>::empty());
            assert(dec_val(Seq::<char>::empty()) == 0);
            assert(dec_val(r@) == digit_val(c));
        }
        r
    } else {
        let mut r = u64_to_dec(n / 10);
        let ghost pre = r@;
        r.push(c);
        proof {
            assert(r@.take(r@.len() - 1) =~= pre);
            vstd::arithmetic::div_mod::lemma_fundamental_div_mod(n as int, 10);
        }
        r
    }
}

/// Parses a non-empty string of decimal digits, rejecting values that do not
/// fit in `usize`; mirrors how the control API reads numeric query fields.
pub fn parse_usize(v: &Vec<char>) -> (r: Option<usize>)
    ensures
        r is Some <==> (v@.len() > 0 && all_digits(v@) && dec_val(v@) <= usize::MAX),
        r is Some ==> r.unwrap() as int == dec_val(v@),
{
    let n = v.len();
    if n == 0 {
        return None;
    }
    let mut acc: usize = 0;
    let mut i: usize = 0;
    while i < n
        invariant
            i <= n == v@.len(),
            forall|k: int| 0 <= k < i ==> is_digit(v@[k]),
            acc as int == dec_val(v@.take(i as int)),
        decreases n - i,
    {
        let c = v[i];
        if !digit_char(c) {
            return None;
        }
        let d: usize = (c as u32 as usize) - ('0' as u32 as usize);
        assert(d as int == digit_val(v@[i as int]));
        let limit: usize = usize::MAX / 10;
        let last: usize = usize::MAX % 10;
        if acc > limit || (acc == limit && d > last) {
            proof {
                assert(acc * 10 + d > usize::MAX) by (nonlinear_arith)
                    requires
                        acc > usize::MAX / 10 || (acc == usize::MAX / 10 && d > usize::MAX % 10),
                        usize::MAX == 10 * (usize::MAX / 10) + usize::MAX % 10,
                        0 <= d <= 9,
                        acc >= 0,
                ;
                assert(v@.take(i as int) =~= v@.take(i + 1).take(i as int));
                assert(dec_val(v@.take(i + 1)) == acc * 10 + d);
                if all_digits(v@) {
                    lemma_dec_val_monotone(v@, i + 1, v@.len() as int);
                    assert(v@.take(v@.len() as int) =~= v@);
                }
            }
            return None;
        }
        proof {
            assert(acc * 10 + d <= usize::MAX) by (nonlinear_arith)
                requires
                    acc < usize::MAX / 10 || (acc == usize::MAX / 10 && d <= usize::MAX % 10),
                    usize::MAX == 10 * (usize::MAX / 10) + usize::MAX % 10,
                    0 <= d <= 9,
                    0 <= acc,
            ;
            assert(v@.take(i as int) =~= v@.take(i + 1).take(i as int));
        }
        acc = acc * 10 + d;
        i = i + 1;
    }
    proof {
        assert(v@.take(n as int) =~= v@);
    }
    Some(acc)
}

} // verus!
