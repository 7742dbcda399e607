//! The query-string reader of the control API: `key=value` pairs separated
//! by `&`, read left to right; the first pair whose key matches and whose
//! value is a decimal number wins.

use vstd::prelude::*;

use crate::net::idx_scan;
use crate::text::{all_digits, chars_eq, dec_val, parse_usize, split, split_s, subvec, to_chars};

verus! {

/// Whether a digit string parses as a `usize`.
pub open spec fn parses_usize(s: Seq<char>) -> bool {
    s.len() > 0 && all_digits(s) && dec_val(s) <= usize::MAX
}

/// The value bound to `key` in the piece `piece`, when the piece has the
/// shape `key=value` (the first `=` separates key from value).
pub open spec fn pair_value(piece: Seq<char>, key: Seq<char>) -> Option<Seq<char>> {
    let e = idx_scan(piece, '=', 0);
    if e == piece.len() {
        None
    } else if piece.take(e) == key {
        Some(piece.skip(e + 1))
    } else {
        None
    }
}

/// The first numeric value bound to `key` among `pieces[i..]`.
pub open spec fn param_scan(pieces: Seq<Seq<char>>, key: Seq<char>, i: int) -> Option<usize>
    decreases pieces.len() - i,
{
    if i < 0 || i >= pieces.len() {
        None
    } else {
        let pv = pair_value(pieces[i], key);
        if pv is Some && parses_usize(pv.unwrap()) {
            Some(dec_val(pv.unwrap()) as usize)
        } else {
            param_scan(pieces, key, i + 1)
        }
    }
}

/// The numeric value of `key` in a query string, read as the control API
/// reads it: pairs split on `&`, key and value split on the first `=`,
/// non-numeric or missing values skipped.
pub open spec fn query_param_s(query: Seq<char>, key: Seq<char>) -> Option<usize> {
    param_scan(split_s(query, '&'), key, 0)
}

/// Extracts the first numeric value bound to `key` in the query string.
pub fn query_param(query: &str, key: &str) -> (r: Option<usize>)
    ensures
        r == query_param_s(query@, key@),
{
    let qs = to_chars(query);
    let ks = to_chars(key);
    let pieces = split(&qs, '&');
    let ghost dv = pieces.deep_view();
    let n = pieces.len();
    let mut i: usize = 0;
    while i < n
        invariant
            i <= n == dv.len(),
            dv == pieces.deep_view(),
            dv == split_s(query@, '&'),
            ks@ == key@,
            param_scan(dv, key@, 0) == param_scan(dv, key@, i as int),
        decreases n - i,
    {
        proof {
            assert(pieces[i as int]@ =~= dv[i as int]);
        }
        let piece = &pieces[i];
        let m = piece.len();
        // find the first `=`
        let mut e: usize = 0;
        while e < m && piece[e] != '='
            invariant
                e <= m == piece@.len(),
                idx_scan(piece@, '=', 0) == idx_scan(piece@, '=', e as int),
            decreases m - e,
        {
            e = e + 1;
        }
        if e < m {
            let k = subvec(piece, 0, e);
            proof {
                assert(k@ =~= dv[i as int].take(e as int));
            }
            if chars_eq(&k, &ks) {
                let val = subvec(piece, e + 1, m);
                proof {
                    assert(val@ =~= dv[i as int].skip(e + 1));
                }
                match parse_usize(&val) {
                    Some(v) => {
                        return Some(v);
                    },
                    None => {},
                }
            }
        }
        i = i + 1;
    }
    None
}

} // verus!
