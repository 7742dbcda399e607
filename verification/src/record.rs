//! The record parser and line writer.  One line of the hosts file either
//! yields a validated record or nothing; malformed lines are skipped, never
//! reported as errors.  The writer emits one line per record, commenting out
//! disabled records, and the parser accepts every line the writer emits.

use vstd::prelude::*;

use crate::net::{is_address_s, is_hostname_s, is_valid_hostname, is_valid_ip};
use crate::text::{
    chars_to_string, is_ws, join_from, join_sp, push_all, split, split_s, subvec, to_chars,
    tokenize, tokens_s, trim, trim_s,
};

verus! {

/// What one record says: the tuple that defines record equality across
/// reads and writes (identifiers and timestamps are ephemeral).
pub struct LineData {
    pub ip: Seq<char>,
    pub hostname: Seq<char>,
    pub comment: Option<Seq<char>>,
    pub enabled: bool,
}

/// One resolvable entry of the hosts file.
#[derive(Debug)]
pub struct HostEntry {
    /// Ordinal of the line the entry came from, stable within one read pass.
    pub id: usize,
    pub ip: String,
    pub hostname: String,
    pub comment: Option<String>,
    pub enabled: bool,
    pub created_at: u64,
    pub updated_at: u64,
}

impl HostEntry {
    /// The record content, without identifier and timestamps.
    pub open spec fn data(&self) -> LineData {
        LineData {
            ip: self.ip@,
            hostname: self.hostname@,
            comment: match self.comment {
                Some(c) => Some(c@),
                None => None,
            },
            enabled: self.enabled,
        }
    }

    /// An equal copy.
    pub fn duplicate(&self) -> (r: Self)
        ensures
            r == *self,
    {
        HostEntry {
            id: self.id,
            ip: self.ip.clone(),
            hostname: self.hostname.clone(),
            comment: match &self.comment {
                Some(c) => Some(c.clone()),
                None => None,
            },
            enabled: self.enabled,
            created_at: self.created_at,
            updated_at: self.updated_at,
        }
    }
}

// ---------------------------------------------------------------------------
// Parsing one line
// ---------------------------------------------------------------------------

/// What one line of the file stands for.  Leading `#` marks a disabled
/// record; a line whose remainder is empty or starts with another `#` is a
/// plain comment; the first token must be a valid address and the second a
/// valid hostname, and any further tokens joined by single spaces form the
/// trailing comment.
pub open spec fn parse_line_s(line: Seq<char>) -> Option<LineData> {
    let t = trim_s(line);
    if t.len() == 0 {
        None
    } else {
        let enabled = t[0] != '#';
        let w = if enabled {
            t
        } else {
            trim_s(t.skip(1))
        };
        if w.len() == 0 || w[0] == '#' {
            None
        } else {
            let toks = tokens_s(w);
            if toks.len() < 2 {
                None
            } else if is_address_s(toks[0]) && is_hostname_s(toks[1]) {
                Some(
                    LineData {
                        ip: toks[0],
                        hostname: toks[1],
                        comment: if toks.len() > 2 {
                            Some(join_sp(toks.skip(2)))
                        } else {
                            None
                        },
                        enabled,
                    },
                )
            } else {
                None
            }
        }
    }
}

/// Parses one line into a record carrying the given line ordinal and
/// parse-time timestamp, or nothing for empty, comment or malformed lines.
pub fn parse_line(line: &Vec<char>, id: usize, now: u64) -> (r: Option<HostEntry>)
    ensures
        r is Some <==> parse_line_s(line@) is Some,
        r is Some ==> r.unwrap().data() == parse_line_s(line@).unwrap(),
        r is Some ==> r.unwrap().id == id && r.unwrap().created_at == now
            && r.unwrap().updated_at == now,
{
    let t = trim(line);
    if t.len() == 0 {
        return None;
    }
    let enabled = t[0] != '#';
    let w = if enabled {
        t
    } else {
        let rest = subvec(&t, 1, t.len());
        proof {
            assert(rest@ =~= trim_s(line@).skip(1));
        }
        trim(&rest)
    };
    if w.len() == 0 {
        return None;
    }
    if w[0] == '#' {
        return None;
    }
    let toks = tokenize(&w);
    if toks.len() < 2 {
        return None;
    }
    proof {
        assert(toks[0]@ =~= toks.deep_view()[0]);
        assert(toks[1]@ =~= toks.deep_view()[1]);
    }
    if is_valid_ip(&toks[0]) && is_valid_hostname(&toks[1]) {
        let comment = if toks.len() > 2 {
            let joined = join_from(&toks, 2);
            Some(chars_to_string(&joined))
        } else {
            None
        };
        Some(
            HostEntry {
                id,
                ip: chars_to_string(&toks[0]),
                hostname: chars_to_string(&toks[1]),
                comment,
                enabled,
                created_at: now,
                updated_at: now,
            },
        )
    } else {
        None
    }
}

// ---------------------------------------------------------------------------
// Parsing whole file content
// ---------------------------------------------------------------------------

/// The records of the lines `ls[i..]`, each paired with its line ordinal.
pub open spec fn entries_from(ls: Seq<Seq<char>>, i: int) -> Seq<(int, LineData)>
    decreases ls.len() - i,
{
    if i < 0 || i >= ls.len() {
        seq![]
    } else {
        match parse_line_s(ls[i]) {
            Some(d) => seq![(i, d)] + entries_from(ls, i + 1),
            None => entries_from(ls, i + 1),
        }
    }
}

/// The records of a whole file, in line order.
pub open spec fn content_entries(content: Seq<char>) -> Seq<(int, LineData)> {
    entries_from(split_s(content, '\n'), 0)
}

/// The produced records carry exactly the parsed data, ordinals and the
/// one parse-time timestamp.
pub open spec fn entries_match(rs: Seq<HostEntry>, es: Seq<(int, LineData)>, now: u64) -> bool {
    rs.len() == es.len() && forall|j: int|
        0 <= j < rs.len() ==> (#[trigger] rs[j]).data() == es[j].1 && rs[j].id as int == es[j].0
            && rs[j].created_at == now && rs[j].updated_at == now
}

/// Parses a whole file: every line through the same per-line parser,
/// accepted records kept in file order.
pub fn parse_hosts_content(content: &str, now: u64) -> (r: Vec<HostEntry>)
    ensures
        entries_match(r@, content_entries(content@), now),
{
    let cs = to_chars(content);
    let lines = split(&cs, '\n');
    let ghost dv = lines.deep_view();
    let n = lines.len();
    let mut r: Vec<HostEntry> = Vec::new();
    let ghost mut es: Seq<(int, LineData)> = seq![];
    let mut i: usize = 0;
    while i < n
        invariant
            i <= n == dv.len(),
            dv == lines.deep_view(),
            dv == split_s(content@, '\n'),
            entries_match(r@, es, now),
            entries_from(dv, 0) == es + entries_from(dv, i as int),
        decreases n - i,
    {
        proof {
            assert(lines[i as int]@ =~= dv[i as int]);
        }
        match parse_line(&lines[i], i, now) {
            Some(e) => {
                let ghost d = parse_line_s(dv[i as int]).unwrap();
                r.push(e);
                proof {
                    es = es + seq![(i as int, d)];
                    assert(entries_from(dv, 0) =~= es + entries_from(dv, i + 1));
                }
            },
            None => {},
        }
        i = i + 1;
    }
    proof {
        assert(entries_from(dv, n as int) =~= Seq::<(int, LineData)>::empty());
        assert(es =~= es + entries_from(dv, n as int));
        assert(entries_match(r@, content_entries(content@), now));
    }
    r
}

// ---------------------------------------------------------------------------
// Writing one line
// ---------------------------------------------------------------------------

/// The line the writer emits for one record: `ip<sp>hostname`, a tab and
/// `# comment` when a comment is present, the whole prefixed with `# ` when
/// the record is disabled.
pub open spec fn render_line_s(d: LineData) -> Seq<char> {
    let base = d.ip + seq![' '] + d.hostname;
    let full = match d.comment {
        Some(c) => base + seq!['\t', '#', ' '] + c,
        None => base,
    };
    if d.enabled {
        full
    } else {
        seq!['#', ' '] + full
    }
}

/// Law: a record accepted by the parser, re-serialised by the writer and
/// re-parsed, yields the same (address, hostname, enabled, comment) tuple —
/// stated for records without a trailing comment.  A record with a comment
/// does not round-trip unchanged: the writer prefixes the comment text with
/// a fresh `# ` marker which the parser then keeps as part of the text.
pub proof fn lemma_write_parse_round_trip(line: Seq<char>)
    requires
        parse_line_s(line) is Some,
        parse_line_s(line).unwrap().comment is None,
    ensures
        parse_line_s(render_line_s(parse_line_s(line).unwrap())) == parse_line_s(line),
{
    let d = parse_line_s(line).unwrap();
    let t = trim_s(line);
    let w = if t[0] != '#' {
        t
    } else {
        trim_s(t.skip(1))
    };
    let toks = tokens_s(w);
    crate::text::lemma_trim_ends(line);
    crate::text::lemma_trim_ends(t.skip(1));
    crate::text::lemma_tokens_wf(w);
    crate::text::lemma_tokens_head(w);
    assert(d.ip == toks[0] && d.hostname == toks[1]);
    assert(toks[0].len() > 0 && forall|j: int| 0 <= j < toks[0].len() ==> !is_ws(toks[0][j]));
    assert(toks[1].len() > 0 && forall|j: int| 0 <= j < toks[1].len() ==> !is_ws(toks[1][j]));
    assert(d.ip[0] == w[0]);
    assert(d.ip[0] != '#');
    let base = d.ip + seq![' '] + d.hostname;
    assert(base[0] == d.ip[0]);
    assert(base.len() == d.ip.len() + 1 + d.hostname.len());
    assert(base[base.len() - 1] == d.hostname[d.hostname.len() - 1]);
    crate::text::lemma_tokens_two(d.ip, d.hostname);
    let l = render_line_s(d);
    if d.enabled {
        assert(l == base);
        crate::text::lemma_trim_fixed(l);
        assert(trim_s(l) == l);
        assert(l[0] != '#');
        assert(tokens_s(l) == seq![d.ip, d.hostname]);
        assert(tokens_s(l).len() == 2);
        assert(parse_line_s(l) is Some);
        assert(parse_line_s(l).unwrap() == d);
    } else {
        assert(l == seq!['#', ' '] + base);
        assert(l[0] == '#');
        assert(l[l.len() - 1] == base[base.len() - 1]);
        crate::text::lemma_trim_fixed(l);
        assert(trim_s(l) == l);
        let x = l.skip(1);
        assert(x =~= seq![' '] + base);
        assert(is_ws(x[0]));
        assert(x.skip(1) =~= base);
        assert(crate::text::trim_start_s(x) == crate::text::trim_start_s(base));
        assert(crate::text::trim_start_s(base) == base);
        assert(crate::text::trim_end_s(base) == base);
        assert(trim_s(x) == base);
        assert(base[0] != '#');
        assert(tokens_s(base) == seq![d.ip, d.hostname]);
        assert(parse_line_s(l) is Some);
        assert(parse_line_s(l).unwrap() == d);
    }
}

/// Serialises one record to its file line.
pub fn render_line(e: &HostEntry) -> (r: Vec<char>)
    ensures
        r@ == render_line_s(e.data()),
{
    let mut out: Vec<char> = Vec::new();
    if !e.enabled {
        out.push('#');
        out.push(' ');
    }
    let ip = to_chars(e.ip.as_str());
    push_all(&mut out, &ip);
    out.push(' ');
    let hn = to_chars(e.hostname.as_str());
    push_all(&mut out, &hn);
    match &e.comment {
        Some(c) => {
            out.push('\t');
            out.push('#');
            out.push(' ');
            let cc = to_chars(c.as_str());
            push_all(&mut out, &cc);
        },
        None => {},
    }
    proof {
        assert(out@ =~= render_line_s(e.data()));
    }
    out
}

} // verus!
