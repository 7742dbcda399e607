//! The hosts-file engine over its filesystem state: availability checks,
//! paginated and chunked reads, the atomic rewrite with single-slot backup,
//! and the disable/enable toggle.  The state of the three on-disk locations
//! is modelled as the contents each one holds, so every transition states
//! exactly which contents move where.

use vstd::prelude::*;

use crate::ceil_div;
use crate::net::{is_address_s, is_hostname_s, is_valid_hostname, is_valid_ip};
use crate::page::{
    cap_chunk_size, clamp_page_size, paginate, take_window, window, PaginatedResponse,
    MAX_CHUNK_SIZE, MAX_PAGE_SIZE, MIN_PAGE_SIZE,
};
use crate::query::{query_param, query_param_s};
use crate::text::to_chars;
use crate::record::{
    content_entries, entries_match, parse_hosts_content, render_line, render_line_s, HostEntry,
    LineData,
};
use crate::response::HostsError;

verus! {

/// The three on-disk locations the engine touches, each either absent or
/// holding the file content at that location.
#[derive(Debug)]
pub struct HostsFs {
    /// The canonical hosts-file location.
    pub active: Option<String>,
    /// The alternate location that marks the file as disabled.
    pub disabled: Option<String>,
    /// The single-slot backup written before every rewrite.
    pub backup: Option<String>,
}

/// The disabled-marker state: the alternate location is populated and the
/// canonical one is not.
pub open spec fn disabled_state(fs: HostsFs) -> bool {
    fs.active is None && fs.disabled is Some
}

/// Neither location is populated.
pub open spec fn missing_state(fs: HostsFs) -> bool {
    fs.active is None && fs.disabled is None
}

/// The inconsistent state: both locations are populated.  The engine
/// detects and rejects it, never resolves it.
pub open spec fn conflict_state(fs: HostsFs) -> bool {
    fs.active is Some && fs.disabled is Some
}

/// Why a read fails, if it does: `Disabled` in the disabled-marker state,
/// `NotFound` when the active file is absent altogether.
pub open spec fn read_error(fs: HostsFs) -> Option<HostsError> {
    if disabled_state(fs) {
        Some(HostsError::Disabled)
    } else if fs.active is None {
        Some(HostsError::NotFound)
    } else {
        None
    }
}

/// The records of the active file, in line order.
pub open spec fn active_entries(fs: HostsFs) -> Seq<(int, LineData)>
    recommends
        fs.active is Some,
{
    content_entries(fs.active.unwrap()@)
}

proof fn lemma_entries_match_window(
    rs: Seq<HostEntry>,
    es: Seq<(int, LineData)>,
    now: u64,
    start: int,
    count: int,
)
    requires
        entries_match(rs, es, now),
        0 <= start,
        0 <= count,
    ensures
        entries_match(window(rs, start, count), window(es, start, count), now),
{
    assert forall|j: int| 0 <= j < window(rs, start, count).len() implies (#[trigger] window(
        rs,
        start,
        count,
    )[j]).data() == window(es, start, count)[j].1 && window(rs, start, count)[j].id as int
        == window(es, start, count)[j].0 && window(rs, start, count)[j].created_at == now && window(
        rs,
        start,
        count,
    )[j].updated_at == now by {
        assert(rs[start + j].data() == es[start + j].1);
    }
}

// ---------------------------------------------------------------------------
// Reads
// ---------------------------------------------------------------------------

/// What a successful paginated read returns: the page metadata derived from
/// the record total and the request, and the records at ordinals
/// `[page * page_size, page * page_size + page_size)` of the active file.
pub open spec fn read_page_ok(
    fs: HostsFs,
    page: int,
    page_size: int,
    now: u64,
    p: PaginatedResponse<HostEntry>,
) -> bool {
    let es = active_entries(fs);
    &&& p.total as int == es.len()
    &&& p.page as int == page
    &&& p.page_size as int == page_size
    &&& p.total_pages as int == ceil_div(es.len() as nat, page_size as nat)
    &&& p.has_next == (page + 1 < p.total_pages as int)
    &&& p.has_prev == (page > 0)
    &&& entries_match(p.data@, window(es, page * page_size, page_size), now)
}

/// Reads the active file and returns the requested page.  Fails with
/// `Disabled` in the disabled-marker state and with `NotFound` when the
/// active file is absent; reads never mutate any location.
pub fn read_hosts_file_streaming(fs: &HostsFs, page: usize, page_size: usize, now: u64) -> (r:
    Result<PaginatedResponse<HostEntry>, HostsError>)
    requires
        page_size >= 1,
    ensures
        r is Ok <==> read_error(*fs) is None,
        r is Err ==> r->Err_0 == read_error(*fs).unwrap(),
        r is Ok ==> read_page_ok(*fs, page as int, page_size as int, now, r.unwrap()),
{
    match &fs.active {
        None => {
            if fs.disabled.is_some() {
                Err(HostsError::Disabled)
            } else {
                Err(HostsError::NotFound)
            }
        },
        Some(content) => {
            let records = parse_hosts_content(content.as_str(), now);
            let p = paginate(&records, page, page_size);
            proof {
                lemma_entries_match_window(
                    records@,
                    active_entries(*fs),
                    now,
                    page as int * page_size as int,
                    page_size as int,
                );
            }
            Ok(p)
        },
    }
}

/// Counts the records of the active file, under the same availability
/// checks as every other read.
pub fn get_hosts_file_count(fs: &HostsFs, now: u64) -> (r: Result<usize, HostsError>)
    ensures
        r is Ok <==> read_error(*fs) is None,
        r is Err ==> r->Err_0 == read_error(*fs).unwrap(),
        r is Ok ==> r.unwrap() as int == active_entries(*fs).len(),
{
    match &fs.active {
        None => {
            if fs.disabled.is_some() {
                Err(HostsError::Disabled)
            } else {
                Err(HostsError::NotFound)
            }
        },
        Some(content) => {
            let records = parse_hosts_content(content.as_str(), now);
            Ok(records.len())
        },
    }
}

/// Reads the window `[offset, offset + chunk_size)` of the accepted-record
/// ordinal sequence, under the same availability checks as every read.
pub fn stream_hosts_file_chunks(fs: &HostsFs, chunk_size: usize, offset: usize, now: u64) -> (r:
    Result<Vec<HostEntry>, HostsError>)
    ensures
        r is Ok <==> read_error(*fs) is None,
        r is Err ==> r->Err_0 == read_error(*fs).unwrap(),
        r is Ok ==> entries_match(
            r.unwrap()@,
            window(active_entries(*fs), offset as int, chunk_size as int),
            now,
        ),
{
    match &fs.active {
        None => {
            if fs.disabled.is_some() {
                Err(HostsError::Disabled)
            } else {
                Err(HostsError::NotFound)
            }
        },
        Some(content) => {
            let records = parse_hosts_content(content.as_str(), now);
            let out = take_window(&records, offset, chunk_size);
            proof {
                lemma_entries_match_window(
                    records@,
                    active_entries(*fs),
                    now,
                    offset as int,
                    chunk_size as int,
                );
            }
            Ok(out)
        },
    }
}

// ---------------------------------------------------------------------------
// The writer
// ---------------------------------------------------------------------------

/// The record contents of a record list.
pub open spec fn datas_of(rs: Seq<HostEntry>) -> Seq<LineData> {
    rs.map_values(|e: HostEntry| e.data())
}

/// The record contents of a parsed entry list.
pub open spec fn entry_datas(es: Seq<(int, LineData)>) -> Seq<LineData> {
    es.map_values(|e: (int, LineData)| e.1)
}

/// One emitted line per record, each terminated by a newline, in order.
pub open spec fn render_lines_s(ds: Seq<LineData>) -> Seq<char>
    decreases ds.len(),
{
    if ds.len() == 0 {
        Seq::empty()
    } else {
        render_lines_s(ds.take(ds.len() - 1)) + render_line_s(ds.last()) + seq!['\n']
    }
}

/// The managed-by header: product line, generation timestamp, one blank
/// separator line.
pub open spec fn header_s(timestamp: Seq<char>) -> Seq<char> {
    "# HostDNI managed hosts file\n"@ + "# Generated on: "@ + timestamp + "\n\n"@
}

/// The full content the writer emits for a record list.
pub open spec fn render_content_s(ds: Seq<LineData>, timestamp: Seq<char>) -> Seq<char> {
    header_s(timestamp) + render_lines_s(ds)
}

/// Rewrites the active file from an ordered record list: refuses the
/// disabled-marker state, first copies the current active content verbatim
/// into the single backup slot, then replaces the active content with the
/// header followed by one line per record in input order.
pub fn write_hosts_file_streaming(fs: &mut HostsFs, entries: &Vec<HostEntry>, timestamp: &str) -> (
    r: Result<(), HostsError>)
    ensures
        r is Ok <==> !disabled_state(*old(fs)),
        r is Err ==> r->Err_0 == HostsError::Disabled && *final(fs) == *old(fs),
        r is Ok ==> final(fs).disabled == old(fs).disabled,
        r is Ok ==> final(fs).backup == (if old(fs).active is Some {
            old(fs).active
        } else {
            old(fs).backup
        }),
        r is Ok ==> final(fs).active is Some && final(fs).active.unwrap()@ == render_content_s(
            datas_of(entries@),
            timestamp@,
        ),
{
    if fs.active.is_none() && fs.disabled.is_some() {
        return Err(HostsError::Disabled);
    }
    // single-slot backup of the current content, overwriting any prior one
    match &fs.active {
        Some(a) => {
            fs.backup = Some(a.clone());
        },
        None => {},
    }
    let mut out = String::new();
    out.append("# HostDNI managed hosts file\n");
    out.append("# Generated on: ");
    out.append(timestamp);
    out.append("\n\n");
    let ghost ds = datas_of(entries@);
    let n = entries.len();
    let mut i: usize = 0;
    while i < n
        invariant
            i <= n == entries@.len(),
            ds == datas_of(entries@),
            out@ == header_s(timestamp@) + render_lines_s(ds.take(i as int)),
        decreases n - i,
    {
        let line = render_line(&entries[i]);
        let line_str = crate::text::chars_to_string(&line);
        out.append(line_str.as_str());
        out.append("\n");
        i = i + 1;
        proof {
            reveal_strlit("\n");
            assert(("\n")@ =~= seq!['\n']);
            assert(ds[i - 1] == entries@[i - 1].data());
            assert(ds.take(i as int).take(i - 1) =~= ds.take(i - 1));
            assert(ds.take(i as int).last() == ds[i - 1]);
            assert(out@ =~= header_s(timestamp@) + render_lines_s(ds.take(i as int)));
        }
    }
    proof {
        assert(ds.take(n as int) =~= ds);
    }
    fs.active = Some(out);
    Ok(())
}

// ---------------------------------------------------------------------------
// The availability toggle
// ---------------------------------------------------------------------------

/// The disable transition is allowed exactly when the active file exists
/// and the disabled marker does not.
pub open spec fn disable_ok(fs: HostsFs) -> bool {
    fs.active is Some && fs.disabled is None
}

/// Disabling moves the active content to the alternate location.
pub open spec fn disable_next(fs: HostsFs) -> HostsFs {
    HostsFs { active: None, disabled: fs.active, backup: fs.backup }
}

/// Which error a refused disable reports.
pub open spec fn disable_err(fs: HostsFs) -> HostsError {
    if disabled_state(fs) {
        HostsError::Disabled
    } else if missing_state(fs) {
        HostsError::NotFound
    } else {
        HostsError::Conflict
    }
}

/// The enable transition is allowed exactly when the disabled marker exists
/// and the active file does not.
pub open spec fn enable_ok(fs: HostsFs) -> bool {
    fs.disabled is Some && fs.active is None
}

/// Enabling moves the content back to the canonical location.
pub open spec fn enable_next(fs: HostsFs) -> HostsFs {
    HostsFs { active: fs.disabled, disabled: None, backup: fs.backup }
}

/// Which error a refused enable reports.
pub open spec fn enable_err(fs: HostsFs) -> HostsError {
    if conflict_state(fs) {
        HostsError::Conflict
    } else {
        HostsError::NotFound
    }
}

/// Moves the active file to the alternate location.  Calling it again
/// without an intervening enable is rejected with `Disabled` and leaves
/// every location unchanged; the inconsistent dual state is rejected with
/// `Conflict`, never resolved.
pub fn disable_hosts_file(fs: &mut HostsFs) -> (r: Result<(), HostsError>)
    ensures
        r is Ok <==> disable_ok(*old(fs)),
        r is Ok ==> *final(fs) == disable_next(*old(fs)),
        r is Err ==> *final(fs) == *old(fs) && r->Err_0 == disable_err(*old(fs)),
{
    if fs.active.is_some() && fs.disabled.is_none() {
        let moved = fs.active.take();
        fs.disabled = moved;
        Ok(())
    } else if fs.active.is_none() && fs.disabled.is_some() {
        Err(HostsError::Disabled)
    } else if fs.active.is_none() {
        Err(HostsError::NotFound)
    } else {
        Err(HostsError::Conflict)
    }
}

/// Moves the disabled content back to the canonical location, under the
/// mirrored preconditions of `disable_hosts_file`.
pub fn enable_hosts_file(fs: &mut HostsFs) -> (r: Result<(), HostsError>)
    ensures
        r is Ok <==> enable_ok(*old(fs)),
        r is Ok ==> *final(fs) == enable_next(*old(fs)),
        r is Err ==> *final(fs) == *old(fs) && r->Err_0 == enable_err(*old(fs)),
{
    if fs.disabled.is_some() && fs.active.is_none() {
        let moved = fs.disabled.take();
        fs.active = moved;
        Ok(())
    } else if fs.disabled.is_none() {
        Err(HostsError::NotFound)
    } else {
        Err(HostsError::Conflict)
    }
}

/// Law: disabling and then immediately enabling restores the filesystem
/// state exactly — the active content byte-identical, the backup untouched.
pub proof fn lemma_disable_enable_round_trip(fs: HostsFs)
    requires
        disable_ok(fs),
    ensures
        enable_ok(disable_next(fs)),
        enable_next(disable_next(fs)) == fs,
{
}

/// Law: after a disable, a second disable without an intervening enable is
/// refused with `Disabled` (the transition itself leaves the state
/// unchanged, as `disable_hosts_file` ensures on every refusal).
pub proof fn lemma_disable_twice_rejected(fs: HostsFs)
    requires
        disable_ok(fs),
    ensures
        !disable_ok(disable_next(fs)),
        disable_err(disable_next(fs)) == HostsError::Disabled,
{
}

// ---------------------------------------------------------------------------
// Laws tying the reads together
// ---------------------------------------------------------------------------

/// Law: the record count equals the length of the record list of a full
/// read, page `0` with the count itself as page size.
pub proof fn lemma_count_equals_full_read(
    fs: HostsFs,
    now: u64,
    c: usize,
    p: PaginatedResponse<HostEntry>,
)
    requires
        read_error(fs) is None,
        c as int == active_entries(fs).len(),
        c > 0,
        read_page_ok(fs, 0, c as int, now, p),
    ensures
        p.data@.len() == c,
{
    let es = active_entries(fs);
    assert(window(es, 0, c as int) =~= es);
}

// ---------------------------------------------------------------------------
// Creating one record
// ---------------------------------------------------------------------------

/// The body of a create request.
#[derive(Debug)]
pub struct CreateHostEntryRequest {
    pub ip: String,
    pub hostname: String,
    pub comment: Option<String>,
    pub enabled: Option<bool>,
}

/// A create request is valid when its address and hostname pass the same
/// grammars the parser applies to file lines.
pub open spec fn request_valid(req: CreateHostEntryRequest) -> bool {
    is_address_s(req.ip@) && is_hostname_s(req.hostname@)
}

/// The record content a create request asks for; a missing enabled flag
/// means enabled.
pub open spec fn request_data(req: CreateHostEntryRequest) -> LineData {
    LineData {
        ip: req.ip@,
        hostname: req.hostname@,
        comment: match req.comment {
            Some(c) => Some(c@),
            None => None,
        },
        enabled: match req.enabled {
            Some(b) => b,
            None => true,
        },
    }
}

/// Appends one record to the hosts file: validates the request fields,
/// re-reads the current records, and rewrites the file with the new record
/// appended, under the usual availability checks.
pub fn create_host_entry(
    fs: &mut HostsFs,
    req: &CreateHostEntryRequest,
    now: u64,
    timestamp: &str,
) -> (r: Result<HostEntry, HostsError>)
    ensures
        !request_valid(*req) ==> r == Err::<HostEntry, HostsError>(HostsError::ValidationFailed)
            && *final(fs) == *old(fs),
        request_valid(*req) && read_error(*old(fs)) is Some ==> r is Err && r->Err_0
            == read_error(*old(fs)).unwrap() && *final(fs) == *old(fs),
        request_valid(*req) && read_error(*old(fs)) is None ==> r is Ok && r.unwrap().data()
            == request_data(*req) && r.unwrap().created_at == now && r.unwrap().updated_at == now
            && final(fs).disabled == old(fs).disabled && final(fs).backup == old(fs).active
            && final(fs).active is Some && final(fs).active.unwrap()@ == render_content_s(
            entry_datas(active_entries(*old(fs))) + seq![request_data(*req)],
            timestamp@,
        ),
{
    let ipc = to_chars(req.ip.as_str());
    let hnc = to_chars(req.hostname.as_str());
    if !(is_valid_ip(&ipc) && is_valid_hostname(&hnc)) {
        return Err(HostsError::ValidationFailed);
    }
    let content = match &fs.active {
        None => {
            if fs.disabled.is_some() {
                return Err(HostsError::Disabled);
            } else {
                return Err(HostsError::NotFound);
            }
        },
        Some(c) => c.clone(),
    };
    let mut records = parse_hosts_content(content.as_str(), now);
    let new_entry = HostEntry {
        id: records.len(),
        ip: req.ip.clone(),
        hostname: req.hostname.clone(),
        comment: match &req.comment {
            Some(c) => Some(c.clone()),
            None => None,
        },
        enabled: match req.enabled {
            Some(b) => b,
            None => true,
        },
        created_at: now,
        updated_at: now,
    };
    let ghost old_records = records@;
    let copy = new_entry.duplicate();
    records.push(copy);
    match write_hosts_file_streaming(fs, &records, timestamp) {
        Ok(()) => {
            proof {
                let es = active_entries(*old(fs));
                assert(new_entry.data() == request_data(*req));
                assert forall|j: int| 0 <= j < old_records.len() implies (#[trigger] datas_of(
                    records@,
                )[j]) == entry_datas(es)[j] by {
                    assert(records@[j].data() == es[j].1);
                }
                assert(datas_of(records@) =~= entry_datas(es) + seq![request_data(*req)]);
            }
            Ok(new_entry)
        },
        Err(e) => {
            proof {
                assert(false);
            }
            Err(e)
        },
    }
}

// ---------------------------------------------------------------------------
// Query-driven entry points
// ---------------------------------------------------------------------------

/// The page ordinal a query string requests; missing or malformed means
/// the first page.
pub open spec fn requested_page(q: Seq<char>) -> int {
    match query_param_s(q, "page"@) {
        Some(p) => p as int,
        None => 0,
    }
}

/// The page size a query string requests, defaulted to the lower bound and
/// clamped into `[1000, 20000]`.
pub open spec fn requested_page_size(q: Seq<char>) -> int {
    let raw = match query_param_s(q, "page_size"@) {
        Some(p) => p as int,
        None => 1000,
    };
    if raw < MIN_PAGE_SIZE {
        MIN_PAGE_SIZE as int
    } else if raw > MAX_PAGE_SIZE {
        MAX_PAGE_SIZE as int
    } else {
        raw
    }
}

/// The chunk size a streaming query requests, defaulted and capped.
pub open spec fn requested_chunk_size(q: Seq<char>) -> int {
    let raw = match query_param_s(q, "chunk_size"@) {
        Some(p) => p as int,
        None => 1000,
    };
    if raw > MAX_CHUNK_SIZE {
        MAX_CHUNK_SIZE as int
    } else {
        raw
    }
}

/// The record offset a streaming query requests; missing means the start.
pub open spec fn requested_offset(q: Seq<char>) -> int {
    match query_param_s(q, "offset"@) {
        Some(p) => p as int,
        None => 0,
    }
}

/// Serves the paginated listing: reads `page` and `page_size` from the
/// query string, clamps the page size, and returns that page of the file.
pub fn get_host_entries(fs: &HostsFs, query: &str, now: u64) -> (r: Result<
    PaginatedResponse<HostEntry>,
    HostsError,
>)
    ensures
        r is Ok <==> read_error(*fs) is None,
        r is Err ==> r->Err_0 == read_error(*fs).unwrap(),
        r is Ok ==> read_page_ok(
            *fs,
            requested_page(query@),
            requested_page_size(query@),
            now,
            r.unwrap(),
        ),
{
    let page = match query_param(query, "page") {
        Some(p) => p,
        None => 0,
    };
    let raw = match query_param(query, "page_size") {
        Some(p) => p,
        None => 1000,
    };
    let page_size = clamp_page_size(raw);
    read_hosts_file_streaming(fs, page, page_size, now)
}

/// Serves the streaming listing: reads `chunk_size` and `offset` from the
/// query string, caps the chunk size, and returns that window of the
/// accepted-record sequence.
pub fn stream_host_entries(fs: &HostsFs, query: &str, now: u64) -> (r: Result<
    Vec<HostEntry>,
    HostsError,
>)
    ensures
        r is Ok <==> read_error(*fs) is None,
        r is Err ==> r->Err_0 == read_error(*fs).unwrap(),
        r is Ok ==> entries_match(
            r.unwrap()@,
            window(active_entries(*fs), requested_offset(query@), requested_chunk_size(query@)),
            now,
        ),
{
    let chunk_size = cap_chunk_size(
        match query_param(query, "chunk_size") {
            Some(p) => p,
            None => 1000,
        },
    );
    let offset = match query_param(query, "offset") {
        Some(p) => p,
        None => 0,
    };
    stream_hosts_file_chunks(fs, chunk_size, offset, now)
}

// ---------------------------------------------------------------------------
// Plain rewrites
// ---------------------------------------------------------------------------

/// The one-line content of a rebuilt hosts file.
pub open spec fn basic_content_s(timestamp: Seq<char>) -> Seq<char> {
    "# Managed by HostDNI. Last updated at: "@ + timestamp + "\n"@
}

/// Replaces the active content with a bare managed-by header; the other
/// locations are untouched.
pub fn build_and_save_hosts_file(fs: &mut HostsFs, timestamp: &str)
    ensures
        final(fs).active is Some && final(fs).active.unwrap()@ == basic_content_s(timestamp@),
        final(fs).disabled == old(fs).disabled,
        final(fs).backup == old(fs).backup,
{
    let mut out = String::new();
    out.append("# Managed by HostDNI. Last updated at: ");
    out.append(timestamp);
    out.append("\n");
    fs.active = Some(out);
}

/// The given content under a managed-by header.
pub open spec fn stamped_content_s(timestamp: Seq<char>, content: Seq<char>) -> Seq<char> {
    "# Managed by HostDNI. Last updated at: "@ + timestamp + "\n\n"@ + content
}

/// Replaces the active content with the given content under a managed-by
/// header; the other locations are untouched.
pub fn save_hosts_file(fs: &mut HostsFs, hosts_content: &str, timestamp: &str)
    ensures
        final(fs).active is Some && final(fs).active.unwrap()@ == stamped_content_s(
            timestamp@,
            hosts_content@,
        ),
        final(fs).disabled == old(fs).disabled,
        final(fs).backup == old(fs).backup,
{
    let mut out = String::new();
    out.append("# Managed by HostDNI. Last updated at: ");
    out.append(timestamp);
    out.append("\n\n");
    out.append(hosts_content);
    fs.active = Some(out);
}

// ---------------------------------------------------------------------------
// Status
// ---------------------------------------------------------------------------

/// What the status endpoint reports: presence of each location, the
/// derived disabled flag, and the content length of each populated one.
#[derive(Debug)]
pub struct HostsStatus {
    pub disabled: bool,
    pub hosts_exists: bool,
    pub disabled_exists: bool,
    pub backup_exists: bool,
    pub hosts_size: Option<usize>,
    pub disabled_size: Option<usize>,
    pub backup_size: Option<usize>,
}

/// Reports presence and sizes of the three locations; never fails and
/// never mutates.
pub fn get_hosts_status(fs: &HostsFs) -> (st: HostsStatus)
    ensures
        st.hosts_exists == (fs.active is Some),
        st.disabled_exists == (fs.disabled is Some),
        st.backup_exists == (fs.backup is Some),
        st.disabled == disabled_state(*fs),
        st.hosts_exists ==> st.hosts_size is Some && st.hosts_size.unwrap() as int
            == fs.active.unwrap()@.len(),
        !st.hosts_exists ==> st.hosts_size is None,
        st.disabled_exists ==> st.disabled_size is Some && st.disabled_size.unwrap() as int
            == fs.disabled.unwrap()@.len(),
        !st.disabled_exists ==> st.disabled_size is None,
        st.backup_exists ==> st.backup_size is Some && st.backup_size.unwrap() as int
            == fs.backup.unwrap()@.len(),
        !st.backup_exists ==> st.backup_size is None,
{
    let hosts_size = match &fs.active {
        Some(c) => Some(c.as_str().unicode_len()),
        None => None,
    };
    let disabled_size = match &fs.disabled {
        Some(c) => Some(c.as_str().unicode_len()),
        None => None,
    };
    let backup_size = match &fs.backup {
        Some(c) => Some(c.as_str().unicode_len()),
        None => None,
    };
    HostsStatus {
        disabled: disabled_size.is_some() && hosts_size.is_none(),
        hosts_exists: hosts_size.is_some(),
        disabled_exists: disabled_size.is_some(),
        backup_exists: backup_size.is_some(),
        hosts_size,
        disabled_size,
        backup_size,
    }
}

} // verus!
