//! The remote-control protocol: token validation with its brute-force delay,
//! the hub's single-scan exclusivity slot, request dispatch, the decision
//! rules of the `read`, `list` and `disk` actions, and newline framing with
//! the hard per-line cap.

use vstd::prelude::*;
use base64::Engine;
use crate::filter::FilterError;
use crate::options::{ScanOptions, ScanConfig, build_scan_config};
use crate::text::{lex_le, lower_of, lowercase, str_le, str_eq, spec_trim, trim_str,
    lemma_lex_le_total, lemma_lex_le_trans};
use crate::types::DiskUsageSnapshot;

verus! {

/// The hard cap on one protocol line, in bytes.
pub const MAX_LINE_LENGTH: u64 = 10485760;

/// How many clients a hub serves at most.
pub const MAX_CONNECTIONS: usize = 50;

/// How long an unauthorized reply is delayed, in milliseconds.
pub const UNAUTHORIZED_DELAY_MS: u64 = 2000;

/// The size above which `read` refuses a file, in bytes.
pub const MAX_READ_BYTES: u64 = 5242880;

/// One parsed request, with its optional correlation id.
pub enum RemoteRequest {
    Ping { id: Option<String> },
    List { id: Option<String>, path: Option<String> },
    Disk { id: Option<String>, path: String },
    Read { id: Option<String>, path: String },
    Scan { id: Option<String>, path: String, options: Option<ScanOptions> },
    Cancel { id: Option<String> },
    Shutdown { id: Option<String> },
}

/// A request line as received: the optional token, then the request.
pub struct RemoteEnvelope {
    pub token: Option<String>,
    pub request: RemoteRequest,
}

/// The id a request carries.
pub open spec fn spec_request_id(r: &RemoteRequest) -> Option<String> {
    match r {
        RemoteRequest::Ping { id } => *id,
        RemoteRequest::List { id, .. } => *id,
        RemoteRequest::Disk { id, .. } => *id,
        RemoteRequest::Read { id, .. } => *id,
        RemoteRequest::Scan { id, .. } => *id,
        RemoteRequest::Cancel { id } => *id,
        RemoteRequest::Shutdown { id } => *id,
    }
}

/// The id a request carries.
pub fn request_id(r: &RemoteRequest) -> (out: Option<String>)
    ensures
        out == spec_request_id(r),
{
    match r {
        RemoteRequest::Ping { id } => crate::engine::clone_opt_string(id),
        RemoteRequest::List { id, .. } => crate::engine::clone_opt_string(id),
        RemoteRequest::Disk { id, .. } => crate::engine::clone_opt_string(id),
        RemoteRequest::Read { id, .. } => crate::engine::clone_opt_string(id),
        RemoteRequest::Scan { id, .. } => crate::engine::clone_opt_string(id),
        RemoteRequest::Cancel { id } => crate::engine::clone_opt_string(id),
        RemoteRequest::Shutdown { id } => crate::engine::clone_opt_string(id),
    }
}

/// The protocol's error codes.
#[derive(Clone, Copy, Debug, PartialEq, Eq, Structural)]
pub enum ErrorCode {
    InvalidJson,
    Unauthorized,
    PathNotFound,
    NotAFile,
    FileTooLarge,
    ScanInProgress,
    ShutdownNotAllowed,
    ShutdownFailed,
    InvalidPattern,
    InvalidRange,
    DiskUsageFailed,
}

impl ErrorCode {
    /// The wire text of this code.
    pub fn as_str(&self) -> (r: &'static str)
        ensures
            self == ErrorCode::Unauthorized ==> r@ == "unauthorized"@,
            self == ErrorCode::PathNotFound ==> r@ == "path-not-found"@,
            self == ErrorCode::NotAFile ==> r@ == "not-a-file"@,
            self == ErrorCode::FileTooLarge ==> r@ == "file-too-large"@,
            self == ErrorCode::ScanInProgress ==> r@ == "scan-in-progress"@,
            self == ErrorCode::InvalidJson ==> r@ == "invalid_json"@,
            self == ErrorCode::ShutdownNotAllowed ==> r@ == "shutdown-not-allowed"@,
            self == ErrorCode::ShutdownFailed ==> r@ == "shutdown-failed"@,
            self == ErrorCode::InvalidPattern ==> r@ == "invalid-pattern"@,
            self == ErrorCode::InvalidRange ==> r@ == "min-size-exceeds-max-size"@,
            self == ErrorCode::DiskUsageFailed ==> r@ == "disk-usage-failed"@,
    {
        match self {
            ErrorCode::InvalidJson => "invalid_json",
            ErrorCode::Unauthorized => "unauthorized",
            ErrorCode::PathNotFound => "path-not-found",
            ErrorCode::NotAFile => "not-a-file",
            ErrorCode::FileTooLarge => "file-too-large",
            ErrorCode::ScanInProgress => "scan-in-progress",
            ErrorCode::ShutdownNotAllowed => "shutdown-not-allowed",
            ErrorCode::ShutdownFailed => "shutdown-failed",
            ErrorCode::InvalidPattern => "invalid-pattern",
            ErrorCode::InvalidRange => "min-size-exceeds-max-size",
            ErrorCode::DiskUsageFailed => "disk-usage-failed",
        }
    }
}

/// The immediate reply a handled request produces.
pub enum ReplyEvent {
    Pong { id: Option<String> },
    Error { id: Option<String>, code: ErrorCode },
    ScanStarted { id: Option<String> },
    CancelRequested { id: Option<String> },
    NoActiveScan { id: Option<String> },
    Shutdown { id: Option<String> },
    /// The request needs filesystem work (`list`, `disk`, `read`) that the
    /// caller performs with the decision functions below.
    NeedsIo,
}

/// A claimed scan: the caller runs the traversal and must release the slot
/// when it ends, however it ends.
pub struct ScanJob {
    pub id: Option<String>,
    pub path: String,
    pub config: ScanConfig,
}

/// Everything a handled request asks of the caller.
pub struct Handled {
    /// Wait this long before replying (the brute-force mitigation).
    pub delay_ms: u64,
    pub reply: ReplyEvent,
    pub start_scan: Option<ScanJob>,
    /// Store `true` into the active scan's cancellation flag.
    pub do_cancel: bool,
    /// Signal the owning process's shutdown channel.
    pub do_shutdown: bool,
}

/// The hub's shared state, as one value: the configured token, the
/// exclusivity slot, whether a cancellation handle is registered, the mode,
/// and how many clients are connected.
pub struct HubState {
    pub token: Option<String>,
    pub scan_active: bool,
    pub has_cancel_handle: bool,
    pub headless: bool,
    pub client_count: usize,
}

/// The error that compiling a scan request's options reports, if any; absent
/// options mean the defaults, which always compile.
pub open spec fn spec_scan_options_error(o: &Option<ScanOptions>) -> Option<ErrorCode> {
    match o {
        None => None,
        Some(opts) => {
            let f = opts.filters;
            if f.min_size_bytes is Some && f.max_size_bytes is Some && f.min_size_bytes->0
                > f.max_size_bytes->0 {
                Some(ErrorCode::InvalidRange)
            } else if (f.include_regex is Some && !crate::filter::regex_valid(
                f.include_regex->0@,
            )) || (f.exclude_regex is Some && !crate::filter::regex_valid(f.exclude_regex->0@)) {
                Some(ErrorCode::InvalidPattern)
            } else {
                None
            }
        },
    }
}

/// A request's token is accepted: always when no token is configured,
/// otherwise exactly when it matches.
pub open spec fn spec_token_ok(configured: Option<String>, provided: Option<String>) -> bool {
    match configured {
        None => true,
        Some(t) => match provided {
            Some(p) => p@ == t@,
            None => false,
        },
    }
}

impl HubState {
    /// A fresh hub.
    pub fn new(token: Option<String>, headless: bool) -> (r: HubState)
        ensures
            r.token == token,
            r.headless == headless,
            !r.scan_active,
            !r.has_cancel_handle,
            r.client_count == 0,
    {
        HubState { token, scan_active: false, has_cancel_handle: false, headless, client_count: 0 }
    }

    /// Decide a request's token (see [`spec_token_ok`]). Token values are
    /// compared, never logged.
    pub fn validate_token(&self, provided: &Option<String>) -> (r: bool)
        ensures
            r == spec_token_ok(self.token, *provided),
    {
        match &self.token {
            None => true,
            Some(t) => match provided {
                Some(p) => str_eq(p.as_str(), t.as_str()),
                None => false,
            },
        }
    }

    /// Claim the exclusive scan slot: fails, changing nothing, when a scan is
    /// already active; otherwise claims it and registers the cancellation
    /// handle.
    pub fn begin_scan(&mut self) -> (r: bool)
        ensures
            old(self).scan_active ==> !r && *final(self) == *old(self),
            !old(self).scan_active ==> r && *final(self) == (HubState {
                scan_active: true,
                has_cancel_handle: true,
                ..*old(self)
            }),
    {
        if self.scan_active {
            return false;
        }
        self.scan_active = true;
        self.has_cancel_handle = true;
        true
    }

    /// Release the slot, unconditionally.
    pub fn finish_scan(&mut self)
        ensures
            *final(self) == (HubState { scan_active: false, has_cancel_handle: false, ..*old(self) }),
    {
        self.scan_active = false;
        self.has_cancel_handle = false;
    }

    /// Whether another client may connect.
    pub fn can_accept(&self) -> (r: bool)
        ensures
            r == (self.client_count < MAX_CONNECTIONS),
    {
        self.client_count < MAX_CONNECTIONS
    }
}

/// Handle one authenticated-or-not request against the hub state.
///
/// An unauthorized request is answered `unauthorized` after the brute-force
/// delay, whatever it asked, and changes nothing. A `scan` while the slot is
/// held is answered `scan-in-progress` without claiming anything; otherwise a
/// `scan` of an existing path with valid options claims the slot and starts
/// exactly one job. `cancel` asks for cancellation exactly when a handle is
/// registered. `shutdown` is honored only in headless mode.
pub fn handle_request(
    hub: &mut HubState,
    env: &RemoteEnvelope,
    scan_path_exists: bool,
    available: usize,
) -> (r: Handled)
    requires
        available >= 1,
    ensures
        !spec_token_ok(old(hub).token, env.token) ==> {
            &&& r.delay_ms == UNAUTHORIZED_DELAY_MS
            &&& r.reply == ReplyEvent::Error {
                id: spec_request_id(&env.request),
                code: ErrorCode::Unauthorized,
            }
            &&& *final(hub) == *old(hub)
            &&& r.start_scan is None
            &&& !r.do_cancel
            &&& !r.do_shutdown
        },
        spec_token_ok(old(hub).token, env.token) ==> {
            &&& r.delay_ms == 0
            &&& match env.request {
                RemoteRequest::Ping { .. } => r.reply == ReplyEvent::Pong {
                    id: spec_request_id(&env.request),
                } && *final(hub) == *old(hub) && r.start_scan is None,
                RemoteRequest::Cancel { .. } => {
                    &&& *final(hub) == *old(hub)
                    &&& r.start_scan is None
                    &&& r.do_cancel == old(hub).has_cancel_handle
                    &&& (old(hub).has_cancel_handle ==> r.reply == ReplyEvent::CancelRequested {
                        id: spec_request_id(&env.request),
                    })
                    &&& (!old(hub).has_cancel_handle ==> r.reply == ReplyEvent::NoActiveScan {
                        id: spec_request_id(&env.request),
                    })
                },
                RemoteRequest::Shutdown { .. } => {
                    &&& *final(hub) == *old(hub)
                    &&& r.start_scan is None
                    &&& r.do_shutdown == old(hub).headless
                    &&& (old(hub).headless ==> r.reply == ReplyEvent::Shutdown {
                        id: spec_request_id(&env.request),
                    })
                    &&& (!old(hub).headless ==> r.reply == ReplyEvent::Error {
                        id: spec_request_id(&env.request),
                        code: ErrorCode::ShutdownNotAllowed,
                    })
                },
                RemoteRequest::Scan { path, options, .. } => {
                    let oerr = spec_scan_options_error(&options);
                    &&& (!scan_path_exists ==> r.reply == ReplyEvent::Error {
                        id: spec_request_id(&env.request),
                        code: ErrorCode::PathNotFound,
                    } && *final(hub) == *old(hub) && r.start_scan is None)
                    &&& (scan_path_exists && oerr is Some ==> r.reply == ReplyEvent::Error {
                        id: spec_request_id(&env.request),
                        code: oerr->0,
                    } && *final(hub) == *old(hub) && r.start_scan is None)
                    &&& (scan_path_exists && oerr is None && old(hub).scan_active ==> r.reply
                        == ReplyEvent::Error {
                        id: spec_request_id(&env.request),
                        code: ErrorCode::ScanInProgress,
                    } && *final(hub) == *old(hub) && r.start_scan is None)
                    &&& (scan_path_exists && oerr is None && !old(hub).scan_active ==> {
                        &&& *final(hub) == (HubState {
                            scan_active: true,
                            has_cancel_handle: true,
                            ..*old(hub)
                        })
                        &&& r.reply == ReplyEvent::ScanStarted {
                            id: spec_request_id(&env.request),
                        }
                        &&& r.start_scan is Some
                        &&& r.start_scan->0.path@ == path@
                        &&& r.start_scan->0.id == spec_request_id(&env.request)
                        &&& r.start_scan->0.config.filter.wf()
                        &&& r.start_scan->0.config.emit_every > 0
                        &&& (r.start_scan->0.config.throttle is Some
                            ==> r.start_scan->0.config.throttle->0.every_entries > 0)
                    })
                },
                _ => r.reply == ReplyEvent::NeedsIo && *final(hub) == *old(hub) && r.start_scan
                    is None,
            }
            &&& !r.do_cancel || env.request is Cancel
            &&& !r.do_shutdown || env.request is Shutdown
        },
{
    let id = request_id(&env.request);
    if !hub.validate_token(&env.token) {
        return Handled {
            delay_ms: UNAUTHORIZED_DELAY_MS,
            reply: ReplyEvent::Error { id, code: ErrorCode::Unauthorized },
            start_scan: None,
            do_cancel: false,
            do_shutdown: false,
        };
    }
    match &env.request {
        RemoteRequest::Ping { .. } => Handled {
            delay_ms: 0,
            reply: ReplyEvent::Pong { id },
            start_scan: None,
            do_cancel: false,
            do_shutdown: false,
        },
        RemoteRequest::Cancel { .. } => {
            if hub.has_cancel_handle {
                Handled {
                    delay_ms: 0,
                    reply: ReplyEvent::CancelRequested { id },
                    start_scan: None,
                    do_cancel: true,
                    do_shutdown: false,
                }
            } else {
                Handled {
                    delay_ms: 0,
                    reply: ReplyEvent::NoActiveScan { id },
                    start_scan: None,
                    do_cancel: false,
                    do_shutdown: false,
                }
            }
        },
        RemoteRequest::Shutdown { .. } => {
            if hub.headless {
                Handled {
                    delay_ms: 0,
                    reply: ReplyEvent::Shutdown { id },
                    start_scan: None,
                    do_cancel: false,
                    do_shutdown: true,
                }
            } else {
                Handled {
                    delay_ms: 0,
                    reply: ReplyEvent::Error { id, code: ErrorCode::ShutdownNotAllowed },
                    start_scan: None,
                    do_cancel: false,
                    do_shutdown: false,
                }
            }
        },
        RemoteRequest::Scan { path, options, .. } => {
            if !scan_path_exists {
                return Handled {
                    delay_ms: 0,
                    reply: ReplyEvent::Error { id, code: ErrorCode::PathNotFound },
                    start_scan: None,
                    do_cancel: false,
                    do_shutdown: false,
                };
            }
            let opts = match options {
                Some(o) => clone_options(o),
                None => ScanOptions::default(),
            };
            let config = match build_scan_config(&opts, available) {
                Ok(c) => c,
                Err(e) => {
                    let code = match e {
                        FilterError::InvalidPattern => ErrorCode::InvalidPattern,
                        FilterError::InvalidRange => ErrorCode::InvalidRange,
                    };
                    proof {
                        if options is None {
                            assert(false);
                        }
                        let fo = options->0.filters;
                        let range_bad = fo.min_size_bytes is Some && fo.max_size_bytes is Some
                            && fo.min_size_bytes->0 > fo.max_size_bytes->0;
                        if range_bad {
                            assert(e == FilterError::InvalidRange);
                        } else {
                            assert(e == FilterError::InvalidPattern);
                        }
                        assert(spec_scan_options_error(options) is Some);
                        assert(code == spec_scan_options_error(options)->0);
                    }
                    return Handled {
                        delay_ms: 0,
                        reply: ReplyEvent::Error { id, code },
                        start_scan: None,
                        do_cancel: false,
                        do_shutdown: false,
                    };
                },
            };
            if !hub.begin_scan() {
                return Handled {
                    delay_ms: 0,
                    reply: ReplyEvent::Error { id, code: ErrorCode::ScanInProgress },
                    start_scan: None,
                    do_cancel: false,
                    do_shutdown: false,
                };
            }
            let id2 = request_id(&env.request);
            Handled {
                delay_ms: 0,
                reply: ReplyEvent::ScanStarted { id },
                start_scan: Some(ScanJob { id: id2, path: path.clone(), config }),
                do_cancel: false,
                do_shutdown: false,
            }
        },
        _ => Handled {
            delay_ms: 0,
            reply: ReplyEvent::NeedsIo,
            start_scan: None,
            do_cancel: false,
            do_shutdown: false,
        },
    }
}

/// An owned copy of scan options, criteria-equivalent to the original.
fn clone_options(o: &ScanOptions) -> (r: ScanOptions)
    ensures
        r.priority_mode == o.priority_mode,
        r.throttle_level == o.throttle_level,
        r.filters.min_size_bytes == o.filters.min_size_bytes,
        r.filters.max_size_bytes == o.filters.max_size_bytes,
        r.filters.include_regex == o.filters.include_regex,
        r.filters.exclude_regex == o.filters.exclude_regex,
{
    let f = &o.filters;
    ScanOptions {
        priority_mode: o.priority_mode,
        throttle_level: o.throttle_level,
        filters: crate::filter::ScanFilters {
            include_extensions: clone_strings(&f.include_extensions),
            exclude_extensions: clone_strings(&f.exclude_extensions),
            include_names: clone_strings(&f.include_names),
            exclude_names: clone_strings(&f.exclude_names),
            min_size_bytes: f.min_size_bytes,
            max_size_bytes: f.max_size_bytes,
            include_regex: crate::engine::clone_opt_string(&f.include_regex),
            exclude_regex: crate::engine::clone_opt_string(&f.exclude_regex),
            include_paths: clone_strings(&f.include_paths),
            exclude_paths: clone_strings(&f.exclude_paths),
        },
    }
}

/// An owned copy of a list of strings, equal to the original.
pub fn clone_strings(l: &Vec<String>) -> (r: Vec<String>)
    ensures
        r@ == l@,
{
    let mut r: Vec<String> = Vec::new();
    let mut i: usize = 0;
    while i < l.len()
        invariant
            i <= l@.len(),
            r@ == l@.take(i as int),
        decreases l@.len() - i,
    {
        r.push(l[i].clone());
        i = i + 1;
    }
    proof {
        assert(r@ =~= l@);
    }
    r
}

/// The `read` action's decision: reject missing paths, non-files, and files
/// over the size cap, in that order; accept exactly otherwise.
pub fn read_decision(exists: bool, is_file: bool, size: u64) -> (r: Option<ErrorCode>)
    ensures
        !exists ==> r == Some(ErrorCode::PathNotFound),
        exists && !is_file ==> r == Some(ErrorCode::NotAFile),
        exists && is_file && size > MAX_READ_BYTES ==> r == Some(ErrorCode::FileTooLarge),
        exists && is_file && size <= MAX_READ_BYTES ==> r is None,
{
    if !exists {
        Some(ErrorCode::PathNotFound)
    } else if !is_file {
        Some(ErrorCode::NotAFile)
    } else if size > MAX_READ_BYTES {
        Some(ErrorCode::FileTooLarge)
    } else {
        None
    }
}

/// What standard base64 encoding yields for these bytes: a function of the
/// bytes alone.
pub uninterp spec fn b64_of(bytes: Seq<u8>) -> Seq<char>;

/// Relies on base64's standard engine (`BASE64_STANDARD.encode`): padded
/// standard-alphabet encoding, a function of the input bytes alone; four
/// output characters for every three-byte group, empty input giving empty
/// output.
#[verifier::external_body]
fn base64_encode(bytes: &Vec<u8>) -> (r: String)
    ensures
        r@ == b64_of(bytes@),
        bytes@.len() == 0 ==> r@.len() == 0,
        r@.len() == 4 * ((bytes@.len() + 2) / 3),
{
    base64::prelude::BASE64_STANDARD.encode(bytes)
}

/// A successful `read` reply's body: the path and the file's bytes, encoded.
pub struct ReadPayload {
    pub path: String,
    pub content: String,
}

/// Build the body of a successful `read` reply: the content is exactly the
/// standard base64 encoding of the file's bytes.
pub fn read_payload(path: &str, bytes: &Vec<u8>) -> (r: ReadPayload)
    ensures
        r.path@ == path@,
        r.content@ == b64_of(bytes@),
        r.content@.len() == 4 * ((bytes@.len() + 2) / 3),
{
    ReadPayload { path: path.to_owned(), content: base64_encode(bytes) }
}

/// One directory listed by the `list` action.
pub struct ListEntry {
    pub name: String,
    pub path: String,
    pub is_dir: bool,
}

/// Where a `list` request points: the platform roots, or one directory.
pub enum ListPlan {
    Roots,
    Dir(String),
}

/// Resolve a `list` request's target: an empty (or missing) path lists the
/// platform roots, as does `/` or `\` on the drive-lettered platform;
/// anything else names a directory, trimmed.
pub fn list_plan(path: &Option<String>, drive_letters: bool) -> (r: ListPlan)
    ensures
        ({
            let trimmed = match path {
                Some(p) => spec_trim(p@),
                None => Seq::<char>::empty(),
            };
            &&& trimmed.len() == 0 ==> r is Roots
            &&& (trimmed.len() > 0 && !(drive_letters && (trimmed == "/"@ || trimmed == "\\"@)))
                ==> (r is Dir && r->0@ == trimmed)
            &&& (trimmed.len() > 0 && drive_letters && (trimmed == "/"@ || trimmed == "\\"@))
                ==> r is Roots
        }),
{
    let trimmed = match path {
        Some(p) => trim_str(p.as_str()),
        None => trim_str(""),
    };
    proof {
        reveal_strlit("");
        assert(spec_trim(""@) =~= Seq::<char>::empty());
    }
    if trimmed.as_str().unicode_len() == 0 {
        return ListPlan::Roots;
    }
    if drive_letters && (str_eq(trimmed.as_str(), "/") || str_eq(trimmed.as_str(), "\\")) {
        return ListPlan::Roots;
    }
    ListPlan::Dir(trimmed)
}

/// The listing order: case-insensitively by name.
pub open spec fn entry_le(a: &ListEntry, b: &ListEntry) -> bool {
    lex_le(lower_of(a.name@), lower_of(b.name@))
}

/// `v` is sorted case-insensitively by name.
pub open spec fn entries_sorted(v: Seq<ListEntry>) -> bool {
    forall|i: int, j: int| 0 <= i < j < v.len() ==> entry_le(&v[i], &v[j])
}

fn entry_le_exec(a: &ListEntry, b: &ListEntry) -> (r: bool)
    ensures
        r == entry_le(a, b),
{
    let la = lowercase(a.name.as_str());
    let lb = lowercase(b.name.as_str());
    str_le(la.as_str(), lb.as_str())
}

/// Keep only directories and sort them case-insensitively by name: the body
/// of a successful `list` reply.
#[verifier::rlimit(100)]
pub fn list_entries(raw: Vec<ListEntry>) -> (r: Vec<ListEntry>)
    ensures
        entries_sorted(r@),
        forall|k: int| 0 <= k < r@.len() ==> (#[trigger] r@[k]).is_dir,
        forall|k: int| 0 <= k < r@.len() ==> raw@.contains(#[trigger] r@[k]),
        forall|k: int| 0 <= k < raw@.len() ==> ((#[trigger] raw@[k]).is_dir ==> r@.contains(
            raw@[k],
        )),
{
    broadcast use vstd::seq_lib::group_to_multiset_ensures;

    let mut dirs: Vec<ListEntry> = Vec::new();
    let mut i: usize = 0;
    while i < raw.len()
        invariant
            i <= raw@.len(),
            forall|k: int| 0 <= k < dirs@.len() ==> (#[trigger] dirs@[k]).is_dir,
            forall|k: int| 0 <= k < dirs@.len() ==> raw@.contains(#[trigger] dirs@[k]),
            forall|k: int|
                0 <= k < i ==> ((#[trigger] raw@[k]).is_dir ==> dirs@.contains(raw@[k])),
        decreases raw@.len() - i,
    {
        if raw[i].is_dir {
            let e = ListEntry {
                name: raw[i].name.clone(),
                path: raw[i].path.clone(),
                is_dir: true,
            };
            proof {
                assert(e == raw@[i as int]);
            }
            let ghost pre = dirs@;
            dirs.push(e);
            proof {
                assert(dirs@[pre.len() as int] == raw@[i as int]);
                assert(forall|k: int| 0 <= k < pre.len() ==> dirs@[k] == pre[k]);
                assert forall|k: int|
                    0 <= k < i + 1 implies ((#[trigger] raw@[k]).is_dir ==> dirs@.contains(
                    raw@[k],
                )) by {
                    if k < i && raw@[k].is_dir {
                        let w = choose|w: int| 0 <= w < pre.len() && pre[w] == raw@[k];
                        assert(dirs@[w] == raw@[k]);
                    }
                }
            }
        }
        i = i + 1;
    }
    let ghost kept = dirs@;
    sort_entries(&mut dirs);
    proof {
        assert forall|k: int| 0 <= k < dirs@.len() implies (#[trigger] dirs@[k]).is_dir
            && raw@.contains(dirs@[k]) by {
            let e = dirs@[k];
            assert(dirs@.contains(e));
            assert(dirs@.to_multiset().count(e) > 0);
            assert(kept.to_multiset().count(e) > 0);
            assert(kept.contains(e));
            let w = choose|w: int| 0 <= w < kept.len() && kept[w] == e;
            assert(kept[w].is_dir && raw@.contains(kept[w]));
        }
        assert forall|k: int|
            0 <= k < raw@.len() && (#[trigger] raw@[k]).is_dir implies dirs@.contains(
            raw@[k],
        ) by {
            assert(kept.contains(raw@[k]));
            assert(kept.to_multiset().count(raw@[k]) > 0);
            assert(dirs@.to_multiset().count(raw@[k]) > 0);
        }
    }
    dirs
}

/// The `list` action's reply: `path-not-found` for a missing target,
/// otherwise only the target's subdirectories, sorted case-insensitively by
/// name.
pub fn list_reply(exists: bool, raw: Vec<ListEntry>) -> (r: Result<Vec<ListEntry>, ErrorCode>)
    ensures
        !exists ==> r == Result::<Vec<ListEntry>, ErrorCode>::Err(ErrorCode::PathNotFound),
        exists ==> r is Ok && {
            let out = r->Ok_0@;
            &&& entries_sorted(out)
            &&& (forall|k: int| 0 <= k < out.len() ==> (#[trigger] out[k]).is_dir)
            &&& (forall|k: int| 0 <= k < out.len() ==> raw@.contains(#[trigger] out[k]))
            &&& (forall|k: int|
                0 <= k < raw@.len() ==> ((#[trigger] raw@[k]).is_dir ==> out.contains(raw@[k])))
        },
{
    if !exists {
        return Err(ErrorCode::PathNotFound);
    }
    Ok(list_entries(raw))
}

/// Sort entries case-insensitively by name; the contents are preserved.
#[verifier::rlimit(100)]
fn sort_entries(v: &mut Vec<ListEntry>)
    ensures
        entries_sorted(final(v)@),
        final(v)@.to_multiset() == old(v)@.to_multiset(),
        final(v)@.len() == old(v)@.len(),
{
    broadcast use vstd::seq_lib::group_to_multiset_ensures;

    if v.len() == 0 {
        return ;
    }
    let mut i: usize = 1;
    while i < v.len()
        invariant
            1 <= i <= v@.len(),
            forall|a: int, b: int| 0 <= a < b < i ==> entry_le(&v@[a], &v@[b]),
            v@.to_multiset() == old(v)@.to_multiset(),
            v@.len() == old(v)@.len(),
        decreases v@.len() - i,
    {
        let mut p: usize = 0;
        loop
            invariant_except_break
                p <= i < v@.len(),
                forall|k: int| 0 <= k < p ==> entry_le(&v@[k], &v@[i as int]),
            ensures
                p <= i < v@.len(),
                forall|k: int| 0 <= k < p ==> entry_le(&v@[k], &v@[i as int]),
                p < i ==> !entry_le(&v@[p as int], &v@[i as int]),
            decreases i - p,
        {
            if p == i {
                break ;
            }
            if !entry_le_exec(&v[p], &v[i]) {
                break ;
            }
            p = p + 1;
        }
        let ghost pre = v@;
        let x = v.remove(i);
        let ghost mid = v@;
        v.insert(p, x);
        proof {
            broadcast use vstd::seq_lib::group_to_multiset_ensures;

            pre.remove_ensures(i as int);
            mid.insert_ensures(p as int, x);
            assert(mid.to_multiset() =~= pre.to_multiset().remove(pre[i as int])) by {
                assert(mid == pre.remove(i as int));
                assert(pre.remove(i as int).to_multiset() =~= pre.to_multiset().remove(
                    pre[i as int],
                ));
            }
            crate::topfiles::lemma_insert_to_multiset(mid, p as int, x);
            assert(v@.to_multiset() =~= pre.to_multiset()) by {
                assert(v@.to_multiset() == mid.to_multiset().insert(x));
                assert forall|y: ListEntry|
                    v@.to_multiset().count(y) == pre.to_multiset().count(y) by {
                    assert(v@.to_multiset().count(y) == pre.to_multiset().remove(x).insert(
                        x,
                    ).count(y));
                    assert(pre.to_multiset().count(x) > 0) by {
                        assert(pre[i as int] == x);
                        assert(pre.contains(x));
                    }
                }
            }
            assert forall|a: int, b: int| 0 <= a < b < i + 1 implies entry_le(&v@[a], &v@[b]) by {
                if p < i {
                    lemma_lex_le_total(lower_of(pre[p as int].name@), lower_of(pre[i as int].name@));
                }
                if b < p {
                    assert(v@[a] == pre[a] && v@[b] == pre[b]);
                } else if b == p {
                    assert(v@[a] == pre[a] && v@[b] == x);
                } else {
                    assert(v@[b] == pre[b - 1]);
                    if a < p {
                        assert(v@[a] == pre[a]);
                        if b - 1 == p && p < i {
                            assert(entry_le(&pre[a], &pre[p as int]));
                        } else {
                            assert(entry_le(&pre[a], &pre[b - 1]));
                        }
                    } else if a == p {
                        assert(v@[a] == x);
                        assert(entry_le(&x, &pre[p as int]));
                        if b - 1 > p {
                            assert(entry_le(&pre[p as int], &pre[b - 1]));
                            lemma_lex_le_trans(
                                lower_of(x.name@),
                                lower_of(pre[p as int].name@),
                                lower_of(pre[b - 1].name@),
                            );
                        }
                    } else {
                        assert(v@[a] == pre[a - 1]);
                        assert(entry_le(&pre[a - 1], &pre[b - 1]));
                    }
                }
            }
        }
        i = i + 1;
    }
}

/// Relies on String::from_utf8: succeeds exactly on valid UTF-8 and decodes
/// it, per vstd's UTF-8 model.
#[verifier::external_body]
pub fn bytes_to_string(v: Vec<u8>) -> (r: Option<String>)
    ensures
        r is Some <==> vstd::utf8::valid_utf8(v@),
        r is Some ==> r->0@ == vstd::utf8::decode_utf8(v@),
{
    match String::from_utf8(v) {
        Ok(s) => Some(s),
        Err(_) => None,
    }
}

/// What one buffered chunk did to the line being framed.
pub struct ChunkOutcome {
    /// How many bytes of the chunk belong to the current line (through its
    /// newline, when one was found).
    pub consumed: usize,
    /// A full line (newline included) is now buffered.
    pub complete: bool,
    /// Taking the chunk would push the line over the cap: a protocol error.
    pub overflow: bool,
}

/// Accumulates one newline-terminated line from buffered reads, holding the
/// total to the hard cap.
pub struct LineAccumulator {
    pub buf: Vec<u8>,
    pub max_len: u64,
}

/// The index of the first newline byte, if any.
pub open spec fn first_newline(s: Seq<u8>) -> Option<int> {
    if exists|i: int| 0 <= i < s.len() && s[i] == 10u8 {
        Some(choose|i: int| 0 <= i < s.len() && s[i] == 10u8 && (forall|j: int| 0 <= j < i ==> s[j] != 10u8))
    } else {
        None
    }
}

impl LineAccumulator {
    /// An empty accumulator with the given cap.
    pub fn new(max_len: u64) -> (r: LineAccumulator)
        ensures
            r.buf@.len() == 0,
            r.max_len == max_len,
    {
        LineAccumulator { buf: Vec::new(), max_len }
    }

    /// Take one buffered chunk: bytes through the first newline (or the whole
    /// chunk when it has none) join the line, unless that would exceed the
    /// cap, which is reported instead as an overflow with nothing taken.
    pub fn push_chunk(&mut self, avail: &[u8]) -> (r: ChunkOutcome)
        ensures
            ({
                &&& r.consumed <= avail@.len()
                &&& (forall|j: int| 0 <= j < r.consumed - 1 ==> avail@[j] != 10u8)
                &&& (r.complete ==> r.consumed >= 1 && avail@[r.consumed - 1] == 10u8)
                &&& (!r.complete && !r.overflow ==> r.consumed == avail@.len() && (forall|j: int|
                    0 <= j < avail@.len() ==> avail@[j] != 10u8))
                &&& (r.overflow <==> old(self).buf@.len() + r.consumed > old(self).max_len)
                &&& (!r.overflow ==> final(self).buf@ == old(self).buf@ + avail@.take(
                    r.consumed as int,
                ))
                &&& (r.overflow ==> final(self).buf@ == old(self).buf@)
                &&& final(self).max_len == old(self).max_len
                &&& (r.overflow ==> !r.complete)
            }),
    {
        let n = avail.len();
        let mut pos: usize = 0;
        let mut found = false;
        loop
            invariant_except_break
                n == avail@.len(),
                pos <= n,
                !found,
                forall|j: int| 0 <= j < pos ==> avail@[j] != 10u8,
            ensures
                pos <= n,
                forall|j: int| 0 <= j < pos ==> avail@[j] != 10u8,
                found ==> pos < n && avail@[pos as int] == 10u8,
                !found ==> pos == n,
            decreases n - pos,
        {
            if pos == n {
                break ;
            }
            if avail[pos] == 10u8 {
                found = true;
                break ;
            }
            pos = pos + 1;
        }
        let take: usize = if found {
            pos + 1
        } else {
            n
        };
        if self.max_len < take as u64 || (self.buf.len() as u64) > self.max_len - take as u64 {
            return ChunkOutcome { consumed: take, complete: false, overflow: true };
        }
        let mut j: usize = 0;
        let ghost pre = self.buf@;
        while j < take
            invariant
                take <= avail@.len(),
                j <= take,
                self.buf@ == pre + avail@.take(j as int),
                self.max_len == old(self).max_len,
            decreases take - j,
        {
            proof {
                assert(pre + avail@.take(j + 1) =~= (pre + avail@.take(j as int)).push(
                    avail@[j as int],
                ));
            }
            self.buf.push(avail[j]);
            j = j + 1;
        }
        ChunkOutcome { consumed: take, complete: found, overflow: false }
    }

    /// Hand out the buffered line and reset. `None` means the bytes were not
    /// valid UTF-8: a protocol error.
    pub fn take_line(&mut self) -> (r: Option<String>)
        ensures
            final(self).buf@.len() == 0,
            final(self).max_len == old(self).max_len,
            r is Some <==> vstd::utf8::valid_utf8(old(self).buf@),
            r is Some ==> r->0@ == vstd::utf8::decode_utf8(old(self).buf@),
    {
        let mut taken: Vec<u8> = Vec::new();
        std::mem::swap(&mut taken, &mut self.buf);
        bytes_to_string(taken)
    }

    /// How many bytes are buffered.
    pub fn len(&self) -> (r: usize)
        ensures
            r == self.buf@.len(),
    {
        self.buf.len()
    }
}

/// The `disk` action's decision over the probe results: a missing path is
/// `path-not-found`, a failed volume query `disk-usage-failed`, and success
/// reports exactly the probed totals for the given path.
pub fn disk_decision(path: &str, exists: bool, total: Option<u64>, free: Option<u64>) -> (r:
    Result<DiskUsageSnapshot, ErrorCode>)
    ensures
        !exists ==> r == Result::<DiskUsageSnapshot, ErrorCode>::Err(ErrorCode::PathNotFound),
        exists && (total is None || free is None) ==> r == Result::<
            DiskUsageSnapshot,
            ErrorCode,
        >::Err(ErrorCode::DiskUsageFailed),
        exists && total is Some && free is Some ==> r is Ok && r->Ok_0.path@ == path@
            && r->Ok_0.total_bytes == total->0 && r->Ok_0.free_bytes == free->0,
{
    if !exists {
        return Err(ErrorCode::PathNotFound);
    }
    match (total, free) {
        (Some(t), Some(f)) => Ok(
            DiskUsageSnapshot { path: path.to_owned(), total_bytes: t, free_bytes: f },
        ),
        _ => Err(ErrorCode::DiskUsageFailed),
    }
}

} // verus!
