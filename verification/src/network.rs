//! The per-session network ledger: protocol events folded into one record per
//! request hop, in a bounded ring.
//!
//! Navigation does not clear the ledger: the document request that starts a
//! navigation arrives before the navigation itself, so clearing then would
//! drop the one record most worth looking at.
use vstd::prelude::*;

use crate::text::{chars_of, into_string, push_slice, push_str_chars, str_eq};

verus! {

/// Requests kept per session; the oldest go first.
pub const NETWORK_BUFFER: usize = 500;
/// Characters of a URL kept.
pub const MAX_NETWORK_URL_CHARS: usize = 2048;
/// Headers kept per record and direction.
pub const MAX_NETWORK_HEADERS: usize = 64;
/// Characters of a header value kept.
pub const MAX_NETWORK_HEADER_CHARS: usize = 1024;

/// The text `str::to_lowercase` makes of `s`.
pub uninterp spec fn unicode_lowercase(s: Seq<char>) -> Seq<char>;

/// Calls `str::to_lowercase`; its text is named `unicode_lowercase` of the input.
#[verifier::external_body]
pub(crate) fn lowercase(s: &str) -> (r: String)
    ensures
        r@ == unicode_lowercase(s@),
{
    s.to_lowercase()
}

/// One request hop as a listing shows it.
#[derive(Debug, Clone, PartialEq, Eq)]
pub struct NetworkEntry {
    pub request_id: String,
    pub method: String,
    pub url: String,
    pub resource_type: String,
    pub status: Option<u16>,
    pub mime_type: Option<String>,
    pub encoded_data_length: Option<u64>,
    pub failure: Option<String>,
    pub from_cache: bool,
    pub duration_ms: Option<u64>,
    pub url_truncated: bool,
}

pub open spec fn opt_view(o: Option<String>) -> Option<Seq<char>> {
    match o {
        Some(s) => Some(s@),
        None => None,
    }
}

fn copy_opt(o: &Option<String>) -> (r: Option<String>)
    ensures
        opt_view(r) == opt_view(*o),
{
    match o {
        Some(s) => Some(s.clone()),
        None => None,
    }
}

/// An entry as plain values.
pub struct EntryView {
    pub request_id: Seq<char>,
    pub method: Seq<char>,
    pub url: Seq<char>,
    pub resource_type: Seq<char>,
    pub status: Option<u16>,
    pub mime_type: Option<Seq<char>>,
    pub encoded_data_length: Option<u64>,
    pub failure: Option<Seq<char>>,
    pub from_cache: bool,
    pub duration_ms: Option<u64>,
    pub url_truncated: bool,
}

/// A failed request, or one answered with a 4xx or 5xx status.
pub open spec fn entry_failed(e: EntryView) -> bool {
    e.failure is Some || (e.status matches Some(s) && s >= 400)
}

impl NetworkEntry {
    pub open spec fn view_of(&self) -> EntryView {
        EntryView {
            request_id: self.request_id@,
            method: self.method@,
            url: self.url@,
            resource_type: self.resource_type@,
            status: self.status,
            mime_type: opt_view(self.mime_type),
            encoded_data_length: self.encoded_data_length,
            failure: opt_view(self.failure),
            from_cache: self.from_cache,
            duration_ms: self.duration_ms,
            url_truncated: self.url_truncated,
        }
    }

    /// The request failed outright or was answered with 4xx/5xx.
    pub fn is_failure(&self) -> (r: bool)
        ensures
            r == entry_failed(self.view_of()),
    {
        self.failure.is_some() || match self.status {
            Some(s) => s >= 400,
            None => false,
        }
    }

    fn duplicate(&self) -> (r: Self)
        ensures
            r.view_of() == self.view_of(),
    {
        NetworkEntry {
            request_id: self.request_id.clone(),
            method: self.method.clone(),
            url: self.url.clone(),
            resource_type: self.resource_type.clone(),
            status: self.status,
            mime_type: copy_opt(&self.mime_type),
            encoded_data_length: self.encoded_data_length,
            failure: copy_opt(&self.failure),
            from_cache: self.from_cache,
            duration_ms: self.duration_ms,
            url_truncated: self.url_truncated,
        }
    }
}

pub type HeaderPairs = Seq<(Seq<char>, Seq<char>)>;

pub open spec fn pairs_view(v: Seq<(String, String)>) -> HeaderPairs {
    v.map_values(|p: (String, String)| (p.0@, p.1@))
}

/// One request hop with the headers a listing leaves out. Its start time is
/// kept off the wire, only to derive a duration.
#[derive(Debug, Clone, PartialEq, Eq)]
pub struct NetworkRecord {
    pub entry: NetworkEntry,
    pub request_headers: Vec<(String, String)>,
    pub response_headers: Vec<(String, String)>,
    started_at_us: Option<u64>,
}

pub struct RecordView {
    pub entry: EntryView,
    pub request_headers: HeaderPairs,
    pub response_headers: HeaderPairs,
    pub started_at_us: Option<u64>,
}

impl NetworkRecord {
    pub closed spec fn view_of(&self) -> RecordView {
        RecordView {
            entry: self.entry.view_of(),
            request_headers: pairs_view(self.request_headers@),
            response_headers: pairs_view(self.response_headers@),
            started_at_us: self.started_at_us,
        }
    }

    /// The value of a header the request carried, by lowercased name.
    pub fn request_header(&self, name: &str) -> (r: Option<&str>)
        ensures
            match r {
                Some(v) => header_value(self.view_of().request_headers, name@) == Some(v@),
                None => header_value(self.view_of().request_headers, name@) is None,
            },
    {
        find_header(&self.request_headers, name)
    }

    /// The value of a header the response carried, by lowercased name.
    pub fn response_header(&self, name: &str) -> (r: Option<&str>)
        ensures
            match r {
                Some(v) => header_value(self.view_of().response_headers, name@) == Some(v@),
                None => header_value(self.view_of().response_headers, name@) is None,
            },
    {
        find_header(&self.response_headers, name)
    }
}

/// The value stored under `name`, if any.
pub open spec fn header_value(h: HeaderPairs, name: Seq<char>) -> Option<Seq<char>>
    decreases h.len(),
{
    if h.len() == 0 {
        None
    } else if h.last().0 == name {
        Some(h.last().1)
    } else {
        header_value(h.drop_last(), name)
    }
}

fn find_header<'a>(h: &'a Vec<(String, String)>, name: &str) -> (r: Option<&'a str>)
    ensures
        match r {
            Some(v) => header_value(pairs_view(h@), name@) == Some(v@),
            None => header_value(pairs_view(h@), name@) is None,
        },
{
    let ghost v = pairs_view(h@);
    let mut k: usize = h.len();
    assert(v.take(k as int) =~= v);
    while k > 0
        invariant
            k <= h@.len(),
            v == pairs_view(h@),
            header_value(v, name@) == header_value(v.take(k as int), name@),
        decreases k,
    {
        assert(v.take(k as int).last() == (h@[k - 1].0@, h@[k - 1].1@));
        if str_eq(h[k - 1].0.as_str(), name) {
            return Some(h[k - 1].1.as_str());
        }
        assert(v.take(k as int).drop_last() =~= v.take(k - 1));
        k = k - 1;
    }
    None
}

// ---------------------------------------------------------------------------
// Protocol events, as plain values

/// A protocol response object's parts the ledger keeps.
#[derive(Debug, Clone, PartialEq, Eq)]
pub struct ResponseInfo {
    pub status: Option<u64>,
    pub mime_type: Option<String>,
    pub from_disk_cache: bool,
    /// Header names as sent, with each value as text.
    pub headers: Vec<(String, String)>,
}

pub struct ResponseView {
    pub status: Option<u64>,
    pub mime_type: Option<Seq<char>>,
    pub from_disk_cache: bool,
    pub headers: HeaderPairs,
}

impl ResponseInfo {
    pub open spec fn view_of(&self) -> ResponseView {
        ResponseView {
            status: self.status,
            mime_type: opt_view(self.mime_type),
            from_disk_cache: self.from_disk_cache,
            headers: pairs_view(self.headers@),
        }
    }
}

/// The protocol events of the `Network` domain the ledger models. Times are
/// protocol timestamps in microseconds.
#[derive(Debug, Clone, PartialEq, Eq)]
pub enum NetworkEvent {
    RequestWillBeSent {
        request_id: String,
        url: Option<String>,
        method: Option<String>,
        resource_type: Option<String>,
        headers: Vec<(String, String)>,
        timestamp_us: Option<u64>,
        redirect_response: Option<ResponseInfo>,
    },
    ResponseReceived { request_id: String, response: Option<ResponseInfo> },
    RequestServedFromCache { request_id: String },
    LoadingFinished { request_id: String, encoded_data_length: Option<u64>, timestamp_us: Option<u64> },
    LoadingFailed {
        request_id: String,
        blocked_reason: Option<String>,
        error_text: Option<String>,
        canceled: bool,
        timestamp_us: Option<u64>,
    },
}

// ---------------------------------------------------------------------------
// The folding rules

/// `value` cut to `limit` characters, and whether it had to be.
pub open spec fn truncate_spec(value: Seq<char>, limit: nat) -> (Seq<char>, bool) {
    if value.len() > limit { (value.take(limit as int), true) } else { (value, false) }
}

/// Cuts a string to a character ceiling, reporting whether it had to.
pub fn truncate(value: &str, limit: usize) -> (r: (String, bool))
    ensures
        (r.0@, r.1) == truncate_spec(value@, limit as nat),
{
    let cs = chars_of(value);
    if cs.len() > limit {
        let mut out: Vec<char> = Vec::new();
        push_slice(&mut out, &cs.as_slice()[0..limit]);
        assert(cs@.subrange(0, limit as int) =~= value@.take(limit as int));
        (into_string(out), true)
    } else {
        (value.to_owned(), false)
    }
}

/// Why a request failed, preferring the specific reason over the generic one.
pub open spec fn failure_reason_spec(blocked: Option<Seq<char>>, error_text: Option<Seq<char>>, canceled: bool) -> Seq<char> {
    if blocked is Some && blocked->0.len() > 0 {
        "blocked: "@ + blocked->0
    } else if error_text is Some && error_text->0.len() > 0 {
        error_text->0
    } else if canceled {
        "canceled"@
    } else {
        "the request failed"@
    }
}

pub fn failure_reason(blocked: &Option<String>, error_text: &Option<String>, canceled: bool) -> (r: String)
    ensures
        r@ == failure_reason_spec(opt_view(*blocked), opt_view(*error_text), canceled),
{
    if let Some(b) = blocked {
        if b.as_str().unicode_len() > 0 {
            let mut out: Vec<char> = Vec::new();
            push_str_chars(&mut out, "blocked: ");
            push_str_chars(&mut out, b.as_str());
            return into_string(out);
        }
    }
    if let Some(t) = error_text {
        if t.as_str().unicode_len() > 0 {
            return t.clone();
        }
    }
    if canceled { "canceled".to_owned() } else { "the request failed".to_owned() }
}

/// One header stored: a later value for the same name replaces the earlier.
pub open spec fn put_header(h: HeaderPairs, name: Seq<char>, value: Seq<char>) -> HeaderPairs {
    if exists|i: int| 0 <= i < h.len() && h[i].0 == name {
        let i = choose|i: int| 0 <= i < h.len() && h[i].0 == name;
        h.update(i, (name, value))
    } else {
        h.push((name, value))
    }
}

/// A header value as stored: cut to the cap, with `…` marking a cut.
pub open spec fn stored_header_value(value: Seq<char>) -> Seq<char> {
    let (t, cut) = truncate_spec(value, MAX_NETWORK_HEADER_CHARS as nat);
    if cut { t.push('\u{2026}') } else { t }
}

/// The headers kept from a protocol headers object: the first ones up to the
/// cap, names lowercased, values cut.
pub open spec fn headers_spec(pairs: HeaderPairs) -> HeaderPairs
    decreases pairs.len(),
{
    if pairs.len() == 0 {
        Seq::empty()
    } else {
        let prev = headers_spec(pairs.drop_last());
        if pairs.len() > MAX_NETWORK_HEADERS {
            prev
        } else {
            put_header(prev, unicode_lowercase(pairs.last().0), stored_header_value(pairs.last().1))
        }
    }
}

/// No name is stored twice.
pub open spec fn names_unique(h: HeaderPairs) -> bool {
    forall|i: int, j: int| 0 <= i < h.len() && 0 <= j < h.len() && i != j ==> #[trigger] h[i].0 != #[trigger] h[j].0
}

fn put_header_exec(h: &mut Vec<(String, String)>, name: String, value: String)
    requires
        names_unique(pairs_view(old(h)@)),
    ensures
        pairs_view(final(h)@) == put_header(pairs_view(old(h)@), name@, value@),
        names_unique(pairs_view(final(h)@)),
{
    let ghost v = pairs_view(h@);
    let mut i: usize = 0;
    while i < h.len()
        invariant
            i <= h@.len(),
            h@ == old(h)@,
            v == pairs_view(h@),
            names_unique(v),
            forall|j: int| 0 <= j < i ==> v[j].0 != name@,
        decreases h@.len() - i,
    {
        if str_eq(h[i].0.as_str(), name.as_str()) {
            proof {
                assert(v[i as int].0 == name@);
                let c = choose|c: int| 0 <= c < v.len() && v[c].0 == name@;
                if c != i {
                    assert(v[c].0 != v[i as int].0);
                }
            }
            let ghost nv = (name@, value@);
            h.remove(i);
            h.insert(i, (name, value));
            assert(pairs_view(h@) =~= v.update(i as int, nv));
            assert(put_header(v, nv.0, nv.1) == v.update(i as int, nv));
            assert(pairs_view(h@) == put_header(pairs_view(old(h)@), nv.0, nv.1));
            assert forall|a: int, b: int| 0 <= a < pairs_view(h@).len() && 0 <= b < pairs_view(h@).len() && a != b
                implies #[trigger] pairs_view(h@)[a].0 != #[trigger] pairs_view(h@)[b].0 by {
                assert(pairs_view(h@)[a].0 == v[a].0);
                assert(pairs_view(h@)[b].0 == v[b].0);
            }
            return;
        }
        i = i + 1;
    }
    let ghost nv = (name@, value@);
    h.push((name, value));
    assert(pairs_view(h@) =~= v.push(nv));
}

/// Reads a protocol headers object into the bounded, lowercased headers kept.
pub fn headers_from(pairs: &[(String, String)]) -> (r: Vec<(String, String)>)
    ensures
        pairs_view(r@) == headers_spec(pairs_view(pairs@)),
        names_unique(pairs_view(r@)),
{
    let ghost v = pairs_view(pairs@);
    let mut out: Vec<(String, String)> = Vec::new();
    let mut i: usize = 0;
    assert(pairs_view(out@) =~= Seq::<(Seq<char>, Seq<char>)>::empty());
    while i < pairs.len()
        invariant
            i <= pairs@.len(),
            v == pairs_view(pairs@),
            pairs_view(out@) == headers_spec(v.take(i as int)),
            names_unique(pairs_view(out@)),
        decreases pairs@.len() - i,
    {
        let ghost t = v.take(i + 1);
        assert(t.drop_last() =~= v.take(i as int));
        assert(t.last() == (pairs@[i as int].0@, pairs@[i as int].1@));
        if i < MAX_NETWORK_HEADERS {
            let name = lowercase(pairs[i].0.as_str());
            let (cut, was_cut) = truncate(pairs[i].1.as_str(), MAX_NETWORK_HEADER_CHARS);
            let value = if was_cut {
                let mut cs = chars_of(cut.as_str());
                cs.push('\u{2026}');
                into_string(cs)
            } else {
                cut
            };
            put_header_exec(&mut out, name, value);
        }
        i = i + 1;
    }
    assert(v.take(v.len() as int) =~= v);
    out
}

/// The response's parts copied onto a record.
pub open spec fn apply_response_spec(r: RecordView, resp: ResponseView) -> RecordView {
    let status = match resp.status {
        Some(s) => Some(if s > 65535 { 65535u16 } else { s as u16 }),
        None => r.entry.status,
    };
    let mime = match resp.mime_type {
        Some(m) => if m.len() > 0 { Some(m) } else { r.entry.mime_type },
        None => r.entry.mime_type,
    };
    let headers = headers_spec(resp.headers);
    RecordView {
        entry: EntryView {
            status,
            mime_type: mime,
            from_cache: r.entry.from_cache || resp.from_disk_cache,
            ..r.entry
        },
        response_headers: if headers.len() > 0 { headers } else { r.response_headers },
        ..r
    }
}

/// Whole milliseconds between two protocol times, rounded half up; a clock
/// that ran backwards counts as no time.
pub open spec fn elapsed_ms(started_us: u64, finished_us: u64) -> u64 {
    if finished_us > started_us {
        let d = (finished_us - started_us) as u64;
        (d / 1000 + if d % 1000 >= 500 { 1u64 } else { 0u64 }) as u64
    } else {
        0
    }
}

/// A duration is stamped once a record reaches an outcome, when both times are known.
pub open spec fn settle_spec(r: RecordView, finished_us: Option<u64>) -> RecordView {
    match (r.started_at_us, finished_us) {
        (Some(s), Some(f)) => RecordView { entry: EntryView { duration_ms: Some(elapsed_ms(s, f)), ..r.entry }, ..r },
        _ => r,
    }
}

/// The newest record for an id: the hop in progress of a redirect chain.
pub open spec fn latest_index(s: Seq<RecordView>, id: Seq<char>) -> Option<int>
    decreases s.len(),
{
    if s.len() == 0 {
        None
    } else if s.last().entry.request_id == id {
        Some(s.len() - 1)
    } else {
        latest_index(s.drop_last(), id)
    }
}

/// `f` applied to the newest record for `id`, when there is one.
pub open spec fn update_latest(s: Seq<RecordView>, id: Seq<char>, f: spec_fn(RecordView) -> RecordView) -> Seq<RecordView> {
    match latest_index(s, id) {
        Some(i) => s.update(i, f(s[i])),
        None => s,
    }
}

/// The record a request starts.
pub open spec fn new_record_spec(
    id: Seq<char>,
    url: Option<Seq<char>>,
    method: Option<Seq<char>>,
    resource_type: Option<Seq<char>>,
    headers: HeaderPairs,
    timestamp_us: Option<u64>,
) -> RecordView {
    let u = match url { Some(u) => u, None => Seq::empty() };
    let (kept, cut) = truncate_spec(u, MAX_NETWORK_URL_CHARS as nat);
    RecordView {
        entry: EntryView {
            request_id: id,
            method: match method { Some(m) => m, None => "GET"@ },
            url: kept,
            resource_type: unicode_lowercase(match resource_type { Some(t) => t, None => "other"@ }),
            status: None,
            mime_type: None,
            encoded_data_length: None,
            failure: None,
            from_cache: false,
            duration_ms: None,
            url_truncated: cut,
        },
        request_headers: headers_spec(headers),
        response_headers: Seq::empty(),
        started_at_us: timestamp_us,
    }
}

/// The ring with one more record: the oldest goes when it is full.
pub open spec fn push_bounded(s: Seq<RecordView>, r: RecordView) -> Seq<RecordView> {
    if s.len() >= NETWORK_BUFFER { s.drop_first().push(r) } else { s.push(r) }
}

pub open spec fn opt_response(o: Option<ResponseInfo>) -> Option<ResponseView> {
    match o {
        Some(r) => Some(r.view_of()),
        None => None,
    }
}

/// The ledger after one event.
pub open spec fn apply_spec(s: Seq<RecordView>, e: NetworkEvent) -> Seq<RecordView> {
    match e {
        NetworkEvent::RequestWillBeSent { request_id, url, method, resource_type, headers, timestamp_us, redirect_response } => {
            let closed = match opt_response(redirect_response) {
                Some(resp) => update_latest(s, request_id@, |r: RecordView| settle_spec(apply_response_spec(r, resp), timestamp_us)),
                None => s,
            };
            push_bounded(closed, new_record_spec(request_id@, opt_view(url), opt_view(method), opt_view(resource_type),
                pairs_view(headers@), timestamp_us))
        },
        NetworkEvent::ResponseReceived { request_id, response } => match opt_response(response) {
            Some(resp) => update_latest(s, request_id@, |r: RecordView| apply_response_spec(r, resp)),
            None => s,
        },
        NetworkEvent::RequestServedFromCache { request_id } =>
            update_latest(s, request_id@, |r: RecordView| RecordView { entry: EntryView { from_cache: true, ..r.entry }, ..r }),
        NetworkEvent::LoadingFinished { request_id, encoded_data_length, timestamp_us } =>
            update_latest(s, request_id@, |r: RecordView| settle_spec(
                RecordView {
                    entry: EntryView {
                        encoded_data_length: match encoded_data_length { Some(n) => Some(n), None => r.entry.encoded_data_length },
                        ..r.entry
                    },
                    ..r
                },
                timestamp_us,
            )),
        NetworkEvent::LoadingFailed { request_id, blocked_reason, error_text, canceled, timestamp_us } =>
            update_latest(s, request_id@, |r: RecordView| settle_spec(
                RecordView {
                    entry: EntryView {
                        failure: Some(failure_reason_spec(opt_view(blocked_reason), opt_view(error_text), canceled)),
                        ..r.entry
                    },
                    ..r
                },
                timestamp_us,
            )),
    }
}

pub open spec fn record_views(v: Seq<NetworkRecord>) -> Seq<RecordView> {
    v.map_values(|r: NetworkRecord| r.view_of())
}

/// A bounded ring of the requests one session has made.
#[derive(Debug)]
pub struct NetworkLedger {
    records: Vec<NetworkRecord>,
}

impl Default for NetworkLedger {
    fn default() -> (r: Self)
        ensures
            r.records_view() == Seq::<RecordView>::empty(),
    {
        let r = NetworkLedger { records: Vec::new() };
        assert(record_views(r.records@) =~= Seq::<RecordView>::empty());
        r
    }
}

fn apply_response_exec(r: &mut NetworkRecord, resp: &ResponseInfo)
    ensures
        final(r).view_of() == apply_response_spec(old(r).view_of(), resp.view_of()),
{
    if let Some(status) = resp.status {
        r.entry.status = Some(if status > 65535 { 65535u16 } else { status as u16 });
    }
    if let Some(mime) = &resp.mime_type {
        if mime.as_str().unicode_len() > 0 {
            r.entry.mime_type = Some(mime.clone());
        }
    }
    if resp.from_disk_cache {
        r.entry.from_cache = true;
    }
    let headers = headers_from(resp.headers.as_slice());
    if headers.len() > 0 {
        r.response_headers = headers;
    }
}

fn settle_exec(r: &mut NetworkRecord, finished_us: Option<u64>)
    ensures
        final(r).view_of() == settle_spec(old(r).view_of(), finished_us),
{
    if let (Some(s), Some(f)) = (r.started_at_us, finished_us) {
        let ms = if f > s {
            let d = f - s;
            d / 1000 + if d % 1000 >= 500 { 1 } else { 0 }
        } else {
            0
        };
        r.entry.duration_ms = Some(ms);
    }
}

impl NetworkLedger {
    pub closed spec fn records_view(&self) -> Seq<RecordView> {
        record_views(self.records@)
    }

    fn latest(&self, request_id: &str) -> (r: Option<usize>)
        ensures
            match r {
                Some(i) => latest_index(self.records_view(), request_id@) == Some(i as int) && i < self.records@.len(),
                None => latest_index(self.records_view(), request_id@) is None,
            },
    {
        let ghost v = self.records_view();
        let mut k: usize = self.records.len();
        assert(v.take(k as int) =~= v);
        while k > 0
            invariant
                k <= self.records@.len(),
                v == record_views(self.records@),
                latest_index(v, request_id@) == latest_index(v.take(k as int), request_id@),
            decreases k,
        {
            assert(v.take(k as int).last() == self.records@[k - 1].view_of());
            if str_eq(self.records[k - 1].entry.request_id.as_str(), request_id) {
                return Some(k - 1);
            }
            assert(v.take(k as int).drop_last() =~= v.take(k - 1));
            k = k - 1;
        }
        None
    }

    fn take_at(&mut self, i: usize) -> (r: NetworkRecord)
        requires
            i < old(self).records@.len(),
        ensures
            r.view_of() == old(self).records_view()[i as int],
            final(self).records@ == old(self).records@.remove(i as int),
    {
        self.records.remove(i)
    }

    fn put_at(&mut self, i: usize, r: NetworkRecord)
        requires
            i <= old(self).records@.len(),
        ensures
            final(self).records@ == old(self).records@.insert(i as int, r),
    {
        self.records.insert(i, r);
    }

    /// Starts a record, closing out the previous hop of a redirect chain first.
    fn begin(
        &mut self,
        request_id: String,
        url: Option<String>,
        method: Option<String>,
        resource_type: Option<String>,
        headers: Vec<(String, String)>,
        timestamp_us: Option<u64>,
        redirect_response: Option<ResponseInfo>,
    )
        ensures
            final(self).records_view() == push_bounded(
                match opt_response(redirect_response) {
                    Some(resp) => update_latest(old(self).records_view(), request_id@,
                        |r: RecordView| settle_spec(apply_response_spec(r, resp), timestamp_us)),
                    None => old(self).records_view(),
                },
                new_record_spec(request_id@, opt_view(url), opt_view(method), opt_view(resource_type),
                    pairs_view(headers@), timestamp_us),
            ),
    {
        let ghost before = self.records_view();
        if let Some(resp) = &redirect_response {
            if let Some(i) = self.latest(request_id.as_str()) {
                let mut r = self.take_at(i);
                apply_response_exec(&mut r, resp);
                settle_exec(&mut r, timestamp_us);
                let ghost nr = r.view_of();
                self.put_at(i, r);
                assert(self.records_view() =~= before.update(i as int, nr));
            }
        }
        let ghost closed = self.records_view();
        proof { reveal_strlit(""); }
        let u = match &url { Some(u) => u.as_str(), None => "" };
        let (kept, cut) = truncate(u, MAX_NETWORK_URL_CHARS);
        let m = match &method { Some(m) => m.clone(), None => "GET".to_owned() };
        let t = match &resource_type { Some(t) => lowercase(t.as_str()), None => lowercase("other") };
        let record = NetworkRecord {
            entry: NetworkEntry {
                request_id,
                method: m,
                url: kept,
                resource_type: t,
                status: None,
                mime_type: None,
                encoded_data_length: None,
                failure: None,
                from_cache: false,
                duration_ms: None,
                url_truncated: cut,
            },
            request_headers: headers_from(headers.as_slice()),
            response_headers: Vec::new(),
            started_at_us: timestamp_us,
        };
        assert(pairs_view(record.response_headers@) =~= Seq::<(Seq<char>, Seq<char>)>::empty());
        let ghost nr = record.view_of();
        assert(u@ == match opt_view(url) { Some(x) => x, None => Seq::<char>::empty() });
        assert(nr == new_record_spec(request_id@, opt_view(url), opt_view(method), opt_view(resource_type),
            pairs_view(headers@), timestamp_us));
        assert(closed == match opt_response(redirect_response) {
            Some(resp) => update_latest(before, request_id@,
                |r: RecordView| settle_spec(apply_response_spec(r, resp), timestamp_us)),
            None => before,
        });
        if self.records.len() >= NETWORK_BUFFER {
            self.records.remove(0);
            assert(self.records_view() =~= closed.drop_first());
        }
        let ghost mid = self.records_view();
        self.records.push(record);
        assert(self.records_view() =~= mid.push(nr));
    }

    /// Folds one protocol event into the ledger.
    pub fn apply(&mut self, event: NetworkEvent)
        ensures
            final(self).records_view() == apply_spec(old(self).records_view(), event),
    {
        let ghost before = self.records_view();
        match event {
            NetworkEvent::RequestWillBeSent { request_id, url, method, resource_type, headers, timestamp_us, redirect_response } => {
                self.begin(request_id, url, method, resource_type, headers, timestamp_us, redirect_response);
            },
            NetworkEvent::ResponseReceived { request_id, response } => {
                if let Some(resp) = &response {
                    if let Some(i) = self.latest(request_id.as_str()) {
                        let mut r = self.take_at(i);
                        apply_response_exec(&mut r, resp);
                        let ghost nr = r.view_of();
                        self.put_at(i, r);
                        assert(self.records_view() =~= before.update(i as int, nr));
                    }
                }
            },
            NetworkEvent::RequestServedFromCache { request_id } => {
                if let Some(i) = self.latest(request_id.as_str()) {
                    let mut r = self.take_at(i);
                    r.entry.from_cache = true;
                    let ghost nr = r.view_of();
                    self.put_at(i, r);
                    assert(self.records_view() =~= before.update(i as int, nr));
                }
            },
            NetworkEvent::LoadingFinished { request_id, encoded_data_length, timestamp_us } => {
                if let Some(i) = self.latest(request_id.as_str()) {
                    let mut r = self.take_at(i);
                    if let Some(n) = encoded_data_length {
                        r.entry.encoded_data_length = Some(n);
                    }
                    settle_exec(&mut r, timestamp_us);
                    let ghost nr = r.view_of();
                    self.put_at(i, r);
                    assert(self.records_view() =~= before.update(i as int, nr));
                }
            },
            NetworkEvent::LoadingFailed { request_id, blocked_reason, error_text, canceled, timestamp_us } => {
                let reason = failure_reason(&blocked_reason, &error_text, canceled);
                if let Some(i) = self.latest(request_id.as_str()) {
                    let mut r = self.take_at(i);
                    r.entry.failure = Some(reason);
                    settle_exec(&mut r, timestamp_us);
                    let ghost nr = r.view_of();
                    self.put_at(i, r);
                    assert(self.records_view() =~= before.update(i as int, nr));
                }
            },
        }
    }

    /// Every record's entry, oldest first.
    pub fn entries(&self) -> (r: Vec<NetworkEntry>)
        ensures
            r@.len() == self.records_view().len(),
            forall|i: int| 0 <= i < r@.len() ==> (#[trigger] r@[i]).view_of() == self.records_view()[i].entry,
    {
        let mut out: Vec<NetworkEntry> = Vec::new();
        let mut i: usize = 0;
        while i < self.records.len()
            invariant
                i <= self.records@.len(),
                out@.len() == i,
                forall|j: int| 0 <= j < i ==> (#[trigger] out@[j]).view_of() == self.records_view()[j].entry,
            decreases self.records@.len() - i,
        {
            out.push(self.records[i].entry.duplicate());
            i = i + 1;
        }
        out
    }

    /// The newest record for an id, which is the one a redirect chain ends on.
    pub fn detail(&self, request_id: &str) -> (r: Option<&NetworkRecord>)
        ensures
            match latest_index(self.records_view(), request_id@) {
                Some(i) => r matches Some(x) && x.view_of() == self.records_view()[i],
                None => r is None,
            },
    {
        match self.latest(request_id) {
            Some(i) => Some(&self.records[i]),
            None => None,
        }
    }

    pub fn clear(&mut self)
        ensures
            final(self).records_view() == Seq::<RecordView>::empty(),
    {
        self.records = Vec::new();
        assert(record_views(self.records@) =~= Seq::<RecordView>::empty());
    }

    /// How many recorded requests failed outright or answered 4xx/5xx.
    pub fn failure_count(&self) -> (r: usize)
        ensures
            r == failed_count(self.records_view()),
    {
        let ghost v = self.records_view();
        let mut n: usize = 0;
        let mut i: usize = 0;
        while i < self.records.len()
            invariant
                i <= self.records@.len(),
                v == record_views(self.records@),
                n == failed_count(v.take(i as int)),
                n <= i,
            decreases self.records@.len() - i,
        {
            assert(v.take(i + 1).drop_last() =~= v.take(i as int));
            assert(v.take(i + 1).last() == self.records@[i as int].view_of());
            if self.records[i].entry.is_failure() {
                n = n + 1;
            }
            i = i + 1;
        }
        assert(v.take(v.len() as int) =~= v);
        n
    }
}

pub open spec fn failed_count(s: Seq<RecordView>) -> nat
    decreases s.len(),
{
    if s.len() == 0 {
        0
    } else {
        failed_count(s.drop_last()) + if entry_failed(s.last().entry) { 1nat } else { 0nat }
    }
}

// ---------------------------------------------------------------------------
// Laws

proof fn lemma_update_latest_len(s: Seq<RecordView>, id: Seq<char>, f: spec_fn(RecordView) -> RecordView)
    ensures
        update_latest(s, id, f).len() == s.len(),
        latest_index(s, id) matches Some(i) ==> 0 <= i < s.len(),
    decreases s.len(),
{
    if s.len() > 0 && s.last().entry.request_id != id {
        lemma_update_latest_len(s.drop_last(), id, f);
    }
}

/// The ledger never holds more than its buffer of records.
pub proof fn law_ledger_stays_bounded(s: Seq<RecordView>, e: NetworkEvent)
    requires
        s.len() <= NETWORK_BUFFER,
    ensures
        apply_spec(s, e).len() <= NETWORK_BUFFER,
{
    match e {
        NetworkEvent::RequestWillBeSent { request_id, redirect_response, timestamp_us, .. } => {
            match opt_response(redirect_response) {
                Some(resp) => lemma_update_latest_len(s, request_id@,
                    |r: RecordView| settle_spec(apply_response_spec(r, resp), timestamp_us)),
                None => {},
            }
        },
        NetworkEvent::ResponseReceived { request_id, response } => {
            match opt_response(response) {
                Some(resp) => lemma_update_latest_len(s, request_id@, |r: RecordView| apply_response_spec(r, resp)),
                None => {},
            }
        },
        NetworkEvent::RequestServedFromCache { request_id } => {
            lemma_update_latest_len(s, request_id@,
                |r: RecordView| RecordView { entry: EntryView { from_cache: true, ..r.entry }, ..r });
        },
        NetworkEvent::LoadingFinished { request_id, encoded_data_length, timestamp_us } => {
            lemma_update_latest_len(s, request_id@, |r: RecordView| settle_spec(
                RecordView {
                    entry: EntryView {
                        encoded_data_length: match encoded_data_length { Some(n) => Some(n), None => r.entry.encoded_data_length },
                        ..r.entry
                    },
                    ..r
                },
                timestamp_us,
            ));
        },
        NetworkEvent::LoadingFailed { request_id, blocked_reason, error_text, canceled, timestamp_us } => {
            lemma_update_latest_len(s, request_id@, |r: RecordView| settle_spec(
                RecordView {
                    entry: EntryView {
                        failure: Some(failure_reason_spec(opt_view(blocked_reason), opt_view(error_text), canceled)),
                        ..r.entry
                    },
                    ..r
                },
                timestamp_us,
            ));
        },
    }
}

proof fn lemma_latest_absent(s: Seq<RecordView>, id: Seq<char>)
    requires
        forall|i: int| 0 <= i < s.len() ==> (#[trigger] s[i]).entry.request_id != id,
    ensures
        latest_index(s, id) is None,
    decreases s.len(),
{
    if s.len() > 0 {
        let d = s.drop_last();
        assert forall|i: int| 0 <= i < d.len() implies (#[trigger] d[i]).entry.request_id != id by {
            assert(d[i] == s[i]);
        }
        lemma_latest_absent(d, id);
    }
}

/// An event about a request the ledger never saw changes nothing: no record
/// is invented for it.
pub proof fn law_unknown_requests_are_ignored(s: Seq<RecordView>, e: NetworkEvent)
    requires
        !(e is RequestWillBeSent),
        forall|i: int| 0 <= i < s.len() ==> (#[trigger] s[i]).entry.request_id != match e {
            NetworkEvent::RequestWillBeSent { request_id, .. } => request_id@,
            NetworkEvent::ResponseReceived { request_id, .. } => request_id@,
            NetworkEvent::RequestServedFromCache { request_id } => request_id@,
            NetworkEvent::LoadingFinished { request_id, .. } => request_id@,
            NetworkEvent::LoadingFailed { request_id, .. } => request_id@,
        },
    ensures
        apply_spec(s, e) == s,
{
    match e {
        NetworkEvent::RequestWillBeSent { request_id, .. } => {},
        NetworkEvent::ResponseReceived { request_id, .. } => { lemma_latest_absent(s, request_id@); },
        NetworkEvent::RequestServedFromCache { request_id } => { lemma_latest_absent(s, request_id@); },
        NetworkEvent::LoadingFinished { request_id, .. } => { lemma_latest_absent(s, request_id@); },
        NetworkEvent::LoadingFailed { request_id, .. } => { lemma_latest_absent(s, request_id@); },
    }
}

/// A redirect keeps the finished hop as its own record: the request that
/// follows it is appended, and (below the buffer) nothing is dropped.
pub proof fn law_redirect_keeps_each_hop(s: Seq<RecordView>, e: NetworkEvent)
    requires
        e is RequestWillBeSent,
        s.len() < NETWORK_BUFFER,
    ensures
        apply_spec(s, e).len() == s.len() + 1,
        apply_spec(s, e).last().entry.request_id == e->RequestWillBeSent_request_id@,
{
    match e {
        NetworkEvent::RequestWillBeSent { request_id, redirect_response, timestamp_us, .. } => {
            match opt_response(redirect_response) {
                Some(resp) => lemma_update_latest_len(s, request_id@,
                    |r: RecordView| settle_spec(apply_response_spec(r, resp), timestamp_us)),
                None => {},
            }
        },
        _ => {},
    }
}

/// A request counts as failed exactly when it failed outright or was
/// answered with a client or server error: any status from 400 up is a
/// failure, and an answered request below 400 that did not fail is not.
/// On the ledger, a known request answered with such a status is counted.
pub proof fn law_error_statuses_are_failures(e: EntryView, s: Seq<RecordView>, ev: NetworkEvent, i: int)
    ensures
        e.failure is Some ==> entry_failed(e),
        (e.status matches Some(st) && 400 <= st) ==> entry_failed(e),
        e.failure is None && (e.status matches Some(st) && st < 400) ==> !entry_failed(e),
        e.failure is None && e.status is None ==> !entry_failed(e),
        (ev matches NetworkEvent::ResponseReceived { request_id, response }
            && latest_index(s, request_id@) == Some(i)
            && (opt_response(response) matches Some(resp) && (resp.status matches Some(st) && 400 <= st)))
            ==> entry_failed(apply_spec(s, ev)[i].entry),
{
    match ev {
        NetworkEvent::ResponseReceived { request_id, response } => {
            match opt_response(response) {
                Some(resp) => lemma_update_latest_len(s, request_id@, |r: RecordView| apply_response_spec(r, resp)),
                None => {},
            }
        },
        _ => {},
    }
}

/// The failure count counts each failed record once: an empty ledger has
/// none, a record added to a ledger adds one exactly when it failed, and the
/// count never exceeds the number of records.
pub proof fn law_failures_are_counted_once_each(s: Seq<RecordView>, r: RecordView)
    ensures
        failed_count(Seq::<RecordView>::empty()) == 0,
        failed_count(s.push(r)) == failed_count(s) + (if entry_failed(r.entry) { 1nat } else { 0nat }),
        failed_count(s) <= s.len(),
    decreases s.len(),
{
    assert(s.push(r).drop_last() =~= s);
    if s.len() > 0 {
        law_failures_are_counted_once_each(s.drop_last(), s.last());
    }
}

} // verus!
