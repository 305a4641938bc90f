//! The Chromium engine's endpoint file, launch flags, and failure reports.
use vstd::prelude::*;

use crate::text::{
    chars_of, decimal_chars, into_string, join_spec, parse_unsigned, parse_unsigned_spec,
    push_decimal, push_joined, push_slice, push_str_chars, string_from_chars, strings_view,
    trim_bounds, trim_spec,
};

verus! {

/// Environment override naming an explicit Chromium binary.
pub const ENGINE_BINARY_ENV: &'static str = "WARDIAN_BROWSER_BINARY";

/// Seconds to wait for a launched browser to publish its debug port.
pub const ENDPOINT_TIMEOUT_SECS: u64 = 20;

/// Which Chromium-family browser backs a session.
#[derive(Debug, Clone, Copy, PartialEq, Eq)]
pub enum EngineKind {
    Chrome,
    Edge,
    Brave,
    Chromium,
    Custom,
}

/// A Chromium binary that exists on disk.
#[derive(Debug, Clone, PartialEq, Eq)]
pub struct EngineBinary {
    pub kind: EngineKind,
    pub path: String,
}

/// Why no browser session could be started.
#[derive(Debug, Clone, PartialEq, Eq)]
pub enum EngineError {
    /// No Chromium-family browser was found on the host.
    NotFound { searched: Vec<String> },
    /// The override was set but does not point at a file.
    OverrideMissing { path: String },
    /// The browser process could not be spawned.
    Spawn { path: String, source: String },
    /// The browser started but never published a DevTools endpoint.
    EndpointTimeout { path: String },
    /// The browser exited before it was ready.
    Exited { path: String, status: String },
}

/// The operator-facing sentence for each engine failure.
pub open spec fn engine_error_message_spec(e: EngineError) -> Seq<char> {
    match e {
        EngineError::NotFound { searched } =>
            "no Chromium-based browser was found. Install Microsoft Edge, Google Chrome, or Chromium, or set "@
                + ENGINE_BINARY_ENV@
                + " to a browser executable. Searched: "@
                + (if searched@.len() == 0 { "nothing"@ } else { join_spec(strings_view(searched@), ", "@) }),
        EngineError::OverrideMissing { path } =>
            ENGINE_BINARY_ENV@ + " points at "@ + path@ + ", which is not an executable file"@,
        EngineError::Spawn { path, source } => "failed to start "@ + path@ + ": "@ + source@,
        EngineError::EndpointTimeout { path } =>
            path@ + " started but did not publish a DevTools endpoint within "@
                + decimal_chars(ENDPOINT_TIMEOUT_SECS as nat) + " seconds"@,
        EngineError::Exited { path, status } =>
            path@ + " exited before becoming ready ("@ + status@ + ")"@,
    }
}

impl EngineError {
    /// The operator-facing explanation of this failure.
    pub fn message(&self) -> (r: String)
        ensures
            r@ == engine_error_message_spec(*self),
    {
        let mut out: Vec<char> = Vec::new();
        match self {
            EngineError::NotFound { searched } => {
                push_str_chars(&mut out, "no Chromium-based browser was found. Install Microsoft Edge, Google Chrome, or Chromium, or set ");
                push_str_chars(&mut out, ENGINE_BINARY_ENV);
                push_str_chars(&mut out, " to a browser executable. Searched: ");
                if searched.len() == 0 {
                    push_str_chars(&mut out, "nothing");
                } else {
                    push_joined(&mut out, searched.as_slice(), ", ");
                }
            },
            EngineError::OverrideMissing { path } => {
                push_str_chars(&mut out, ENGINE_BINARY_ENV);
                push_str_chars(&mut out, " points at ");
                push_str_chars(&mut out, path.as_str());
                push_str_chars(&mut out, ", which is not an executable file");
            },
            EngineError::Spawn { path, source } => {
                push_str_chars(&mut out, "failed to start ");
                push_str_chars(&mut out, path.as_str());
                push_str_chars(&mut out, ": ");
                push_str_chars(&mut out, source.as_str());
            },
            EngineError::EndpointTimeout { path } => {
                push_str_chars(&mut out, path.as_str());
                push_str_chars(&mut out, " started but did not publish a DevTools endpoint within ");
                push_decimal(&mut out, ENDPOINT_TIMEOUT_SECS);
                push_str_chars(&mut out, " seconds");
            },
            EngineError::Exited { path, status } => {
                push_str_chars(&mut out, path.as_str());
                push_str_chars(&mut out, " exited before becoming ready (");
                push_str_chars(&mut out, status.as_str());
                push_str_chars(&mut out, ")");
            },
        }
        proof {
            assert(out@ =~= engine_error_message_spec(*self));
        }
        into_string(out)
    }
}

/// The index of the first `'\n'` at or after `from`, or the length when there is none.
pub open spec fn next_newline(s: Seq<char>, from: int) -> int
    decreases s.len() - from,
{
    if from >= s.len() {
        s.len() as int
    } else if s[from] == '\n' {
        from
    } else {
        next_newline(s, from + 1)
    }
}

/// A line's content: a `'\r'` directly before its terminating `'\n'` is not part of it.
pub open spec fn line_between(s: Seq<char>, start: int, end: int) -> Seq<char> {
    if end < s.len() && end > start && s[end - 1] == '\r' {
        s.subrange(start, end - 1)
    } else {
        s.subrange(start, end)
    }
}

/// The first line `str::lines` yields.
pub open spec fn first_line(s: Seq<char>) -> Seq<char> {
    line_between(s, 0, next_newline(s, 0))
}

/// The second line `str::lines` yields, or nothing when there is none.
pub open spec fn second_line(s: Seq<char>) -> Seq<char> {
    let nl = next_newline(s, 0);
    if nl < s.len() {
        line_between(s, nl + 1, next_newline(s, nl + 1))
    } else {
        Seq::empty()
    }
}

/// The browser websocket URL a `DevToolsActivePort` file names: its port on the
/// first line, its websocket path on the second.
pub open spec fn parse_endpoint_spec(contents: Seq<char>) -> Option<Seq<char>> {
    if contents.len() == 0 {
        None
    } else {
        match parse_unsigned_spec(trim_spec(first_line(contents)), 65535) {
            None => None,
            Some(port) => {
                let path = trim_spec(second_line(contents));
                if path.len() == 0 {
                    None
                } else {
                    let path = if path[0] == '/' { path.drop_first() } else { path };
                    Some("ws://127.0.0.1:"@ + decimal_chars(port) + "/"@ + path)
                }
            },
        }
    }
}

fn find_newline(cs: &[char], from: usize) -> (r: usize)
    requires
        from <= cs@.len(),
    ensures
        r as int == next_newline(cs@, from as int),
        from <= r <= cs@.len(),
    decreases cs@.len() - from,
{
    if from >= cs.len() {
        cs.len()
    } else if cs[from] == '\n' {
        from
    } else {
        find_newline(cs, from + 1)
    }
}

fn line_chars(cs: &[char], start: usize, end: usize) -> (r: Vec<char>)
    requires
        start <= end <= cs@.len(),
    ensures
        r@ == line_between(cs@, start as int, end as int),
{
    let stop = if end < cs.len() && end > start && cs[end - 1] == '\r' { end - 1 } else { end };
    let mut out: Vec<char> = Vec::new();
    push_slice(&mut out, &cs[start..stop]);
    assert(out@ =~= line_between(cs@, start as int, end as int));
    out
}

fn trimmed(cs: &[char]) -> (r: Vec<char>)
    ensures
        r@ == trim_spec(cs@),
{
    let (a, b) = trim_bounds(cs);
    let mut out: Vec<char> = Vec::new();
    push_slice(&mut out, &cs[a..b]);
    assert(out@ =~= cs@.subrange(a as int, b as int));
    out
}

/// Parses Chromium's `DevToolsActivePort` file into a browser websocket URL.
pub fn parse_endpoint(contents: &str) -> (r: Option<String>)
    ensures
        match r {
            Some(url) => parse_endpoint_spec(contents@) == Some(url@),
            None => parse_endpoint_spec(contents@) is None,
        },
{
    let cs = chars_of(contents);
    if cs.len() == 0 {
        return None;
    }
    let nl = find_newline(cs.as_slice(), 0);
    let first = line_chars(cs.as_slice(), 0, nl);
    let first = trimmed(first.as_slice());
    let port = match parse_unsigned(first.as_slice(), 65535) {
        Some(p) => p,
        None => return None,
    };
    let second: Vec<char> = if nl < cs.len() {
        let end = find_newline(cs.as_slice(), nl + 1);
        line_chars(cs.as_slice(), nl + 1, end)
    } else {
        Vec::new()
    };
    let path = trimmed(second.as_slice());
    if path.len() == 0 {
        return None;
    }
    let start: usize = if path[0] == '/' { 1 } else { 0 };
    let mut out: Vec<char> = Vec::new();
    push_str_chars(&mut out, "ws://127.0.0.1:");
    push_decimal(&mut out, port);
    push_str_chars(&mut out, "/");
    push_slice(&mut out, &path[start..path.len()]);
    proof {
        let p = trim_spec(second_line(cs@));
        assert(path@ == p);
        if path@[0] == '/' {
            assert(path@.subrange(start as int, path@.len() as int) =~= p.drop_first());
        } else {
            assert(path@.subrange(start as int, path@.len() as int) =~= p);
        }
    }
    Some(into_string(out))
}

/// The flags `--user-data-dir=<dir>` and `--window-size=<w>,<h>` as launched.
pub open spec fn launch_flags_spec(user_data_dir: Seq<char>, width: nat, height: nat) -> Seq<Seq<char>> {
    seq![
        "--remote-debugging-port=0"@,
        "--user-data-dir="@ + user_data_dir,
        "--headless=new"@,
        "--no-first-run"@,
        "--no-default-browser-check"@,
        "--disable-background-networking"@,
        "--disable-sync"@,
        "--disable-extensions"@,
        "--disable-component-update"@,
        "--mute-audio"@,
        "--hide-scrollbars"@,
        "--window-size="@ + decimal_chars(width) + ","@ + decimal_chars(height),
        "about:blank"@,
    ]
}

fn owned(s: &str) -> (r: String)
    ensures
        r@ == s@,
{
    s.to_owned()
}

/// Command-line flags applied to every launched browser: an isolated profile,
/// an ephemeral debug port, headless, and nothing that phones home.
pub fn launch_flags(user_data_dir: &str, width: u32, height: u32) -> (r: Vec<String>)
    ensures
        strings_view(r@) == launch_flags_spec(user_data_dir@, width as nat, height as nat),
{
    let mut dir_flag: Vec<char> = Vec::new();
    push_str_chars(&mut dir_flag, "--user-data-dir=");
    push_str_chars(&mut dir_flag, user_data_dir);
    let mut size_flag: Vec<char> = Vec::new();
    push_str_chars(&mut size_flag, "--window-size=");
    push_decimal(&mut size_flag, width as u64);
    push_str_chars(&mut size_flag, ",");
    push_decimal(&mut size_flag, height as u64);
    let mut flags: Vec<String> = Vec::new();
    flags.push(owned("--remote-debugging-port=0"));
    flags.push(string_from_chars(dir_flag.as_slice()));
    flags.push(owned("--headless=new"));
    flags.push(owned("--no-first-run"));
    flags.push(owned("--no-default-browser-check"));
    flags.push(owned("--disable-background-networking"));
    flags.push(owned("--disable-sync"));
    flags.push(owned("--disable-extensions"));
    flags.push(owned("--disable-component-update"));
    flags.push(owned("--mute-audio"));
    flags.push(owned("--hide-scrollbars"));
    flags.push(string_from_chars(size_flag.as_slice()));
    flags.push(owned("about:blank"));
    assert(strings_view(flags@) =~= launch_flags_spec(user_data_dir@, width as nat, height as nat));
    flags
}

/// A binary by its view: the kind and the path's characters.
pub open spec fn binary_view(b: EngineBinary) -> (EngineKind, Seq<char>) {
    (b.kind, b.path@)
}

pub open spec fn binaries_view(v: Seq<EngineBinary>) -> Seq<(EngineKind, Seq<char>)> {
    v.map_values(|b: EngineBinary| binary_view(b))
}

/// The directories searched on Linux-like hosts, in order.
pub open spec fn unix_roots() -> Seq<Seq<char>> {
    seq!["/usr/bin"@, "/usr/local/bin"@, "/snap/bin"@, "/opt/google/chrome"@]
}

/// One executable name under every Unix root, in root order.
pub open spec fn under_unix_roots(kind: EngineKind, name: Seq<char>) -> Seq<(EngineKind, Seq<char>)> {
    unix_roots().map_values(|root: Seq<char>| (kind, root + "/"@ + name))
}

/// The Linux candidates: Chrome, Chromium, Edge and Brave under their usual
/// names, each looked for in every root before the next name.
pub open spec fn engine_candidates_spec() -> Seq<(EngineKind, Seq<char>)> {
    under_unix_roots(EngineKind::Chrome, "google-chrome"@)
        + under_unix_roots(EngineKind::Chrome, "google-chrome-stable"@)
        + under_unix_roots(EngineKind::Chromium, "chromium"@)
        + under_unix_roots(EngineKind::Chromium, "chromium-browser"@)
        + under_unix_roots(EngineKind::Edge, "microsoft-edge"@)
        + under_unix_roots(EngineKind::Brave, "brave-browser"@)
}

fn binary_at(kind: EngineKind, path: Vec<char>) -> (r: EngineBinary)
    ensures
        binary_view(r) == (kind, path@),
{
    EngineBinary { kind, path: into_string(path) }
}

fn push_binary(out: &mut Vec<EngineBinary>, b: EngineBinary)
    ensures
        binaries_view(final(out)@) == binaries_view(old(out)@).push(binary_view(b)),
{
    let ghost before = out@;
    out.push(b);
    assert(binaries_view(out@) =~= binaries_view(before).push(binary_view(b)));
}

fn push_under_unix_root(out: &mut Vec<EngineBinary>, kind: EngineKind, root: &str, name: &str)
    ensures
        binaries_view(final(out)@) == binaries_view(old(out)@).push((kind, root@ + "/"@ + name@)),
{
    let mut path: Vec<char> = Vec::new();
    push_str_chars(&mut path, root);
    push_str_chars(&mut path, "/");
    push_str_chars(&mut path, name);
    push_binary(out, binary_at(kind, path));
}

fn push_under_unix_roots(out: &mut Vec<EngineBinary>, kind: EngineKind, name: &str)
    ensures
        binaries_view(final(out)@) == binaries_view(old(out)@) + under_unix_roots(kind, name@),
{
    let ghost before = binaries_view(out@);
    push_under_unix_root(out, kind, "/usr/bin", name);
    push_under_unix_root(out, kind, "/usr/local/bin", name);
    push_under_unix_root(out, kind, "/snap/bin", name);
    push_under_unix_root(out, kind, "/opt/google/chrome", name);
    assert(binaries_view(out@) =~= before + under_unix_roots(kind, name@));
}

/// Candidate binaries in preference order on Linux-like hosts: Chrome leads.
pub fn engine_candidates() -> (r: Vec<EngineBinary>)
    ensures
        binaries_view(r@) == engine_candidates_spec(),
{
    let mut out: Vec<EngineBinary> = Vec::new();
    assert(binaries_view(out@) =~= Seq::<(EngineKind, Seq<char>)>::empty());
    push_under_unix_roots(&mut out, EngineKind::Chrome, "google-chrome");
    push_under_unix_roots(&mut out, EngineKind::Chrome, "google-chrome-stable");
    push_under_unix_roots(&mut out, EngineKind::Chromium, "chromium");
    push_under_unix_roots(&mut out, EngineKind::Chromium, "chromium-browser");
    push_under_unix_roots(&mut out, EngineKind::Edge, "microsoft-edge");
    push_under_unix_roots(&mut out, EngineKind::Brave, "brave-browser");
    assert(binaries_view(out@) =~= engine_candidates_spec());
    out
}

/// The macOS candidates: the application bundles' executables, Chrome first.
pub open spec fn macos_engine_candidates_spec() -> Seq<(EngineKind, Seq<char>)> {
    seq![
        (EngineKind::Chrome, "/Applications/Google Chrome.app/Contents/MacOS/Google Chrome"@),
        (EngineKind::Edge, "/Applications/Microsoft Edge.app/Contents/MacOS/Microsoft Edge"@),
        (EngineKind::Brave, "/Applications/Brave Browser.app/Contents/MacOS/Brave Browser"@),
        (EngineKind::Chromium, "/Applications/Chromium.app/Contents/MacOS/Chromium"@),
    ]
}

/// Candidate binaries in preference order on macOS.
pub fn macos_engine_candidates() -> (r: Vec<EngineBinary>)
    ensures
        binaries_view(r@) == macos_engine_candidates_spec(),
{
    let mut out: Vec<EngineBinary> = Vec::new();
    let ghost before = binaries_view(out@);
    push_binary(&mut out, EngineBinary { kind: EngineKind::Chrome, path: owned("/Applications/Google Chrome.app/Contents/MacOS/Google Chrome") });
    push_binary(&mut out, EngineBinary { kind: EngineKind::Edge, path: owned("/Applications/Microsoft Edge.app/Contents/MacOS/Microsoft Edge") });
    push_binary(&mut out, EngineBinary { kind: EngineKind::Brave, path: owned("/Applications/Brave Browser.app/Contents/MacOS/Brave Browser") });
    push_binary(&mut out, EngineBinary { kind: EngineKind::Chromium, path: owned("/Applications/Chromium.app/Contents/MacOS/Chromium") });
    assert(before =~= Seq::<(EngineKind, Seq<char>)>::empty());
    assert(binaries_view(out@) =~= macos_engine_candidates_spec());
    out
}

/// A Windows directory joined with a relative path: one backslash between
/// them unless the directory already ends in a separator.
pub open spec fn windows_join(root: Seq<char>, relative: Seq<char>) -> Seq<char> {
    if root.len() > 0 && (root.last() == '\\' || root.last() == '/') {
        root + relative
    } else {
        root + "\\"@ + relative
    }
}

/// The install roots that are set, in the order 32-bit programs, programs,
/// per-user programs.
pub open spec fn windows_roots(program_files_x86: Seq<char>, program_files: Seq<char>, local_app_data: Seq<char>) -> Seq<Seq<char>> {
    (if program_files_x86.len() == 0 { Seq::empty() } else { seq![program_files_x86] })
        + (if program_files.len() == 0 { Seq::empty() } else { seq![program_files] })
        + (if local_app_data.len() == 0 { Seq::empty() } else { seq![local_app_data] })
}

pub open spec fn under_windows_roots(kind: EngineKind, relative: Seq<char>, roots: Seq<Seq<char>>) -> Seq<(EngineKind, Seq<char>)> {
    roots.map_values(|root: Seq<char>| (kind, windows_join(root, relative)))
}

/// The Windows candidates: Edge, Chrome, Brave and Chromium, each under
/// every install root that is set.
pub open spec fn windows_engine_candidates_spec(roots: Seq<Seq<char>>) -> Seq<(EngineKind, Seq<char>)> {
    under_windows_roots(EngineKind::Edge, "Microsoft\\Edge\\Application\\msedge.exe"@, roots)
        + under_windows_roots(EngineKind::Chrome, "Google\\Chrome\\Application\\chrome.exe"@, roots)
        + under_windows_roots(EngineKind::Brave, "BraveSoftware\\Brave-Browser\\Application\\brave.exe"@, roots)
        + under_windows_roots(EngineKind::Chromium, "Chromium\\Application\\chrome.exe"@, roots)
}

fn windows_path(root: &str, relative: &str) -> (r: Vec<char>)
    ensures
        r@ == windows_join(root@, relative@),
{
    let cs = chars_of(root);
    let mut out: Vec<char> = Vec::new();
    push_str_chars(&mut out, root);
    if cs.len() > 0 && (cs[cs.len() - 1] == '\\' || cs[cs.len() - 1] == '/') {
        push_str_chars(&mut out, relative);
    } else {
        push_str_chars(&mut out, "\\");
        push_str_chars(&mut out, relative);
    }
    out
}

fn push_under_windows_roots(out: &mut Vec<EngineBinary>, kind: EngineKind, relative: &str, roots: &Vec<String>)
    ensures
        binaries_view(final(out)@) == binaries_view(old(out)@) + under_windows_roots(kind, relative@, strings_view(roots@)),
{
    let ghost before = binaries_view(out@);
    let ghost all = under_windows_roots(kind, relative@, strings_view(roots@));
    let mut i: usize = 0;
    while i < roots.len()
        invariant
            i <= roots.len(),
            all == under_windows_roots(kind, relative@, strings_view(roots@)),
            binaries_view(out@) == before + all.take(i as int),
        decreases roots.len() - i,
    {
        let path = windows_path(roots[i].as_str(), relative);
        push_binary(out, binary_at(kind, path));
        assert(all.take(i + 1) =~= all.take(i as int).push(all[i as int]));
        i = i + 1;
    }
    assert(all.take(roots.len() as int) =~= all);
}

fn push_root(roots: &mut Vec<String>, root: &str)
    ensures
        strings_view(final(roots)@) == strings_view(old(roots)@) + (if root@.len() == 0 { Seq::empty() } else { seq![root@] }),
{
    let ghost before = strings_view(roots@);
    if !root.is_empty() {
        roots.push(owned(root));
        assert(strings_view(roots@) =~= before + seq![root@]);
    } else {
        assert(strings_view(roots@) =~= before + Seq::<Seq<char>>::empty());
    }
}

/// Candidate binaries in preference order on Windows, from the values of the
/// install-root variables (empty when unset): Edge leads.
pub fn windows_engine_candidates(program_files_x86: &str, program_files: &str, local_app_data: &str) -> (r: Vec<EngineBinary>)
    ensures
        binaries_view(r@) == windows_engine_candidates_spec(windows_roots(program_files_x86@, program_files@, local_app_data@)),
{
    let mut roots: Vec<String> = Vec::new();
    assert(strings_view(roots@) =~= Seq::<Seq<char>>::empty());
    push_root(&mut roots, program_files_x86);
    push_root(&mut roots, program_files);
    push_root(&mut roots, local_app_data);
    assert(strings_view(roots@) =~= windows_roots(program_files_x86@, program_files@, local_app_data@));
    let mut out: Vec<EngineBinary> = Vec::new();
    assert(binaries_view(out@) =~= Seq::<(EngineKind, Seq<char>)>::empty());
    push_under_windows_roots(&mut out, EngineKind::Edge, "Microsoft\\Edge\\Application\\msedge.exe", &roots);
    push_under_windows_roots(&mut out, EngineKind::Chrome, "Google\\Chrome\\Application\\chrome.exe", &roots);
    push_under_windows_roots(&mut out, EngineKind::Brave, "BraveSoftware\\Brave-Browser\\Application\\brave.exe", &roots);
    push_under_windows_roots(&mut out, EngineKind::Chromium, "Chromium\\Application\\chrome.exe", &roots);
    assert(binaries_view(out@) =~= windows_engine_candidates_spec(strings_view(roots@)));
    out
}

/// The index of the first `true` at or after `from`, or the length when there is none.
pub open spec fn first_present(present: Seq<bool>, from: int) -> int
    decreases present.len() - from,
{
    if from < 0 || from >= present.len() {
        present.len() as int
    } else if present[from] {
        from
    } else {
        first_present(present, from + 1)
    }
}

pub open spec fn opt_string_view(o: Option<String>) -> Option<Seq<char>> {
    match o {
        Some(s) => Some(s@),
        None => None,
    }
}

/// What discovery settles on, by its view.
pub enum DiscoveryView {
    Found(EngineKind, Seq<char>),
    OverrideMissing(Seq<char>),
    NotFound(Seq<Seq<char>>),
    Other,
}

pub open spec fn discovery_view(r: Result<EngineBinary, EngineError>) -> DiscoveryView {
    match r {
        Ok(b) => DiscoveryView::Found(b.kind, b.path@),
        Err(EngineError::OverrideMissing { path }) => DiscoveryView::OverrideMissing(path@),
        Err(EngineError::NotFound { searched }) => DiscoveryView::NotFound(strings_view(searched@)),
        Err(_) => DiscoveryView::Other,
    }
}

/// A non-empty override wins: it is used when it is a file and refused when
/// it is not. An empty or unset override counts as unset. Otherwise the first
/// candidate that is a file is used, and when none is, every candidate's path
/// is reported as searched.
pub open spec fn discover_spec(
    override_path: Option<Seq<char>>,
    override_is_file: bool,
    candidates: Seq<(EngineKind, Seq<char>)>,
    present: Seq<bool>,
) -> DiscoveryView {
    if override_path is Some && override_path->0.len() > 0 {
        if override_is_file {
            DiscoveryView::Found(EngineKind::Custom, override_path->0)
        } else {
            DiscoveryView::OverrideMissing(override_path->0)
        }
    } else if first_present(present, 0) < candidates.len() {
        DiscoveryView::Found(candidates[first_present(present, 0)].0, candidates[first_present(present, 0)].1)
    } else {
        DiscoveryView::NotFound(candidates.map_values(|c: (EngineKind, Seq<char>)| c.1))
    }
}

/// Resolves the browser this host should use from the override variable's
/// value, whether it names a file, the candidates and which of them are files.
pub fn discover_engine(
    override_path: Option<String>,
    override_is_file: bool,
    candidates: Vec<EngineBinary>,
    candidate_is_file: &Vec<bool>,
) -> (r: Result<EngineBinary, EngineError>)
    requires
        candidate_is_file.len() == candidates.len(),
    ensures
        discovery_view(r) == discover_spec(
            opt_string_view(override_path),
            override_is_file,
            binaries_view(candidates@),
            candidate_is_file@,
        ),
{
    let ghost ov = opt_string_view(override_path);
    match override_path {
        Some(path) => {
            if !path.as_str().is_empty() {
                if override_is_file {
                    return Ok(EngineBinary { kind: EngineKind::Custom, path });
                } else {
                    return Err(EngineError::OverrideMissing { path });
                }
            }
        },
        None => {},
    }
    let ghost cands = binaries_view(candidates@);
    let mut i: usize = 0;
    while i < candidates.len()
        invariant
            i <= candidates.len(),
            candidate_is_file.len() == candidates.len(),
            cands == binaries_view(candidates@),
            first_present(candidate_is_file@, 0) == first_present(candidate_is_file@, i as int),
            !(ov is Some && ov->0.len() > 0),
            ov == opt_string_view(override_path),
        decreases candidates.len() - i,
    {
        if candidate_is_file[i] {
            let found = EngineBinary { kind: candidates[i].kind, path: candidates[i].path.clone() };
            assert(cands[i as int] == binary_view(candidates@[i as int]));
            return Ok(found);
        }
        i = i + 1;
    }
    let mut searched: Vec<String> = Vec::new();
    let mut j: usize = 0;
    while j < candidates.len()
        invariant
            j <= candidates.len(),
            cands == binaries_view(candidates@),
            strings_view(searched@) == cands.map_values(|c: (EngineKind, Seq<char>)| c.1).take(j as int),
            !(ov is Some && ov->0.len() > 0),
            ov == opt_string_view(override_path),
            first_present(candidate_is_file@, 0) == candidates.len(),
        decreases candidates.len() - j,
    {
        let ghost before = strings_view(searched@);
        searched.push(candidates[j].path.clone());
        assert(cands[j as int] == binary_view(candidates@[j as int]));
        assert(strings_view(searched@) =~= before.push(candidates@[j as int].path@));
        assert(cands.map_values(|c: (EngineKind, Seq<char>)| c.1).take(j + 1) =~= cands.map_values(|c: (EngineKind, Seq<char>)| c.1).take(j as int).push(cands[j as int].1));
        j = j + 1;
    }
    assert(cands.map_values(|c: (EngineKind, Seq<char>)| c.1).take(candidates.len() as int) =~= cands.map_values(|c: (EngineKind, Seq<char>)| c.1));
    Err(EngineError::NotFound { searched })
}

/// What one poll of a launching browser decides.
#[derive(Debug, Clone, PartialEq, Eq)]
pub enum EndpointPoll {
    /// The endpoint file names the browser's websocket: the launch succeeded.
    Ready(String),
    /// The launch failed; when the deadline passed, the browser is killed.
    Failed(EngineError),
    /// Nothing yet: poll again after a short pause.
    Wait,
}

/// One poll of a launching browser, from what the endpoint file holds (when
/// it could be read), the browser's exit status (when it has exited) and
/// whether the deadline has passed: a readable endpoint wins, then an exit,
/// then the deadline.
pub fn endpoint_poll(path: &str, port_file: Option<String>, exit_status: Option<String>, deadline_passed: bool) -> (r: EndpointPoll)
    ensures
        port_file is Some && parse_endpoint_spec(port_file->0@) is Some
            ==> (r matches EndpointPoll::Ready(url) && url@ == parse_endpoint_spec(port_file->0@)->0),
        !(port_file is Some && parse_endpoint_spec(port_file->0@) is Some) && exit_status is Some
            ==> (r matches EndpointPoll::Failed(EngineError::Exited { path: p, status: s }) && p@ == path@ && s@ == exit_status->0@),
        !(port_file is Some && parse_endpoint_spec(port_file->0@) is Some) && exit_status is None && deadline_passed
            ==> (r matches EndpointPoll::Failed(EngineError::EndpointTimeout { path: p }) && p@ == path@),
        !(port_file is Some && parse_endpoint_spec(port_file->0@) is Some) && exit_status is None && !deadline_passed
            ==> r is Wait,
{
    match port_file {
        Some(contents) => {
            match parse_endpoint(contents.as_str()) {
                Some(url) => { return EndpointPoll::Ready(url); },
                None => {},
            }
        },
        None => {},
    }
    match exit_status {
        Some(status) => EndpointPoll::Failed(EngineError::Exited { path: owned(path), status }),
        None => if deadline_passed {
            EndpointPoll::Failed(EngineError::EndpointTimeout { path: owned(path) })
        } else {
            EndpointPoll::Wait
        },
    }
}

} // verus!
