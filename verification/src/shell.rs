//! Startup, platform and navigation policy of the desktop shell.
use crate::diagnostics::{bounded_log_text, bounded_log_text_spec};
use crate::text::{str_equal, trim_bounds, trim_end_spec, trim_spec, trim_start_spec};
use crate::url_model::{port_or_known_default_spec, url_parse, UrlParts, UrlView};
use vstd::prelude::*;
use vstd::string::{StrSliceExecFns, StringExecFns};

verus! {

/// A release channel the startup screen offers.
#[derive(Clone, Copy)]
pub struct ServerProfile {
    pub id: &'static str,
    pub label: &'static str,
    pub url: &'static str,
    pub summary: &'static str,
}

pub type ProfileView = (Seq<char>, Seq<char>, Seq<char>, Seq<char>);

pub open spec fn profile_view(p: ServerProfile) -> ProfileView {
    (p.id@, p.label@, p.url@, p.summary@)
}

/// The built-in release channels, in the order the startup screen lists them.
pub open spec fn built_in_profiles_spec() -> Seq<ProfileView> {
    seq![
        ("beta"@, "Beta"@, "https://rts-0-zvorygin-beta.fly.dev/"@, "Playtest channel"@),
        (
            "mainline"@,
            "Mainline"@,
            "https://rts-0-zvorygin.fly.dev/"@,
            "Current public release"@,
        ),
    ]
}

pub const DEFAULT_PROFILE_ID: &'static str = "beta";

pub fn built_in_profiles() -> (r: Vec<ServerProfile>)
    ensures
        r.len() == built_in_profiles_spec().len(),
        forall|i: int| 0 <= i < r.len() ==> profile_view(#[trigger] r[i]) == built_in_profiles_spec()[i],
{
    let mut v = Vec::new();
    v.push(
        ServerProfile {
            id: "beta",
            label: "Beta",
            url: "https://rts-0-zvorygin-beta.fly.dev/",
            summary: "Playtest channel",
        },
    );
    v.push(
        ServerProfile {
            id: "mainline",
            label: "Mainline",
            url: "https://rts-0-zvorygin.fly.dev/",
            summary: "Current public release",
        },
    );
    v
}

/// The first built-in profile whose id is `id`.
pub open spec fn profile_index_for_id(id: Seq<char>) -> Option<int> {
    if built_in_profiles_spec()[0].0 == id {
        Some(0)
    } else if built_in_profiles_spec()[1].0 == id {
        Some(1)
    } else {
        None
    }
}

pub fn server_profile_for_id(profile_id: &str) -> (r: Option<ServerProfile>)
    ensures
        match profile_index_for_id(profile_id@) {
            Some(i) => r is Some && profile_view(r->0) == built_in_profiles_spec()[i],
            None => r is None,
        },
{
    let profiles = built_in_profiles();
    let mut i: usize = 0;
    while i < profiles.len()
        invariant
            profiles.len() == 2,
            i <= 2,
            forall|j: int| 0 <= j < 2 ==> profile_view(#[trigger] profiles[j]) == built_in_profiles_spec()[j],
            forall|j: int| 0 <= j < i ==> built_in_profiles_spec()[j].0 != profile_id@,
        decreases 2 - i,
    {
        if str_equal(profiles[i].id, profile_id) {
            return Some(profiles[i]);
        }
        i = i + 1;
    }
    None
}

// ---------------------------------------------------------------- URL policy

pub open spec fn same_origin_spec(left: UrlView, right: UrlView) -> bool {
    &&& left.0 == right.0
    &&& left.1 == right.1
    &&& port_or_known_default_spec(left.0, left.2) == port_or_known_default_spec(right.0, right.2)
}

/// Scheme, host and port (the known default where none is written) agree.
pub fn same_origin(left: &UrlParts, right: &UrlParts) -> (r: bool)
    requires
        left.wf(),
        right.wf(),
    ensures
        r == same_origin_spec(left.view(), right.view()),
{
    if !str_equal(left.scheme.as_str(), right.scheme.as_str()) {
        return false;
    }
    let hosts_equal = match (&left.host, &right.host) {
        (Some(a), Some(b)) => str_equal(a.as_str(), b.as_str()),
        (None, None) => true,
        _ => false,
    };
    hosts_equal && left.port_or_known_default == right.port_or_known_default
}

/// The shell's own pages: the `tauri` scheme, or `http(s)://tauri.localhost`.
pub open spec fn app_url_allowed_spec(url: UrlView) -> bool {
    ||| url.0 == "tauri"@
    ||| (url.0 == "http"@ || url.0 == "https"@) && url.1 == Some("tauri.localhost"@)
}

pub fn app_url_allowed(url: &UrlParts) -> (r: bool)
    ensures
        r == app_url_allowed_spec(url.view()),
{
    let scheme = url.scheme.as_str();
    if str_equal(scheme, "tauri") {
        return true;
    }
    if !(str_equal(scheme, "http") || str_equal(scheme, "https")) {
        return false;
    }
    match &url.host {
        Some(h) => str_equal(h.as_str(), "tauri.localhost"),
        None => false,
    }
}

/// Whether built-in profile `i` has the same origin as `url`.
pub open spec fn profile_matches_url(i: int, url: UrlView) -> bool {
    match url_parse(built_in_profiles_spec()[i].2) {
        Some(p) => same_origin_spec(url, p),
        None => false,
    }
}

/// The first built-in profile that has the same origin as `url`.
pub open spec fn release_profile_index_for_url(url: UrlView) -> Option<int> {
    if profile_matches_url(0, url) {
        Some(0)
    } else if profile_matches_url(1, url) {
        Some(1)
    } else {
        None
    }
}

pub fn release_profile_for_url(url: &UrlParts) -> (r: Option<ServerProfile>)
    requires
        url.wf(),
    ensures
        match release_profile_index_for_url(url.view()) {
            Some(i) => r is Some && profile_view(r->0) == built_in_profiles_spec()[i],
            None => r is None,
        },
{
    let profiles = built_in_profiles();
    let mut i: usize = 0;
    while i < profiles.len()
        invariant
            profiles.len() == 2,
            i <= 2,
            url.wf(),
            forall|j: int| 0 <= j < 2 ==> profile_view(#[trigger] profiles[j]) == built_in_profiles_spec()[j],
            forall|j: int| 0 <= j < i ==> !profile_matches_url(j, url.view()),
        decreases 2 - i,
    {
        let matches = match UrlParts::parse(profiles[i].url) {
            Some(p) => same_origin(url, &p),
            None => false,
        };
        if matches {
            return Some(profiles[i]);
        }
        i = i + 1;
    }
    None
}

/// The navigation policy: the shell's own pages, any built-in release origin, and the
/// developer server's origin when one was configured.
pub open spec fn navigation_allowed_spec(url: UrlView, developer_url: Option<UrlView>) -> bool {
    ||| app_url_allowed_spec(url)
    ||| release_profile_index_for_url(url) is Some
    ||| match developer_url {
        Some(d) => same_origin_spec(url, d),
        None => false,
    }
}

pub fn navigation_allowed(url: &UrlParts, developer_url: Option<&UrlParts>) -> (r: bool)
    requires
        url.wf(),
        developer_url matches Some(d) ==> d.wf(),
    ensures
        r == navigation_allowed_spec(
            url.view(),
            match developer_url {
                Some(d) => Some(d.view()),
                None => None,
            },
        ),
{
    if app_url_allowed(url) {
        return true;
    }
    if release_profile_for_url(url).is_some() {
        return true;
    }
    match developer_url {
        Some(d) => same_origin(url, d),
        None => false,
    }
}

// ---------------------------------------------------------------- log redaction

pub open spec fn digit_char(d: nat) -> char {
    if d == 0 {
        '0'
    } else if d == 1 {
        '1'
    } else if d == 2 {
        '2'
    } else if d == 3 {
        '3'
    } else if d == 4 {
        '4'
    } else if d == 5 {
        '5'
    } else if d == 6 {
        '6'
    } else if d == 7 {
        '7'
    } else if d == 8 {
        '8'
    } else {
        '9'
    }
}

/// The decimal digits of `n`, most significant first.
pub open spec fn decimal_spec(n: nat) -> Seq<char>
    decreases n,
{
    if n < 10 {
        seq![digit_char(n)]
    } else {
        decimal_spec(n / 10).push(digit_char(n % 10))
    }
}

fn digit_str(d: u32) -> (r: &'static str)
    requires
        d < 10,
    ensures
        r@ == seq![digit_char(d as nat)],
{
    proof {
        reveal_strlit("0");
        reveal_strlit("1");
        reveal_strlit("2");
        reveal_strlit("3");
        reveal_strlit("4");
        reveal_strlit("5");
        reveal_strlit("6");
        reveal_strlit("7");
        reveal_strlit("8");
        reveal_strlit("9");
    }
    match d {
        0 => "0",
        1 => "1",
        2 => "2",
        3 => "3",
        4 => "4",
        5 => "5",
        6 => "6",
        7 => "7",
        8 => "8",
        _ => "9",
    }
}

/// Appends the decimal form of `n` to `out`.
pub fn push_decimal(out: &mut String, n: u32)
    ensures
        final(out)@ == old(out)@ + decimal_spec(n as nat),
    decreases n,
{
    if n >= 10 {
        push_decimal(out, n / 10);
    }
    out.append(digit_str(n % 10));
    proof {
        if n < 10 {
            assert(decimal_spec(n as nat) == seq![digit_char(n as nat)]);
        }
    }
}

pub open spec fn host_or_placeholder(host: Option<Seq<char>>) -> Seq<char> {
    match host {
        Some(h) => h,
        None => "<no-host>"@,
    }
}

pub open spec fn port_suffix(port: Option<u16>) -> Seq<char> {
    match port {
        Some(p) => ":"@ + decimal_spec(p as nat),
        None => Seq::empty(),
    }
}

pub open spec fn path_or_root(path: Seq<char>) -> Seq<char> {
    if path.len() == 0 {
        "/"@
    } else {
        path
    }
}

/// What the log shows of a URL: scheme, host, port and path, never the query or fragment;
/// any `tauri:` page as the startup page; text that does not parse as bounded log text.
pub open spec fn redact_url_for_log_spec(value: Seq<char>) -> Seq<char> {
    match url_parse(value) {
        Some(u) => if u.0 == "tauri"@ {
            "tauri://localhost/index.html"@
        } else {
            u.0 + "://"@ + host_or_placeholder(u.1) + port_suffix(u.2) + path_or_root(u.3)
        },
        None => bounded_log_text_spec(value),
    }
}

pub fn redact_url_for_log(value: &str) -> (r: String)
    ensures
        r@ == redact_url_for_log_spec(value@),
{
    match UrlParts::parse(value) {
        Some(url) => {
            if str_equal(url.scheme.as_str(), "tauri") {
                return String::from_str("tauri://localhost/index.html");
            }
            let mut out = url.scheme.clone();
            out.append("://");
            match &url.host {
                Some(h) => out.append(h.as_str()),
                None => out.append("<no-host>"),
            }
            match url.port {
                Some(p) => {
                    out.append(":");
                    push_decimal(&mut out, p as u32);
                },
                None => {},
            }
            if url.path.as_str().unicode_len() == 0 {
                out.append("/");
            } else {
                out.append(url.path.as_str());
            }
            proof {
                let u = url.view();
                assert(out@ =~= u.0 + "://"@ + host_or_placeholder(u.1) + port_suffix(u.2)
                    + path_or_root(u.3));
            }
            out
        },
        None => bounded_log_text(value),
    }
}

// ---------------------------------------------------------------- developer server

/// Why a developer server URL was refused.
pub enum DeveloperUrlError {
    /// The value is blank.
    Empty,
    /// The trimmed value does not parse as a URL.
    Invalid { url: String },
    /// The URL's scheme is not `http`.
    NotHttp { url: String },
    /// The URL's host is not `127.0.0.1` or `localhost`.
    NonLoopback { url: String },
}

/// The reason a developer server URL was refused, without its text.
#[derive(Clone, Copy, PartialEq, Eq, Structural, Debug)]
pub enum DeveloperUrlRefusal {
    Empty,
    Invalid,
    NotHttp,
    NonLoopback,
}

/// How a developer server URL is normalized: trimmed, parsed, held to plain-HTTP loopback,
/// and given back in the URL's serialized form.
pub open spec fn normalize_developer_server_url_spec(value: Seq<char>) -> Result<
    Seq<char>,
    (DeveloperUrlRefusal, Seq<char>),
> {
    let t = trim_spec(value);
    if t.len() == 0 {
        Err((DeveloperUrlRefusal::Empty, t))
    } else {
        match url_parse(t) {
            None => Err((DeveloperUrlRefusal::Invalid, t)),
            Some(u) => if u.0 != "http"@ {
                Err((DeveloperUrlRefusal::NotHttp, t))
            } else if u.1 != Some("127.0.0.1"@) && u.1 != Some("localhost"@) {
                Err((DeveloperUrlRefusal::NonLoopback, t))
            } else {
                Ok(u.4)
            },
        }
    }
}

impl DeveloperUrlError {
    /// The error as its reason and the trimmed URL it names (empty for a blank value).
    pub open spec fn view(&self) -> (DeveloperUrlRefusal, Seq<char>) {
        match self {
            DeveloperUrlError::Empty => (DeveloperUrlRefusal::Empty, Seq::empty()),
            DeveloperUrlError::Invalid { url } => (DeveloperUrlRefusal::Invalid, url@),
            DeveloperUrlError::NotHttp { url } => (DeveloperUrlRefusal::NotHttp, url@),
            DeveloperUrlError::NonLoopback { url } => (DeveloperUrlRefusal::NonLoopback, url@),
        }
    }
}

pub fn normalize_developer_server_url(value: &str) -> (r: Result<String, DeveloperUrlError>)
    ensures
        match r {
            Ok(s) => normalize_developer_server_url_spec(value@) == Ok::<Seq<char>, (DeveloperUrlRefusal, Seq<char>)>(s@),
            Err(e) => normalize_developer_server_url_spec(value@) == Err::<Seq<char>, (DeveloperUrlRefusal, Seq<char>)>(e.view()),
        },
        r matches Ok(s) ==> normalize_developer_server_url_spec(s@) == Ok::<
            Seq<char>,
            (DeveloperUrlRefusal, Seq<char>),
        >(s@),
{
    let (start, end) = trim_bounds(value);
    let trimmed = value.substring_char(start, end);
    if start == end {
        assert(trimmed@ =~= Seq::<char>::empty());
        return Err(DeveloperUrlError::Empty);
    }
    let url = match UrlParts::parse(trimmed) {
        Some(u) => u,
        None => {
            return Err(DeveloperUrlError::Invalid { url: String::from_str(trimmed) });
        },
    };
    if !str_equal(url.scheme.as_str(), "http") {
        return Err(DeveloperUrlError::NotHttp { url: String::from_str(trimmed) });
    }
    let loopback = match &url.host {
        Some(h) => str_equal(h.as_str(), "127.0.0.1") || str_equal(h.as_str(), "localhost"),
        None => false,
    };
    if !loopback {
        return Err(DeveloperUrlError::NonLoopback { url: String::from_str(trimmed) });
    }
    proof {
        lemma_stable_http_url_normalizes_to_itself(url.view());
    }
    Ok(url.serialization)
}

/// A loopback `http` URL that `url` parsed, written back as its serialization, is trimmed
/// already and parses back to itself, so normalizing it again gives it back.
proof fn lemma_stable_http_url_normalizes_to_itself(u: crate::url_model::UrlView)
    requires
        crate::url_model::serialization_is_stable(u),
        u.0 == "http"@,
        u.1 == Some("127.0.0.1"@) || u.1 == Some("localhost"@),
    ensures
        normalize_developer_server_url_spec(u.4) == Ok::<Seq<char>, (DeveloperUrlRefusal, Seq<char>)>(
            u.4,
        ),
{
    reveal_strlit("http");
    let s = u.4;
    assert(s.take(4)[0] == s[0]);
    assert(s[0] == 'h');
    assert(0x21 <= (s[s.len() - 1] as u32) <= 0x7e);
    assert(trim_start_spec(s) == s);
    assert(trim_end_spec(s) == s);
}

/// Which page the shell window opens first.
pub enum InitialNavigation {
    Startup,
    DeveloperServer { url: String },
}

impl InitialNavigation {
    pub open spec fn developer_url_spec(&self) -> Option<Seq<char>> {
        match self {
            InitialNavigation::Startup => None,
            InitialNavigation::DeveloperServer { url } => Some(url@),
        }
    }

    pub fn developer_url(&self) -> (r: Option<&str>)
        ensures
            match r {
                Some(s) => self.developer_url_spec() == Some(s@),
                None => self.developer_url_spec() is None,
            },
    {
        match self {
            InitialNavigation::Startup => None,
            InitialNavigation::DeveloperServer { url } => Some(url.as_str()),
        }
    }
}

/// The page a webview opens: a page bundled with the app, or an external URL.
pub enum WebviewTarget {
    App { path: String },
    External { url: String },
}

impl WebviewTarget {
    /// The target as the webview displays it: the bundled path, or the URL's serialization.
    pub fn to_text(&self) -> (r: String)
        ensures
            r@ == match self {
                WebviewTarget::App { path } => path@,
                WebviewTarget::External { url } => url@,
            },
    {
        match self {
            WebviewTarget::App { path } => path.clone(),
            WebviewTarget::External { url } => url.clone(),
        }
    }
}

pub const STARTUP_ENTRYPOINT: &'static str = "index.html";

impl InitialNavigation {
    /// Where the window goes first: the bundled startup page, or the developer server, whose
    /// URL must parse.
    pub fn webview_url(&self) -> (r: Result<WebviewTarget, DeveloperUrlError>)
        ensures
            match self {
                InitialNavigation::Startup => r matches Ok(WebviewTarget::App { path }) && path@
                    == "index.html"@,
                InitialNavigation::DeveloperServer { url } => match url_parse(url@) {
                    Some(u) => r matches Ok(WebviewTarget::External { url: s }) && s@ == u.4,
                    None => r matches Err(e) && e.view() == (DeveloperUrlRefusal::Invalid, url@),
                },
            },
    {
        match self {
            InitialNavigation::Startup => Ok(WebviewTarget::App { path: String::from_str("index.html") }),
            InitialNavigation::DeveloperServer { url } => match UrlParts::parse(url.as_str()) {
                Some(u) => Ok(WebviewTarget::External { url: u.serialization }),
                None => Err(DeveloperUrlError::Invalid { url: url.clone() }),
            },
        }
    }
}

/// Whether this build honours a developer server URL (debug builds do, packaged ones do not).
#[derive(Clone, Copy, PartialEq, Eq, Structural)]
pub enum DeveloperServerPolicy {
    Enabled,
    Disabled,
}

/// A packaged build, or no URL, opens the startup selector; otherwise the normalized
/// developer URL is opened, and a refused URL is an error.
pub fn initial_navigation_from_developer_url(
    value: Option<&str>,
    policy: DeveloperServerPolicy,
) -> (r: Result<InitialNavigation, DeveloperUrlError>)
    ensures
        policy == DeveloperServerPolicy::Disabled ==> r matches Ok(InitialNavigation::Startup),
        policy == DeveloperServerPolicy::Enabled && value is None ==> r matches Ok(
            InitialNavigation::Startup,
        ),
        policy == DeveloperServerPolicy::Enabled && value is Some ==> match r {
            Ok(n) => n.developer_url_spec() is Some && normalize_developer_server_url_spec(
                value->0@,
            ) == Ok::<Seq<char>, (DeveloperUrlRefusal, Seq<char>)>(n.developer_url_spec()->0),
            Err(e) => normalize_developer_server_url_spec(value->0@) == Err::<
                Seq<char>,
                (DeveloperUrlRefusal, Seq<char>),
            >(e.view()),
        },
{
    if policy == DeveloperServerPolicy::Disabled {
        return Ok(InitialNavigation::Startup);
    }
    match value {
        Some(url) => match normalize_developer_server_url(url) {
            Ok(u) => Ok(InitialNavigation::DeveloperServer { url: u }),
            Err(e) => Err(e),
        },
        None => Ok(InitialNavigation::Startup),
    }
}

// ---------------------------------------------------------------- platform

/// The desktop platform the shell runs on.
#[derive(Clone, Copy, PartialEq, Eq, Structural)]
pub enum ShellPlatform {
    Macos,
    Windows,
    Other,
}

impl ShellPlatform {
    pub open spec fn runtime_name_spec(self) -> Seq<char> {
        match self {
            ShellPlatform::Macos => "macos"@,
            ShellPlatform::Windows => "windows"@,
            ShellPlatform::Other => "other"@,
        }
    }

    /// The platform name that the page runtime sees.
    pub fn runtime_name(self) -> (r: &'static str)
        ensures
            r@ == self.runtime_name_spec(),
    {
        match self {
            ShellPlatform::Macos => "macos",
            ShellPlatform::Windows => "windows",
            ShellPlatform::Other => "other",
        }
    }
}

/// Cursor handling of the shell: the native cursor backend, its capture, disabled browser
/// pointer lock and aggressive cursor locking all come together, on macOS only.
#[derive(Clone, Copy, PartialEq, Eq, Structural)]
pub struct RuntimePolicy {
    pub platform: ShellPlatform,
    pub native_cursor_backend: bool,
    pub native_cursor_capture: bool,
    pub pointer_lock_disabled: bool,
    pub aggressive_cursor_lock: bool,
}

impl RuntimePolicy {
    pub fn for_platform(platform: ShellPlatform) -> (r: Self)
        ensures
            r.platform == platform,
            r.native_cursor_backend == (platform == ShellPlatform::Macos),
            r.native_cursor_capture == (platform == ShellPlatform::Macos),
            r.pointer_lock_disabled == (platform == ShellPlatform::Macos),
            r.aggressive_cursor_lock == (platform == ShellPlatform::Macos),
    {
        let native_cursor = platform == ShellPlatform::Macos;
        RuntimePolicy {
            platform,
            native_cursor_backend: native_cursor,
            native_cursor_capture: native_cursor,
            pointer_lock_disabled: native_cursor,
            aggressive_cursor_lock: native_cursor,
        }
    }
}

pub open spec fn reveal_unsupported_message() -> Seq<char> {
    "revealing the shell log directory is not supported on this desktop platform"@
}

/// The program that opens a folder in the platform's file manager.
pub fn log_reveal_program(platform: ShellPlatform) -> (r: Result<&'static str, String>)
    ensures
        platform == ShellPlatform::Macos ==> (r matches Ok(p) && p@ == "open"@),
        platform == ShellPlatform::Windows ==> (r matches Ok(p) && p@ == "explorer.exe"@),
        platform == ShellPlatform::Other ==> (r matches Err(e) && e@ == reveal_unsupported_message()),
{
    match platform {
        ShellPlatform::Macos => Ok("open"),
        ShellPlatform::Windows => Ok("explorer.exe"),
        ShellPlatform::Other => Err(
            String::from_str(
                "revealing the shell log directory is not supported on this desktop platform",
            ),
        ),
    }
}

pub open spec fn load_timeout_message() -> Seq<char> {
    "The selected release channel did not finish loading. Check network connectivity or try another channel."@
}

pub open spec fn generic_failure_message() -> Seq<char> {
    "The desktop shell could not open the selected release channel."@
}

/// The message the startup screen shows for a failure code.
pub fn startup_failure_message(code: &str) -> (r: &'static str)
    ensures
        r@ == if code@ == "load-timeout"@ {
            load_timeout_message()
        } else {
            generic_failure_message()
        },
{
    if str_equal(code, "load-timeout") {
        "The selected release channel did not finish loading. Check network connectivity or try another channel."
    } else {
        "The desktop shell could not open the selected release channel."
    }
}

/// The startup screen's page for a failed release channel.
pub const STARTUP_ERROR_URL: &'static str = "tauri://localhost/index.html";

/// The UTF-8 bytes of `c`.
pub open spec fn utf8_bytes(c: char) -> Seq<u8> {
    let n = c as u32;
    if n < 0x80 {
        seq![n as u8]
    } else if n < 0x800 {
        seq![(0xc0 + n / 64) as u8, (0x80 + n % 64) as u8]
    } else if n < 0x10000 {
        seq![(0xe0 + n / 4096) as u8, (0x80 + (n / 64) % 64) as u8, (0x80 + n % 64) as u8]
    } else {
        seq![
            (0xf0 + n / 262144) as u8,
            (0x80 + (n / 4096) % 64) as u8,
            (0x80 + (n / 64) % 64) as u8,
            (0x80 + n % 64) as u8,
        ]
    }
}

/// The upper-case hexadecimal digit of `n` (below 16).
pub open spec fn upper_hex_digit(n: u8) -> char {
    if n < 10 {
        (48 + n) as char
    } else {
        (55 + n) as char
    }
}

/// A byte that form encoding writes as it is: an ASCII letter or digit, `*`, `-`, `.` or `_`.
pub open spec fn form_byte_unchanged(b: u8) -> bool {
    b == 0x2a || b == 0x2d || b == 0x2e || (0x30 <= b && b <= 0x39) || (0x41 <= b && b <= 0x5a)
        || b == 0x5f || (0x61 <= b && b <= 0x7a)
}

/// How form encoding writes a byte: unchanged bytes as they are, a space as `+`, every other
/// byte as `%` and two upper-case hex digits.
pub open spec fn form_byte(b: u8) -> Seq<char> {
    if form_byte_unchanged(b) {
        seq![b as char]
    } else if b == 0x20 {
        seq!['+']
    } else {
        seq!['%', upper_hex_digit(b / 16), upper_hex_digit(b % 16)]
    }
}

/// The form encoding of the bytes `bs`.
pub open spec fn form_bytes(bs: Seq<u8>) -> Seq<char>
    decreases bs.len(),
{
    if bs.len() == 0 {
        Seq::empty()
    } else {
        form_bytes(bs.drop_last()) + form_byte(bs.last())
    }
}

/// The form encoding of the UTF-8 bytes of `s`.
pub open spec fn form_text(s: Seq<char>) -> Seq<char>
    decreases s.len(),
{
    if s.len() == 0 {
        Seq::empty()
    } else {
        form_text(s.drop_last()) + form_bytes(utf8_bytes(s.last()))
    }
}

/// The `application/x-www-form-urlencoded` text of `pairs` as `form_urlencoded` writes it:
/// each name and value encoded, joined by `=`, the pairs joined by `&`.
pub open spec fn form_encoded(pairs: Seq<(Seq<char>, Seq<char>)>) -> Seq<char>
    decreases pairs.len(),
{
    if pairs.len() == 0 {
        Seq::empty()
    } else {
        let init = form_encoded(pairs.drop_last());
        let p = pairs.last();
        (if pairs.len() > 1 {
            init + seq!['&']
        } else {
            init
        }) + form_text(p.0) + seq!['='] + form_text(p.1)
    }
}

pub open spec fn pairs_view(pairs: Seq<(String, String)>) -> Seq<(Seq<char>, Seq<char>)> {
    pairs.map_values(|p: (String, String)| (p.0@, p.1@))
}

/// `url::form_urlencoded::Serializer` on a new string, extended with `pairs` and finished.
/// Claimed: the text is `form_encoded` of the pairs (`byte_serialize` of each name and value,
/// `=` between them, `&` before every pair but the first, since each pair writes at least `=`).
#[verifier::external_body]
fn form_encode_pairs(pairs: &Vec<(String, String)>) -> (r: String)
    ensures
        r@ == form_encoded(pairs_view(pairs@)),
{
    url::form_urlencoded::Serializer::new(String::new()).extend_pairs(pairs.iter()).finish()
}

/// The query pairs of a startup failure: its code and message, and the redacted URL that
/// failed where there is one.
pub open spec fn startup_failure_pairs(code: Seq<char>, message: Seq<char>, url: Option<Seq<char>>) -> Seq<(Seq<char>, Seq<char>)> {
    let base = seq![("failure"@, code), ("message"@, message)];
    match url {
        Some(u) => base.push(("url"@, redact_url_for_log_spec(u))),
        None => base,
    }
}

/// The startup page URL that reports a failure. The page URL carries no query, so the
/// failure's pairs, form-encoded, make up the whole query after `?`.
pub fn startup_failure_url(code: &str, message: &str, url: Option<&str>) -> (r: String)
    ensures
        r@ == STARTUP_ERROR_URL@ + "?"@ + form_encoded(
            startup_failure_pairs(
                code@,
                message@,
                match url {
                    Some(u) => Some(u@),
                    None => None,
                },
            ),
        ),
{
    let mut pairs: Vec<(String, String)> = Vec::new();
    pairs.push((String::from_str("failure"), String::from_str(code)));
    pairs.push((String::from_str("message"), String::from_str(message)));
    match url {
        Some(u) => {
            pairs.push((String::from_str("url"), redact_url_for_log(u)));
        },
        None => {},
    }
    proof {
        let ghost expected = startup_failure_pairs(
            code@,
            message@,
            match url {
                Some(u) => Some(u@),
                None => None,
            },
        );
        assert(pairs_view(pairs@) =~= expected);
    }
    let query = form_encode_pairs(&pairs);
    let mut out = String::from_str(STARTUP_ERROR_URL);
    out.append("?");
    out.append(query.as_str());
    out
}

/// A character that form encoding can write: an ASCII letter or digit, `*`, `-`, `.`, `_`, `+`
/// or `%`.
pub open spec fn form_output_char(c: char) -> bool {
    let n = c as u32;
    (0x30 <= n && n <= 0x39) || (0x41 <= n && n <= 0x5a) || (0x61 <= n && n <= 0x7a) || n == 0x2a
        || n == 0x2d || n == 0x2e || n == 0x5f || n == 0x2b || n == 0x25
}

pub open spec fn all_form_output(s: Seq<char>) -> bool {
    forall|i: int| 0 <= i < s.len() ==> form_output_char(#[trigger] s[i])
}

proof fn lemma_form_byte_output(b: u8)
    ensures
        all_form_output(form_byte(b)),
{
    if form_byte_unchanged(b) {
        assert((b as char) as u32 == b);
    } else if b != 0x20 {
        let hi = b / 16;
        let lo = b % 16;
        assert(hi < 16 && lo < 16);
        assert(upper_hex_digit(hi) as u32 == if hi < 10 { 48 + hi } else { 55 + hi });
        assert(upper_hex_digit(lo) as u32 == if lo < 10 { 48 + lo } else { 55 + lo });
        assert(form_byte(b) =~= seq!['%', upper_hex_digit(hi), upper_hex_digit(lo)]);
    }
}

proof fn lemma_form_bytes_output(bs: Seq<u8>)
    ensures
        all_form_output(form_bytes(bs)),
    decreases bs.len(),
{
    if bs.len() > 0 {
        lemma_form_bytes_output(bs.drop_last());
        lemma_form_byte_output(bs.last());
        let a = form_bytes(bs.drop_last());
        let b = form_byte(bs.last());
        assert forall|i: int| 0 <= i < (a + b).len() implies form_output_char(#[trigger] (a + b)[i]) by {
            if i < a.len() {
                assert((a + b)[i] == a[i]);
            } else {
                assert((a + b)[i] == b[i - a.len()]);
            }
        }
    }
}

proof fn lemma_form_text_output(s: Seq<char>)
    ensures
        all_form_output(form_text(s)),
    decreases s.len(),
{
    if s.len() > 0 {
        lemma_form_text_output(s.drop_last());
        lemma_form_bytes_output(utf8_bytes(s.last()));
        let a = form_text(s.drop_last());
        let b = form_bytes(utf8_bytes(s.last()));
        assert forall|i: int| 0 <= i < (a + b).len() implies form_output_char(#[trigger] (a + b)[i]) by {
            if i < a.len() {
                assert((a + b)[i] == a[i]);
            } else {
                assert((a + b)[i] == b[i - a.len()]);
            }
        }
    }
}

proof fn lemma_form_text_of_lower_word(s: Seq<char>)
    requires
        forall|i: int| 0 <= i < s.len() ==> 'a' <= #[trigger] s[i] && s[i] <= 'z',
    ensures
        form_text(s) == s,
    decreases s.len(),
{
    if s.len() > 0 {
        lemma_form_text_of_lower_word(s.drop_last());
        let c = s.last();
        assert('a' <= c && c <= 'z');
        let n = c as u32;
        assert(97 <= n <= 122);
        let b = n as u8;
        assert(b == n);
        assert(form_byte_unchanged(b));
        assert((b as char) == c);
        assert(utf8_bytes(c) =~= seq![b]);
        assert(seq![b].drop_last() =~= Seq::<u8>::empty());
        assert(seq![b].last() == b);
        assert(form_bytes(Seq::<u8>::empty()) =~= Seq::<char>::empty());
        assert(form_bytes(seq![b]) == form_bytes(Seq::<u8>::empty()) + form_byte(b));
        assert(form_bytes(seq![b]) =~= form_byte(b));
        assert(form_byte(b) =~= seq![c]);
        assert(s =~= s.drop_last() + seq![c]);
    }
}

/// The failure page's query is exactly its pairs: `failure=` and the encoded code, `&message=`
/// and the encoded message, and, where a URL failed, `&url=` and its encoded redacted form. No
/// encoded text holds `&`, `=`, `?` or `#`, so nothing of the failed URL's own query, or of the
/// message, can add a pair, a second query or a fragment.
pub proof fn law_failure_query_is_its_pairs(code: Seq<char>, message: Seq<char>, url: Option<Seq<char>>)
    ensures
        form_encoded(startup_failure_pairs(code, message, url)) == "failure="@ + form_text(code)
            + "&message="@ + form_text(message) + match url {
            Some(u) => "&url="@ + form_text(redact_url_for_log_spec(u)),
            None => Seq::empty(),
        },
        all_form_output(form_text(code)),
        all_form_output(form_text(message)),
        url matches Some(u) ==> all_form_output(form_text(redact_url_for_log_spec(u))),
{
    lemma_form_text_output(code);
    lemma_form_text_output(message);
    lemma_failure_pairs_text(code, message, url);
    match url {
        Some(u) => lemma_form_text_output(redact_url_for_log_spec(u)),
        None => {},
    }
}

proof fn lemma_form_encoded_push(pairs: Seq<(Seq<char>, Seq<char>)>, p: (Seq<char>, Seq<char>))
    ensures
        form_encoded(pairs.push(p)) == (if pairs.len() > 0 {
            form_encoded(pairs) + seq!['&']
        } else {
            Seq::empty()
        }) + form_text(p.0) + seq!['='] + form_text(p.1),
{
    assert(pairs.push(p).drop_last() =~= pairs);
    if pairs.len() == 0 {
        assert(form_encoded(pairs) =~= Seq::<char>::empty());
    }
}

#[verifier::rlimit(40)]
proof fn lemma_failure_pairs_text(code: Seq<char>, message: Seq<char>, url: Option<Seq<char>>)
    ensures
        form_encoded(startup_failure_pairs(code, message, url)) == "failure="@ + form_text(code)
            + "&message="@ + form_text(message) + match url {
            Some(u) => "&url="@ + form_text(redact_url_for_log_spec(u)),
            None => Seq::empty(),
        },
{
    reveal_strlit("failure=");
    reveal_strlit("&message=");
    reveal_strlit("&url=");
    reveal_strlit("failure");
    reveal_strlit("message");
    reveal_strlit("url");
    let f = "failure"@;
    let m = "message"@;
    let l = "url"@;
    assert(f =~= seq!['f', 'a', 'i', 'l', 'u', 'r', 'e']);
    assert(m =~= seq!['m', 'e', 's', 's', 'a', 'g', 'e']);
    assert(l =~= seq!['u', 'r', 'l']);
    lemma_form_text_of_lower_word(f);
    lemma_form_text_of_lower_word(m);
    lemma_form_text_of_lower_word(l);
    let empty = Seq::<(Seq<char>, Seq<char>)>::empty();
    let one = empty.push((f, code));
    let two = one.push((m, message));
    lemma_form_encoded_push(empty, (f, code));
    lemma_form_encoded_push(one, (m, message));
    assert(two =~= seq![(f, code), (m, message)]);
    let t1 = f + seq!['='] + form_text(code);
    assert(form_encoded(one) =~= t1);
    assert("failure="@ + form_text(code) =~= t1);
    let t2 = t1 + seq!['&'] + m + seq!['='] + form_text(message);
    assert(form_encoded(two) =~= t2);
    assert("failure="@ + form_text(code) + "&message="@ + form_text(message) =~= t2);
    match url {
        Some(u) => {
            let r = redact_url_for_log_spec(u);
            lemma_form_encoded_push(two, (l, r));
            assert(startup_failure_pairs(code, message, url) =~= two.push((l, r)));
            assert(form_encoded(two.push((l, r))) =~= t2 + seq!['&'] + l + seq!['='] + form_text(r));
            assert("&url="@ =~= seq!['&'] + l + seq!['=']);
            assert(t2 + ("&url="@ + form_text(r)) =~= t2 + seq!['&'] + l + seq!['='] + form_text(r));
        },
        None => {
            assert(startup_failure_pairs(code, message, url) =~= two);
            assert(t2 + Seq::<char>::empty() =~= t2);
        },
    }
}

/// The values an environment flag accepts as on.
pub open spec fn flag_text_enabled(t: Seq<char>) -> bool {
    ||| t == "1"@
    ||| t == "true"@
    ||| t == "TRUE"@
    ||| t == "yes"@
    ||| t == "YES"@
    ||| t == "on"@
    ||| t == "ON"@
}

/// Whether an environment flag's value (absent when unset) switches the flag on.
pub fn flag_value_enabled(value: Option<&str>) -> (r: bool)
    ensures
        r == match value {
            Some(v) => flag_text_enabled(trim_spec(v@)),
            None => false,
        },
{
    match value {
        None => false,
        Some(v) => {
            let (start, end) = trim_bounds(v);
            let t = v.substring_char(start, end);
            str_equal(t, "1") || str_equal(t, "true") || str_equal(t, "TRUE") || str_equal(
                t,
                "yes",
            ) || str_equal(t, "YES") || str_equal(t, "on") || str_equal(t, "ON")
        },
    }
}

} // verus!
