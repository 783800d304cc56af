//! The client's side of a request: what it sends along with it (the session
//! variables, the trace identifier), how it names the repository, the
//! port-forwarding specifications it reads, and the patch it sends.
use vstd::prelude::*;
use crate::paths::{lemma_first_index_of_bounds, set_extension_to, with_extension, first_index_of, last_index_of, lemma_first_index_of, lemma_last_index_of, lemma_last_index_of_bounds};
use crate::text::{str_equals, 
    lemma_decimal_digits, lemma_parse_decimal, chars_of, decimal, decimal_u64, hex, hex_u128, is_blank, blank, parse_unsigned, parse_unsigned_u64,
    push_chars, push_str, string_of_range, views,
};

verus! {

/// Whether a `cmd` request also brings the local changes to the server.
#[derive(Clone, Copy, Debug, PartialEq, Eq, Structural)]
pub enum CodeSync {
    Enabled,
    Disabled,
}

impl CodeSync {
    /// The action (login name) the request uses.
    pub fn action(self) -> (r: &'static str)
        ensures
            self is Enabled ==> r@ == "cmd-sync"@,
            self is Disabled ==> r@ == "cmd"@,
    {
        match self {
            CodeSync::Enabled => "cmd-sync",
            CodeSync::Disabled => "cmd",
        }
    }
}

/// The values of `WH_DEBUG` that turn tracing on.
pub open spec fn is_debug_value(v: Seq<char>) -> bool {
    v == "1"@ || v == "true"@ || v == "TRUE"@ || v == "True"@
}

/// Whether tracing is on, given the value of `WH_DEBUG`.
pub fn debug_enabled(wh_debug: Option<&str>) -> (r: bool)
    ensures
        r == (wh_debug matches Some(v) && is_debug_value(v@)),
{
    match wh_debug {
        Some(v) => crate::text::str_equals(v, "1") || crate::text::str_equals(v, "true")
            || crate::text::str_equals(v, "TRUE") || crate::text::str_equals(v, "True"),
        None => false,
    }
}

/// The trace identifier of a request: none when tracing is off; the one in
/// `HORSE_TRACE_ID` when that is not blank; else `<action>-<ms>-<pid>-<seq>`
/// with the three numbers in lower-case hexadecimal.
pub open spec fn trace_id_for(
    action: Seq<char>,
    debug: bool,
    env_trace: Option<Seq<char>>,
    now_ms: u128,
    pid: u32,
    seq: u64,
) -> Seq<char> {
    if !debug {
        seq![]
    } else if env_trace matches Some(t) && !is_blank(t) {
        env_trace->0
    } else {
        action + "-"@ + hex(now_ms as nat) + "-"@ + hex(pid as nat) + "-"@ + hex(seq as nat)
    }
}

/// The trace identifier of a request (see [`trace_id_for`]); the caller
/// supplies the clock, the process identifier and a sequence number.
pub fn new_trace_id(action: &str, debug: bool, env_trace: Option<&str>, now_ms: u128, pid: u32, seq: u64) -> (r: String)
    ensures
        r@ == trace_id_for(
            action@,
            debug,
            match env_trace {
                Some(t) => Some(t@),
                None => None,
            },
            now_ms,
            pid,
            seq,
        ),
{
    if !debug {
        return String::new();
    }
    match env_trace {
        Some(t) => if !blank(t) {
            return String::from_str(t);
        },
        None => {},
    }
    let mut r = String::from_str(action);
    push_str(&mut r, "-");
    push_chars(&mut r, &hex_u128(now_ms));
    push_str(&mut r, "-");
    push_chars(&mut r, &hex_u128(pid as u128));
    push_str(&mut r, "-");
    push_chars(&mut r, &hex_u128(seq as u128));
    r
}

/// Whether a stage of a request is logged: tracing is on and the request has
/// a trace identifier.
pub fn should_log_stage(debug: bool, trace_id: &str) -> (r: bool)
    ensures
        r == (debug && trace_id@.len() > 0),
{
    debug && !trace_id.is_empty()
}

/// A `NAME=value` setting split at its first `=`; one without `=` sets the
/// whole text to the empty value.
pub open spec fn env_pair(kv: Seq<char>) -> (Seq<char>, Seq<char>) {
    let k = first_index_of(kv, '=');
    if k < 0 {
        (kv, seq![])
    } else {
        (kv.take(k), kv.skip(k + 1))
    }
}

/// Position of the first `c` in `v`, or its length.
fn find_first(v: &Vec<char>, c: char) -> (k: usize)
    ensures
        k <= v@.len(),
        k < v@.len() ==> first_index_of(v@, c) == k,
        k == v@.len() ==> first_index_of(v@, c) == -1,
{
    let mut k: usize = 0;
    while k < v.len() && v[k] != c
        invariant
            k <= v@.len(),
            forall|j: int| 0 <= j < k ==> v@[j] != c,
        decreases v@.len() - k,
    {
        k = k + 1;
    }
    proof {
        if k < v.len() {
            lemma_first_index_of(v@, c, k as int);
        } else {
            lemma_first_index_of(v@, c, -1);
        }
    }
    k
}

/// A `NAME=value` setting split at its first `=` (see [`env_pair`]).
pub fn split_env_pair(kv: &str) -> (r: (String, String))
    ensures
        (r.0@, r.1@) == env_pair(kv@),
{
    let v = chars_of(kv);
    let k = find_first(&v, '=');
    if k == v.len() {
        (String::from_str(kv), String::new())
    } else {
        (string_of_range(&v, 0, k), string_of_range(&v, k + 1, v.len()))
    }
}

/// The views of name/value pairs.
pub open spec fn pair_views(v: Seq<(String, String)>) -> Seq<(Seq<char>, Seq<char>)> {
    v.map_values(|p: (String, String)| (p.0@, p.1@))
}

/// The variables a request sets on its session: the trace identifier when
/// there is one, the repository and the branch, then the user's own settings.
pub open spec fn request_env(
    trace_id: Seq<char>,
    repo: Seq<char>,
    branch: Seq<char>,
    extra: Seq<Seq<char>>,
) -> Seq<(Seq<char>, Seq<char>)> {
    (if trace_id.len() > 0 {
        seq![("HORSE_TRACE_ID"@, trace_id)]
    } else {
        seq![]
    }) + seq![("REPO"@, repo), ("BRANCH"@, branch)] + extra.map_values(|kv: Seq<char>| env_pair(kv))
}

/// The variables a request sets on its session (see [`request_env`]).
pub fn session_env(trace_id: &str, repo: &str, branch: &str, extra: &Vec<String>) -> (r: Vec<(String, String)>)
    ensures
        pair_views(r@) == request_env(trace_id@, repo@, branch@, views(extra@)),
{
    let mut r: Vec<(String, String)> = Vec::new();
    if !trace_id.is_empty() {
        r.push((String::from_str("HORSE_TRACE_ID"), String::from_str(trace_id)));
    }
    r.push((String::from_str("REPO"), String::from_str(repo)));
    r.push((String::from_str("BRANCH"), String::from_str(branch)));
    let ghost head = pair_views(r@);
    assert(head =~= (if trace_id@.len() > 0 {
        seq![("HORSE_TRACE_ID"@, trace_id@)]
    } else {
        seq![]
    }) + seq![("REPO"@, repo@), ("BRANCH"@, branch@)]);
    let mut i: usize = 0;
    while i < extra.len()
        invariant
            i <= extra@.len(),
            pair_views(r@) == head + views(extra@).take(i as int).map_values(|kv: Seq<char>| env_pair(kv)),
        decreases extra@.len() - i,
    {
        let ghost before = r@;
        let p = split_env_pair(extra[i].as_str());
        r.push(p);
        assert(pair_views(r@) =~= pair_views(before).push(env_pair(extra@[i as int]@)));
        i = i + 1;
        assert(views(extra@).take(i as int).map_values(|kv: Seq<char>| env_pair(kv)) =~= views(extra@).take(
            i - 1,
        ).map_values(|kv: Seq<char>| env_pair(kv)).push(env_pair(extra@[i - 1]@)));
    }
    assert(views(extra@).take(extra@.len() as int) =~= views(extra@));
    r
}

/// The variables a `cmd` request sets before the others: the commit it runs
/// on, its message when it has one, the shell asked for, and `PTY=1` when a
/// terminal is asked for.
pub open spec fn commit_vars(
    commit: Seq<char>,
    message: Option<Seq<char>>,
    shell: Option<Seq<char>>,
    pty: bool,
) -> Seq<(Seq<char>, Seq<char>)> {
    seq![("GIT_COMMIT"@, commit)] + (match message {
        Some(m) => seq![("GIT_MESSAGE"@, m)],
        None => seq![],
    }) + (match shell {
        Some(sh) => seq![("SHELL"@, sh)],
        None => seq![],
    }) + (if pty {
        seq![("PTY"@, "1"@)]
    } else {
        seq![]
    })
}

/// The variables a `cmd` request sets before the others (see
/// [`commit_vars`]).
pub fn commit_env(commit: &str, message: Option<&str>, shell: Option<&str>, pty: bool) -> (r: Vec<(String, String)>)
    ensures
        pair_views(r@) == commit_vars(
            commit@,
            match message {
                Some(m) => Some(m@),
                None => None,
            },
            match shell {
                Some(sh) => Some(sh@),
                None => None,
            },
            pty,
        ),
{
    let mut r: Vec<(String, String)> = Vec::new();
    r.push((String::from_str("GIT_COMMIT"), String::from_str(commit)));
    match message {
        Some(m) => r.push((String::from_str("GIT_MESSAGE"), String::from_str(m))),
        None => {},
    }
    match shell {
        Some(sh) => r.push((String::from_str("SHELL"), String::from_str(sh))),
        None => {},
    }
    if pty {
        r.push((String::from_str("PTY"), String::from_str("1")));
    }
    assert(pair_views(r@) =~= commit_vars(
        commit@,
        match message {
            Some(m) => Some(m@),
            None => None,
        },
        match shell {
            Some(sh) => Some(sh@),
            None => None,
        },
        pty,
    ));
    r
}

/// The shell a request asks for: the one given with `--shell`, else the one in
/// `HORSED_SHELL`, else none (the server's default).
pub fn chosen_shell(flag: Option<String>, env_shell: Option<String>) -> (r: Option<String>)
    ensures
        r == (match flag {
            Some(s) => Some(s),
            None => env_shell,
        }),
{
    match flag {
        Some(s) => Some(s),
        None => env_shell,
    }
}

/// The server port a proxy forwarding uses, from a random draw: a port from
/// 3000 up to, but not including, 10000 (the draw taken modulo 7000).
pub fn proxy_port(draw: u64) -> (r: u16)
    ensures
        3000 <= r < 10000,
        r == 3000 + draw % 7000,
{
    let off = draw % 7000;
    (3000 + off) as u16
}

/// The branch a request names: the current one, `master` when detached.
pub fn branch_or_master(shorthand: Option<String>) -> (r: String)
    ensures
        shorthand matches Some(b) ==> r@ == b@,
        shorthand is None ==> r@ == "master"@,
{
    match shorthand {
        Some(b) => b,
        None => String::from_str("master"),
    }
}

/// The parts of a URL that the client reads.
#[derive(Clone, Debug)]
pub struct UrlParts {
    pub scheme: String,
    /// The host, as `Url::host` displays it.
    pub host: Option<String>,
    /// The port, when it is not the scheme's default.
    pub port: Option<u16>,
    pub path: String,
}

/// The mathematical content of [`UrlParts`].
pub struct UrlView {
    pub scheme: Seq<char>,
    pub host: Option<Seq<char>>,
    pub port: Option<u16>,
    pub path: Seq<char>,
}

impl View for UrlParts {
    type V = UrlView;

    open spec fn view(&self) -> UrlView {
        UrlView {
            scheme: self.scheme@,
            host: match self.host {
                Some(h) => Some(h@),
                None => None,
            },
            port: self.port,
            path: self.path@,
        }
    }
}

/// What `url::Url::parse` reads in a string: none when it is no URL.
pub uninterp spec fn url_parts(s: Seq<char>) -> Option<UrlView>;

/// `url::Url::parse`, with the scheme, host, port and path of the result.
/// Nothing is claimed of them but that they are the function of the string
/// named [`url_parts`].
#[verifier::external_body]
fn parse_url(s: &str) -> (r: Option<UrlParts>)
    ensures
        r matches Some(u) ==> url_parts(s@) == Some(u@),
        r is None ==> url_parts(s@) is None,
{
    match url::Url::parse(s) {
        Ok(u) => Some(
            UrlParts {
                scheme: u.scheme().to_string(),
                host: u.host().map(|h| h.to_string()),
                port: u.port(),
                path: u.path().to_string(),
            },
        ),
        Err(_) => None,
    }
}

/// The repository a URL names: its path without the leading `/`.
pub open spec fn repo_name_in(url: Seq<char>) -> Option<Seq<char>> {
    match url_parts(url) {
        Some(u) => if u.path.len() > 0 && u.path[0] == '/' {
            Some(u.path.skip(1))
        } else {
            None
        },
        None => None,
    }
}

/// The repository a URL names (see [`repo_name_in`]).
pub fn extract_repo_name(url: &str) -> (r: Option<String>)
    ensures
        r matches Some(n) ==> repo_name_in(url@) == Some(n@),
        r is None ==> repo_name_in(url@) is None,
{
    match parse_url(url) {
        Some(u) => {
            let v = chars_of(u.path.as_str());
            if v.len() > 0 && v[0] == '/' {
                Some(string_of_range(&v, 1, v.len()))
            } else {
                None
            }
        },
        None => None,
    }
}

/// The port `url` gives a scheme when a URL names none (`url`'s
/// `default_port`): 80 for `http` and `ws`, 443 for `https` and `wss`, 21 for
/// `ftp`, none for the others.
pub open spec fn known_default_port(scheme: Seq<char>) -> Option<u16> {
    if scheme == "http"@ || scheme == "ws"@ {
        Some(80u16)
    } else if scheme == "https"@ || scheme == "wss"@ {
        Some(443u16)
    } else if scheme == "ftp"@ {
        Some(21u16)
    } else {
        None
    }
}

/// The server a repository URL names: its host and port; the port is the
/// URL's own, else its scheme's default, else 2222. None when the string is
/// no URL or names no host.
pub open spec fn server_of_url(url: Seq<char>) -> Option<(Seq<char>, u16)> {
    match url_parts(url) {
        Some(u) => match u.host {
            Some(h) => Some((h, match u.port {
                Some(p) => p,
                None => match known_default_port(u.scheme) {
                    Some(p) => p,
                    None => 2222u16,
                },
            })),
            None => None,
        },
        None => None,
    }
}

/// The server a repository URL names (see [`server_of_url`]); finding its
/// address is left to the caller.
pub fn server_address(url: &str) -> (r: Option<(String, u16)>)
    ensures
        r matches Some(a) ==> server_of_url(url@) == Some((a.0@, a.1)),
        r is None ==> server_of_url(url@) is None,
{
    match parse_url(url) {
        Some(u) => match u.host {
            Some(h) => {
                let port = match u.port {
                    Some(p) => p,
                    None => {
                        let s = u.scheme.as_str();
                        if str_equals(s, "http") || str_equals(s, "ws") {
                            80u16
                        } else if str_equals(s, "https") || str_equals(s, "wss") {
                            443u16
                        } else if str_equals(s, "ftp") {
                            21u16
                        } else {
                            2222u16
                        }
                    },
                };
                Some((h, port))
            },
            None => None,
        },
        None => None,
    }
}

/// The repository a request names: the one given by name, else the one in
/// the URL given, else none (the caller then asks git for the `horsed`
/// remote).
pub fn find_repo_name(repo_name: Option<String>, repo_url: Option<String>) -> (r: Option<String>)
    ensures
        repo_name matches Some(n) ==> (r matches Some(x) && x@ == n@),
        repo_name is None && repo_url is None ==> r is None,
        repo_name is None ==> (repo_url matches Some(u) ==> match repo_name_in(u@) {
            Some(n) => r matches Some(x) && x@ == n,
            None => r is None,
        }),
{
    match repo_name {
        Some(n) => Some(n),
        None => match repo_url {
            Some(u) => extract_repo_name(u.as_str()),
            None => None,
        },
    }
}

/// Where the proxy of a request comes from.
#[derive(Clone, Debug)]
pub enum ProxySource {
    /// No proxy is asked for.
    Off,
    /// A proxy is asked for but none is configured.
    Missing,
    /// This proxy URL.
    Use(String),
}

/// The proxy of a request: `--all-proxy` when given; else, when proxying is
/// enabled, `ALL_PROXY` (or `all_proxy`) from the environment.
pub fn proxy_source(all_proxy: Option<String>, enable_proxy: bool, env_proxy: Option<String>) -> (r: ProxySource)
    ensures
        all_proxy matches Some(p) ==> (r matches ProxySource::Use(x) && x@ == p@),
        all_proxy is None && !enable_proxy ==> r is Off,
        all_proxy is None && enable_proxy ==> (match env_proxy {
            Some(p) => r matches ProxySource::Use(x) && x@ == p@,
            None => r is Missing,
        }),
{
    match all_proxy {
        Some(p) => ProxySource::Use(p),
        None => if enable_proxy {
            match env_proxy {
                Some(p) => ProxySource::Use(p),
                None => ProxySource::Missing,
            }
        } else {
            ProxySource::Off
        },
    }
}

/// Why a proxy URL cannot be forwarded.
#[derive(Clone, Debug)]
pub enum ProxyUrlError {
    /// It is no URL.
    NotAUrl,
    /// It names no host.
    NoHost,
    /// It names no port (or the scheme's default one).
    NoPort,
}

/// Where a proxy URL points: its scheme, host and port.
pub fn proxy_target(proxy: &str) -> (r: Result<(String, String, u16), ProxyUrlError>)
    ensures
        url_parts(proxy@) is None ==> r matches Err(ProxyUrlError::NotAUrl),
        url_parts(proxy@) matches Some(u) ==> (match (u.host, u.port) {
            (Some(h), Some(p)) => r matches Ok((s, x, q)) && s@ == u.scheme && x@ == h && q == p,
            (None, _) => r matches Err(ProxyUrlError::NoHost),
            (Some(_), None) => r matches Err(ProxyUrlError::NoPort),
        }),
{
    match parse_url(proxy) {
        None => Err(ProxyUrlError::NotAUrl),
        Some(u) => match u.host {
            None => Err(ProxyUrlError::NoHost),
            Some(h) => match u.port {
                None => Err(ProxyUrlError::NoPort),
                Some(p) => Ok((u.scheme, h, p)),
            },
        },
    }
}

/// The remote forwarding that carries the proxy: `<port>:<host>:<proxy port>`.
pub fn proxy_forward(port: u16, host: &str, proxy_port: u16) -> (r: String)
    ensures
        r@ == decimal(port as nat) + ":"@ + host@ + ":"@ + decimal(proxy_port as nat),
{
    let mut r = String::new();
    push_chars(&mut r, &decimal_u64(port as u64));
    push_str(&mut r, ":");
    push_str(&mut r, host);
    push_str(&mut r, ":");
    push_chars(&mut r, &decimal_u64(proxy_port as u64));
    r
}

/// The settings that point a session at the forwarded proxy on `port`.
pub open spec fn proxy_settings(scheme: Seq<char>, port: u16) -> Seq<Seq<char>> {
    seq![
        "ALL_PROXY="@ + scheme + "://127.0.0.1:"@ + decimal(port as nat),
        "HTTP_PROXY=http://127.0.0.1:"@ + decimal(port as nat),
        "HTTPS_PROXY=http://127.0.0.1:"@ + decimal(port as nat),
    ]
}

/// The user's settings followed by those of the proxy (see [`proxy_settings`]).
pub fn with_proxy_env(env: Vec<String>, scheme: &str, port: u16) -> (r: Vec<String>)
    ensures
        views(r@) == views(env@) + proxy_settings(scheme@, port),
{
    let ghost start = views(env@);
    let mut r = env;
    let p = decimal_u64(port as u64);
    let mut a = String::new();
    push_str(&mut a, "ALL_PROXY=");
    push_str(&mut a, scheme);
    push_str(&mut a, "://127.0.0.1:");
    push_chars(&mut a, &p);
    let mut h = String::new();
    push_str(&mut h, "HTTP_PROXY=http://127.0.0.1:");
    push_chars(&mut h, &p);
    let mut s = String::new();
    push_str(&mut s, "HTTPS_PROXY=http://127.0.0.1:");
    push_chars(&mut s, &p);
    let ghost r0 = r@;
    r.push(a);
    let ghost r1 = r@;
    r.push(h);
    let ghost r2 = r@;
    r.push(s);
    assert(views(r1) =~= views(r0).push(r1.last()@));
    assert(views(r2) =~= views(r1).push(r2.last()@));
    assert(views(r@) =~= views(r2).push(r@.last()@));
    assert(views(r@) =~= start + proxy_settings(scheme@, port));
    r
}

/// The pieces of `s` between the `c`s (`str::split`).
pub open spec fn split_on(s: Seq<char>, c: char) -> Seq<Seq<char>>
    decreases s.len(),
{
    let k = last_index_of(s, c);
    if k < 0 {
        seq![s]
    } else {
        proof {
            lemma_last_index_of_bounds(s, c);
        }
        split_on(s.take(k), c).push(s.skip(k + 1))
    }
}

/// The pieces of `s` between the `c`s (see [`split_on`]).
pub fn split_by(s: &str, c: char) -> (r: Vec<String>)
    ensures
        views(r@) == split_on(s@, c),
{
    let v = chars_of(s);
    let mut parts: Vec<String> = Vec::new();
    let mut j: usize = 0;
    let mut i: usize = 0;
    while i < v.len()
        invariant
            v@ == s@,
            j <= i <= v@.len(),
            j == 0 ==> views(parts@) == Seq::<Seq<char>>::empty(),
            j > 0 ==> views(parts@) == split_on(v@.take(j - 1), c) && v@[j - 1] == c,
            forall|k: int| j <= k < i ==> v@[k] != c,
        decreases v@.len() - i,
    {
        if v[i] == c {
            let piece = string_of_range(&v, j, i);
            proof {
                let t = v@.take(i as int);
                assert forall|k: int| j - 1 < k < t.len() implies t[k] != c by {
                    assert(t[k] == v@[k]);
                }
                if j > 0 {
                    assert(t[j - 1] == v@[j - 1]);
                }
                lemma_last_index_of(t, c, j - 1);
                assert(t.skip(j as int) =~= v@.subrange(j as int, i as int));
                if j > 0 {
                    assert(t.take(j - 1) =~= v@.take(j - 1));
                }
            }
            let ghost before = parts@;
            parts.push(piece);
            assert(views(parts@) =~= views(before).push(v@.subrange(j as int, i as int)));
            j = i + 1;
        }
        i = i + 1;
    }
    let last = string_of_range(&v, j, v.len());
    proof {
        assert forall|k: int| j - 1 < k < v@.len() implies v@[k] != c by {}
        lemma_last_index_of(v@, c, j - 1);
        assert(v@.skip(j as int) =~= v@.subrange(j as int, v@.len() as int));
    }
    let ghost before = parts@;
    parts.push(last);
    assert(views(parts@) =~= views(before).push(v@.subrange(j as int, v@.len() as int)));
    proof {
        if j == 0 {
            assert(v@.subrange(0, v@.len() as int) =~= v@);
            assert(split_on(v@, c) == seq![v@]);
            assert(views(parts@) =~= seq![v@]);
        } else {
            assert(split_on(v@, c) == split_on(v@.take(j - 1), c).push(v@.skip(j as int)));
        }
    }
    parts
}

/// Piece `i` of `p` counted from the end (0 is the last).
pub open spec fn from_end(p: Seq<Seq<char>>, i: int) -> Seq<char> {
    p[p.len() - 1 - i]
}

/// A port-forwarding specification: `[host:]port:host:port`.
#[derive(Clone, Debug)]
pub struct Forward {
    pub remote_host: String,
    pub remote_port: u32,
    pub local_host: String,
    pub local_port: u32,
}

/// Why a port-forwarding specification is refused: this text is no port.
#[derive(Clone, Debug)]
pub struct BadPort(pub String);

/// Reads a specification as `-L` takes it, `[local_host:]local_port:remote_host:remote_port`
/// (the local host is `127.0.0.1` when absent); or, for `-R` (`remote` true),
/// `[remote_host:]remote_port:local_host:local_port`. A port that is no `u32`
/// is refused, the last one first. The specification has at least three
/// pieces, or a last piece that is no port: a shorter one whose last piece is
/// a port has no reading, and the command-line tool stops on it before the
/// call.
pub fn parse_forward(spec: &str, remote: bool) -> (r: Result<Forward, BadPort>)
    requires
        split_on(spec@, ':').len() >= 3 || parse_unsigned(split_on(spec@, ':').last(), u32::MAX as nat) is None,
    ensures
        ({
            let p = split_on(spec@, ':');
            let far_port = parse_unsigned(from_end(p, 0), u32::MAX as nat);
            let near_port = parse_unsigned(from_end(p, 2), u32::MAX as nat);
            &&& far_port is None ==> (r matches Err(BadPort(t)) && t@ == from_end(p, 0))
            &&& far_port is Some && near_port is None ==> (r matches Err(BadPort(t)) && t@ == from_end(p, 2))
            &&& (far_port is Some && near_port is Some) ==> (r matches Ok(f) && {
                let default_host = "127.0.0.1"@;
                let fourth = if p.len() >= 4 { from_end(p, 3) } else { default_host };
                if remote {
                    &&& f.local_port == far_port->0 && f.local_host@ == from_end(p, 1)
                    &&& f.remote_port == near_port->0 && f.remote_host@ == fourth
                } else {
                    &&& f.remote_port == far_port->0 && f.remote_host@ == from_end(p, 1)
                    &&& f.local_port == near_port->0 && f.local_host@ == fourth
                }
            })
        }),
{
    let parts = split_by(spec, ':');
    let ghost p = split_on(spec@, ':');
    let n = parts.len();
    proof {
        lemma_split_on_nonempty(spec@, ':');
    }
    assert(views(parts@)[n - 1] == parts@[n - 1]@);
    let far = match parse_unsigned_u64(parts[n - 1].as_str(), u32::MAX as u64) {
        Some(x) => x as u32,
        None => {
            return Err(BadPort(parts[n - 1].clone()));
        },
    };
    assert(views(parts@)[n - 2] == parts@[n - 2]@);
    assert(views(parts@)[n - 3] == parts@[n - 3]@);
    let middle = parts[n - 2].clone();
    let near = match parse_unsigned_u64(parts[n - 3].as_str(), u32::MAX as u64) {
        Some(x) => x as u32,
        None => {
            return Err(BadPort(parts[n - 3].clone()));
        },
    };
    let fourth = if n >= 4 {
        assert(views(parts@)[n - 4] == parts@[n - 4]@);
        parts[n - 4].clone()
    } else {
        String::from_str("127.0.0.1")
    };
    if remote {
        Ok(Forward { remote_host: fourth, remote_port: near, local_host: middle, local_port: far })
    } else {
        Ok(Forward { remote_host: middle, remote_port: far, local_host: fourth, local_port: near })
    }
}

pub proof fn lemma_split_on_nonempty(s: Seq<char>, c: char)
    ensures
        split_on(s, c).len() >= 1,
    decreases s.len(),
{
    let k = last_index_of(s, c);
    if k >= 0 {
        lemma_last_index_of_bounds(s, c);
        lemma_split_on_nonempty(s.take(k), c);
    }
}

/// Three pieces without `sep`, joined by `sep`, split back into the three.
pub proof fn lemma_split_three(a: Seq<char>, b: Seq<char>, c: Seq<char>, sep: char)
    requires
        forall|i: int| 0 <= i < a.len() ==> a[i] != sep,
        forall|i: int| 0 <= i < b.len() ==> b[i] != sep,
        forall|i: int| 0 <= i < c.len() ==> c[i] != sep,
    ensures
        split_on(a + seq![sep] + b + seq![sep] + c, sep) == seq![a, b, c],
{
    let t = a + seq![sep] + b;
    let s = t + seq![sep] + c;
    let k = t.len() as int;
    assert forall|j: int| k < j < s.len() implies s[j] != sep by {
        assert(s[j] == c[j - k - 1]);
    }
    assert(s[k] == sep);
    lemma_last_index_of(s, sep, k);
    assert(s.take(k) =~= t);
    assert(s.skip(k + 1) =~= c);
    let ka = a.len() as int;
    assert forall|j: int| ka < j < t.len() implies t[j] != sep by {
        assert(t[j] == b[j - ka - 1]);
    }
    assert(t[ka] == sep);
    lemma_last_index_of(t, sep, ka);
    assert(t.take(ka) =~= a);
    assert(t.skip(ka + 1) =~= b);
    lemma_last_index_of(a, sep, -1);
    assert(split_on(a, sep) == seq![a]);
    assert(split_on(t, sep) == seq![a].push(b));
    assert(split_on(s, sep) =~= seq![a, b, c]);
}

/// The forwarding that sets up the proxy reads back, as `-R` takes it, with
/// the proxy as its local end and the chosen port as its remote one (for a
/// proxy host without `:`).
pub proof fn law_proxy_forward_reads_back(port: u16, host: Seq<char>, proxy_port: u16)
    requires
        forall|i: int| 0 <= i < host.len() ==> host[i] != ':',
    ensures
        ({
            let p = split_on(decimal(port as nat) + ":"@ + host + ":"@ + decimal(proxy_port as nat), ':');
            &&& p.len() == 3
            &&& parse_unsigned(from_end(p, 0), u32::MAX as nat) == Some(proxy_port as nat)
            &&& from_end(p, 1) == host
            &&& parse_unsigned(from_end(p, 2), u32::MAX as nat) == Some(port as nat)
        }),
{
    reveal_strlit(":");
    assert(":"@ =~= seq![':']);
    lemma_decimal_digits(port as nat);
    lemma_decimal_digits(proxy_port as nat);
    let a = decimal(port as nat);
    let c = decimal(proxy_port as nat);
    assert forall|i: int| 0 <= i < a.len() implies a[i] != ':' by {
        assert(crate::text::is_digit(a[i]));
    }
    assert forall|i: int| 0 <= i < c.len() implies c[i] != ':' by {
        assert(crate::text::is_digit(c[i]));
    }
    lemma_split_three(a, host, c, ':');
    lemma_parse_decimal(port as nat, u32::MAX as nat);
    lemma_parse_decimal(proxy_port as nat, u32::MAX as nat);
}

/// The range of the local commits that the upstream branch lacks.
pub fn unpushed_range(upstream: &str) -> (r: String)
    ensures
        r@ == upstream@ + "..HEAD"@,
{
    let mut r = String::from_str(upstream);
    push_str(&mut r, "..HEAD");
    r
}

/// Why the patch of the local changes cannot be made.
#[derive(Clone, Debug)]
pub enum PatchError {
    /// The branch is this many commits ahead of its upstream, yet their diff is
    /// empty.
    EmptyCommitPatch(usize),
}

impl PatchError {
    /// The message shown to the user.
    pub fn message(&self) -> (r: String)
        ensures
            self matches PatchError::EmptyCommitPatch(n) ==> r@ == "本地分支领先上游 "@ + decimal(n as nat)
                + " 个提交，但未能生成补丁，请先 push 后重试"@,
    {
        let mut m = String::new();
        match self {
            PatchError::EmptyCommitPatch(n) => {
                push_str(&mut m, "本地分支领先上游 ");
                push_chars(&mut m, &decimal_u64(*n as u64));
                push_str(&mut m, " 个提交，但未能生成补丁，请先 push 后重试");
            },
        }
        m
    }
}

/// The patch that brings the server's working copy to the local state: the
/// diff of the unpushed commits (when the branch is ahead of its upstream by
/// `ahead`), then the diff of the work tree against `HEAD`. Being ahead with an
/// empty commit diff is an error.
pub fn remote_patch(ahead: usize, commit_patch: Vec<u8>, worktree_patch: Vec<u8>) -> (r: Result<Vec<u8>, PatchError>)
    ensures
        ahead > 0 && commit_patch@.len() == 0 ==> (r matches Err(PatchError::EmptyCommitPatch(n)) && n == ahead),
        ahead > 0 && commit_patch@.len() > 0 ==> (r matches Ok(p) && p@ == commit_patch@ + worktree_patch@),
        ahead == 0 ==> (r matches Ok(p) && p@ == worktree_patch@),
{
    if ahead == 0 {
        return Ok(worktree_patch);
    }
    if commit_patch.len() == 0 {
        return Err(PatchError::EmptyCommitPatch(ahead));
    }
    let mut p = commit_patch;
    let ghost start = p@;
    let mut i: usize = 0;
    while i < worktree_patch.len()
        invariant
            i <= worktree_patch@.len(),
            p@ == start + worktree_patch@.take(i as int),
        decreases worktree_patch@.len() - i,
    {
        p.push(worktree_patch[i]);
        i = i + 1;
        assert(p@ =~= start + worktree_patch@.take(i as int));
    }
    assert(worktree_patch@.take(worktree_patch@.len() as int) =~= worktree_patch@);
    Ok(p)
}

/// Saturating multiplication by 100.
pub open spec fn times_100_saturating(x: u64) -> int {
    if x * 100 > u64::MAX {
        u64::MAX as int
    } else {
        x * 100
    }
}

/// The share of `total` that `current` makes, in percent, at most 100 (100
/// for an empty total).
pub open spec fn percent_of(total: u64, current: u64) -> int {
    if total == 0 {
        100
    } else {
        let p = times_100_saturating(current) / (total as int);
        if p > 100 {
            100
        } else {
            p
        }
    }
}

/// The progress of an upload, reported to the terminal with OSC 9;4
/// sequences (state 1 running, 2 failed, 0 done).
#[derive(Clone, Debug)]
pub struct Osc94Progress {
    /// Whether anything is reported (standard error is a terminal).
    pub enabled: bool,
    pub total: u64,
    /// The percentage reported last.
    pub last_percent: Option<u8>,
}

/// The reports (state, percentage) that an enabled progress makes.
pub open spec fn reports(enabled: bool, r: Seq<(u8, u8)>) -> Seq<(u8, u8)> {
    if enabled {
        r
    } else {
        seq![]
    }
}

impl Osc94Progress {
    /// A progress over `total` bytes that has reported nothing.
    pub fn new(total: u64, enabled: bool) -> (r: Osc94Progress)
        ensures
            r.enabled == enabled,
            r.total == total,
            r.last_percent is None,
    {
        Osc94Progress { enabled, total, last_percent: None }
    }

    /// The percentage that `current` bytes make (see [`percent_of`]).
    pub fn percent(&self, current: u64) -> (r: u8)
        ensures
            r == percent_of(self.total, current),
            r <= 100,
    {
        if self.total == 0 {
            return 100;
        }
        let m = if current > u64::MAX / 100 {
            u64::MAX
        } else {
            current * 100
        };
        let p = m / self.total;
        if p > 100 {
            100
        } else {
            p as u8
        }
    }

    fn emit(&self, state: u8, progress: u8) -> (r: Vec<(u8, u8)>)
        ensures
            r@ == reports(self.enabled, seq![(state, progress)]),
    {
        let mut r: Vec<(u8, u8)> = Vec::new();
        if self.enabled {
            r.push((state, progress));
            assert(r@ =~= seq![(state, progress)]);
        }
        r
    }

    /// Starts the report at 0 %.
    pub fn start(&mut self) -> (r: Vec<(u8, u8)>)
        ensures
            final(self).last_percent == Some(0u8),
            final(self).enabled == old(self).enabled,
            final(self).total == old(self).total,
            r@ == reports(old(self).enabled, seq![(1u8, 0u8)]),
    {
        self.last_percent = Some(0);
        self.emit(1, 0)
    }

    /// Reports `current` bytes sent, unless the percentage is the one reported
    /// last.
    pub fn update(&mut self, current: u64) -> (r: Vec<(u8, u8)>)
        ensures
            final(self).enabled == old(self).enabled,
            final(self).total == old(self).total,
            final(self).last_percent == Some(percent_of(old(self).total, current) as u8),
            old(self).last_percent == Some(percent_of(old(self).total, current) as u8) ==> r@.len() == 0,
            old(self).last_percent != Some(percent_of(old(self).total, current) as u8) ==> r@ == reports(
                old(self).enabled,
                seq![(1u8, percent_of(old(self).total, current) as u8)],
            ),
    {
        let p = self.percent(current);
        if self.last_percent == Some(p) {
            return Vec::new();
        }
        self.last_percent = Some(p);
        self.emit(1, p)
    }

    /// Reports the upload done: 100 %, then the report cleared.
    pub fn finish_success(&mut self) -> (r: Vec<(u8, u8)>)
        ensures
            *final(self) == *old(self),
            r@ == reports(old(self).enabled, seq![(1u8, 100u8), (0u8, 0u8)]),
    {
        let mut r = self.emit(1, 100);
        let mut d = self.emit(0, 0);
        r.append(&mut d);
        assert(r@ =~= reports(self.enabled, seq![(1u8, 100u8), (0u8, 0u8)]));
        r
    }

    /// Reports the upload failed at `current` bytes.
    pub fn finish_error(&mut self, current: u64) -> (r: Vec<(u8, u8)>)
        ensures
            *final(self) == *old(self),
            r@ == reports(old(self).enabled, seq![(2u8, percent_of(old(self).total, current) as u8)]),
    {
        let p = self.percent(current);
        self.emit(2, p)
    }
}

/// The terminal sequence of one report: `ESC ] 9 ; 4 ; <state> ; <percent> BEL`.
pub fn osc94_sequence(state: u8, progress: u8) -> (r: String)
    ensures
        r@ == seq!['\x1b'] + "]9;4;"@ + decimal(state as nat) + ";"@ + decimal(progress as nat) + seq!['\x07'],
{
    let mut r = String::new();
    r.push('\x1b');
    push_str(&mut r, "]9;4;");
    push_chars(&mut r, &decimal_u64(state as u64));
    push_str(&mut r, ";");
    push_chars(&mut r, &decimal_u64(progress as u64));
    r.push('\x07');
    r
}

/// The reported percentage never goes down as more bytes are sent.
pub proof fn law_percent_monotone(total: u64, a: u64, b: u64)
    requires
        a <= b,
    ensures
        percent_of(total, a) <= percent_of(total, b),
        0 <= percent_of(total, a) <= 100,
{
    if total > 0 {
        assert(times_100_saturating(a) <= times_100_saturating(b)) by (nonlinear_arith)
            requires
                a <= b,
        ;
        vstd::arithmetic::div_mod::lemma_div_is_ordered(
            times_100_saturating(a),
            times_100_saturating(b),
            total as int,
        );
        assert(times_100_saturating(a) >= 0) by (nonlinear_arith);
        vstd::arithmetic::div_mod::lemma_div_pos_is_pos(times_100_saturating(a), total as int);
    }
}

/// Whether a `get` must refuse to overwrite: a file is coming, one is already
/// at the local path, and neither `--force`, standard output (asked for, or a
/// pipe) nor another output file was chosen.
pub fn download_conflict(
    is_file: bool,
    exists: bool,
    force: bool,
    to_stdout: bool,
    piped: bool,
    outfile_given: bool,
) -> (r: bool)
    ensures
        r == (is_file && exists && !force && !to_stdout && !piped && !outfile_given),
{
    is_file && exists && !force && !to_stdout && !piped && !outfile_given
}

/// Where a `get` writes locally: the requested path, with the extension `tar`
/// when a directory is coming (as an archive).
pub fn download_path(local: &str, is_dir: bool) -> (r: String)
    ensures
        is_dir ==> r@ == with_extension(local@, "tar"@),
        !is_dir ==> r@ == local@,
{
    if is_dir {
        set_extension_to(local, "tar")
    } else {
        String::from_str(local)
    }
}

/// The message of a refused overwrite.
pub fn file_exists_message(path: &str) -> (r: String)
    ensures
        r@ == "文件已存在: "@ + path@,
{
    let mut m = String::new();
    push_str(&mut m, "文件已存在: ");
    push_str(&mut m, path);
    m
}

/// The error of a remote request that ended with a non-zero exit status:
/// `remote <what> failed with exit status <code>`; none when no status came
/// or it was 0.
pub fn remote_exit_error(what: &str, exit_code: Option<u32>) -> (r: Option<String>)
    ensures
        (exit_code is None || exit_code == Some(0u32)) ==> r is None,
        exit_code matches Some(c) ==> (c != 0 ==> (r matches Some(m) && m@ == "remote "@ + what@
            + " failed with exit status "@ + decimal(c as nat))),
{
    match exit_code {
        Some(c) => if c == 0 {
            None
        } else {
            let mut m = String::new();
            push_str(&mut m, "remote ");
            push_str(&mut m, what);
            push_str(&mut m, " failed with exit status ");
            push_chars(&mut m, &decimal_u64(c as u64));
            Some(m)
        },
        None => None,
    }
}

/// The line that offers running job `index` (from 0) to the user:
/// `  <n>) <id> [<action>] <command>`, numbered from 1, with `-` for an empty
/// action or command.
pub fn job_choice_line(index: usize, id: &str, action: &str, command: &str) -> (r: String)
    requires
        index < usize::MAX,
    ensures
        r@ == "  "@ + decimal(index as nat + 1) + ") "@ + id@ + " ["@ + (if action@.len() == 0 {
            "-"@
        } else {
            action@
        }) + "] "@ + (if command@.len() == 0 {
            "-"@
        } else {
            command@
        }),
{
    let mut m = String::new();
    push_str(&mut m, "  ");
    push_chars(&mut m, &decimal_u64((index + 1) as u64));
    push_str(&mut m, ") ");
    push_str(&mut m, id);
    push_str(&mut m, " [");
    if action.is_empty() {
        push_str(&mut m, "-");
    } else {
        push_str(&mut m, action);
    }
    push_str(&mut m, "] ");
    if command.is_empty() {
        push_str(&mut m, "-");
    } else {
        push_str(&mut m, command);
    }
    m
}

/// A session variable as `ssh -o SetEnv` takes it: `NAME=value`.
pub open spec fn env_setting(p: (Seq<char>, Seq<char>)) -> Seq<char> {
    p.0 + "="@ + p.1
}

/// A `NAME=value` setting given to the client reaches the session as
/// written: split at its first `=` and joined again, it is unchanged, and the
/// name holds no `=`.
pub proof fn law_env_setting_round_trip(kv: Seq<char>)
    requires
        kv.contains('='),
    ensures
        env_setting(env_pair(kv)) == kv,
        !env_pair(kv).0.contains('='),
{
    lemma_first_index_of_bounds(kv, '=');
    let k = first_index_of(kv, '=');
    if k < 0 {
        let i = choose|i: int| 0 <= i < kv.len() && kv[i] == '=';
        assert(kv[i] != '=');
    }
    reveal_strlit("=");
    assert("="@ =~= seq!['=']);
    assert(kv.take(k) + seq!['='] + kv.skip(k + 1) =~= kv);
    if kv.take(k).contains('=') {
        let i = choose|i: int| 0 <= i < kv.take(k).len() && kv.take(k)[i] == '=';
        assert(kv[i] == '=');
    }
}

/// The arguments of the system `ssh` for a request: the key, the session
/// variables in one `SetEnv` option, `<action>@<ip>`, the port, then the
/// request's own arguments.
pub fn system_ssh_args(
    key_path: &str,
    env: &Vec<(String, String)>,
    action: &str,
    host_ip: &str,
    port: u16,
    args: &Vec<String>,
) -> (r: Vec<String>)
    ensures
        views(r@) == seq![
            "-i"@,
            key_path@,
            "-o"@,
            "SetEnv "@ + crate::text::join(pair_views(env@).map_values(|p: (Seq<char>, Seq<char>)| env_setting(p)), " "@),
            action@ + "@"@ + host_ip@,
            "-p"@,
            decimal(port as nat),
        ] + views(args@),
{
    let mut settings: Vec<String> = Vec::new();
    let mut i: usize = 0;
    while i < env.len()
        invariant
            i <= env@.len(),
            views(settings@) == pair_views(env@).take(i as int).map_values(
                |p: (Seq<char>, Seq<char>)| env_setting(p),
            ),
        decreases env@.len() - i,
    {
        let (k, v) = &env[i];
        let mut s = String::new();
        push_str(&mut s, k.as_str());
        push_str(&mut s, "=");
        push_str(&mut s, v.as_str());
        let ghost before = settings@;
        settings.push(s);
        assert(views(settings@) =~= views(before).push(env_setting(pair_views(env@)[i as int])));
        i = i + 1;
        assert(pair_views(env@).take(i as int).map_values(|p: (Seq<char>, Seq<char>)| env_setting(p))
            =~= pair_views(env@).take(i - 1).map_values(|p: (Seq<char>, Seq<char>)| env_setting(p)).push(
            env_setting(pair_views(env@)[i - 1]),
        ));
    }
    assert(pair_views(env@).take(env@.len() as int) =~= pair_views(env@));
    let mut set_env = String::new();
    push_str(&mut set_env, "SetEnv ");
    push_str(&mut set_env, crate::text::join_strings(&settings, " ").as_str());
    let mut dest = String::new();
    push_str(&mut dest, action);
    push_str(&mut dest, "@");
    push_str(&mut dest, host_ip);
    let mut p = String::new();
    push_chars(&mut p, &decimal_u64(port as u64));
    let mut r: Vec<String> = vec![
        String::from_str("-i"),
        String::from_str(key_path),
        String::from_str("-o"),
        set_env,
        dest,
        String::from_str("-p"),
        p,
    ];
    let ghost head = views(r@);
    let mut j: usize = 0;
    while j < args.len()
        invariant
            j <= args@.len(),
            views(r@) == head + views(args@).take(j as int),
        decreases args@.len() - j,
    {
        let ghost before = r@;
        r.push(args[j].clone());
        assert(views(r@) =~= views(before).push(args@[j as int]@));
        j = j + 1;
        assert(views(args@).take(j as int) =~= views(args@).take(j - 1).push(args@[j - 1]@));
    }
    assert(views(args@).take(args@.len() as int) =~= views(args@));
    r
}

} // verus!
