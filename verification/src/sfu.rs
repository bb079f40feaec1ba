//! Where a bot finds the media relay and the REST API of the IRC server
//! it is configured with: the server text is trimmed, given `ws://` when
//! it names no scheme, parsed as a URL, and its scheme mapped to `https`
//! or `http`.
use vstd::prelude::*;
use crate::text::{
    chars_of, dec, eq_chars, push_str, starts_at, starts_with, string_from, string_of, trim,
    trim_chars, u64_decimal,
};

verus! {

/// Whether `t` starts with one of the schemes a server URL may carry.
pub open spec fn has_web_scheme(t: Seq<char>) -> bool {
    starts_with(t, "ws://"@) || starts_with(t, "wss://"@) || starts_with(t, "http://"@) || starts_with(
        t,
        "https://"@,
    )
}

/// The URL text for a trimmed server setting: as it is when it names a
/// scheme, else a `ws://` URL for the `host:port` it holds.
pub open spec fn normalized_server(t: Seq<char>) -> Seq<char> {
    if has_web_scheme(t) {
        t
    } else {
        "ws://"@ + t
    }
}

/// The scheme the relay and the API use for a parsed scheme: `https`
/// for `https`/`wss`, `http` for `http`/`ws`, none otherwise.
pub open spec fn web_scheme(s: Seq<char>) -> Option<Seq<char>> {
    if s == "https"@ || s == "wss"@ {
        Some("https"@)
    } else if s == "http"@ || s == "ws"@ {
        Some("http"@)
    } else {
        None
    }
}

/// The message for an empty server setting.
pub open spec fn empty_server_message() -> Seq<char> {
    "server URL is empty"@
}

/// Whether `t` starts with the literal `p`.
fn starts_with_lit(t: &[char], p: &str) -> (r: bool)
    ensures
        r == starts_with(t@, p@),
{
    let pc = chars_of(p);
    assert(t@.skip(0) =~= t@);
    starts_at(t, 0, pc.as_slice())
}

/// The URL text for server setting `server`, or the empty-setting error.
pub fn normalize_server(server: &str) -> (r: Result<String, String>)
    ensures
        trim(server@).len() == 0 <==> r is Err,
        r matches Err(m) ==> m@ == empty_server_message(),
        r matches Ok(t) ==> t@ == normalized_server(trim(server@)),
{
    let c = chars_of(server);
    let t = trim_chars(c.as_slice());
    if t.len() == 0 {
        return Err(string_from("server URL is empty"));
    }
    let ts = t.as_slice();
    if starts_with_lit(ts, "ws://") || starts_with_lit(ts, "wss://") || starts_with_lit(ts, "http://")
        || starts_with_lit(ts, "https://") {
        Ok(string_of(ts))
    } else {
        let mut s = string_from("ws://");
        let rest = string_of(ts);
        push_str(&mut s, rest.as_str());
        Ok(s)
    }
}

/// Map a parsed URL scheme to the one the relay and the API use.
pub fn map_scheme(s: &str) -> (r: Option<&'static str>)
    ensures
        match r {
            Some(m) => web_scheme(s@) == Some(m@),
            None => web_scheme(s@) is None,
        },
{
    let c = chars_of(s);
    let cs = c.as_slice();
    let https = chars_of("https");
    let wss = chars_of("wss");
    let http = chars_of("http");
    let ws = chars_of("ws");
    if eq_chars(cs, https.as_slice()) || eq_chars(cs, wss.as_slice()) {
        Some("https")
    } else if eq_chars(cs, http.as_slice()) || eq_chars(cs, ws.as_slice()) {
        Some("http")
    } else {
        None
    }
}

/// What `Url::parse` reads from a URL text, when it parses: the scheme,
/// the username, the password, the host (`host_str`), the port when it
/// is not the scheme's default, the path, the query and the fragment.
pub uninterp spec fn url_parts(text: Seq<char>) -> Option<
    (
        Seq<char>,
        Seq<char>,
        Option<Seq<char>>,
        Option<Seq<char>>,
        Option<u16>,
        Seq<char>,
        Option<Seq<char>>,
        Option<Seq<char>>,
    ),
>;

/// The parts of a URL as plain text and numbers.
#[derive(Debug)]
pub struct UrlParts {
    pub scheme: String,
    pub username: String,
    pub password: Option<String>,
    pub host: Option<String>,
    pub port: Option<u16>,
    pub path: String,
    pub query: Option<String>,
    pub fragment: Option<String>,
}

/// The view of an optional text.
pub open spec fn opt_text_view(o: Option<String>) -> Option<Seq<char>> {
    match o {
        Some(s) => Some(s@),
        None => None,
    }
}

impl View for UrlParts {
    type V = (
        Seq<char>,
        Seq<char>,
        Option<Seq<char>>,
        Option<Seq<char>>,
        Option<u16>,
        Seq<char>,
        Option<Seq<char>>,
        Option<Seq<char>>,
    );

    open spec fn view(&self) -> Self::V {
        (
            self.scheme@,
            self.username@,
            opt_text_view(self.password),
            opt_text_view(self.host),
            self.port,
            self.path@,
            opt_text_view(self.query),
            opt_text_view(self.fragment),
        )
    }
}

/// Calls `Url::parse` and reads the parsed URL's parts with `scheme`,
/// `username`, `password`, `host_str`, `port`, `path`, `query` and
/// `fragment`; they are [`url_parts`] of the text. On an error the text is
/// `ParseError`'s `Display` text, of which nothing is claimed.
#[verifier::external_body]
fn parse_url(text: &str) -> (r: Result<UrlParts, String>)
    ensures
        match r {
            Ok(p) => url_parts(text@) == Some(p@),
            Err(_) => url_parts(text@) is None,
        },
{
    match url::Url::parse(text) {
        Ok(u) => Ok(UrlParts {
            scheme: u.scheme().to_string(),
            username: u.username().to_string(),
            password: u.password().map(String::from),
            host: u.host_str().map(String::from),
            port: u.port(),
            path: u.path().to_string(),
            query: u.query().map(String::from),
            fragment: u.fragment().map(String::from),
        }),
        Err(e) => Err(e.to_string()),
    }
}

/// The text of an optional part after its marker, or nothing.
pub open spec fn marked(marker: Seq<char>, o: Option<Seq<char>>) -> Seq<char> {
    match o {
        Some(t) => marker + t,
        None => Seq::empty(),
    }
}

/// The user-info of URL parts: `user[:password]@` when either is there.
pub open spec fn user_info(p: (Seq<char>, Seq<char>, Option<Seq<char>>, Option<Seq<char>>, Option<u16>, Seq<char>, Option<Seq<char>>, Option<Seq<char>>)) -> Seq<char> {
    if p.1.len() > 0 || p.2 is Some {
        p.1 + marked(":"@, p.2) + "@"@
    } else {
        Seq::empty()
    }
}

/// The text of URL parts with a host:
/// `scheme://[user-info]host[:port]path[?query][#fragment]`.
pub open spec fn url_text(p: (Seq<char>, Seq<char>, Option<Seq<char>>, Option<Seq<char>>, Option<u16>, Seq<char>, Option<Seq<char>>, Option<Seq<char>>)) -> Seq<char> {
    p.0 + "://"@ + user_info(p) + marked(Seq::empty(), p.3) + match p.4 {
        Some(n) => ":"@ + dec(n as nat),
        None => Seq::empty(),
    } + p.5 + marked("?"@, p.6) + marked("#"@, p.7)
}

/// Whether URL parts have a non-empty host.
pub open spec fn has_host(p: (Seq<char>, Seq<char>, Option<Seq<char>>, Option<Seq<char>>, Option<u16>, Seq<char>, Option<Seq<char>>, Option<Seq<char>>)) -> bool {
    p.3 matches Some(h) && h.len() > 0
}

/// URL parts with another scheme and path.
pub open spec fn with_scheme_path(
    p: (Seq<char>, Seq<char>, Option<Seq<char>>, Option<Seq<char>>, Option<u16>, Seq<char>, Option<Seq<char>>, Option<Seq<char>>),
    scheme: Seq<char>,
    path: Seq<char>,
) -> (Seq<char>, Seq<char>, Option<Seq<char>>, Option<Seq<char>>, Option<u16>, Seq<char>, Option<Seq<char>>, Option<Seq<char>>) {
    (scheme, p.1, p.2, p.3, p.4, path, p.6, p.7)
}

/// Append `marker` and the text of `o`, when it is there.
fn push_marked(s: &mut String, marker: &str, o: &Option<String>)
    ensures
        final(s)@ == old(s)@ + marked(marker@, opt_text_view(*o)),
{
    match o {
        Some(t) => {
            push_str(s, marker);
            push_str(s, t.as_str());
        },
        None => {},
    }
}

impl UrlParts {
    /// The URL as text.
    pub fn as_str(&self) -> (r: String)
        ensures
            r@ == url_text(self@),
    {
        let mut s = joined(self.scheme.as_str(), "://");
        if chars_of(self.username.as_str()).len() > 0 || self.password.is_some() {
            push_str(&mut s, self.username.as_str());
            push_marked(&mut s, ":", &self.password);
            push_str(&mut s, "@");
        }
        proof {
            reveal_strlit("");
            assert(""@ =~= Seq::<char>::empty());
        }
        push_marked(&mut s, "", &self.host);
        match self.port {
            Some(n) => {
                push_str(&mut s, ":");
                let d = u64_decimal(n as u64);
                push_str(&mut s, d.as_str());
            },
            None => {},
        }
        push_str(&mut s, self.path.as_str());
        push_marked(&mut s, "?", &self.query);
        push_marked(&mut s, "#", &self.fragment);
        s
    }

    /// The path.
    pub fn path(&self) -> (r: &str)
        ensures
            r@ == self.path@,
    {
        self.path.as_str()
    }

    /// The host, when there is one.
    pub fn host_str(&self) -> (r: Option<&str>)
        ensures
            match r {
                Some(h) => self.host matches Some(t) && h@ == t@,
                None => self.host is None,
            },
    {
        match &self.host {
            Some(h) => Some(h.as_str()),
            None => None,
        }
    }

    /// The port, when it is not the scheme's default.
    pub fn port(&self) -> (r: Option<u16>)
        ensures
            r == self.port,
    {
        self.port
    }
}

/// `prefix` then `rest`.
fn joined(prefix: &str, rest: &str) -> (r: String)
    ensures
        r@ == prefix@ + rest@,
{
    let mut s = string_from(prefix);
    push_str(&mut s, rest);
    s
}

/// The text `str`'s `Debug` formatting gives for `s`: in double quotes,
/// with quotes, backslashes and control characters escaped.
pub uninterp spec fn debug_text(s: Seq<char>) -> Seq<char>;

/// Formats `text` with `str`'s `Debug` (`format!("{text:?}")`), as an
/// error message shows the setting; the text is [`debug_text`] of it.
#[verifier::external_body]
fn quoted(text: &str) -> (r: String)
    ensures
        r@ == debug_text(text@),
{
    format!("{text:?}")
}

/// The setting trimmed.
fn trimmed(server: &str) -> (r: String)
    ensures
        r@ == trim(server@),
{
    let c = chars_of(server);
    let t = trim_chars(c.as_slice());
    string_of(t.as_slice())
}

/// The media relay URL for IRC server setting `server`: `https`/`http`
/// as the server's scheme is secure or not, the server's user-info, host,
/// port, query and fragment, path `/av/moq`.
pub fn sfu_url_from_server(server: &str) -> (r: Result<UrlParts, String>)
    ensures
        trim(server@).len() == 0 ==> (r matches Err(m) && m@ == empty_server_message()),
        trim(server@).len() != 0 ==> match url_parts(normalized_server(trim(server@))) {
            None => r matches Err(m) && starts_with(m@, "parsing server URL for SFU: "@ + debug_text(trim(server@)) + ": "@),
            Some(p) => if web_scheme(p.0) is None {
                r matches Err(m) && m@ == "unsupported scheme for SFU URL: "@ + debug_text(p.0)
            } else if !has_host(p) {
                r matches Err(m) && m@ == "server URL has no host: "@ + debug_text(trim(server@))
            } else {
                r matches Ok(u) && u@ == with_scheme_path(p, web_scheme(p.0)->0, "/av/moq"@)
            },
        },
{
    let normalized = match normalize_server(server) {
        Ok(t) => t,
        Err(m) => return Err(m),
    };
    let mut u = match parse_url(normalized.as_str()) {
        Ok(u) => u,
        Err(t) => {
            let q = quoted(trimmed(server).as_str());
            let m = joined("parsing server URL for SFU: ", q.as_str());
            let m2 = joined(m.as_str(), ": ");
            let m3 = joined(m2.as_str(), t.as_str());
            proof {
                assert((("parsing server URL for SFU: "@ + q@) + ": "@ + t@).subrange(0, ("parsing server URL for SFU: "@ + q@ + ": "@).len() as int) =~= "parsing server URL for SFU: "@ + q@ + ": "@);
            }
            return Err(m3);
        },
    };
    match map_scheme(u.scheme.as_str()) {
        Some(s) => {
            u.scheme = string_from(s);
        },
        None => {
            let q = quoted(u.scheme.as_str());
            let m = joined("unsupported scheme for SFU URL: ", q.as_str());
            proof {
                assert(("unsupported scheme for SFU URL: "@ + q@).subrange(0, "unsupported scheme for SFU URL: "@.len() as int) =~= "unsupported scheme for SFU URL: "@);
            }
            return Err(m);
        },
    }
    let host_ok = match &u.host {
        Some(h) => chars_of(h.as_str()).len() > 0,
        None => false,
    };
    if !host_ok {
        let q = quoted(trimmed(server).as_str());
        let m = joined("server URL has no host: ", q.as_str());
        proof {
            assert(("server URL has no host: "@ + q@).subrange(0, "server URL has no host: "@.len() as int) =~= "server URL has no host: "@);
        }
        return Err(m);
    }
    u.path = string_from("/av/moq");
    Ok(u)
}

/// The REST API base for a scheme, host and non-default port.
pub open spec fn api_base_text(scheme: Seq<char>, host: Seq<char>, port: Option<u16>) -> Seq<char> {
    scheme + "://"@ + host + match port {
        Some(p) => ":"@ + dec(p as nat),
        None => Seq::empty(),
    }
}

/// The REST API base `scheme://host[:port]`.
pub fn api_base(scheme: &str, host: &str, port: Option<u16>) -> (r: String)
    ensures
        r@ == api_base_text(scheme@, host@, port),
{
    let mut s = joined(scheme, "://");
    push_str(&mut s, host);
    match port {
        Some(p) => {
            push_str(&mut s, ":");
            let d = u64_decimal(p as u64);
            push_str(&mut s, d.as_str());
        },
        None => {},
    }
    s
}

/// The REST API base (`https://host[:port]` or `http://…`) for IRC server
/// setting `server`.
pub fn api_base_from_server(server: &str) -> (r: Result<String, String>)
    ensures
        trim(server@).len() == 0 ==> (r matches Err(m) && m@ == empty_server_message()),
        trim(server@).len() != 0 ==> match url_parts(normalized_server(trim(server@))) {
            None => r matches Err(m) && starts_with(m@, "parsing server URL for REST API: "@ + debug_text(trim(server@)) + ": "@),
            Some(p) => if web_scheme(p.0) is None {
                r matches Err(m) && m@ == "unsupported scheme for REST API: "@ + debug_text(p.0)
            } else {
                match p.3 {
                    None => r matches Err(m) && m@ == "server URL has no host"@,
                    Some(h) => r matches Ok(b) && b@ == api_base_text(web_scheme(p.0)->0, h, p.4),
                }
            },
        },
{
    let normalized = match normalize_server(server) {
        Ok(t) => t,
        Err(m) => return Err(m),
    };
    let u = match parse_url(normalized.as_str()) {
        Ok(u) => u,
        Err(t) => {
            let q = quoted(trimmed(server).as_str());
            let m = joined("parsing server URL for REST API: ", q.as_str());
            let m2 = joined(m.as_str(), ": ");
            let m3 = joined(m2.as_str(), t.as_str());
            proof {
                assert((("parsing server URL for REST API: "@ + q@) + ": "@ + t@).subrange(0, ("parsing server URL for REST API: "@ + q@ + ": "@).len() as int) =~= "parsing server URL for REST API: "@ + q@ + ": "@);
            }
            return Err(m3);
        },
    };
    let mapped = match map_scheme(u.scheme.as_str()) {
        Some(s) => s,
        None => {
            let q = quoted(u.scheme.as_str());
            let m = joined("unsupported scheme for REST API: ", q.as_str());
            proof {
                assert(("unsupported scheme for REST API: "@ + q@).subrange(0, "unsupported scheme for REST API: "@.len() as int) =~= "unsupported scheme for REST API: "@);
            }
            return Err(m);
        },
    };
    match &u.host {
        Some(h) => Ok(api_base(mapped, h.as_str(), u.port)),
        None => Err(string_from("server URL has no host")),
    }
}

} // verus!
