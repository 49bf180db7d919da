//! Targets: what to wait for, and how a target is written as text.

use crate::text::{
    all_digits, append_decimal, decimal, decimal_of, digits_value, is_digit,
    lemma_decimal_reads_back, lemma_decimal_within, parse_decimal, starts_with, NumberError,
};
use vstd::prelude::*;
use vstd::string::*;

verus! {

/// The longest label that a hostname may hold.
pub const LABEL_MAX: usize = 63;

/// The greatest port number.
pub const PORT_MAX: u64 = 65535;

/// One thing to wait for.
///
/// A value can be parsed from text: `"localhost:8000"`, `"127.0.0.1:80"`,
/// `"https://www.example.com:8080/some/?x=0&y=1"`.
#[derive(Debug, PartialEq)]
pub enum ToCheck {
    /// Hostname or IPv4 address, and port: `127.0.0.1:8080`, `localhost:80`.
    HostnameAndPort(String, u16),
    /// An `http` or `https` URL, as it was written.
    HttpOrHttpsUrl(String),
}

/// A target as a mathematical value.
pub enum Target {
    HostnameAndPort(Seq<char>, u16),
    HttpOrHttpsUrl(Seq<char>),
}

impl View for ToCheck {
    type V = Target;

    open spec fn view(&self) -> Target {
        match self {
            ToCheck::HostnameAndPort(host, port) => Target::HostnameAndPort(host@, *port),
            ToCheck::HttpOrHttpsUrl(url) => Target::HttpOrHttpsUrl(url@),
        }
    }
}

impl Clone for ToCheck {
    fn clone(&self) -> (r: Self)
        ensures
            r@ == self@,
    {
        match self {
            ToCheck::HostnameAndPort(host, port) => ToCheck::HostnameAndPort(host.clone(), *port),
            ToCheck::HttpOrHttpsUrl(url) => ToCheck::HttpOrHttpsUrl(url.clone()),
        }
    }
}

/// A character that a hostname label may hold: a letter, a digit, a hyphen or
/// an underscore.
pub open spec fn is_label_char(c: char) -> bool {
    ('a' <= c && c <= 'z') || ('A' <= c && c <= 'Z') || ('0' <= c && c <= '9') || c == '-' || c
        == '_'
}

/// A dot stands at `from` or at one of the `LABEL_MAX` positions after it.
pub open spec fn dot_within(s: Seq<char>, from: int) -> bool {
    exists|j: int| from <= j <= from + LABEL_MAX && #[trigger] s[j] == '.'
}

/// A hostname is one label or more, separated by single dots. A label holds
/// from 1 to `LABEL_MAX` label characters.
pub open spec fn is_hostname(s: Seq<char>) -> bool {
    &&& s.len() > 0
    &&& forall|i: int| 0 <= i < s.len() ==> #[trigger] s[i] == '.' || is_label_char(s[i])
    &&& s[0] != '.'
    &&& s[s.len() - 1] != '.'
    &&& forall|i: int| 0 <= i < s.len() - 1 ==> !(#[trigger] s[i] == '.' && s[i + 1] == '.')
    &&& forall|i: int| 0 <= i && i + LABEL_MAX < s.len() ==> #[trigger] dot_within(s, i)
}

/// One number of a dotted IPv4 address: up to three digits, at most 255, with
/// no zero in front of another digit.
pub open spec fn is_octet(s: Seq<char>) -> bool {
    &&& 1 <= s.len() <= 3
    &&& all_digits(s)
    &&& digits_value(s) <= 255
    &&& s.len() > 1 ==> s[0] != '0'
}

pub open spec fn dotted(a: Seq<char>, b: Seq<char>, c: Seq<char>, d: Seq<char>) -> Seq<char> {
    a + seq!['.'] + b + seq!['.'] + c + seq!['.'] + d
}

/// Four octets separated by dots.
pub open spec fn is_ipv4_literal(s: Seq<char>) -> bool {
    exists|a: Seq<char>, b: Seq<char>, c: Seq<char>, d: Seq<char>|
        is_octet(a) && is_octet(b) && is_octet(c) && is_octet(d) && s == #[trigger] dotted(
            a,
            b,
            c,
            d,
        )
}

/// The hosts that a target may name. An IPv6 address holds a colon, so it
/// never fits in front of `:<port>`.
pub open spec fn valid_host(s: Seq<char>) -> bool {
    is_hostname(s) || is_ipv4_literal(s)
}

/// Every dotted IPv4 address is a hostname too: its labels are digits.
pub proof fn lemma_ipv4_is_hostname(s: Seq<char>)
    requires
        is_ipv4_literal(s),
    ensures
        is_hostname(s),
{
    let (a, b, c, d) = choose|a: Seq<char>, b: Seq<char>, c: Seq<char>, d: Seq<char>|
        is_octet(a) && is_octet(b) && is_octet(c) && is_octet(d) && s == #[trigger] dotted(
            a,
            b,
            c,
            d,
        );
    let la = a.len() as int;
    let lb = b.len() as int;
    let lc = c.len() as int;
    assert(s.len() == la + lb + lc + d.len() + 3);
    assert forall|i: int| 0 <= i < s.len() implies (s[i] == '.') == (i == la || i == la + lb + 1
        || i == la + lb + lc + 2) && (s[i] == '.' || is_label_char(s[i])) by {
        if i < la {
            assert(s[i] == a[i]);
        } else if i == la {
        } else if i < la + lb + 1 {
            assert(s[i] == b[i - la - 1]);
        } else if i == la + lb + 1 {
        } else if i < la + lb + lc + 2 {
            assert(s[i] == c[i - la - lb - 2]);
        } else if i == la + lb + lc + 2 {
        } else {
            assert(s[i] == d[i - la - lb - lc - 3]);
        }
    }
}

/// Whether `s` is a hostname.
pub fn is_valid_hostname(s: &str) -> (r: bool)
    ensures
        r == is_hostname(s@),
{
    let n: usize = s.unicode_len();
    if n == 0 {
        return false;
    }
    let mut run: usize = 0;
    let mut k: usize = 0;
    while k < n
        invariant
            0 < n == s@.len(),
            k <= n,
            run <= LABEL_MAX,
            run <= k,
            forall|j: int| k - run <= j < k ==> s@[j] != '.',
            k - run > 0 ==> s@[k - run - 1] == '.',
            forall|i: int| 0 <= i < k ==> #[trigger] s@[i] == '.' || is_label_char(s@[i]),
            k > 0 ==> s@[0] != '.',
            forall|i: int| 0 <= i < k - 1 ==> !(#[trigger] s@[i] == '.' && s@[i + 1] == '.'),
            forall|i: int| 0 <= i && i + LABEL_MAX < k ==> #[trigger] dot_within(s@, i),
        decreases n - k,
    {
        let c: char = s.get_char(k);
        if c == '.' {
            if run == 0 {
                proof {
                    let i = k - 1;
                    if k > 0 {
                        assert(s@[i] == '.' && s@[i + 1] == '.');
                    } else {
                        assert(s@[0] == '.');
                    }
                }
                return false;
            }
            run = 0;
        } else if (c >= 'a' && c <= 'z') || (c >= 'A' && c <= 'Z') || (c >= '0' && c <= '9') || c
            == '-' || c == '_' {
            if run == LABEL_MAX {
                assert(!dot_within(s@, k - LABEL_MAX));
                return false;
            }
            run = run + 1;
        } else {
            assert(!(s@[k as int] == '.' || is_label_char(s@[k as int])));
            return false;
        }
        proof {
            assert forall|i: int| 0 <= i && i + LABEL_MAX < k + 1 implies #[trigger] dot_within(
                s@,
                i,
            ) by {
                if i + LABEL_MAX == k {
                    if c == '.' {
                        assert(s@[k as int] == '.');
                    } else {
                        assert(s@[k + 1 - run - 1] == '.');
                    }
                }
            }
        }
        k = k + 1;
    }
    if run == 0 {
        return false;
    }
    true
}

/// Whether a target may name `s` as its host.
pub fn is_valid_host(s: &str) -> (r: bool)
    ensures
        r == valid_host(s@),
{
    proof {
        if is_ipv4_literal(s@) {
            lemma_ipv4_is_hostname(s@);
        }
    }
    is_valid_hostname(s)
}

/// The one colon of `s` stands at `i`.
pub open spec fn colon_at(s: Seq<char>, i: int) -> bool {
    &&& 0 <= i < s.len()
    &&& s[i] == ':'
    &&& forall|j: int| 0 <= j < s.len() && j != i ==> s[j] != ':'
}

/// The message for a text that does not hold exactly one colon.
pub open spec fn pattern_error(s: Seq<char>) -> Seq<char> {
    "'"@ + s + "' doesn't match <hostname>:<port> pattern"@
}

/// What is said of a port that is not a number.
pub open spec fn number_error_message(e: NumberError) -> Seq<char> {
    match e {
        NumberError::Empty => "cannot parse integer from empty string"@,
        NumberError::InvalidDigit => "invalid digit found in string"@,
        NumberError::TooLarge => "number too large to fit in target type"@,
    }
}

/// The message for a text whose port is not a number up to `PORT_MAX`.
pub open spec fn port_error(s: Seq<char>, e: NumberError) -> Seq<char> {
    "'"@ + s + "', port error: "@ + number_error_message(e)
}

/// The message for port 0.
pub open spec fn dynamic_port_error() -> Seq<char> {
    "dynamic port number (0) can't be used here"@
}

/// The message for a host that is neither a hostname nor an IPv4 address.
pub open spec fn hostname_error(host: Seq<char>) -> Seq<char> {
    "'"@ + host + "' is not a valid hostname"@
}

/// What `<hostname>:<port>` text means: the target, or the message that says
/// what is wrong with the text. The form is checked first, then the port, then
/// the host.
pub open spec fn host_and_port_of(s: Seq<char>) -> Result<Target, Seq<char>> {
    if !exists|i: int| colon_at(s, i) {
        Err(pattern_error(s))
    } else {
        let i = choose|i: int| colon_at(s, i);
        let host = s.subrange(0, i);
        match decimal_of(s.subrange(i + 1, s.len() as int), PORT_MAX as nat) {
            Err(e) => Err(port_error(s, e)),
            Ok(port) => if port == 0 {
                Err(dynamic_port_error())
            } else if !valid_host(host) {
                Err(hostname_error(host))
            } else {
                Ok(Target::HostnameAndPort(host, port as u16))
            },
        }
    }
}

/// Why `text` is no URI: `None` where `hyper::Uri`'s parser takes it, else
/// the message of the parser's error.
pub uninterp spec fn uri_rejection(text: Seq<char>) -> Option<Seq<char>>;

/// The message for a text that is no URI, with what the parser says against
/// it.
pub open spec fn url_error(s: Seq<char>, rejection: Seq<char>) -> Seq<char> {
    "'"@ + s + "', url error: "@ + rejection
}

/// What a URL given as text means, where `rejection` is what the URI parser
/// says against the text.
pub open spec fn checked_url_of(s: Seq<char>, rejection: Option<Seq<char>>) -> Result<
    Target,
    Seq<char>,
> {
    match rejection {
        None => Ok(Target::HttpOrHttpsUrl(s)),
        Some(message) => Err(url_error(s, message)),
    }
}

/// What `http://` or `https://` text means.
pub open spec fn http_url_of(s: Seq<char>) -> Result<Target, Seq<char>> {
    checked_url_of(s, uri_rejection(s))
}

/// The text begins with `http://` or `https://`.
pub open spec fn has_http_scheme(s: Seq<char>) -> bool {
    "http://"@.is_prefix_of(s) || "https://"@.is_prefix_of(s)
}

/// What a text means as a target.
pub open spec fn target_of(s: Seq<char>) -> Result<Target, Seq<char>> {
    if has_http_scheme(s) {
        http_url_of(s)
    } else {
        host_and_port_of(s)
    }
}

/// The result `r` is `m`, seen as mathematical values.
pub open spec fn same_target(r: Result<ToCheck, String>, m: Result<Target, Seq<char>>) -> bool {
    match r {
        Ok(t) => m == Ok::<Target, Seq<char>>(t@),
        Err(e) => m == Err::<Target, Seq<char>>(e@),
    }
}

impl Target {
    /// What `from_str` accepts: a port that is not 0 behind a valid host, or a
    /// URI with one of the two schemes.
    pub open spec fn valid(self) -> bool {
        match self {
            Target::HostnameAndPort(host, port) => port != 0 && valid_host(host),
            Target::HttpOrHttpsUrl(url) => has_http_scheme(url) && uri_rejection(url) is None,
        }
    }

    /// The target as text.
    pub open spec fn text(self) -> Seq<char> {
        match self {
            Target::HostnameAndPort(host, port) => host + ":"@ + decimal(port as nat),
            Target::HttpOrHttpsUrl(url) => url,
        }
    }
}

/// What is written is read back: the text of a valid target means that
/// target.
pub proof fn lemma_text_reads_back(target: Target)
    requires
        target.valid(),
    ensures
        target_of(target.text()) == Ok::<Target, Seq<char>>(target),
{
    match target {
        Target::HttpOrHttpsUrl(url) => {},
        Target::HostnameAndPort(host, port) => {
            let number = decimal(port as nat);
            let text = target.text();
            let at = host.len() as int;
            reveal_strlit(":");
            reveal_strlit("http://");
            reveal_strlit("https://");
            lemma_decimal_reads_back(port as nat, PORT_MAX as nat);
            if is_ipv4_literal(host) {
                lemma_ipv4_is_hostname(host);
            }
            assert(text.len() == at + 1 + number.len());
            assert(text[at] == ':');
            assert forall|j: int| 0 <= j < text.len() && j != at implies text[j] != ':' by {
                if j < at {
                    assert(text[j] == host[j]);
                    assert(host[j] == '.' || is_label_char(host[j]));
                } else {
                    assert(text[j] == number[j - at - 1]);
                    assert(is_digit(number[j - at - 1]));
                }
            }
            assert(colon_at(text, at));
            let chosen = choose|i: int| colon_at(text, i);
            assert(chosen == at);
            assert(text.subrange(0, at) =~= host);
            assert(text.subrange(at + 1, text.len() as int) =~= number);
            assert(text[at + 1] == number[0]);
            assert(is_digit(number[0]));
            if "http://"@.is_prefix_of(text) {
                assert(text.subrange(0, 7)[4] == ':');
                assert(text.subrange(0, 7)[5] == '/');
            }
            if "https://"@.is_prefix_of(text) {
                assert(text.subrange(0, 8)[5] == ':');
                assert(text.subrange(0, 8)[6] == '/');
            }
        },
    }
}

/// The first position from `from` on that holds `c`, or the length of `s`.
fn find_char(s: &str, c: char, from: usize) -> (r: usize)
    requires
        from <= s@.len(),
    ensures
        from <= r <= s@.len(),
        r < s@.len() ==> s@[r as int] == c,
        forall|j: int| from <= j < r ==> s@[j] != c,
{
    let n: usize = s.unicode_len();
    let mut i: usize = from;
    while i < n
        invariant
            from <= i <= n == s@.len(),
            forall|j: int| from <= j < i ==> s@[j] != c,
        decreases n - i,
    {
        if s.get_char(i) == c {
            return i;
        }
        i = i + 1;
    }
    n
}

fn number_error_text(e: NumberError) -> (r: &'static str)
    ensures
        r@ == number_error_message(e),
{
    match e {
        NumberError::Empty => "cannot parse integer from empty string",
        NumberError::InvalidDigit => "invalid digit found in string",
        NumberError::TooLarge => "number too large to fit in target type",
    }
}

/// Asks `hyper::Uri`'s `FromStr` whether `text` is a URI. The contract names
/// the answer, which depends on `text` alone: `None` where the parser returns
/// a `Uri`, else the message that its `InvalidUri` displays.
#[verifier::external_body]
fn reject_uri(text: &str) -> (r: Option<String>)
    ensures
        match r {
            None => uri_rejection(text@) is None,
            Some(message) => uri_rejection(text@) == Some(message@),
        },
{
    match text.parse::<hyper::Uri>() {
        Ok(_) => None,
        Err(e) => Some(e.to_string()),
    }
}

impl ToCheck {
    /// Reads `<hostname>:<port>`.
    pub fn from_host_and_port(domain_and_port: &str) -> (r: Result<ToCheck, String>)
        ensures
            same_target(r, host_and_port_of(domain_and_port@)),
    {
        let s: &str = domain_and_port;
        let n: usize = s.unicode_len();
        let i: usize = find_char(s, ':', 0);
        if i == n {
            let mut message: String = String::from_str("'");
            message.append(s);
            message.append("' doesn't match <hostname>:<port> pattern");
            return Err(message);
        }
        let next: usize = find_char(s, ':', i + 1);
        if next < n {
            proof {
                assert forall|j: int| !colon_at(s@, j) by {
                    if colon_at(s@, j) {
                        assert(s@[i as int] == ':' && s@[next as int] == ':');
                    }
                }
            }
            let mut message: String = String::from_str("'");
            message.append(s);
            message.append("' doesn't match <hostname>:<port> pattern");
            return Err(message);
        }
        proof {
            assert(colon_at(s@, i as int));
            let chosen = choose|j: int| colon_at(s@, j);
            assert(chosen == i);
        }
        let host: &str = s.substring_char(0, i);
        let port_text: &str = s.substring_char(i + 1, n);
        match parse_decimal(port_text, PORT_MAX) {
            Err(e) => {
                let mut message: String = String::from_str("'");
                message.append(s);
                message.append("', port error: ");
                message.append(number_error_text(e));
                Err(message)
            },
            Ok(port) => {
                if port == 0 {
                    Err(String::from_str("dynamic port number (0) can't be used here"))
                } else if !is_valid_host(host) {
                    let mut message: String = String::from_str("'");
                    message.append(host);
                    message.append("' is not a valid hostname");
                    Err(message)
                } else {
                    Ok(ToCheck::HostnameAndPort(String::from_str(host), port as u16))
                }
            },
        }
    }

    /// Makes the target for `http_url`, given what the URI parser says against
    /// the text: the URL as it is written where the parser says nothing, else
    /// the message that names the text and the parser's objection.
    pub fn from_checked_url(http_url: &str, rejection: Option<String>) -> (r: Result<
        ToCheck,
        String,
    >)
        ensures
            same_target(
                r,
                checked_url_of(
                    http_url@,
                    match rejection {
                        Some(message) => Some(message@),
                        None => None,
                    },
                ),
            ),
    {
        match rejection {
            None => Ok(ToCheck::HttpOrHttpsUrl(String::from_str(http_url))),
            Some(rejection) => {
                let mut message: String = String::from_str("'");
                message.append(http_url);
                message.append("', url error: ");
                message.append(rejection.as_str());
                Err(message)
            },
        }
    }

    /// Reads a URL: the text must be a URI. The scheme is not looked at
    /// here: `from_str` sends only `http://` and `https://` texts this way.
    pub fn from_http_url(http_url: &str) -> (r: Result<ToCheck, String>)
        ensures
            same_target(r, http_url_of(http_url@)),
    {
        ToCheck::from_checked_url(http_url, reject_uri(http_url))
    }

    /// Reads a target: a URL where the text begins with `http://` or
    /// `https://`, else `<hostname>:<port>`.
    pub fn from_str(s: &str) -> (r: Result<ToCheck, String>)
        ensures
            same_target(r, target_of(s@)),
            r matches Ok(t) ==> t@.valid(),
    {
        if starts_with(s, "http://") || starts_with(s, "https://") {
            ToCheck::from_http_url(s)
        } else {
            proof {
                if exists|i: int| colon_at(s@, i) {
                    let i = choose|i: int| colon_at(s@, i);
                    lemma_decimal_within(s@.subrange(i + 1, s@.len() as int), PORT_MAX as nat);
                }
            }
            ToCheck::from_host_and_port(s)
        }
    }

    /// The target as text: `<hostname>:<port>`, or the URL.
    pub fn to_string(&self) -> (r: String)
        ensures
            r@ == self@.text(),
    {
        match self {
            ToCheck::HostnameAndPort(host, port) => {
                let mut r: String = host.clone();
                r.append(":");
                append_decimal(&mut r, *port as u64);
                r
            },
            ToCheck::HttpOrHttpsUrl(url) => url.clone(),
        }
    }
}

impl std::str::FromStr for ToCheck {
    type Err = String;

    /// Reads a target as `ToCheck::from_str` does, for `str::parse`.
    fn from_str(s: &str) -> (r: Result<ToCheck, String>)
        ensures
            same_target(r, target_of(s@)),
            r matches Ok(t) ==> t@.valid(),
    {
        ToCheck::from_str(s)
    }
}

} // verus!
