use vstd::prelude::*;
use vstd::string::*;

use crate::client_events::WebsocketClientError;
use crate::decimal::{decimal_chars, decimal_text};
use crate::ids::{parse_uuid, uuid_parse};
use crate::text::pairs_view;

verus! {

/// The error that `url::Url::parse` reports for text that is no URL.
#[verifier::external_type_specification]
#[verifier::external_body]
pub struct ExUrlParseError(url::ParseError);

/// The parts of a parsed URL that a connection reads: the scheme, the host
/// (absent for URLs such as `data:`), the port where it is written and is not
/// the scheme's default, and the URL's serialization.
#[derive(Clone, Debug, PartialEq, Eq)]
pub struct UrlParts {
    pub scheme: String,
    pub host: Option<String>,
    pub port: Option<u16>,
    pub serialized: String,
}

impl View for UrlParts {
    type V = (Seq<char>, Option<Seq<char>>, Option<u16>, Seq<char>);

    open spec fn view(&self) -> (Seq<char>, Option<Seq<char>>, Option<u16>, Seq<char>) {
        (
            self.scheme@,
            match self.host {
                Some(h) => Some(h@),
                None => None,
            },
            self.port,
            self.serialized@,
        )
    }
}

/// What `url::Url::parse` gives for `text`, read through `Url::scheme`,
/// `Url::host_str`, `Url::port` and `Url::as_str`; `None` where it reports an
/// error.
pub uninterp spec fn url_parse(text: Seq<char>) -> Option<
    (Seq<char>, Option<Seq<char>>, Option<u16>, Seq<char>),
>;

/// Calls `url::Url::parse` on `text` and reads the result's scheme
/// (`Url::scheme`), host (`Url::host_str`), port (`Url::port`) and
/// serialization (`Url::as_str`). Claimed: these are the parts named
/// `url_parse(text@)`, and an error comes exactly where that name is `None`.
#[verifier::external_body]
pub(crate) fn parse_url(text: &str) -> (r: Result<UrlParts, url::ParseError>)
    ensures
        match r {
            Ok(parts) => url_parse(text@) == Some(parts@),
            Err(_) => url_parse(text@) is None,
        },
{
    match url::Url::parse(text) {
        Ok(u) => Ok(
            UrlParts {
                scheme: u.scheme().to_string(),
                host: u.host_str().map(str::to_string),
                port: u.port(),
                serialized: u.as_str().to_string(),
            },
        ),
        Err(e) => Err(e),
    }
}

/// Whether `c` is a character of the standard base64 alphabet.
pub open spec fn is_base64_char(c: char) -> bool {
    ('A' <= c && c <= 'Z') || ('a' <= c && c <= 'z') || ('0' <= c && c <= '9') || c == '+' || c
        == '/'
}

/// Calls `tokio_tungstenite::tungstenite::handshake::client::generate_key`,
/// which draws 16 random bytes and writes them in padded standard base64.
/// Claimed: the key is 24 characters long, its first 22 are of the base64
/// alphabet and its last two are the padding `==` (what padded base64 makes
/// of 16 bytes); nothing is claimed of which characters, as they are random.
#[verifier::external_body]
fn generate_handshake_key() -> (key: String)
    ensures
        key@.len() == 24,
        forall|i: int| 0 <= i < 22 ==> is_base64_char(#[trigger] key@[i]),
        key@[22] == '=',
        key@[23] == '=',
{
    tokio_tungstenite::tungstenite::handshake::client::generate_key()
}

/// The port a client connects to where its URL names none: 80 for `ws`,
/// 443 for `wss`, and 80 for any other scheme.
pub open spec fn default_port(scheme: Seq<char>) -> u16 {
    if scheme == "ws"@ {
        80
    } else if scheme == "wss"@ {
        443
    } else {
        80
    }
}

/// The value of the `Host` header for a URL: host, colon, port (the URL's
/// own or the scheme's default) in decimal; `None` where the URL has no host.
pub open spec fn host_header_value(url: UrlParts) -> Option<Seq<char>> {
    match url.host {
        None => None,
        Some(h) => {
            let port = match url.port {
                Some(p) => p,
                None => default_port(url.scheme@),
            };
            Some(h@ + ":"@ + decimal_chars(port as nat))
        },
    }
}

/// The headers of the opening handshake of a client, before the extra ones:
/// `host`, the key, and the three fixed upgrade headers. Header names are
/// case-insensitive; they are written here in the lower case in which the
/// request keeps them.
pub open spec fn handshake_headers(host_value: Seq<char>, key: Seq<char>) -> Seq<
    (Seq<char>, Seq<char>),
> {
    seq![
        ("host"@, host_value),
        ("sec-websocket-key"@, key),
        ("upgrade"@, "Websocket"@),
        ("connection"@, "Upgrade"@),
        ("sec-websocket-version"@, "13"@),
    ]
}

/// Whether `c` may stand in a header name (an HTTP token character; letters
/// of either case).
pub open spec fn is_token_char(c: char) -> bool {
    ('a' <= c && c <= 'z') || ('A' <= c && c <= 'Z') || ('0' <= c && c <= '9') || c == '!' || c
        == '#' || c == '$' || c == '%' || c == '&' || c == '\'' || c == '*' || c == '+' || c == '-'
        || c == '.' || c == '^' || c == '_' || c == '`' || c == '|' || c == '~'
}

/// Whether `name` is a header name that the plugin can set: between 1 and
/// 65535 token characters.
pub open spec fn valid_header_name(name: Seq<char>) -> bool {
    1 <= name.len() <= 65535 && forall|i: int| 0 <= i < name.len() ==> is_token_char(#[trigger] name[i])
}

/// Whether `value` is a header value that the plugin can set: visible ASCII
/// characters, spaces and tabs only.
pub open spec fn valid_header_value(value: Seq<char>) -> bool {
    forall|i: int|
        0 <= i < value.len() ==> ((' ' <= #[trigger] value[i] && value[i] <= '~') || value[i] == '\t')
}

/// Whether every extra header has a valid name and value.
pub open spec fn valid_extra_headers(extra: Seq<(Seq<char>, Seq<char>)>) -> bool {
    forall|i: int|
        0 <= i < extra.len() ==> valid_header_name((#[trigger] extra[i]).0) && valid_header_value(
            extra[i].1,
        )
}

/// `c` with an ASCII upper-case letter made lower-case.
pub open spec fn ascii_lower_char(c: char) -> char {
    if 'A' <= c && c <= 'Z' {
        ((c as u32) + 32) as char
    } else {
        c
    }
}

/// `s` with every ASCII upper-case letter made lower-case; header names are
/// compared and kept in this form.
pub open spec fn ascii_lower(s: Seq<char>) -> Seq<char> {
    s.map_values(|c: char| ascii_lower_char(c))
}

/// Calls `str::to_ascii_lowercase`. Claimed, as std documents it: each ASCII
/// letter 'A' to 'Z' becomes 'a' to 'z', and every other character is kept.
#[verifier::external_body]
fn to_ascii_lowercase(s: &str) -> (r: String)
    ensures
        r@ == ascii_lower(s@),
{
    s.to_ascii_lowercase()
}

fn valid_header_name_exec(name: &str) -> (b: bool)
    ensures
        b == valid_header_name(name@),
{
    let n = name.unicode_len();
    if n < 1 || n > 65535 {
        return false;
    }
    let mut i: usize = 0;
    while i < n
        invariant
            n == name@.len(),
            i <= n,
            forall|j: int| 0 <= j < i ==> is_token_char(#[trigger] name@[j]),
        decreases n - i,
    {
        let c = name.get_char(i);
        let ok = ('a' <= c && c <= 'z') || ('A' <= c && c <= 'Z') || ('0' <= c && c <= '9') || c
            == '!' || c == '#' || c == '$' || c == '%' || c == '&' || c == '\'' || c == '*' || c
            == '+' || c == '-' || c == '.' || c == '^' || c == '_' || c == '`' || c == '|' || c
            == '~';
        if !ok {
            return false;
        }
        i = i + 1;
    }
    true
}

fn valid_header_value_exec(value: &str) -> (b: bool)
    ensures
        b == valid_header_value(value@),
{
    let n = value.unicode_len();
    let mut i: usize = 0;
    while i < n
        invariant
            n == value@.len(),
            i <= n,
            forall|j: int| 0 <= j < i ==> ((' ' <= #[trigger] value@[j] && value@[j] <= '~') || value@[j] == '\t'),
        decreases n - i,
    {
        let c = value.get_char(i);
        if !((' ' <= c && c <= '~') || c == '\t') {
            return false;
        }
        i = i + 1;
    }
    true
}

/// Whether every extra header has a valid name and value; the plugin
/// refuses a client whose extra headers are not, by stopping with a panic.
pub fn valid_extra_headers_of(extra: &Vec<(String, String)>) -> (b: bool)
    ensures
        b == valid_extra_headers(pairs_view(extra@)),
{
    let mut i: usize = 0;
    while i < extra.len()
        invariant
            i <= extra@.len(),
            forall|j: int|
                0 <= j < i ==> valid_header_name((#[trigger] pairs_view(extra@)[j]).0)
                    && valid_header_value(pairs_view(extra@)[j].1),
        decreases extra@.len() - i,
    {
        if !valid_header_name_exec(extra[i].0.as_str()) || !valid_header_value_exec(
            extra[i].1.as_str(),
        ) {
            proof {
                assert(pairs_view(extra@)[i as int] == (extra@[i as int].0@, extra@[i as int].1@));
            }
            return false;
        }
        i = i + 1;
    }
    true
}

/// Whether some header of the list has the name `name`.
pub open spec fn has_header(headers: Seq<(Seq<char>, Seq<char>)>, name: Seq<char>) -> bool {
    exists|i: int| 0 <= i < headers.len() && (#[trigger] headers[i]).0 == name
}

/// Sets the header `name` to the single value `value`: where the list has
/// that name, its value is replaced in place; else the header is added at
/// the end.
pub open spec fn set_header(
    headers: Seq<(Seq<char>, Seq<char>)>,
    name: Seq<char>,
    value: Seq<char>,
) -> Seq<(Seq<char>, Seq<char>)> {
    if has_header(headers, name) {
        headers.map_values(
            |p: (Seq<char>, Seq<char>)|
                if p.0 == name {
                    (name, value)
                } else {
                    p
                },
        )
    } else {
        headers.push((name, value))
    }
}

/// Sets each header of `extra`, in turn, over `headers`, under its name
/// made lower-case (header names are case-insensitive).
pub open spec fn set_headers(
    headers: Seq<(Seq<char>, Seq<char>)>,
    extra: Seq<(Seq<char>, Seq<char>)>,
) -> Seq<(Seq<char>, Seq<char>)>
    decreases extra.len(),
{
    if extra.len() == 0 {
        headers
    } else {
        let earlier = set_headers(headers, extra.drop_last());
        set_header(earlier, ascii_lower(extra.last().0), extra.last().1)
    }
}

/// The opening handshake of a client: the URI it is sent to and its
/// headers, the extra ones already set over the fixed ones.
#[derive(Clone, Debug, PartialEq, Eq)]
pub struct HandshakeRequest {
    pub uri: String,
    pub headers: Vec<(String, String)>,
}

/// Sets the header `name` to the single value `value` in `headers`.
pub fn set_header_in(headers: &mut Vec<(String, String)>, name: &String, value: &String)
    ensures
        pairs_view(final(headers)@) == set_header(pairs_view(old(headers)@), name@, value@),
{
    let ghost before = pairs_view(headers@);
    let mut found = false;
    let mut i: usize = 0;
    while i < headers.len()
        invariant
            i <= headers@.len(),
            headers@.len() == before.len(),
            found ==> exists|j: int| 0 <= j < i && (#[trigger] before[j]).0 == name@,
            !found ==> forall|j: int| 0 <= j < i ==> (#[trigger] before[j]).0 != name@,
            forall|j: int|
                0 <= j < headers@.len() ==> (#[trigger] pairs_view(headers@)[j]) == if j < i
                    && before[j].0 == name@ {
                    (name@, value@)
                } else {
                    before[j]
                },
        decreases headers@.len() - i,
    {
        let ghost prev = headers@;
        proof {
            assert(pairs_view(prev)[i as int] == before[i as int]);
        }
        if headers[i].0 == *name {
            headers.set(i, (name.clone(), value.clone()));
            found = true;
        }
        proof {
            assert forall|j: int| 0 <= j < headers@.len() implies (#[trigger] pairs_view(headers@)[j])
                == if j < i + 1 && before[j].0 == name@ {
                (name@, value@)
            } else {
                before[j]
            } by {
                if j != i {
                    assert(headers@[j] == prev[j]);
                    assert(pairs_view(prev)[j] == pairs_view(headers@)[j]);
                }
            }
        }
        i = i + 1;
    }
    if found {
        proof {
            let j = choose|j: int| 0 <= j < i && (#[trigger] before[j]).0 == name@;
            assert(has_header(before, name@));
            assert(pairs_view(headers@) =~= set_header(before, name@, value@));
        }
    } else {
        proof {
            assert(pairs_view(headers@) =~= before);
        }
        let ghost kept = headers@;
        let added = (name.clone(), value.clone());
        headers.push(added);
        proof {
            assert(headers@ == kept.push(added));
            assert(pairs_view(headers@) =~= pairs_view(kept).push((name@, value@)));
            assert(!has_header(before, name@));
            assert(pairs_view(headers@) =~= set_header(before, name@, value@));
        }
    }
}

/// The port a client connects to where its URL names none.
pub fn default_port_of(scheme: &String) -> (port: u16)
    ensures
        port == default_port(scheme@),
{
    proof {
        reveal_strlit("ws");
        reveal_strlit("wss");
    }
    let ws = String::from_str("ws");
    let wss = String::from_str("wss");
    if *scheme == ws {
        80
    } else if *scheme == wss {
        443
    } else {
        80
    }
}

/// The handshake of a client for `url` with the given key, each extra
/// header set over the fixed ones in turn (one of the same name, in any
/// case, replaces it). It fails with a connection error "Host is not set"
/// where the URL has no host.
pub fn handshake_request_with_key(
    url: &UrlParts,
    key: String,
    extra_headers: Vec<(String, String)>,
) -> (r: Result<HandshakeRequest, WebsocketClientError>)
    requires
        valid_extra_headers(pairs_view(extra_headers@)),
    ensures
        match host_header_value(*url) {
            None => r matches Err(WebsocketClientError::ConnectionError(m)) && m@
                == "Host is not set"@,
            Some(host_value) => r matches Ok(req) && req.uri@ == url.serialized@ && pairs_view(
                req.headers@,
            ) == set_headers(handshake_headers(host_value, key@), pairs_view(extra_headers@)),
        },
{
    proof {
        reveal_strlit("Host is not set");
        reveal_strlit(":");
        reveal_strlit("host");
        reveal_strlit("sec-websocket-key");
        reveal_strlit("upgrade");
        reveal_strlit("Websocket");
        reveal_strlit("connection");
        reveal_strlit("Upgrade");
        reveal_strlit("sec-websocket-version");
        reveal_strlit("13");
    }
    let host = match &url.host {
        None => {
            return Err(WebsocketClientError::ConnectionError(String::from_str("Host is not set")));
        },
        Some(h) => h,
    };
    let port = match url.port {
        Some(p) => p,
        None => default_port_of(&url.scheme),
    };
    let mut host_value = host.clone();
    host_value.append(":");
    let port_text = decimal_text(port as u32);
    host_value.append(port_text.as_str());
    let ghost host_spec = host_value@;
    let ghost key_spec = key@;
    let mut headers: Vec<(String, String)> = Vec::new();
    headers.push((String::from_str("host"), host_value));
    headers.push((String::from_str("sec-websocket-key"), key));
    headers.push((String::from_str("upgrade"), String::from_str("Websocket")));
    headers.push((String::from_str("connection"), String::from_str("Upgrade")));
    headers.push((String::from_str("sec-websocket-version"), String::from_str("13")));
    let ghost base = handshake_headers(host_spec, key_spec);
    proof {
        assert(pairs_view(headers@) =~= base);
        assert(host_spec == host_header_value(*url)->0);
    }
    let mut i: usize = 0;
    while i < extra_headers.len()
        invariant
            i <= extra_headers@.len(),
            pairs_view(headers@) == set_headers(
                base,
                pairs_view(extra_headers@).subrange(0, i as int),
            ),
        decreases extra_headers@.len() - i,
    {
        let name = to_ascii_lowercase(extra_headers[i].0.as_str());
        set_header_in(&mut headers, &name, &extra_headers[i].1);
        proof {
            let ev = pairs_view(extra_headers@);
            assert(ev.subrange(0, i + 1).drop_last() =~= ev.subrange(0, i as int));
            assert(ev.subrange(0, i + 1).last() == ev[i as int]);
        }
        i = i + 1;
    }
    proof {
        assert(pairs_view(extra_headers@).subrange(0, i as int) =~= pairs_view(extra_headers@));
    }
    Ok(HandshakeRequest { uri: url.serialized.clone(), headers })
}

/// The handshake of a client for `url`, with a freshly drawn random key of
/// 24 base64 characters: the extra headers set over the fixed headers of
/// that key. It fails with a connection error "Host is not set" where the
/// URL has no host.
pub fn build_handshake_request(url: &UrlParts, extra_headers: Vec<(String, String)>) -> (r: Result<
    HandshakeRequest,
    WebsocketClientError,
>)
    requires
        valid_extra_headers(pairs_view(extra_headers@)),
    ensures
        match host_header_value(*url) {
            None => r matches Err(WebsocketClientError::ConnectionError(m)) && m@
                == "Host is not set"@,
            Some(host_value) => r matches Ok(req) && req.uri@ == url.serialized@ && exists|
                key: Seq<char>,
            |
                #![trigger handshake_headers(host_value, key)]
                key.len() == 24 && key[22] == '=' && key[23] == '=' && pairs_view(req.headers@)
                    == set_headers(handshake_headers(host_value, key), pairs_view(extra_headers@)),
        },
{
    let key = generate_handshake_key();
    let ghost k = key@;
    let ghost ev = pairs_view(extra_headers@);
    let r = handshake_request_with_key(url, key, extra_headers);
    proof {
        if r is Ok {
            let hv = host_header_value(*url)->0;
            assert(pairs_view(r->Ok_0.headers@) == set_headers(handshake_headers(hv, k), ev));
        }
    }
    r
}

/// Why the settings of a client were refused.
#[derive(Clone, Copy, Debug, PartialEq, Eq)]
pub enum ClientSetupError {
    /// The client id is not a UUID.
    InvalidClientId,
    /// The address to connect to is not a URL.
    InvalidAddress,
}

/// What a client is made from: its id, the URL it connects to, and the
/// extra headers of its handshake.
#[derive(Clone, Debug, PartialEq, Eq)]
pub struct ClientSettings {
    pub id: u128,
    pub connect_addr: UrlParts,
    pub extra_headers: Vec<(String, String)>,
}

impl ClientSettings {
    /// Reads the settings of a client: `client_id` must be a UUID (checked
    /// first) and `connect_addr` a URL.
    pub fn parse(client_id: &str, connect_addr: &str, extra_headers: Vec<(String, String)>) -> (r:
        Result<ClientSettings, ClientSetupError>)
        ensures
            uuid_parse(client_id@) is None ==> r == Err::<ClientSettings, ClientSetupError>(
                ClientSetupError::InvalidClientId,
            ),
            uuid_parse(client_id@) is Some && url_parse(connect_addr@) is None ==> r == Err::<
                ClientSettings,
                ClientSetupError,
            >(ClientSetupError::InvalidAddress),
            uuid_parse(client_id@) is Some && url_parse(connect_addr@) is Some ==> (r matches Ok(s)
                && Some(s.id) == uuid_parse(client_id@) && Some(s.connect_addr@) == url_parse(
                connect_addr@,
            ) && s.extra_headers == extra_headers),
    {
        let id = match parse_uuid(client_id) {
            Ok(id) => id,
            Err(_) => {
                return Err(ClientSetupError::InvalidClientId);
            },
        };
        let url = match parse_url(connect_addr) {
            Ok(url) => url,
            Err(_) => {
                return Err(ClientSetupError::InvalidAddress);
            },
        };
        Ok(ClientSettings { id, connect_addr: url, extra_headers })
    }
}

} // verus!

verus! {

proof fn lemma_set_header_holds(
    headers: Seq<(Seq<char>, Seq<char>)>,
    name: Seq<char>,
    value: Seq<char>,
)
    ensures
        set_header(headers, name, value).contains((name, value)),
        forall|p: (Seq<char>, Seq<char>)|
            headers.contains(p) && p.0 != name ==> #[trigger] set_header(headers, name, value).contains(p),
        forall|i: int|
            0 <= i < set_header(headers, name, value).len() ==> #[trigger] set_header(
                headers,
                name,
                value,
            )[i] == (name, value) || headers.contains(set_header(headers, name, value)[i]),
{
    let r = set_header(headers, name, value);
    if has_header(headers, name) {
        let i = choose|i: int| 0 <= i < headers.len() && (#[trigger] headers[i]).0 == name;
        assert(r[i] == (name, value));
        assert forall|p: (Seq<char>, Seq<char>)| headers.contains(p) && p.0 != name implies #[trigger] r.contains(
            p,
        ) by {
            let j = headers.index_of(p);
            assert(r[j] == p);
        }
        assert forall|i: int| 0 <= i < r.len() implies #[trigger] r[i] == (name, value) || headers.contains(
            r[i],
        ) by {
            if headers[i].0 != name {
                assert(r[i] == headers[i]);
            }
        }
    } else {
        assert(r[headers.len() as int] == (name, value));
        assert forall|p: (Seq<char>, Seq<char>)| headers.contains(p) && p.0 != name implies #[trigger] r.contains(
            p,
        ) by {
            let j = headers.index_of(p);
            assert(r[j] == p);
        }
        assert forall|i: int| 0 <= i < r.len() implies #[trigger] r[i] == (name, value) || headers.contains(
            r[i],
        ) by {
            if i < headers.len() {
                assert(r[i] == headers[i]);
            }
        }
    }
}

/// Every extra header reaches the request with its value exactly as given,
/// under its name made lower-case, unless a later extra header of the same
/// name (in any case) replaces it; header values are never altered.
pub proof fn law_extra_header_values_kept_verbatim(
    headers: Seq<(Seq<char>, Seq<char>)>,
    extra: Seq<(Seq<char>, Seq<char>)>,
    j: int,
)
    requires
        0 <= j < extra.len(),
        forall|l: int| j < l < extra.len() ==> ascii_lower(#[trigger] extra[l].0) != ascii_lower(extra[j].0),
    ensures
        set_headers(headers, extra).contains((ascii_lower(extra[j].0), extra[j].1)),
    decreases extra.len(),
{
    let last = extra.len() - 1;
    let earlier = set_headers(headers, extra.drop_last());
    lemma_set_header_holds(earlier, ascii_lower(extra[last].0), extra[last].1);
    if j < last {
        assert forall|l: int| j < l < extra.drop_last().len() implies ascii_lower(
            #[trigger] extra.drop_last()[l].0,
        ) != ascii_lower(extra.drop_last()[j].0) by {
            assert(extra.drop_last()[l] == extra[l]);
        }
        law_extra_header_values_kept_verbatim(headers, extra.drop_last(), j);
        assert(extra.drop_last()[j] == extra[j]);
        assert(ascii_lower(extra[last].0) != ascii_lower(extra[j].0));
    }
}

/// A fixed header whose name no extra header sets (in any case) reaches the
/// request unchanged.
pub proof fn law_fixed_headers_kept_unless_replaced(
    headers: Seq<(Seq<char>, Seq<char>)>,
    extra: Seq<(Seq<char>, Seq<char>)>,
    p: (Seq<char>, Seq<char>),
)
    requires
        headers.contains(p),
        forall|l: int| 0 <= l < extra.len() ==> ascii_lower(#[trigger] extra[l].0) != p.0,
    ensures
        set_headers(headers, extra).contains(p),
    decreases extra.len(),
{
    if extra.len() > 0 {
        let last = extra.len() - 1;
        assert forall|l: int| 0 <= l < extra.drop_last().len() implies ascii_lower(
            #[trigger] extra.drop_last()[l].0,
        ) != p.0 by {
            assert(extra.drop_last()[l] == extra[l]);
        }
        law_fixed_headers_kept_unless_replaced(headers, extra.drop_last(), p);
        let earlier = set_headers(headers, extra.drop_last());
        lemma_set_header_holds(earlier, ascii_lower(extra[last].0), extra[last].1);
        assert(ascii_lower(extra[last].0) != p.0);
    }
}

/// Every header of the request is either a fixed header, unchanged, or an
/// extra header with its value exactly as given and its name made
/// lower-case: nothing else is added and no value is altered.
pub proof fn law_request_headers_come_from_inputs(
    headers: Seq<(Seq<char>, Seq<char>)>,
    extra: Seq<(Seq<char>, Seq<char>)>,
    i: int,
)
    requires
        0 <= i < set_headers(headers, extra).len(),
    ensures
        headers.contains(set_headers(headers, extra)[i]) || exists|l: int|
            0 <= l < extra.len() && set_headers(headers, extra)[i] == (
                ascii_lower(#[trigger] extra[l].0),
                extra[l].1,
            ),
    decreases extra.len(),
{
    if extra.len() > 0 {
        let last = extra.len() - 1;
        let earlier = set_headers(headers, extra.drop_last());
        let r = set_headers(headers, extra);
        lemma_set_header_holds(earlier, ascii_lower(extra[last].0), extra[last].1);
        assert(r[i] == (ascii_lower(extra[last].0), extra[last].1) || earlier.contains(r[i]));
        if r[i] != (ascii_lower(extra[last].0), extra[last].1) {
            let k = earlier.index_of(r[i]);
            law_request_headers_come_from_inputs(headers, extra.drop_last(), k);
            if !headers.contains(r[i]) {
                let l = choose|l: int|
                    0 <= l < extra.drop_last().len() && earlier[k] == (
                        ascii_lower(#[trigger] extra.drop_last()[l].0),
                        extra.drop_last()[l].1,
                    );
                assert(extra.drop_last()[l] == extra[l]);
            }
        }
    }
}

} // verus!
