//! The WebSocket handshake: request validation, the `Sec-WebSocket-Accept` key,
//! subprotocol negotiation and the `101 Switching Protocols` response.

use base64::Engine;
use sha1::Digest;
use vstd::prelude::*;
use vstd::string::*;
use vstd::utf8::*;
use crate::headers::{
    header_str, header_text, header_insert, is_valid_header_value,
    valid_header_value, is_header_value_char,
};
use crate::method_filter::Method;
use crate::response::{has_single, lacks, Response};
use crate::text::{
    eq_ignore_ascii_case, eq_ignore_ascii_case_spec, split, split_spec, str_eq, strings_view, trim,
    trim_spec, is_whitespace, lemma_trim_ends,
};

verus! {

/// The GUID that RFC 6455 appends to the client key before hashing.
pub open spec fn websocket_guid() -> Seq<char> {
    "258EAFA5-E914-47DA-95CA-C5AB0DC85B11"@
}

/// The SHA-1 digest of `data` (`sha1::Sha1::digest`).
pub uninterp spec fn sha1_of(data: Seq<u8>) -> Seq<u8>;

/// The character of a 6-bit value in the standard Base64 alphabet
/// (`A`-`Z`, `a`-`z`, `0`-`9`, `+`, `/`).
pub open spec fn base64_digit(v: int) -> char {
    if v < 26 {
        (65 + v) as char
    } else if v < 52 {
        (97 + (v - 26)) as char
    } else if v < 62 {
        (48 + (v - 52)) as char
    } else if v == 62 {
        '+'
    } else {
        '/'
    }
}

/// The standard, padded Base64 encoding of `data` (RFC 4648, section 4):
/// each group of three bytes becomes four characters, six bits each, most
/// significant first; a final group of one or two bytes is padded with `=`
/// to four characters.
pub open spec fn base64_standard_of(data: Seq<u8>) -> Seq<char>
    decreases data.len(),
{
    if data.len() == 0 {
        Seq::empty()
    } else if data.len() == 1 {
        seq![
            base64_digit((data[0] / 4) as int),
            base64_digit(((data[0] % 4) * 16) as int),
            '=',
            '=',
        ]
    } else if data.len() == 2 {
        seq![
            base64_digit((data[0] / 4) as int),
            base64_digit(((data[0] % 4) * 16 + data[1] / 16) as int),
            base64_digit(((data[1] % 16) * 4) as int),
            '=',
        ]
    } else {
        seq![
            base64_digit((data[0] / 4) as int),
            base64_digit(((data[0] % 4) * 16 + data[1] / 16) as int),
            base64_digit(((data[1] % 16) * 4 + data[2] / 64) as int),
            base64_digit((data[2] % 64) as int),
        ] + base64_standard_of(data.subrange(3, data.len() as int))
    }
}

/// A character of the standard Base64 alphabet, or the padding `=`.
pub open spec fn is_base64_char(c: char) -> bool {
    ('A' <= c && c <= 'Z') || ('a' <= c && c <= 'z') || ('0' <= c && c <= '9') || c == '+' || c
        == '/' || c == '='
}

/// `sha1::Sha1::digest`: the 20-byte SHA-1 digest of `data`.
#[verifier::external_body]
fn sha1_digest(data: &[u8]) -> (r: Vec<u8>)
    ensures
        r@ == sha1_of(data@),
        r@.len() == 20,
{
    sha1::Sha1::digest(data).to_vec()
}

/// Every 6-bit value has a character of the alphabet.
proof fn lemma_base64_digit(v: int)
    requires
        0 <= v < 64,
    ensures
        is_base64_char(base64_digit(v)),
{
    if v < 26 {
        assert(((65 + v) as char) as int == 65 + v);
    } else if v < 52 {
        assert(((97 + (v - 26)) as char) as int == 97 + (v - 26));
    } else if v < 62 {
        assert(((48 + (v - 52)) as char) as int == 48 + (v - 52));
    }
}

/// Base64 text is made of the alphabet and `=` only.
pub proof fn lemma_base64_chars(data: Seq<u8>)
    ensures
        forall|i: int|
            0 <= i < base64_standard_of(data).len() ==> #[trigger] is_base64_char(
                base64_standard_of(data)[i],
            ),
    decreases data.len(),
{
    if data.len() > 0 {
        let a = data[0];
        lemma_base64_digit((a / 4) as int);
        lemma_base64_digit(((a % 4) * 16) as int);
        if data.len() >= 2 {
            let b = data[1];
            lemma_base64_digit(((a % 4) * 16 + b / 16) as int);
            lemma_base64_digit(((b % 16) * 4) as int);
            if data.len() >= 3 {
                let c = data[2];
                lemma_base64_digit(((b % 16) * 4 + c / 64) as int);
                lemma_base64_digit((c % 64) as int);
                lemma_base64_chars(data.subrange(3, data.len() as int));
                let head = seq![
                    base64_digit((a / 4) as int),
                    base64_digit(((a % 4) * 16 + b / 16) as int),
                    base64_digit(((b % 16) * 4 + c / 64) as int),
                    base64_digit((c % 64) as int),
                ];
                let tail = base64_standard_of(data.subrange(3, data.len() as int));
                assert forall|i: int| 0 <= i < (head + tail).len() implies #[trigger] is_base64_char(
                    (head + tail)[i],
                ) by {
                    if i >= 4 {
                        assert((head + tail)[i] == tail[i - 4]);
                    }
                }
            }
        }
    }
}

/// `STANDARD.encode`: Base64 with the standard alphabet and `=` padding.
#[verifier::external_body]
fn base64_encode(data: &[u8]) -> (r: String)
    ensures
        r@ == base64_standard_of(data@),
{
    base64::engine::general_purpose::STANDARD.encode(data)
}

/// The `Sec-WebSocket-Accept` value for a client key: `base64(SHA-1(key || GUID))`.
pub open spec fn accept_key_spec(client_key: Seq<char>) -> Seq<char> {
    base64_standard_of(sha1_of(encode_utf8(client_key + websocket_guid())))
}

/// Compute the `Sec-WebSocket-Accept` header value.
pub fn compute_accept_key(client_key: &str) -> (r: String)
    ensures
        r@ == accept_key_spec(client_key@),
        forall|i: int| 0 <= i < r@.len() ==> #[trigger] is_base64_char(r@[i]),
{
    let mut input = client_key.to_owned();
    input.append("258EAFA5-E914-47DA-95CA-C5AB0DC85B11");
    let digest = sha1_digest(input.as_str().as_bytes());
    proof {
        lemma_base64_chars(digest@);
    }
    base64_encode(digest.as_slice())
}

/// Why a request cannot be upgraded to a WebSocket.
#[derive(Debug, Clone, Copy, PartialEq, Eq, Structural)]
pub enum WebSocketUpgradeRejection {
    MethodNotGet,
    ConnectionNotUpgrade,
    UpgradeNotWebSocket,
    InvalidWebSocketVersionHeader,
    MissingSecWebSocketKey,
}

impl WebSocketUpgradeRejection {
    /// The HTTP status of the rejection.
    pub fn status(&self) -> (r: u16)
        ensures
            r == (if *self == WebSocketUpgradeRejection::MethodNotGet {
                405u16
            } else {
                400u16
            }),
    {
        match self {
            WebSocketUpgradeRejection::MethodNotGet => 405,
            _ => 400,
        }
    }
}

/// Some comma-separated token of `v`, trimmed, equals `token` ignoring ASCII case.
pub open spec fn has_token_ci(v: Seq<char>, token: Seq<char>) -> bool {
    exists|i: int|
        0 <= i < split_spec(v, ',').len() && eq_ignore_ascii_case_spec(
            trim_spec(#[trigger] split_spec(v, ',')[i]),
            token,
        )
}

/// `Connection` lists the `upgrade` token.
pub open spec fn connection_ok(h: http::HeaderMap) -> bool {
    match header_text(h, "connection"@) {
        Some(v) => has_token_ci(v, "upgrade"@),
        None => false,
    }
}

/// `Upgrade` is `websocket`, ignoring surrounding whitespace and ASCII case.
pub open spec fn upgrade_ok(h: http::HeaderMap) -> bool {
    match header_text(h, "upgrade"@) {
        Some(v) => eq_ignore_ascii_case_spec(trim_spec(v), "websocket"@),
        None => false,
    }
}

/// `Sec-WebSocket-Version` is `13`, ignoring surrounding whitespace.
pub open spec fn version_ok(h: http::HeaderMap) -> bool {
    match header_text(h, "sec-websocket-version"@) {
        Some(v) => trim_spec(v) == "13"@,
        None => false,
    }
}

/// The trimmed `Sec-WebSocket-Key`.
pub open spec fn sec_key_spec(h: http::HeaderMap) -> Option<Seq<char>> {
    match header_text(h, "sec-websocket-key"@) {
        Some(v) => Some(trim_spec(v)),
        None => None,
    }
}

/// The trimmed pieces that are not empty, in order.
pub open spec fn nonempty_trimmed(parts: Seq<Seq<char>>) -> Seq<Seq<char>>
    decreases parts.len(),
{
    if parts.len() == 0 {
        Seq::empty()
    } else if trim_spec(parts.last()).len() > 0 {
        nonempty_trimmed(parts.drop_last()).push(trim_spec(parts.last()))
    } else {
        nonempty_trimmed(parts.drop_last())
    }
}

proof fn lemma_nonempty_trimmed_items(parts: Seq<Seq<char>>)
    ensures
        forall|i: int|
            0 <= i < nonempty_trimmed(parts).len() ==> exists|k: int|
                0 <= k < parts.len() && #[trigger] nonempty_trimmed(parts)[i] == trim_spec(
                    parts[k],
                ) && trim_spec(parts[k]).len() > 0,
        forall|k: int|
            0 <= k < parts.len() && trim_spec(#[trigger] parts[k]).len() > 0 ==> nonempty_trimmed(
                parts,
            ).contains(trim_spec(parts[k])),
    decreases parts.len(),
{
    if parts.len() > 0 {
        let init = parts.drop_last();
        lemma_nonempty_trimmed_items(init);
        let prev = nonempty_trimmed(init);
        let cur = nonempty_trimmed(parts);
        let n = parts.len() - 1;
        assert forall|i: int| 0 <= i < cur.len() implies exists|k: int|
            0 <= k < parts.len() && #[trigger] cur[i] == trim_spec(parts[k]) && trim_spec(
                parts[k],
            ).len() > 0 by {
            if i < prev.len() {
                assert(cur[i] == prev[i]);
                let k = choose|k: int|
                    0 <= k < init.len() && #[trigger] prev[i] == trim_spec(init[k]) && trim_spec(
                        init[k],
                    ).len() > 0;
                assert(init[k] == parts[k]);
            } else {
                assert(cur[i] == trim_spec(parts[n]));
            }
        }
        assert forall|k: int|
            0 <= k < parts.len() && trim_spec(#[trigger] parts[k]).len() > 0 implies cur.contains(
            trim_spec(parts[k]),
        ) by {
            if k < n {
                assert(init[k] == parts[k]);
                let j = choose|j: int| 0 <= j < prev.len() && prev[j] == trim_spec(init[k]);
                assert(cur[j] == prev[j]);
            } else {
                assert(cur[cur.len() - 1] == trim_spec(parts[n]));
            }
        }
    }
}

/// The client protocols offered in a `Sec-WebSocket-Protocol` value are its
/// comma-separated pieces with the surrounding whitespace removed and empty
/// ones dropped: every item is non-empty, neither starts nor ends with
/// whitespace, and is the trimmed text of one piece; and every piece that is
/// not blank is offered, trimmed. So `"graphql-ws, chat"` offers `chat`.
pub proof fn lemma_protocol_items(v: Seq<char>)
    ensures
        forall|i: int|
            0 <= i < nonempty_items(v).len() ==> {
                let p = #[trigger] nonempty_items(v)[i];
                &&& p.len() > 0
                &&& !is_whitespace(p[0]) && !is_whitespace(p.last())
                &&& exists|k: int|
                    0 <= k < split_spec(v, ',').len() && p == trim_spec(split_spec(v, ',')[k])
            },
        forall|k: int|
            0 <= k < split_spec(v, ',').len() && trim_spec(#[trigger] split_spec(v, ',')[k]).len()
                > 0 ==> nonempty_items(v).contains(trim_spec(split_spec(v, ',')[k])),
{
    let parts = split_spec(v, ',');
    lemma_nonempty_trimmed_items(parts);
    assert forall|i: int| 0 <= i < nonempty_items(v).len() implies {
        let p = #[trigger] nonempty_items(v)[i];
        &&& p.len() > 0
        &&& !is_whitespace(p[0]) && !is_whitespace(p.last())
        &&& exists|k: int| 0 <= k < parts.len() && p == trim_spec(parts[k])
    } by {
        let p = nonempty_items(v)[i];
        assert(nonempty_trimmed(parts)[i] == p);
        let k = choose|k: int|
            0 <= k < parts.len() && #[trigger] nonempty_trimmed(parts)[i] == trim_spec(parts[k])
                && trim_spec(parts[k]).len() > 0;
        lemma_trim_ends(parts[k]);
    }
}

/// The trimmed, non-empty comma-separated items of a header value.
pub open spec fn nonempty_items(v: Seq<char>) -> Seq<Seq<char>> {
    nonempty_trimmed(split_spec(v, ','))
}

/// The subprotocols the client offers, in order.
pub open spec fn client_protocols_spec(h: http::HeaderMap) -> Seq<Seq<char>> {
    match header_text(h, "sec-websocket-protocol"@) {
        Some(v) => nonempty_items(v),
        None => Seq::empty(),
    }
}

/// The first client-offered protocol that the server also accepts.
pub open spec fn negotiate(client: Seq<Seq<char>>, ours: Seq<Seq<char>>) -> Option<Seq<char>>
    decreases client.len(),
{
    if client.len() == 0 {
        None
    } else if ours.contains(client[0]) {
        Some(client[0])
    } else {
        negotiate(client.drop_first(), ours)
    }
}

/// The rejection a handshake request gets, if any; checks run in this order.
pub open spec fn handshake_rejection(
    method: Method,
    h: http::HeaderMap,
) -> Option<WebSocketUpgradeRejection> {
    if !(method is Get) {
        Some(WebSocketUpgradeRejection::MethodNotGet)
    } else if !connection_ok(h) {
        Some(WebSocketUpgradeRejection::ConnectionNotUpgrade)
    } else if !upgrade_ok(h) {
        Some(WebSocketUpgradeRejection::UpgradeNotWebSocket)
    } else if !version_ok(h) {
        Some(WebSocketUpgradeRejection::InvalidWebSocketVersionHeader)
    } else if sec_key_spec(h) is None {
        Some(WebSocketUpgradeRejection::MissingSecWebSocketKey)
    } else {
        None
    }
}

/// Connection configuration.
#[derive(Debug, Clone)]
pub struct WebSocketConfig {
    /// Maximum message payload size in bytes. Default: 64 MiB.
    pub max_message_size: Option<usize>,
    /// Maximum single frame size in bytes. Default: 16 MiB.
    pub max_frame_size: Option<usize>,
    /// Accept frames from a client without masking. Default: `false`.
    pub accept_unmasked_frames: bool,
    /// Accepted subprotocols in preference order.
    pub protocols: Vec<String>,
    /// Size of the write buffer before flushing. Default: 128 KiB.
    pub write_buffer_size: usize,
    /// Maximum size of the write buffer (soft limit). Default: 512 KiB.
    pub max_write_buffer_size: usize,
}

impl Default for WebSocketConfig {
    fn default() -> (r: WebSocketConfig)
        ensures
            r.max_message_size == Some(67108864usize),
            r.max_frame_size == Some(16777216usize),
            !r.accept_unmasked_frames,
            r.protocols@.len() == 0,
            r.write_buffer_size == 131072,
            r.max_write_buffer_size == 524288,
    {
        WebSocketConfig {
            max_message_size: Some(64 * 1024 * 1024),
            max_frame_size: Some(16 * 1024 * 1024),
            accept_unmasked_frames: false,
            protocols: Vec::new(),
            write_buffer_size: 128 * 1024,
            max_write_buffer_size: 512 * 1024,
        }
    }
}

/// A validated WebSocket handshake, before the connection is switched.
pub struct WebSocketUpgrade {
    accept_key: String,
    selected_protocol: Option<String>,
    client_protocols: Vec<String>,
    config: WebSocketConfig,
}

/// The handshake as text.
pub struct WebSocketUpgradeView {
    pub accept_key: Seq<char>,
    pub selected_protocol: Option<Seq<char>>,
    pub client_protocols: Seq<Seq<char>>,
    pub max_message_size: Option<usize>,
    pub max_frame_size: Option<usize>,
    pub accept_unmasked_frames: bool,
    pub protocols: Seq<Seq<char>>,
    pub write_buffer_size: usize,
    pub max_write_buffer_size: usize,
}

impl WebSocketUpgrade {
    /// The accept key is Base64 text.
    #[verifier::type_invariant]
    spec fn accept_key_is_base64(&self) -> bool {
        forall|i: int| 0 <= i < self.accept_key@.len() ==> #[trigger] is_base64_char(self.accept_key@[i])
    }
}

impl View for WebSocketUpgrade {
    type V = WebSocketUpgradeView;

    closed spec fn view(&self) -> WebSocketUpgradeView {
        WebSocketUpgradeView {
            accept_key: self.accept_key@,
            selected_protocol: match self.selected_protocol {
                Some(s) => Some(s@),
                None => None,
            },
            client_protocols: strings_view(self.client_protocols@),
            max_message_size: self.config.max_message_size,
            max_frame_size: self.config.max_frame_size,
            accept_unmasked_frames: self.config.accept_unmasked_frames,
            protocols: strings_view(self.config.protocols@),
            write_buffer_size: self.config.write_buffer_size,
            max_write_buffer_size: self.config.max_write_buffer_size,
        }
    }
}

/// The trimmed, non-empty items of a comma-separated value.
fn nonempty_items_of(v: &str) -> (r: Vec<String>)
    ensures
        strings_view(r@) == nonempty_items(v@),
{
    let parts = split(v, ',');
    let ghost pv = strings_view(parts@);
    let mut out: Vec<String> = Vec::new();
    let mut i: usize = 0;
    proof {
        assert(pv.take(0) =~= Seq::<Seq<char>>::empty());
        assert(strings_view(out@) =~= Seq::<Seq<char>>::empty());
    }
    while i < parts.len()
        invariant
            pv == strings_view(parts@),
            pv == split_spec(v@, ','),
            i <= parts@.len(),
            strings_view(out@) == nonempty_trimmed(pv.take(i as int)),
        decreases parts@.len() - i,
    {
        let t = trim(parts[i].as_str());
        proof {
            assert(pv[i as int] == parts@[i as int]@);
            assert(pv.take(i + 1).drop_last() =~= pv.take(i as int));
            assert(pv.take(i + 1).last() == pv[i as int]);
        }
        if t.unicode_len() > 0 {
            let ghost before = out@;
            out.push(t);
            assert(strings_view(out@) =~= strings_view(before).push(t@));
        }
        i = i + 1;
    }
    assert(pv.take(parts@.len() as int) =~= pv);
    out
}

/// Whether some comma-separated item of `v`, trimmed, equals `token` ignoring ASCII case.
fn has_token(v: &str, token: &str) -> (r: bool)
    ensures
        r == has_token_ci(v@, token@),
{
    let parts = split(v, ',');
    let mut i: usize = 0;
    while i < parts.len()
        invariant
            strings_view(parts@) == split_spec(v@, ','),
            i <= parts@.len(),
            forall|k: int|
                0 <= k < i ==> !eq_ignore_ascii_case_spec(
                    trim_spec(#[trigger] split_spec(v@, ',')[k]),
                    token@,
                ),
        decreases parts@.len() - i,
    {
        let t = trim(parts[i].as_str());
        assert(split_spec(v@, ',')[i as int] == parts@[i as int]@);
        if eq_ignore_ascii_case(t.as_str(), token) {
            return true;
        }
        i = i + 1;
    }
    false
}

/// The first element of `client` that `ours` also holds.
fn negotiate_exec(client: &Vec<String>, ours: &Vec<String>) -> (r: Option<String>)
    ensures
        match r {
            Some(s) => negotiate(strings_view(client@), strings_view(ours@)) == Some(s@),
            None => negotiate(strings_view(client@), strings_view(ours@)) is None,
        },
{
    let ghost cv = strings_view(client@);
    let ghost ov = strings_view(ours@);
    let mut i: usize = 0;
    proof {
        assert(cv.skip(0) =~= cv);
    }
    while i < client.len()
        invariant
            cv == strings_view(client@),
            ov == strings_view(ours@),
            i <= client@.len(),
            negotiate(cv, ov) == negotiate(cv.skip(i as int), ov),
        decreases client@.len() - i,
    {
        proof {
            assert(cv.skip(i as int)[0] == client@[i as int]@);
            assert(cv.skip(i as int).drop_first() =~= cv.skip(i + 1));
        }
        let mut j: usize = 0;
        while j < ours.len()
            invariant
                cv == strings_view(client@),
                ov == strings_view(ours@),
                i < client@.len(),
                j <= ours@.len(),
                negotiate(cv, ov) == negotiate(cv.skip(i as int), ov),
                cv.skip(i as int)[0] == client@[i as int]@,
                forall|k: int| 0 <= k < j ==> ov[k] != client@[i as int]@,
            decreases ours@.len() - j,
        {
            if str_eq(ours[j].as_str(), client[i].as_str()) {
                proof {
                    assert(ov[j as int] == client@[i as int]@);
                    assert(ov.contains(cv.skip(i as int)[0]));
                }
                return Some(client[i].clone());
            }
            j = j + 1;
        }
        proof {
            let x = cv.skip(i as int)[0];
            if ov.contains(x) {
                let k = choose|k: int| 0 <= k < ov.len() && ov[k] == x;
                assert(ov[k] != client@[i as int]@);
            }
        }
        i = i + 1;
    }
    proof {
        assert(cv.skip(client@.len() as int) =~= Seq::<Seq<char>>::empty());
    }
    None
}

impl WebSocketUpgrade {
    /// Validate a handshake request (method and headers) and compute the accept key.
    pub fn from_request(method: &Method, headers: &http::HeaderMap) -> (r: Result<
        WebSocketUpgrade,
        WebSocketUpgradeRejection,
    >)
        ensures
            match r {
                Ok(u) => {
                    &&& handshake_rejection(*method, *headers) is None
                    &&& u@.accept_key == accept_key_spec(sec_key_spec(*headers)->0)
                    &&& u@.client_protocols == client_protocols_spec(*headers)
                    &&& u@.selected_protocol is None
                    &&& u@.protocols.len() == 0
                    &&& u@.max_message_size == Some(67108864usize)
                    &&& u@.max_frame_size == Some(16777216usize)
                    &&& !u@.accept_unmasked_frames
                    &&& u@.write_buffer_size == 131072
                    &&& u@.max_write_buffer_size == 524288
                },
                Err(e) => handshake_rejection(*method, *headers) == Some(e),
            },
    {
        proof {
            reveal_strlit("connection");
            reveal_strlit("upgrade");
            reveal_strlit("sec-websocket-version");
            reveal_strlit("sec-websocket-key");
            reveal_strlit("sec-websocket-protocol");
        }
        if !matches!(method, Method::Get) {
            return Err(WebSocketUpgradeRejection::MethodNotGet);
        }
        let connection_ok = match header_str(headers, "connection") {
            Some(v) => has_token(v.as_str(), "upgrade"),
            None => false,
        };
        if !connection_ok {
            return Err(WebSocketUpgradeRejection::ConnectionNotUpgrade);
        }
        let upgrade_ok = match header_str(headers, "upgrade") {
            Some(v) => {
                let t = trim(v.as_str());
                eq_ignore_ascii_case(t.as_str(), "websocket")
            },
            None => false,
        };
        if !upgrade_ok {
            return Err(WebSocketUpgradeRejection::UpgradeNotWebSocket);
        }
        let version_ok = match header_str(headers, "sec-websocket-version") {
            Some(v) => {
                let t = trim(v.as_str());
                str_eq(t.as_str(), "13")
            },
            None => false,
        };
        if !version_ok {
            return Err(WebSocketUpgradeRejection::InvalidWebSocketVersionHeader);
        }
        let sec_key = match header_str(headers, "sec-websocket-key") {
            Some(v) => trim(v.as_str()),
            None => {
                return Err(WebSocketUpgradeRejection::MissingSecWebSocketKey);
            },
        };
        let accept_key = compute_accept_key(sec_key.as_str());
        let client_protocols = match header_str(headers, "sec-websocket-protocol") {
            Some(v) => nonempty_items_of(v.as_str()),
            None => Vec::new(),
        };
        let r = WebSocketUpgrade {
            accept_key,
            selected_protocol: None,
            client_protocols,
            config: WebSocketConfig::default(),
        };
        proof {
            assert(strings_view(r.client_protocols@) =~= client_protocols_spec(*headers));
            assert(strings_view(r.config.protocols@) =~= Seq::<Seq<char>>::empty());
        }
        Ok(r)
    }

    /// Set the maximum allowed message size in bytes.
    pub fn max_message_size(self, size: usize) -> (r: WebSocketUpgrade)
        ensures
            r@ == (WebSocketUpgradeView { max_message_size: Some(size), ..self@ }),
    {
        proof {
            use_type_invariant(&self);
        }
        let mut config = self.config;
        config.max_message_size = Some(size);
        WebSocketUpgrade { config, ..self }
    }

    /// Set the maximum frame size in bytes.
    pub fn max_frame_size(self, size: usize) -> (r: WebSocketUpgrade)
        ensures
            r@ == (WebSocketUpgradeView { max_frame_size: Some(size), ..self@ }),
    {
        proof {
            use_type_invariant(&self);
        }
        let mut config = self.config;
        config.max_frame_size = Some(size);
        WebSocketUpgrade { config, ..self }
    }

    /// Accept frames from unmasked clients.
    pub fn accept_unmasked_frames(self, accept: bool) -> (r: WebSocketUpgrade)
        ensures
            r@ == (WebSocketUpgradeView { accept_unmasked_frames: accept, ..self@ }),
    {
        proof {
            use_type_invariant(&self);
        }
        let mut config = self.config;
        config.accept_unmasked_frames = accept;
        WebSocketUpgrade { config, ..self }
    }

    /// Set the accepted subprotocols in preference order; the first protocol the
    /// client offered that appears in `protocols` is selected.
    pub fn protocols(self, protocols: Vec<String>) -> (r: WebSocketUpgrade)
        ensures
            r@ == (WebSocketUpgradeView {
                protocols: strings_view(protocols@),
                selected_protocol: negotiate(self@.client_protocols, strings_view(protocols@)),
                ..self@
            }),
    {
        proof {
            use_type_invariant(&self);
        }
        let selected = negotiate_exec(&self.client_protocols, &protocols);
        proof {
            use_type_invariant(&self);
        }
        let mut config = self.config;
        config.protocols = protocols;
        let r = WebSocketUpgrade { selected_protocol: selected, config, ..self };
        proof {
            assert(r@.selected_protocol == negotiate(self@.client_protocols, strings_view(
                r.config.protocols@,
            )));
        }
        r
    }

    /// The negotiated subprotocol, if any.
    pub fn selected_protocol(&self) -> (r: Option<&str>)
        ensures
            match r {
                Some(s) => self@.selected_protocol == Some(s@),
                None => self@.selected_protocol is None,
            },
    {
        match &self.selected_protocol {
            Some(s) => Some(s.as_str()),
            None => None,
        }
    }

    /// The `Sec-WebSocket-Accept` value.
    pub fn accept_key(&self) -> (r: &str)
        ensures
            r@ == self@.accept_key,
    {
        self.accept_key.as_str()
    }

    /// The `101 Switching Protocols` response that completes the handshake. The
    /// negotiated protocol is echoed back, or an empty value when it is not a
    /// valid header value.
    pub fn upgrade_response(&self) -> (r: Response)
        ensures
            r.status == 101,
            has_single(r.headers, "connection"@, "upgrade"@),
            has_single(r.headers, "upgrade"@, "websocket"@),
            has_single(r.headers, "sec-websocket-accept"@, self@.accept_key),
            match self@.selected_protocol {
                Some(p) => has_single(
                    r.headers,
                    "sec-websocket-protocol"@,
                    if valid_header_value(p) { p } else { ""@ },
                ),
                None => lacks(r.headers, "sec-websocket-protocol"@),
            },
            r.body@.len() == 0,
    {
        proof {
            reveal_strlit("connection");
            reveal_strlit("upgrade");
            reveal_strlit("sec-websocket-accept");
            reveal_strlit("sec-websocket-protocol");
            reveal_strlit("websocket");
            reveal_strlit("");
        }
        proof {
            use_type_invariant(self);
        }
        let mut r = Response::empty(101);
        header_insert(&mut r.headers, "connection", "upgrade");
        header_insert(&mut r.headers, "upgrade", "websocket");
        proof {
            assert forall|i: int| 0 <= i < self.accept_key@.len() implies #[trigger] is_header_value_char(
                self.accept_key@[i],
            ) by {
                assert(is_base64_char(self.accept_key@[i]));
            }
        }
        header_insert(&mut r.headers, "sec-websocket-accept", self.accept_key.as_str());
        if let Some(p) = &self.selected_protocol {
            if is_valid_header_value(p.as_str()) {
                header_insert(&mut r.headers, "sec-websocket-protocol", p.as_str());
            } else {
                header_insert(&mut r.headers, "sec-websocket-protocol", "");
            }
        }
        r
    }

    /// The configuration the connection will use.
    pub fn config(&self) -> (r: &WebSocketConfig)
        ensures
            r.max_message_size == self@.max_message_size,
            r.max_frame_size == self@.max_frame_size,
            r.accept_unmasked_frames == self@.accept_unmasked_frames,
            strings_view(r.protocols@) == self@.protocols,
            r.write_buffer_size == self@.write_buffer_size,
            r.max_write_buffer_size == self@.max_write_buffer_size,
    {
        &self.config
    }
}

} // verus!
