//! Which origins may send requests.
use crate::persistence::PersistenceError;
use crate::text::{concat2, same_text};
use vstd::prelude::*;
use vstd::string::*;

verus! {

/// Whether a byte may stand in a header value.
pub open spec fn header_byte(b: u8) -> bool {
    (b >= 32 && b != 127) || b == 9
}

/// Whether bytes make up a header value.
pub open spec fn is_header_value(bytes: Seq<u8>) -> bool {
    forall|i: int| 0 <= i < bytes.len() ==> header_byte(#[trigger] bytes[i])
}

/// Whether a byte is a visible ASCII character, a space or a tab.
pub open spec fn visible_byte(b: u8) -> bool {
    (32 <= b < 127) || b == 9
}

/// The text of a header value, where all of it is visible ASCII.
pub open spec fn header_text(bytes: Seq<u8>) -> Option<Seq<char>> {
    if forall|i: int| 0 <= i < bytes.len() ==> visible_byte(#[trigger] bytes[i]) {
        Some(Seq::new(bytes.len(), |i: int| bytes[i] as char))
    } else {
        None
    }
}

/// `axum::http::HeaderValue::from_str`: takes a text whose UTF-8 bytes may all
/// stand in a header value, and holds those bytes. The error is handed on as
/// the text that its `Display` gives.
#[verifier::external_body]
fn header_from_text(text: &str) -> (r: Result<Vec<u8>, String>)
    ensures
        r is Ok == is_header_value(text.spec_bytes()),
        r matches Ok(bytes) ==> bytes@ == text.spec_bytes(),
        r matches Err(message) ==> message@ == "failed to parse header value"@,
{
    match axum::http::HeaderValue::from_str(text) {
        Ok(value) => Ok(value.as_bytes().to_vec()),
        Err(error) => Err(error.to_string()),
    }
}

/// `axum::http::HeaderValue::to_str`, on the header value of the given bytes:
/// their text where all of them are visible ASCII, and otherwise nothing.
#[verifier::external_body]
pub(crate) fn header_to_text(bytes: &[u8]) -> (r: Option<String>)
    requires
        is_header_value(bytes@),
    ensures
        crate::text::opt_text(r) == header_text(bytes@),
{
    let value = axum::http::HeaderValue::from_bytes(bytes).expect("bytes of a header value");
    match value.to_str() {
        Ok(text) => Some(text.to_string()),
        Err(_) => None,
    }
}

/// The message for a configured origin that is no header value.
pub open spec fn origin_message() -> Seq<char> {
    "frontend origin must be a valid HTTP header value: "@ + "failed to parse header value"@
}

/// Reads the configured origin of the frontend.
pub fn parse_frontend_origin(origin: Option<&str>) -> (r: Result<
    Option<Vec<u8>>,
    PersistenceError,
>)
    ensures
        origin is None ==> r matches Ok(None),
        origin matches Some(text) ==> if is_header_value(text.spec_bytes()) {
            r matches Ok(Some(bytes)) && bytes@ == text.spec_bytes()
        } else {
            r matches Err(PersistenceError::InvalidData(message)) && message@ == origin_message()
        },
{
    match origin {
        None => Ok(None),
        Some(text) => match header_from_text(text) {
            Ok(bytes) => Ok(Some(bytes)),
            Err(error) => Err(
                PersistenceError::InvalidData(
                    concat2("frontend origin must be a valid HTTP header value: ", error.as_str()),
                ),
            ),
        },
    }
}

/// Whether a request may come from its origin. One without an origin may. With
/// a configured origin, no other may; without one, only the host itself, over
/// either scheme.
pub open spec fn allowed(
    origin: Option<Seq<u8>>,
    host: Option<Seq<u8>>,
    configured: Option<Seq<u8>>,
) -> bool {
    match (origin, configured) {
        (None, _) => true,
        (Some(from), Some(only)) => from == only,
        (Some(from), None) => match (
            header_text(from),
            if host is Some {
                header_text(host->0)
            } else {
                None
            },
        ) {
            (Some(text), Some(name)) => text == "http://"@ + name || text == "https://"@ + name,
            _ => false,
        },
    }
}

/// The bytes of an optional header.
pub open spec fn opt_bytes(value: Option<&[u8]>) -> Option<Seq<u8>> {
    match value {
        Some(bytes) => Some(bytes@),
        None => None,
    }
}

fn same_bytes(a: &[u8], b: &[u8]) -> (r: bool)
    ensures
        r == (a@ == b@),
{
    if a.len() != b.len() {
        return false;
    }
    let mut i: usize = 0;
    while i < a.len()
        invariant
            i <= a.len(),
            a.len() == b.len(),
            forall|k: int| 0 <= k < i ==> a@[k] == b@[k],
        decreases a.len() - i,
    {
        if a[i] != b[i] {
            return false;
        }
        i = i + 1;
    }
    assert(a@ =~= b@);
    true
}

/// Whether a request with the given origin and host headers is served.
pub fn origin_allowed(
    origin: Option<&[u8]>,
    host: Option<&[u8]>,
    configured_origin: Option<&[u8]>,
) -> (r: bool)
    requires
        origin matches Some(bytes) ==> is_header_value(bytes@),
        host matches Some(bytes) ==> is_header_value(bytes@),
    ensures
        r == allowed(opt_bytes(origin), opt_bytes(host), opt_bytes(configured_origin)),
{
    let origin: &[u8] = match origin {
        Some(bytes) => bytes,
        None => {
            return true;
        },
    };
    if let Some(only) = configured_origin {
        return same_bytes(origin, only);
    }
    let text: String = match header_to_text(origin) {
        Some(text) => text,
        None => {
            return false;
        },
    };
    let name: String = match host {
        Some(bytes) => match header_to_text(bytes) {
            Some(name) => name,
            None => {
                return false;
            },
        },
        None => {
            return false;
        },
    };
    same_text(text.as_str(), concat2("http://", name.as_str()).as_str()) || same_text(
        text.as_str(),
        concat2("https://", name.as_str()).as_str(),
    )
}

/// With a configured origin, a request from anywhere else is refused whatever
/// host it names.
pub proof fn law_configured_origin_is_the_only_one(
    origin: Seq<u8>,
    host: Option<Seq<u8>>,
    configured: Seq<u8>,
)
    ensures
        allowed(Some(origin), host, Some(configured)) <==> origin == configured,
{
}

/// A request without an origin is served. Without a configured origin, one from the host
/// itself is, over either scheme, and one from any other host, and one without a host,
/// is not.
pub proof fn law_hosts_may_ask_themselves(from: Seq<u8>, host: Seq<u8>, name: Seq<char>)
    requires
        header_text(host) == Some(name),
    ensures
        allowed(None, Some(host), None),
        allowed(None, None, None),
        header_text(from) == Some("http://"@ + name) ==> allowed(Some(from), Some(host), None),
        header_text(from) == Some("https://"@ + name) ==> allowed(Some(from), Some(host), None),
        header_text(from) != Some("http://"@ + name) && header_text(from) != Some(
            "https://"@ + name,
        ) ==> !allowed(Some(from), Some(host), None),
        !allowed(Some(from), None, None),
{
}

/// A header is read as text exactly where all its bytes are visible ASCII, spaces or
/// tabs, and then each byte is its character.
pub proof fn law_headers_are_read_byte_by_byte(bytes: Seq<u8>, i: int)
    requires
        0 <= i < bytes.len(),
    ensures
        bytes[i] >= 127 || (bytes[i] < 32 && bytes[i] != 9) ==> header_text(bytes) is None,
        header_text(bytes) matches Some(text) ==> text.len() == bytes.len() && text[i] as u32
            == bytes[i],
        (forall|k: int| 0 <= k < bytes.len() ==> 32 <= #[trigger] bytes[k] < 127) ==> header_text(
            bytes,
        ) is Some,
{
    if header_text(bytes) is Some {
        assert(visible_byte(bytes[i]));
    }
}

} // verus!
