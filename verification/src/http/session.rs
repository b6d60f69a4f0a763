//! The tenant and the session of a request.
//!
//! Both come in headers from a service upstream that is trusted: it has checked
//! who asks, and says on whose behalf.

use axum::http::HeaderValue;
use vstd::prelude::*;

verus! {

/// The header that holds the tenant's identifier.
pub const TENANT_HEADER: &'static str = "x-tenant-id";

/// The header that holds the session's identifier.
pub const SESSION_HEADER: &'static str = "x-session-id";

/// The status that answers a request whose headers are missing or invalid.
pub const BAD_REQUEST: u16 = 400;

/// The tenant and the session of a request.
#[derive(Debug, Clone, PartialEq, Eq)]
pub struct RequestSession {
    /// The tenant's identifier. Tenants cannot see each other's data.
    pub tenant_id: String,
    /// The session's identifier: a conversation.
    pub session_id: String,
}

/// A byte that is visible ASCII, a space or a tab.
pub open spec fn visible(b: u8) -> bool {
    (32 <= b < 127) || b == 9
}

/// Whether all bytes are visible.
pub open spec fn all_visible(bytes: Seq<u8>) -> bool {
    forall|i: int| 0 <= i < bytes.len() ==> visible(#[trigger] bytes[i])
}

/// ASCII bytes as characters.
pub open spec fn ascii_chars(bytes: Seq<u8>) -> Seq<char> {
    bytes.map_values(|b: u8| b as char)
}

/// `HeaderValue::to_str` of the `http` crate, on the value that
/// `HeaderValue::from_bytes` makes of the bytes: the text, where every byte is
/// visible ASCII, a space or a tab. Other bytes are refused by one of the two.
#[verifier::external_body]
fn header_text(bytes: &[u8]) -> (res: Option<String>)
    ensures
        match res {
            Some(text) => all_visible(bytes@) && text@ == ascii_chars(bytes@),
            None => !all_visible(bytes@),
        },
{
    let value = HeaderValue::from_bytes(bytes).ok()?;
    value.to_str().ok().map(|text| text.to_string())
}

/// The identifier that a header holds: it must be there, be visible text, and
/// not be empty.
pub open spec fn identifier(header: Option<Seq<u8>>) -> Option<Seq<char>> {
    match header {
        Some(bytes) => if all_visible(bytes) && bytes.len() > 0 {
            Some(ascii_chars(bytes))
        } else {
            None
        },
        None => None,
    }
}

/// The bytes of a header, where it is there.
pub open spec fn header_bytes(header: Option<&[u8]>) -> Option<Seq<u8>> {
    match header {
        Some(bytes) => Some(bytes@),
        None => None,
    }
}

fn read_identifier(header: Option<&[u8]>) -> (res: Option<String>)
    ensures
        match res {
            Some(text) => identifier(header_bytes(header)) == Some(text@),
            None => identifier(header_bytes(header)) is None,
        },
{
    match header {
        Some(bytes) => {
            if bytes.len() == 0 {
                return None;
            }
            header_text(bytes)
        },
        None => None,
    }
}

/// The tenant and the session of a request with the given headers, or the
/// status that answers it: bad request, unless both headers hold an identifier.
pub fn extract_session(tenant: Option<&[u8]>, session: Option<&[u8]>) -> (res: Result<
    RequestSession,
    u16,
>)
    ensures
        match res {
            Ok(found) => {
                &&& identifier(header_bytes(tenant)) == Some(found.tenant_id@)
                &&& identifier(header_bytes(session)) == Some(found.session_id@)
            },
            Err(status) => {
                &&& status == BAD_REQUEST
                &&& identifier(header_bytes(tenant)) is None || identifier(
                    header_bytes(session),
                ) is None
            },
        },
{
    let tenant_id = match read_identifier(tenant) {
        Some(id) => id,
        None => {
            return Err(BAD_REQUEST);
        },
    };
    let session_id = match read_identifier(session) {
        Some(id) => id,
        None => {
            return Err(BAD_REQUEST);
        },
    };
    Ok(RequestSession { tenant_id, session_id })
}

/// No identifier is empty.
pub proof fn identifiers_not_empty(header: Option<Seq<u8>>)
    ensures
        identifier(header) matches Some(id) ==> id.len() > 0,
{
}

} // verus!
