//! The byte handling of passkey ceremonies: the server sends binary fields
//! as unpadded base64url text, and the browser's credential goes back the
//! same way.
use vstd::prelude::*;
use vstd::string::*;
use base64::engine::general_purpose::URL_SAFE_NO_PAD;
use base64::Engine;
use crate::text::{owned, same_text};

verus! {

#[verifier::external_type_specification]
#[verifier::external_body]
pub struct ExDecodeError(base64::DecodeError);

/// What `URL_SAFE_NO_PAD.decode` gives for the text `text`: the bytes, or
/// `None` when it refuses the text.
pub uninterp spec fn base64url_decoded(text: Seq<u8>) -> Option<Seq<u8>>;

/// Character `v` (below 64) of the URL-safe base64 alphabet
/// `A-Z`, `a-z`, `0-9`, `-`, `_`.
pub open spec fn url_safe_char(v: int) -> char {
    if v < 26 {
        (65 + v) as char
    } else if v < 52 {
        (97 + v - 26) as char
    } else if v < 62 {
        (48 + v - 52) as char
    } else if v == 62 {
        '-'
    } else {
        '_'
    }
}

/// Unpadded base64url: each group of three bytes becomes four characters
/// of six bits each, high bits first; a final one or two bytes become two
/// or three characters, the last one padded with zero bits.
pub open spec fn base64url(b: Seq<u8>) -> Seq<char>
    decreases b.len(),
{
    let x = if b.len() > 0 { b[0] as int } else { 0 };
    let y = if b.len() > 1 { b[1] as int } else { 0 };
    let z = if b.len() > 2 { b[2] as int } else { 0 };
    if b.len() == 0 {
        Seq::empty()
    } else if b.len() == 1 {
        seq![url_safe_char(x / 4), url_safe_char((x % 4) * 16)]
    } else if b.len() == 2 {
        seq![url_safe_char(x / 4), url_safe_char((x % 4) * 16 + y / 16), url_safe_char((y % 16) * 4)]
    } else {
        seq![
            url_safe_char(x / 4),
            url_safe_char((x % 4) * 16 + y / 16),
            url_safe_char((y % 16) * 4 + z / 64),
            url_safe_char(z % 64),
        ] + base64url(b.subrange(3, b.len() as int))
    }
}

/// Calls `base64::engine::general_purpose::URL_SAFE_NO_PAD.decode` (the
/// unpadded URL-safe alphabet). Claimed: the result is a function of the
/// text alone, named [`base64url_decoded`]; nothing is claimed about which
/// texts it accepts.
#[verifier::external_body]
fn base64url_decode(text: &[u8]) -> (r: Result<Vec<u8>, base64::DecodeError>)
    ensures
        r matches Ok(v) ==> base64url_decoded(text@) == Some(v@),
        r is Err ==> base64url_decoded(text@) is None,
{
    URL_SAFE_NO_PAD.decode(text)
}

/// Calls `base64::engine::general_purpose::URL_SAFE_NO_PAD.encode`.
/// Claimed: the text is the unpadded base64url encoding of the bytes,
/// [`base64url`], as RFC 4648 defines it with the URL-safe alphabet.
#[verifier::external_body]
fn base64url_encode(bytes: &[u8]) -> (r: String)
    ensures
        r@ == base64url(bytes@),
{
    URL_SAFE_NO_PAD.encode(bytes)
}

/// `s` without its trailing `=` bytes.
pub open spec fn trim_padding(s: Seq<u8>) -> Seq<u8>
    decreases s.len(),
{
    if s.len() > 0 && s.last() == 61 {
        trim_padding(s.drop_last())
    } else {
        s
    }
}

/// The message for passkey data that cannot be read, naming the field.
pub open spec fn unreadable_text(what: Seq<char>) -> Seq<char> {
    "Unexpected passkey data ("@ + what + ")."@
}

/// The message for passkey data that cannot be read, naming the field.
pub fn unreadable(what: &str) -> (r: String)
    ensures
        r@ == unreadable_text(what@),
{
    let mut m = owned("Unexpected passkey data (");
    m.append(what);
    m.append(").");
    m
}

/// The bytes of the base64url field `what` holding `text`: trailing `=`
/// padding is dropped before decoding; text the decoder refuses is
/// reported as unreadable.
pub fn field_bytes(text: &str, what: &str) -> (r: Result<Vec<u8>, String>)
    ensures
        r matches Ok(v) ==> base64url_decoded(trim_padding(text.spec_bytes())) == Some(v@),
        r matches Err(e) ==> base64url_decoded(trim_padding(text.spec_bytes())) is None && e@
            == unreadable_text(what@),
{
    let b = text.as_bytes();
    let mut end: usize = b.len();
    assert(b@.take(end as int) =~= b@);
    while end > 0 && b[end - 1] == 61
        invariant
            end <= b@.len(),
            trim_padding(b@.take(end as int)) == trim_padding(b@),
        decreases end,
    {
        assert(b@.take(end as int).drop_last() =~= b@.take(end - 1));
        assert(b@.take(end as int).last() == b@[end - 1]);
        end = end - 1;
    }
    assert(trim_padding(b@.take(end as int)) == b@.take(end as int));
    let mut trimmed: Vec<u8> = Vec::new();
    let mut i: usize = 0;
    assert(trimmed@ =~= b@.take(0));
    while i < end
        invariant
            i <= end <= b@.len(),
            trimmed@ == b@.take(i as int),
        decreases end - i,
    {
        trimmed.push(b[i]);
        assert(trimmed@ =~= b@.take(i + 1));
        i = i + 1;
    }
    assert(b@.take(b@.len() as int) =~= b@);
    let decoded = match base64url_decode(trimmed.as_slice()) {
        Ok(v) => Some(v),
        Err(_) => None,
    };
    field_from_decoded(decoded, what)
}

/// The field `what` from what the decoder gave for its text: the bytes, or
/// the unreadable-data message when the decoder refused the text.
pub fn field_from_decoded(decoded: Option<Vec<u8>>, what: &str) -> (r: Result<Vec<u8>, String>)
    ensures
        match decoded {
            Some(v) => r == Ok::<Vec<u8>, String>(v),
            None => r matches Err(e) && e@ == unreadable_text(what@),
        },
{
    match decoded {
        Some(v) => Ok(v),
        None => Err(unreadable(what)),
    }
}

/// Binary credential data as unpadded base64url text.
pub fn field_text(bytes: &[u8]) -> (r: String)
    ensures
        r@ == base64url(bytes@),
{
    base64url_encode(bytes)
}

/// The message for a WebAuthn call the browser rejected with the
/// DOMException `name` and `message`, when creating a passkey or not.
pub open spec fn refused_text(name: Seq<char>, message: Option<Seq<char>>, creating: bool) -> Seq<char> {
    if name == "NotAllowedError"@ || name == "AbortError"@ {
        "The passkey request was cancelled or timed out."@
    } else if name == "InvalidStateError"@ && creating {
        "This device already has a passkey for this account."@
    } else if name == "SecurityError"@ {
        "Passkeys can't be used on this address."@
    } else if name == "NotSupportedError"@ {
        "This device can't make a passkey for this site."@
    } else {
        "The passkey request failed: "@ + match message {
            Some(m) => m,
            None => name,
        }
    }
}

/// A readable message for a rejected WebAuthn call, by its DOMException
/// name; other rejections show their own message, or else the name.
pub fn refused(name: &str, message: Option<&str>, creating: bool) -> (r: String)
    ensures
        r@ == refused_text(name@, match message {
            Some(m) => Some(m@),
            None => None,
        }, creating),
{
    if same_text(name, "NotAllowedError") || same_text(name, "AbortError") {
        owned("The passkey request was cancelled or timed out.")
    } else if same_text(name, "InvalidStateError") && creating {
        owned("This device already has a passkey for this account.")
    } else if same_text(name, "SecurityError") {
        owned("Passkeys can't be used on this address.")
    } else if same_text(name, "NotSupportedError") {
        owned("This device can't make a passkey for this site.")
    } else {
        let mut m = owned("The passkey request failed: ");
        match message {
            Some(text) => m.append(text),
            None => m.append(name),
        }
        m
    }
}

} // verus!
