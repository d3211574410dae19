use vstd::prelude::*;

verus! {

#[verifier::external_type_specification]
#[verifier::external_body]
pub struct ExAuthority(http::uri::Authority);

/// Whether `http` accepts the text as the authority part of a URI.
pub uninterp spec fn authority_valid(text: Seq<char>) -> bool;

/// `http::uri::Authority` parsed from the text's bytes: present exactly
/// when `http` accepts them, which `authority_valid` names.
#[verifier::external_body]
fn parse_authority(text: &str) -> (r: Option<http::uri::Authority>)
    ensures
        r is Some <==> authority_valid(text@),
{
    http::uri::Authority::from_maybe_shared(bytes::Bytes::copy_from_slice(text.as_bytes())).ok()
}

/// The base URL that large-file requests are pointed at: its scheme is
/// HTTPS when `https` holds and HTTP otherwise, its authority is the
/// request's host, and its path is empty.
pub struct LfsUrl {
    pub https: bool,
    pub authority: String,
}

/// The mathematical form of an `LfsUrl`.
pub struct LfsUrlV {
    pub https: bool,
    pub authority: Seq<char>,
}

impl View for LfsUrl {
    type V = LfsUrlV;

    open spec fn view(&self) -> LfsUrlV {
        LfsUrlV { https: self.https, authority: self.authority@ }
    }
}

/// The base URL for a request whose host text is `host`, given whether
/// that text is a valid authority: HTTPS exactly when the server uses TLS,
/// the host as the authority; none when the host is no valid authority.
pub fn lfs_url_for(host: &str, host_is_authority: bool, use_ssl: bool) -> (r: Option<LfsUrl>)
    ensures
        match r {
            Some(u) => host_is_authority && u@ == (LfsUrlV { https: use_ssl, authority: host@ }),
            None => !host_is_authority,
        },
{
    if host_is_authority {
        Some(LfsUrl { https: use_ssl, authority: host.to_owned() })
    } else {
        None
    }
}

/// The base URL that large-file requests are pointed at, from the request's
/// host (if it names one) and whether the server uses TLS: HTTPS exactly
/// when it does, the host as the authority, an empty path. There is none
/// when the request names no host or when the host is no valid authority.
pub fn lfs_url(host: Option<&str>, use_ssl: bool) -> (r: Option<LfsUrl>)
    ensures
        match host {
            Some(h) => match r {
                Some(u) => authority_valid(h@) && u@ == (LfsUrlV { https: use_ssl, authority: h@ }),
                None => !authority_valid(h@),
            },
            None => r is None,
        },
{
    match host {
        None => None,
        Some(h) => {
            let valid = parse_authority(h).is_some();
            lfs_url_for(h, valid, use_ssl)
        },
    }
}

/// Whether every byte is visible ASCII: a tab, or 32 through 126.
pub open spec fn all_visible_ascii(b: Seq<u8>) -> bool {
    forall|i: int| 0 <= i < b.len() ==> (b[i] == 9 || (32 <= #[trigger] b[i] && b[i] < 127))
}

/// The text of ASCII bytes, one character per byte.
pub open spec fn ascii_text(b: Seq<u8>) -> Seq<char> {
    b.map_values(|x: u8| x as char)
}

/// `http::HeaderValue::to_str` on the header value made of `bytes` (by
/// `HeaderValue::from_bytes`): the text, one character per byte, exactly
/// when every byte is visible ASCII; `from_bytes` refuses only bytes that
/// `to_str` refuses too.
#[verifier::external_body]
fn header_text(bytes: &[u8]) -> (r: Option<String>)
    ensures
        r is Some <==> all_visible_ascii(bytes@),
        r matches Some(s) ==> s@ == ascii_text(bytes@),
{
    match http::HeaderValue::from_bytes(bytes) {
        Ok(v) => match v.to_str() {
            Ok(s) => Some(s.to_owned()),
            Err(_) => None,
        },
        Err(_) => None,
    }
}

/// The base URL that large-file requests are pointed at, from the raw
/// bytes of the request's `Host` header (if it has one): there is one
/// exactly when that header is visible ASCII text that is a valid
/// authority; it is HTTPS exactly when the server uses TLS, and its
/// authority is the header's text.
pub fn lfs_url_from_header(host: Option<&[u8]>, use_ssl: bool) -> (r: Option<LfsUrl>)
    ensures
        match host {
            Some(b) => match r {
                Some(u) => all_visible_ascii(b@) && authority_valid(ascii_text(b@)) && u@ == (LfsUrlV {
                    https: use_ssl,
                    authority: ascii_text(b@),
                }),
                None => !all_visible_ascii(b@) || !authority_valid(ascii_text(b@)),
            },
            None => r is None,
        },
{
    match host {
        None => None,
        Some(b) => match header_text(b) {
            None => None,
            Some(text) => lfs_url(Some(text.as_str()), use_ssl),
        },
    }
}

} // verus!
