//! What a peer's certificates say about who issued them.

use crate::text::{chars_of, contains, contains_chars};
use vstd::prelude::*;

verus! {

/// The issuer of the certificate that the DER bytes `der` encode, written
/// as text; `None` where the bytes encode no certificate.
pub uninterp spec fn x509_issuer(der: Seq<u8>) -> Option<Seq<char>>;

/// The lower-case form of `s` under Unicode's case mapping.
pub uninterp spec fn unicode_lowercase(s: Seq<char>) -> Seq<char>;

/// The token by which a text names the provider.
pub open spec fn provider_token() -> Seq<char> {
    "cloudflare"@
}

/// Whether `text` holds the provider's token as it stands.
pub open spec fn names_provider(text: Seq<char>) -> bool {
    contains(text, provider_token())
}

/// Whether an issuer names the provider, in whatever case.
pub open spec fn issuer_names_provider(issuer: Seq<char>) -> bool {
    names_provider(unicode_lowercase(issuer))
}

/// Whether `der` encodes a certificate whose issuer names the provider.
pub open spec fn certificate_names_provider(der: Seq<u8>) -> bool {
    match x509_issuer(der) {
        Some(issuer) => issuer_names_provider(issuer),
        None => false,
    }
}

/// Whether some certificate of the chain has an issuer that names the
/// provider. What is no certificate counts as none.
pub open spec fn chain_names_provider(chain: Seq<Vec<u8>>) -> bool {
    exists|i: int| 0 <= i < chain.len() && certificate_names_provider(#[trigger] chain[i]@)
}

/// Parses `der` with `x509_parser::parse_x509_certificate` and writes the
/// issuer of the certificate out with `X509Name`'s `to_string`. Trusted:
/// the result is the issuer text of these bytes, and `None` exactly where
/// the parser rejects them.
#[verifier::external_body]
fn certificate_issuer(der: &Vec<u8>) -> (issuer: Option<String>)
    ensures
        match issuer {
            Some(text) => x509_issuer(der@) == Some(text@),
            None => x509_issuer(der@) is None,
        },
{
    match x509_parser::parse_x509_certificate(der.as_slice()) {
        Ok((_, certificate)) => Some(certificate.tbs_certificate.issuer.to_string()),
        Err(_) => None,
    }
}

/// Calls `str::to_lowercase`. Trusted: the result is the lower-case form of
/// the argument.
#[verifier::external_body]
fn lowercase(s: &str) -> (lower: String)
    ensures
        lower@ == unicode_lowercase(s@),
{
    s.to_lowercase()
}

/// Tests whether `text` holds the provider's token as it stands.
pub fn mentions_provider(text: &str) -> (found: bool)
    ensures
        found == names_provider(text@),
{
    let token = chars_of("cloudflare");
    let chars = chars_of(text);
    contains_chars(&chars, &token)
}

/// Tests whether an issuer names the provider, in whatever case.
pub fn issuer_is_provider(issuer: &str) -> (found: bool)
    ensures
        found == issuer_names_provider(issuer@),
{
    let lower = lowercase(issuer);
    mentions_provider(lower.as_str())
}

/// Tests whether `der` encodes a certificate whose issuer names the
/// provider.
pub fn certificate_is_provider(der: &Vec<u8>) -> (found: bool)
    ensures
        found == certificate_names_provider(der@),
{
    match certificate_issuer(der) {
        Some(issuer) => issuer_is_provider(issuer.as_str()),
        None => false,
    }
}

} // verus!
