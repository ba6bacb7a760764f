//! A domain under test: its normalised name, the mask of the signals that
//! were seen for it, and whether it answered at all.

use crate::certificate::{
    certificate_is_provider, certificate_names_provider, chain_names_provider, mentions_provider,
    names_provider,
};
use crate::cf_ips::{ranges_contain, CFIPs};
use crate::text::{
    chars_of, copy_range, find_from, first_occurrence, is_whitespace, occurs_at, rows, split,
    split_chars, string_of, texts, trim_chars, trimmed,
};
use vstd::prelude::*;

pub mod check_result;

verus! {

/// Whether `c` is alphabetic or numeric in Unicode's sense.
pub uninterp spec fn unicode_alphanumeric(c: char) -> bool;

/// Calls `char::is_alphanumeric`. Trusted: the result is the Unicode
/// property of the argument.
#[verifier::external_body]
fn is_alphanumeric(c: char) -> (r: bool)
    ensures
        r == unicode_alphanumeric(c),
{
    c.is_alphanumeric()
}

/// Why a text is no domain under test.
#[derive(Debug, Clone, Copy, PartialEq, Eq)]
pub enum ValidationError {
    /// A scheme other than `http` or `https` stands before `://`.
    UnsupportedScheme,
    /// The name breaks a rule on its length, its labels or their characters.
    InvalidName,
}

/// The scheme of `raw`: what stands before the first `://`, if there is one.
pub open spec fn scheme_of(raw: Seq<char>) -> Option<Seq<char>> {
    match first_occurrence(raw, "://"@, 0) {
        Some(i) => Some(raw.take(i)),
        None => None,
    }
}

/// Whether `raw` has no scheme, or one of `http` and `https`.
pub open spec fn scheme_supported(raw: Seq<char>) -> bool {
    match scheme_of(raw) {
        Some(scheme) => scheme == "http"@ || scheme == "https"@,
        None => true,
    }
}

/// `raw` without its scheme and the `://` after it.
pub open spec fn without_scheme(raw: Seq<char>) -> Seq<char> {
    match first_occurrence(raw, "://"@, 0) {
        Some(i) => raw.skip(i + 3),
        None => raw,
    }
}

/// The name that `raw` stands for: the scheme taken off, then the
/// whitespace around the rest.
pub open spec fn normalized(raw: Seq<char>) -> Seq<char> {
    trimmed(without_scheme(raw))
}

/// Whether `c` may stand in a label.
pub open spec fn label_char(c: char) -> bool {
    unicode_alphanumeric(c) || c == '-'
}

/// A label has at most 63 characters, all alphanumeric or hyphens, and
/// neither begins nor ends with a hyphen.
pub open spec fn valid_label(label: Seq<char>) -> bool {
    &&& label.len() <= 63
    &&& forall|i: int| 0 <= i < label.len() ==> label_char(#[trigger] label[i])
    &&& (label.len() > 0 ==> label.first() != '-' && label.last() != '-')
}

/// A name is not empty, has at most 253 characters and at least two labels
/// between its dots, each of them valid.
pub open spec fn valid_name(name: Seq<char>) -> bool {
    &&& 0 < name.len() <= 253
    &&& split(name, seq!['.']).len() >= 2
    &&& forall|i: int|
        0 <= i < split(name, seq!['.']).len() ==> valid_label(#[trigger] split(name, seq!['.'])[i])
}

/// Whether `raw` stands for a domain: its scheme is supported and its name
/// is valid.
pub open spec fn valid_domain(raw: Seq<char>) -> bool {
    scheme_supported(raw) && valid_name(normalized(raw))
}

/// One header of a response. Names are compared as they stand; HTTP
/// clients hand them over in lower case.
#[derive(Debug)]
pub struct Header {
    pub name: String,
    pub value: String,
}

/// What an answered HTTP request showed.
#[derive(Debug)]
pub struct HttpResponse {
    /// The address of the peer that answered, as text.
    pub remote_addr: Option<String>,
    /// The response's headers, in the order received.
    pub headers: Vec<Header>,
}

/// What probing a domain brought.
#[derive(Debug)]
pub enum Probe {
    /// The HTTP request failed; nothing else was tried.
    Unreachable,
    /// The HTTP request was answered. `certificates` holds the DER bytes of
    /// the certificates that the peer sent in a TLS handshake, or `None`
    /// where the handshake brought none.
    Reached { response: HttpResponse, certificates: Option<Vec<Vec<u8>>> },
}

/// Whether a header called `name` is among `headers`.
pub open spec fn has_header(headers: Seq<Header>, name: Seq<char>) -> bool {
    exists|i: int| 0 <= i < headers.len() && (#[trigger] headers[i]).name@ == name
}

/// The value of the first header called `name`.
pub open spec fn header_value(headers: Seq<Header>, name: Seq<char>) -> Option<Seq<char>>
    decreases headers.len(),
{
    if headers.len() == 0 {
        None
    } else if headers.first().name@ == name {
        Some(headers.first().value@)
    } else {
        header_value(headers.drop_first(), name)
    }
}

/// Whether the response came from an address in one of `ranges`.
pub open spec fn origin_signal(response: HttpResponse, ranges: Seq<Seq<char>>) -> bool {
    match response.remote_addr {
        Some(addr) => ranges_contain(ranges, addr@),
        None => false,
    }
}

/// Whether the first `server` header names the provider. A response
/// without that header does not.
pub open spec fn server_signal(headers: Seq<Header>) -> bool {
    match header_value(headers, "server"@) {
        Some(value) => names_provider(value),
        None => false,
    }
}

/// Whether a handshake brought a certificate whose issuer names the
/// provider.
pub open spec fn tls_signal(certificates: Option<Vec<Vec<u8>>>) -> bool {
    match certificates {
        Some(chain) => chain_names_provider(chain@),
        None => false,
    }
}

/// `flag` where `on` holds, else no bit.
pub open spec fn bit(on: bool, flag: u8) -> u8 {
    if on {
        flag
    } else {
        0
    }
}

/// The mask with exactly the bits of the signals that hold.
pub open spec fn signal_mask(ip: bool, ray: bool, cache: bool, server: bool, ssl: bool) -> u8 {
    bit(ip, check_result::CF_IP) | bit(ray, check_result::CF_RAY_HEADER) | bit(
        cache,
        check_result::CF_CACHE_STATUS_HEADER,
    ) | bit(server, check_result::CF_SERVER) | bit(ssl, check_result::CF_SSL)
}

/// The mask that a probe gives against `ranges`: empty for a domain that
/// did not answer, else one bit for each signal seen.
pub open spec fn probe_mask(probe: Probe, ranges: Seq<Seq<char>>) -> u8 {
    match probe {
        Probe::Unreachable => check_result::EMPTY,
        Probe::Reached { response, certificates } => signal_mask(
            origin_signal(response, ranges),
            has_header(response.headers@, "cf-ray"@),
            has_header(response.headers@, "cf-cache-status"@),
            server_signal(response.headers@),
            tls_signal(certificates),
        ),
    }
}

/// Whether a probe showed any of the five signals.
pub open spec fn any_signal(probe: Probe, ranges: Seq<Seq<char>>) -> bool {
    match probe {
        Probe::Unreachable => false,
        Probe::Reached { response, certificates } => origin_signal(response, ranges) || has_header(
            response.headers@,
            "cf-ray"@,
        ) || has_header(response.headers@, "cf-cache-status"@) || server_signal(response.headers@)
            || tls_signal(certificates),
    }
}

/// The record `domain` after `probe` was written into it.
pub open spec fn verified(domain: Domain, probe: Probe, ranges: Seq<Seq<char>>) -> Domain {
    Domain {
        name: domain.name,
        check_result: probe_mask(probe, ranges),
        is_unreachable: probe is Unreachable,
    }
}

/// The words for a record's state.
pub open spec fn status_text(is_unreachable: bool, mask: u8) -> Seq<char> {
    if is_unreachable {
        "Unreachable"@
    } else if mask != 0 {
        "CF detected"@
    } else {
        "CF not detected"@
    }
}

/// Each bit of a mask reads back as the signal it was made from, and the
/// mask is empty exactly where no signal holds.
pub proof fn lemma_mask_bits(ip: bool, ray: bool, cache: bool, server: bool, ssl: bool)
    ensures
        (signal_mask(ip, ray, cache, server, ssl) & check_result::CF_IP != 0) == ip,
        (signal_mask(ip, ray, cache, server, ssl) & check_result::CF_RAY_HEADER != 0) == ray,
        (signal_mask(ip, ray, cache, server, ssl) & check_result::CF_CACHE_STATUS_HEADER != 0)
            == cache,
        (signal_mask(ip, ray, cache, server, ssl) & check_result::CF_SERVER != 0) == server,
        (signal_mask(ip, ray, cache, server, ssl) & check_result::CF_SSL != 0) == ssl,
        (signal_mask(ip, ray, cache, server, ssl) == 0) == !(ip || ray || cache || server || ssl),
        signal_mask(ip, ray, cache, server, ssl) <= 31,
{
    let a: u8 = bit(ip, 1);
    let b: u8 = bit(ray, 2);
    let c: u8 = bit(cache, 4);
    let d: u8 = bit(server, 8);
    let e: u8 = bit(ssl, 16);
    assert((a == 0 || a == 1) && (b == 0 || b == 2) && (c == 0 || c == 4) && (d == 0 || d == 8) && (
    e == 0 || e == 16) ==> {
        &&& ((a | b | c | d | e) & 1 != 0) == (a == 1)
        &&& ((a | b | c | d | e) & 2 != 0) == (b == 2)
        &&& ((a | b | c | d | e) & 4 != 0) == (c == 4)
        &&& ((a | b | c | d | e) & 8 != 0) == (d == 8)
        &&& ((a | b | c | d | e) & 16 != 0) == (e == 16)
        &&& ((a | b | c | d | e) == 0) == (a == 0 && b == 0 && c == 0 && d == 0 && e == 0)
        &&& (a | b | c | d | e) <= 31
    }) by (bit_vector);
}

/// The first `://` of a text that begins with `http://` stands at index 4,
/// and that of one that begins with `https://` at index 5.
pub proof fn lemma_scheme_is_found(name: Seq<char>)
    ensures
        first_occurrence("http://"@ + name, "://"@, 0) == Some(4int),
        first_occurrence("https://"@ + name, "://"@, 0) == Some(5int),
        ("http://"@ + name).take(4) == "http"@,
        ("https://"@ + name).take(5) == "https"@,
        ("http://"@ + name).skip(7) == name,
        ("https://"@ + name).skip(8) == name,
{
    reveal_strlit("://");
    reveal_strlit("http://");
    reveal_strlit("https://");
    reveal_strlit("http");
    reveal_strlit("https");
    let sep = "://"@;
    let a = "http://"@ + name;
    let b = "https://"@ + name;
    assert(a.subrange(4, 7) =~= sep);
    assert(b.subrange(5, 8) =~= sep);
    assert forall|j: int| 0 <= j < 4 implies !occurs_at(a, sep, j) by {
        if j + 3 <= a.len() {
            assert(a.subrange(j, j + 3)[0] == a[j]);
        }
    }
    assert forall|j: int| 0 <= j < 5 implies !occurs_at(b, sep, j) by {
        if j + 3 <= b.len() {
            assert(b.subrange(j, j + 3)[0] == b[j]);
        }
    }
    assert(first_occurrence(a, sep, 4) == Some(4int));
    assert(first_occurrence(a, sep, 3) == Some(4int));
    assert(first_occurrence(a, sep, 2) == Some(4int));
    assert(first_occurrence(a, sep, 1) == Some(4int));
    assert(first_occurrence(b, sep, 5) == Some(5int));
    assert(first_occurrence(b, sep, 4) == Some(5int));
    assert(first_occurrence(b, sep, 3) == Some(5int));
    assert(first_occurrence(b, sep, 2) == Some(5int));
    assert(first_occurrence(b, sep, 1) == Some(5int));
    assert(a.take(4) =~= "http"@);
    assert(b.take(5) =~= "https"@);
    assert(a.skip(7) =~= name);
    assert(b.skip(8) =~= name);
}

/// A text made of `http://` or `https://` and a name has a supported
/// scheme and is normalised to that name without the whitespace around it:
/// to the name itself where it neither begins nor ends with whitespace.
pub proof fn lemma_scheme_is_stripped(name: Seq<char>)
    ensures
        scheme_supported("http://"@ + name),
        scheme_supported("https://"@ + name),
        normalized("http://"@ + name) == trimmed(name),
        normalized("https://"@ + name) == trimmed(name),
        valid_domain("http://"@ + name) == valid_name(trimmed(name)),
        valid_domain("https://"@ + name) == valid_name(trimmed(name)),
        name.len() > 0 && !is_whitespace(name.first()) && !is_whitespace(name.last()) ==> trimmed(
            name,
        ) == name,
{
    lemma_scheme_is_found(name);
}

/// Whether a label is longer than 63 characters, or begins or ends with a
/// hyphen.
pub open spec fn malformed_label(label: Seq<char>) -> bool {
    label.len() > 63 || (label.len() > 0 && (label.first() == '-' || label.last() == '-'))
}

/// A text stands for no domain where its name has fewer than two labels,
/// more than 253 characters, or a label that is longer than 63 characters
/// or begins or ends with a hyphen.
pub proof fn lemma_malformed_name_is_rejected(raw: Seq<char>)
    requires
        ({
            let name = normalized(raw);
            let labels = split(name, seq!['.']);
            ||| labels.len() < 2
            ||| name.len() > 253
            ||| exists|i: int| 0 <= i < labels.len() && malformed_label(#[trigger] labels[i])
        }),
    ensures
        !valid_name(normalized(raw)),
        !valid_domain(raw),
{
    let labels = split(normalized(raw), seq!['.']);
    if exists|i: int| 0 <= i < labels.len() && malformed_label(#[trigger] labels[i]) {
        let i = choose|i: int| 0 <= i < labels.len() && malformed_label(#[trigger] labels[i]);
        assert(!valid_label(labels[i]));
    }
}

/// `flag` where `on` holds, else no bit.
pub fn flag(on: bool, value: u8) -> (mask: u8)
    ensures
        mask == bit(on, value),
{
    if on {
        value
    } else {
        0
    }
}

/// A record that a probe was written into is either unreachable with an
/// empty mask or reachable; a reachable record has an empty mask exactly
/// where the probe showed no signal, and each of its bits tells whether
/// the probe showed that signal.
pub proof fn lemma_verified_record_is_consistent(
    domain: Domain,
    probe: Probe,
    ranges: Seq<Seq<char>>,
)
    ensures
        verified(domain, probe, ranges).name == domain.name,
        verified(domain, probe, ranges).check_result <= 31,
        verified(domain, probe, ranges).is_unreachable ==> verified(
            domain,
            probe,
            ranges,
        ).check_result == check_result::EMPTY,
        !verified(domain, probe, ranges).is_unreachable ==> ((verified(
            domain,
            probe,
            ranges,
        ).check_result == check_result::EMPTY) == !any_signal(probe, ranges)),
        probe matches Probe::Reached { response, certificates } ==> {
            let mask = verified(domain, probe, ranges).check_result;
            &&& (mask & check_result::CF_IP != 0) == origin_signal(response, ranges)
            &&& (mask & check_result::CF_RAY_HEADER != 0) == has_header(
                response.headers@,
                "cf-ray"@,
            )
            &&& (mask & check_result::CF_CACHE_STATUS_HEADER != 0) == has_header(
                response.headers@,
                "cf-cache-status"@,
            )
            &&& (mask & check_result::CF_SERVER != 0) == server_signal(response.headers@)
            &&& (mask & check_result::CF_SSL != 0) == tls_signal(certificates)
        },
{
    match probe {
        Probe::Unreachable => {},
        Probe::Reached { response, certificates } => {
            lemma_mask_bits(
                origin_signal(response, ranges),
                has_header(response.headers@, "cf-ray"@),
                has_header(response.headers@, "cf-cache-status"@),
                server_signal(response.headers@),
                tls_signal(certificates),
            );
        },
    }
}

/// Tests whether a label is valid.
pub fn label_is_valid(label: &Vec<char>) -> (ok: bool)
    ensures
        ok == valid_label(label@),
{
    if label.len() > 63 {
        return false;
    }
    let mut i: usize = 0;
    while i < label.len()
        invariant
            i <= label.len(),
            forall|j: int| 0 <= j < i ==> label_char(#[trigger] label@[j]),
        decreases label.len() - i,
    {
        let c: char = label[i];
        if !(is_alphanumeric(c) || c == '-') {
            assert(!label_char(label@[i as int]));
            return false;
        }
        i += 1;
    }
    if label.len() > 0 && (label[0] == '-' || label[label.len() - 1] == '-') {
        return false;
    }
    true
}

/// Tests whether a name, already normalised, is valid.
pub fn name_is_valid(name: &Vec<char>) -> (ok: bool)
    ensures
        ok == valid_name(name@),
{
    if name.len() == 0 || name.len() > 253 {
        return false;
    }
    let dot: Vec<char> = vec!['.'];
    assert(dot@ =~= seq!['.']);
    let labels = split_chars(name, &dot);
    if labels.len() < 2 {
        return false;
    }
    let mut i: usize = 0;
    while i < labels.len()
        invariant
            i <= labels.len(),
            rows(labels@) == split(name@, seq!['.']),
            forall|j: int| 0 <= j < i ==> valid_label(#[trigger] split(name@, seq!['.'])[j]),
        decreases labels.len() - i,
    {
        assert(rows(labels@)[i as int] == labels@[i as int]@);
        if !label_is_valid(&labels[i]) {
            assert(!valid_label(split(name@, seq!['.'])[i as int]));
            return false;
        }
        i += 1;
    }
    true
}

/// Takes the scheme off `raw`; `None` where the scheme is not supported.
pub fn strip_scheme(raw: &Vec<char>) -> (rest: Option<Vec<char>>)
    ensures
        rest is Some == scheme_supported(raw@),
        rest matches Some(r) ==> r@ == without_scheme(raw@),
{
    let separator = chars_of("://");
    proof {
        reveal_strlit("://");
    }
    match find_from(raw, &separator, 0) {
        Some(i) => {
            let scheme = copy_range(raw, 0, i);
            let http = chars_of("http");
            let https = chars_of("https");
            if same_chars(&scheme, &http) || same_chars(&scheme, &https) {
                Some(copy_range(raw, i + 3, raw.len()))
            } else {
                None
            }
        },
        None => Some(copy_range(raw, 0, raw.len())),
    }
}

/// Tests whether `a` and `b` hold the same characters.
pub fn same_chars(a: &Vec<char>, b: &Vec<char>) -> (same: bool)
    ensures
        same == (a@ == b@),
{
    if a.len() != b.len() {
        return false;
    }
    let mut i: usize = 0;
    while i < a.len()
        invariant
            i <= a.len(),
            a.len() == b.len(),
            forall|j: int| 0 <= j < i ==> a@[j] == b@[j],
        decreases a.len() - i,
    {
        if a[i] != b[i] {
            return false;
        }
        i += 1;
    }
    assert(a@ =~= b@);
    true
}

/// Finds the first header called `name`.
pub fn find_header(headers: &Vec<Header>, name: &str) -> (at: Option<usize>)
    ensures
        at is Some == has_header(headers@, name@),
        match at {
            Some(i) => i < headers.len() && header_value(headers@, name@) == Some(
                headers@[i as int].value@,
            ),
            None => header_value(headers@, name@) is None,
        },
{
    let wanted = chars_of(name);
    let mut i: usize = 0;
    assert(headers@.skip(0) =~= headers@);
    while i < headers.len()
        invariant
            i <= headers.len(),
            wanted@ == name@,
            forall|j: int| 0 <= j < i ==> (#[trigger] headers@[j]).name@ != name@,
            header_value(headers@, name@) == header_value(headers@.skip(i as int), name@),
        decreases headers.len() - i,
    {
        let found = chars_of(headers[i].name.as_str());
        assert(headers@.skip(i as int).first() == headers@[i as int]);
        if same_chars(&found, &wanted) {
            return Some(i);
        }
        assert(headers@.skip(i as int).drop_first() =~= headers@.skip(i + 1));
        i += 1;
    }
    None
}

/// A domain under test.
#[derive(Debug, Clone)]
pub struct Domain {
    /// The domain's name, normalised.
    pub name: String,
    /// The mask of the signals seen.
    pub check_result: u8,
    /// Whether the domain failed to answer.
    pub is_unreachable: bool,
}

impl Domain {
    /// What holds of every record that `build` made and `verify_domain`
    /// changed: the name is valid, the mask has no bit beyond the five, and
    /// an unreachable record has an empty mask.
    pub open spec fn wf(&self) -> bool {
        &&& valid_name(self.name@)
        &&& self.check_result <= 31
        &&& (self.is_unreachable ==> self.check_result == check_result::EMPTY)
    }

    /// Makes the record for `name`: with the normalised name, an empty mask
    /// and not unreachable. Fails where the scheme is not supported, and
    /// where the name is not valid.
    pub fn build(name: String) -> (made: Result<Self, ValidationError>)
        ensures
            !scheme_supported(name@) ==> made == Err::<Self, ValidationError>(
                ValidationError::UnsupportedScheme,
            ),
            scheme_supported(name@) && !valid_name(normalized(name@)) ==> made == Err::<
                Self,
                ValidationError,
            >(ValidationError::InvalidName),
            valid_domain(name@) ==> made is Ok,
            made matches Ok(domain) ==> {
                &&& domain.name@ == normalized(name@)
                &&& domain.check_result == check_result::EMPTY
                &&& !domain.is_unreachable
                &&& domain.wf()
            },
    {
        let raw = chars_of(name.as_str());
        match strip_scheme(&raw) {
            None => Err(ValidationError::UnsupportedScheme),
            Some(rest) => {
                let clean = trim_chars(&rest);
                if name_is_valid(&clean) {
                    Ok(
                        Domain {
                            name: string_of(&clean),
                            check_result: check_result::EMPTY,
                            is_unreachable: false,
                        },
                    )
                } else {
                    Err(ValidationError::InvalidName)
                }
            },
        }
    }

    /// A second record with the same name, mask and flag.
    pub fn duplicate(&self) -> (copy: Self)
        ensures
            copy == *self,
    {
        Domain {
            name: self.name.clone(),
            check_result: self.check_result,
            is_unreachable: self.is_unreachable,
        }
    }

    /// Tests whether `domain` stands for a domain under test.
    pub fn is_valid(domain: &String) -> (ok: bool)
        ensures
            ok == valid_domain(domain@),
    {
        let raw = chars_of(domain.as_str());
        match strip_scheme(&raw) {
            None => false,
            Some(rest) => {
                let clean = trim_chars(&rest);
                name_is_valid(&clean)
            },
        }
    }

    /// Tests whether `domain` has no scheme, or one of `http` and `https`.
    pub fn has_supported_scheme(domain: &String) -> (ok: bool)
        ensures
            ok == scheme_supported(domain@),
    {
        let raw = chars_of(domain.as_str());
        strip_scheme(&raw).is_some()
    }

    /// Takes the scheme and the whitespace around the rest off `domain`.
    pub fn clear_name_from_proto(domain: &String) -> (name: String)
        requires
            scheme_supported(domain@),
        ensures
            name@ == normalized(domain@),
    {
        let raw = chars_of(domain.as_str());
        match strip_scheme(&raw) {
            Some(rest) => {
                let clean = trim_chars(&rest);
                string_of(&clean)
            },
            None => String::new(),
        }
    }

    /// Tests whether a chain of certificates, each in DER, holds one whose
    /// issuer names the provider.
    pub fn get_certificate_info(certificates: &Vec<Vec<u8>>) -> (found: bool)
        ensures
            found == chain_names_provider(certificates@),
    {
        let mut i: usize = 0;
        while i < certificates.len()
            invariant
                i <= certificates.len(),
                forall|j: int|
                    0 <= j < i ==> !certificate_names_provider(
                        #[trigger] certificates@[j]@,
                    ),
            decreases certificates.len() - i,
        {
            if certificate_is_provider(&certificates[i]) {
                return true;
            }
            i += 1;
        }
        false
    }

    /// Computes the mask that `probe` gives against the ranges of `cf_ips`.
    pub fn probe_result(probe: &Probe, cf_ips: &CFIPs) -> (mask: u8)
        ensures
            mask == probe_mask(*probe, texts(cf_ips.ipsv4@)),
            mask <= 31,
            (mask != 0) == any_signal(*probe, texts(cf_ips.ipsv4@)),
    {
        match probe {
            Probe::Unreachable => check_result::EMPTY,
            Probe::Reached { response, certificates } => {
                let ip: bool = match &response.remote_addr {
                    Some(addr) => cf_ips.check_ip_v4(addr.as_str()),
                    None => false,
                };
                let ray: bool = find_header(&response.headers, "cf-ray").is_some();
                let cache: bool = find_header(&response.headers, "cf-cache-status").is_some();
                let server: bool = match find_header(&response.headers, "server") {
                    Some(i) => mentions_provider(response.headers[i].value.as_str()),
                    None => false,
                };
                let ssl: bool = match certificates {
                    Some(chain) => Self::get_certificate_info(chain),
                    None => false,
                };
                proof {
                    lemma_mask_bits(ip, ray, cache, server, ssl);
                }
                let mask: u8 = flag(ip, check_result::CF_IP) | flag(
                    ray,
                    check_result::CF_RAY_HEADER,
                ) | flag(cache, check_result::CF_CACHE_STATUS_HEADER) | flag(
                    server,
                    check_result::CF_SERVER,
                ) | flag(ssl, check_result::CF_SSL);
                mask
            },
        }
    }

    /// Writes what `probe` showed into the record: the mask of the signals
    /// seen, and whether the domain failed to answer. What the record held
    /// before does not matter.
    pub fn verify_domain(&mut self, probe: &Probe, cf_ips: &CFIPs)
        ensures
            *final(self) == verified(*old(self), *probe, texts(cf_ips.ipsv4@)),
            final(self).is_unreachable ==> final(self).check_result == check_result::EMPTY,
            !final(self).is_unreachable ==> ((final(self).check_result == check_result::EMPTY)
                == !any_signal(*probe, texts(cf_ips.ipsv4@))),
            valid_name(old(self).name@) ==> final(self).wf(),
    {
        let mask = Self::probe_result(probe, cf_ips);
        let unreachable: bool = match probe {
            Probe::Unreachable => true,
            Probe::Reached { .. } => false,
        };
        self.check_result = mask;
        self.is_unreachable = unreachable;
    }

    /// Whether a certificate's issuer named the provider.
    pub fn has_cf_ssl(&self) -> (set: bool)
        ensures
            set == (self.check_result & check_result::CF_SSL != 0),
    {
        self.check_result & check_result::CF_SSL != 0
    }

    /// Whether the answering address lay in a published range.
    pub fn has_cf_ip(&self) -> (set: bool)
        ensures
            set == (self.check_result & check_result::CF_IP != 0),
    {
        self.check_result & check_result::CF_IP != 0
    }

    /// Whether the response carried a `cf-ray` header.
    pub fn has_cf_ray_header(&self) -> (set: bool)
        ensures
            set == (self.check_result & check_result::CF_RAY_HEADER != 0),
    {
        self.check_result & check_result::CF_RAY_HEADER != 0
    }

    /// Whether the response carried a `cf-cache-status` header.
    pub fn has_cf_cache_status_header(&self) -> (set: bool)
        ensures
            set == (self.check_result & check_result::CF_CACHE_STATUS_HEADER != 0),
    {
        self.check_result & check_result::CF_CACHE_STATUS_HEADER != 0
    }

    /// Whether the `server` header named the provider.
    pub fn has_cf_server_header(&self) -> (set: bool)
        ensures
            set == (self.check_result & check_result::CF_SERVER != 0),
    {
        self.check_result & check_result::CF_SERVER != 0
    }

    /// The record's state in words.
    pub fn get_status(&self) -> (status: &str)
        ensures
            status@ == status_text(self.is_unreachable, self.check_result),
    {
        if self.is_unreachable {
            "Unreachable"
        } else if self.check_result != 0 {
            "CF detected"
        } else {
            "CF not detected"
        }
    }
}

} // verus!
