//! The library's view of the outside crates it builds on: TLS client
//! configuration, DNS name syntax, X.509 parsing, and text renderings of
//! timestamps and grouped numbers. Each item here is believed, not proved;
//! everything downstream of these contracts is verified.

use vstd::prelude::*;

use std::sync::Arc;
use chrono::TimeZone;
use num_format::ToFormattedString;

verus! {

/// The TLS client configuration type; opaque to the library, which only
/// constructs it once and hands it to the connector by reference.
#[verifier::external_type_specification]
#[verifier::external_body]
pub struct ExClientConfig(rustls::ClientConfig);

/// Relies on rustls::ClientConfig::new and
/// RootCertStore::add_server_trust_anchors: a client configuration whose
/// trust anchors are the bundled TLS server roots of webpki-roots. The
/// library treats the value as opaque.
#[verifier::external_body]
pub(crate) fn default_tls_config() -> Arc<rustls::ClientConfig> {
    let mut config = rustls::ClientConfig::new();
    config
        .root_store
        .add_server_trust_anchors(&webpki_roots::TLS_SERVER_ROOTS);
    Arc::new(config)
}

/// Whether webpki accepts a string as the syntax of a DNS host name.
pub uninterp spec fn dns_name_ok(s: Seq<char>) -> bool;

/// Relies on webpki::DNSNameRef::try_from_ascii_str: pure syntax
/// validation, a function of the string alone.
#[verifier::external_body]
pub(crate) fn dns_name_is_valid(s: &str) -> (r: bool)
    ensures
        r == dns_name_ok(s@),
{
    webpki::DNSNameRef::try_from_ascii_str(s).is_ok()
}

/// The validity window an X.509 parser extracts from DER-encoded
/// certificate bytes: not-before and not-after as whole-second UTC epoch
/// values, or nothing when the bytes do not decode to a certificate.
pub uninterp spec fn der_validity_of(der: Seq<u8>) -> Option<(i64, i64)>;

/// Relies on x509_parser::parse_x509_certificate and
/// ASN1Time::timestamp: decoding is a function of the input bytes alone;
/// timestamps count non-leap seconds since the Unix epoch.
#[verifier::external_body]
pub(crate) fn parse_der_validity(der: &[u8]) -> (r: Option<(i64, i64)>)
    ensures
        r == der_validity_of(der@),
{
    match x509_parser::parse_x509_certificate(der) {
        Ok((_, cert)) => {
            let validity = cert.validity();
            Some((validity.not_before.timestamp(), validity.not_after.timestamp()))
        },
        Err(_) => None,
    }
}

/// Largest whole-second UTC epoch value the library formats as RFC 3339;
/// roughly 255,000 years into the era, comfortably inside the range
/// chrono's calendar supports.
pub const MAX_RFC3339_TIMESTAMP: i64 = 8_000_000_000_000;

/// Smallest whole-second UTC epoch value the library formats as RFC 3339.
pub const MIN_RFC3339_TIMESTAMP: i64 = -8_000_000_000_000;

/// The RFC 3339 rendering of a whole-second UTC epoch value, as chrono
/// writes it (offset spelled +00:00).
pub uninterp spec fn rfc3339_of(ts: int) -> Seq<char>;

/// Relies on chrono's TimeZone::timestamp_opt and DateTime::to_rfc3339:
/// the rendering is a function of the timestamp alone, and timestamp_opt
/// returns Single for every count of seconds whose date stays within
/// chrono's calendar, which the bounds here keep well clear of.
#[verifier::external_body]
pub(crate) fn rfc3339_utc(ts: i64) -> (r: String)
    requires
        MIN_RFC3339_TIMESTAMP <= ts <= MAX_RFC3339_TIMESTAMP,
    ensures
        r@ == rfc3339_of(ts as int),
{
    chrono::Utc.timestamp_opt(ts, 0).unwrap().to_rfc3339()
}

/// The rendering of an integer in num-format's `en` locale: decimal digits
/// with a comma between each group of three.
pub uninterp spec fn en_grouped_of(n: int) -> Seq<char>;

/// Relies on num_format::ToFormattedString::to_formatted_string with
/// Locale::en, a compiled-in locale: the rendering is a function of the
/// number alone.
#[verifier::external_body]
pub(crate) fn format_grouped_en(n: i64) -> (r: String)
    ensures
        r@ == en_grouped_of(n as int),
{
    n.to_formatted_string(&num_format::Locale::en)
}

/// Relies on String::push: appends the given character to the end of the
/// string. vstd specifies appending a str slice but not a single char.
#[verifier::external_body]
pub(crate) fn push_char(s: &mut String, c: char)
    ensures
        final(s)@ == old(s)@ + seq![c],
{
    s.push(c);
}

} // verus!
