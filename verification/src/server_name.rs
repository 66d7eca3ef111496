//! Names that a TLS server can be held to.
use crate::text::has_char;
use rustls::pki_types::{Ipv6Addr, ServerName};
use vstd::prelude::*;

verus! {

/// Whether `rustls` takes a host as the name of a server: a DNS name or an IP
/// address in the notation it accepts.
pub uninterp spec fn server_name_accepts(host: Seq<char>) -> bool;

/// Calls `rustls::pki_types::ServerName::try_from` on the host. The contract
/// claims only that whether it succeeds depends on the host alone; which hosts it
/// takes is left to that function.
#[verifier::external_body]
pub(crate) fn is_server_name(host: &str) -> (r: bool)
    ensures
        r == server_name_accepts(host@),
{
    ServerName::try_from(host).is_ok()
}

/// Whether a text is an IPv6 address in the usual notation.
pub uninterp spec fn ipv6_accepts(text: Seq<char>) -> bool;

/// Calls `rustls::pki_types::Ipv6Addr::try_from` on the text. The contract claims
/// that whether it succeeds depends on the text alone, and that a text it takes
/// holds a colon and no bracket: it reads groups of hexadecimal digits with colons
/// between them or a double colon, then the numbers and dots of an IPv4 address, and
/// nothing else. The rest of the notation is left to that function.
#[verifier::external_body]
pub(crate) fn is_ipv6(text: &str) -> (r: bool)
    ensures
        r == ipv6_accepts(text@),
        r ==> has_char(text@, ':') && !has_char(text@, ']'),
{
    Ipv6Addr::try_from(text).is_ok()
}

} // verus!
