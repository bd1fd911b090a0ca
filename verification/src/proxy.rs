//! The proxy orchestrator: authentication gating, target resolution,
//! round-robin egress selection, and the responses handed back at the
//! engine's three hook points.

use vstd::prelude::*;

use crate::auth::{create_basic_auth_header, expected_auth_header};
use crate::selector::{next_counter, selection_index};
use crate::target::{
    extract_target_info, resolved_host, resolved_port, scheme_is_https, TargetInfo,
};
use crate::text::{dec_digits, join_host_port, log_line};

verus! {

/// How to open the outbound connection for one request: destination
/// `host:port` address, TLS flag, TLS server name, and the local
/// egress address the connection must bind to.
pub struct PeerDescriptor {
    pub address: String,
    pub use_tls: bool,
    pub sni: String,
    pub bind_addr: String,
}

/// The request-routing core: a fixed pool of egress addresses, one
/// shared request counter, and the precomputed expected credential
/// header. Pool and credentials are read-only after startup.
pub struct MultiIPProxy {
    ip_addresses: Vec<String>,
    request_counter: usize,
    expected_auth_header: String,
}

impl MultiIPProxy {
    /// The egress pool, as the sequence of its addresses.
    pub closed spec fn pool(&self) -> Seq<Seq<char>> {
        self.ip_addresses@.map_values(|s: String| s@)
    }

    /// The current value of the shared request counter.
    pub closed spec fn counter(&self) -> usize {
        self.request_counter
    }

    /// The expected `Proxy-Authorization` value.
    pub closed spec fn expected_header(&self) -> Seq<char> {
        self.expected_auth_header@
    }

    /// Startup invariant: the pool is non-empty.
    pub open spec fn wf(&self) -> bool {
        self.pool().len() > 0
    }

    /// Whether a supplied `Proxy-Authorization` value passes the
    /// check: present and exactly equal to the expected value.
    pub open spec fn auth_allows(&self, auth_header: Option<Seq<char>>) -> bool {
        match auth_header {
            Option::Some(h) => h == self.expected_header(),
            Option::None => false,
        }
    }

    /// Builds the proxy core over a non-empty egress pool, with the
    /// counter at zero and the credential header precomputed.
    pub fn new(ip_addresses: Vec<String>, username: &str, password: &str) -> (proxy: Self)
        requires
            ip_addresses@.len() > 0,
        ensures
            proxy.wf(),
            proxy.pool() == ip_addresses@.map_values(|s: String| s@),
            proxy.counter() == 0,
            proxy.expected_header() == expected_auth_header(username@, password@),
    {
        let expected = create_basic_auth_header(username, password);
        MultiIPProxy {
            ip_addresses,
            request_counter: 0,
            expected_auth_header: expected,
        }
    }

    /// The number of addresses in the egress pool.
    pub fn pool_size(&self) -> (n: usize)
        ensures
            n == self.pool().len(),
    {
        self.ip_addresses.len()
    }

    /// Reads the shared request counter.
    pub fn request_count(&self) -> (c: usize)
        ensures
            c == self.counter(),
    {
        self.request_counter
    }

    /// Selects the next egress address: advances the shared counter by
    /// one (wrapping) and returns the pool member at the old counter's
    /// residue modulo the pool length. Pool and credentials are
    /// untouched.
    pub fn select_next_ip(&mut self) -> (ip: String)
        requires
            old(self).wf(),
        ensures
            final(self).wf(),
            final(self).pool() == old(self).pool(),
            final(self).expected_header() == old(self).expected_header(),
            final(self).counter() == next_counter(old(self).counter()),
            ip@ == old(self).pool()[selection_index(
                old(self).counter() as nat,
                old(self).pool().len(),
            )],
    {
        let request_number = self.request_counter;
        let ip_index = request_number % self.ip_addresses.len();
        let ip = self.ip_addresses[ip_index].clone();
        self.request_counter = if request_number == usize::MAX {
            0
        } else {
            request_number + 1
        };
        ip
    }

    /// Checks a supplied `Proxy-Authorization` value against the
    /// precomputed expected value: allow exactly on byte-for-byte
    /// equality; a missing header is a deny.
    pub fn verify_authentication(&self, auth_header: Option<&str>) -> (allow: bool)
        ensures
            allow == self.auth_allows(header_view(auth_header)),
    {
        match auth_header {
            Option::Some(header) => {
                let supplied: String = header.to_owned();
                supplied == self.expected_auth_header
            },
            Option::None => false,
        }
    }

    /// The filter hook's decision: deny (and challenge) exactly when
    /// the request's credential check fails. Touches no state, so a
    /// denied request never advances the egress counter.
    pub fn request_filter(&self, auth_header: Option<&str>) -> (deny: bool)
        ensures
            deny == !self.auth_allows(header_view(auth_header)),
    {
        !self.verify_authentication(auth_header)
    }

    /// The peer-selection hook: resolves the target from the request's
    /// addressing information, selects the next egress address, and
    /// assembles the peer descriptor the engine connects with.
    pub fn upstream_peer(
        &mut self,
        authority: Option<String>,
        scheme: Option<String>,
        explicit_port: Option<u16>,
    ) -> (peer: PeerDescriptor)
        requires
            old(self).wf(),
        ensures
            final(self).wf(),
            final(self).pool() == old(self).pool(),
            final(self).expected_header() == old(self).expected_header(),
            final(self).counter() == next_counter(old(self).counter()),
            peer.use_tls == scheme_is_https(scheme),
            peer.sni@ == resolved_host(authority),
            peer.address@ == resolved_host(authority) + ":"@ + dec_digits(
                resolved_port(explicit_port, scheme_is_https(scheme)) as nat,
            ),
            peer.bind_addr@ == old(self).pool()[selection_index(
                old(self).counter() as nat,
                old(self).pool().len(),
            )],
    {
        let source_ip = self.select_next_ip();
        let target: TargetInfo = extract_target_info(authority, scheme, explicit_port);
        let address = join_host_port(target.host.as_str(), target.port);
        PeerDescriptor {
            address,
            use_tls: target.use_tls,
            sni: target.host,
            bind_addr: source_ip,
        }
    }

    /// The completion hook's log line: method, request URI, and the
    /// final response status (0 when no response was ever produced).
    pub fn logging(&self, method: &str, uri: &str, response_status: Option<u16>) -> (line: String)
        ensures
            line@ == method@ + " "@ + uri@ + " -> "@ + dec_digits(
                status_or_zero(response_status) as nat,
            ),
    {
        let status = get_response_status(response_status);
        log_line(method, uri, status)
    }
}

/// The view of an optional header value as an optional character
/// sequence.
pub open spec fn header_view(auth_header: Option<&str>) -> Option<Seq<char>> {
    match auth_header {
        Option::Some(h) => Option::Some(h@),
        Option::None => Option::None,
    }
}

/// The status recorded for a completed request: the response's code,
/// or 0 when no response was ever produced.
pub open spec fn status_or_zero(response_status: Option<u16>) -> u16 {
    match response_status {
        Option::Some(s) => s,
        Option::None => 0,
    }
}

/// Reads the final response status, defaulting to 0.
pub fn get_response_status(response_status: Option<u16>) -> (status: u16)
    ensures
        status == status_or_zero(response_status),
{
    match response_status {
        Option::Some(s) => s,
        Option::None => 0,
    }
}

} // verus!
