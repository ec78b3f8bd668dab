use vstd::prelude::*;
use vstd::string::StringExecFns;

use crate::text::{decimal, lemma_decimal_spells_number, parse_u64, push_decimal};

verus! {

/// `<ip>:<port>`, the port written in decimal.
pub open spec fn spec_server_addr(ip: Seq<char>, port: u16) -> Seq<char> {
    ip + ":"@ + decimal(port as nat)
}

/// The address of the benchmark server: `<ip>:<port>`.
pub fn format_server_addr(ip: &str, port: u16) -> (a: String)
    ensures
        a@ == spec_server_addr(ip@, port),
{
    let mut a = String::from_str(ip);
    a.append(":");
    push_decimal(&mut a, port as u64);
    a
}

/// The URI that the client connects to: `http://<server_addr>`.
pub fn endpoint_uri(server_addr: &str) -> (u: String)
    ensures
        u@ == "http://"@ + server_addr@,
{
    let mut u = String::from_str("http://");
    u.append(server_addr);
    u
}

/// The text of a failed connection:
/// `Failed to connect to server at <server_addr>: <cause>`.
pub fn connect_error_message(server_addr: &str, cause: &str) -> (m: String)
    ensures
        m@ == "Failed to connect to server at "@ + server_addr@ + ": "@ + cause@,
{
    let mut m = String::from_str("Failed to connect to server at ");
    m.append(server_addr);
    m.append(": ");
    m.append(cause);
    m
}

/// The server address is the whole `ip`, one colon, and then text that
/// reads back as the port.
pub proof fn lemma_server_addr_holds_ip_and_port(ip: Seq<char>, port: u16)
    ensures
        spec_server_addr(ip, port).len() == ip.len() + 1 + decimal(port as nat).len(),
        spec_server_addr(ip, port).subrange(0, ip.len() as int) == ip,
        spec_server_addr(ip, port)[ip.len() as int] == ':',
        parse_u64(
            spec_server_addr(ip, port).subrange(
                ip.len() as int + 1,
                spec_server_addr(ip, port).len() as int,
            ),
        ) == Some(port as u64),
{
    reveal_strlit(":");
    let a = spec_server_addr(ip, port);
    assert(a.subrange(0, ip.len() as int) =~= ip);
    assert(a.subrange(ip.len() as int + 1, a.len() as int) =~= decimal(port as nat));
    lemma_decimal_spells_number(port as u64);
}

/// Different addresses or ports give different server addresses, as long as
/// the addresses hold no colon.
pub proof fn lemma_server_addrs_differ(ip1: Seq<char>, port1: u16, ip2: Seq<char>, port2: u16)
    requires
        !ip1.contains(':'),
        !ip2.contains(':'),
        spec_server_addr(ip1, port1) == spec_server_addr(ip2, port2),
    ensures
        ip1 == ip2,
        port1 == port2,
{
    lemma_server_addr_holds_ip_and_port(ip1, port1);
    lemma_server_addr_holds_ip_and_port(ip2, port2);
    let a = spec_server_addr(ip1, port1);
    if ip1.len() < ip2.len() {
        assert(a[ip1.len() as int] == ip2[ip1.len() as int]);
        assert(ip2.contains(':'));
    } else if ip2.len() < ip1.len() {
        assert(a[ip2.len() as int] == ip1[ip2.len() as int]);
        assert(ip1.contains(':'));
    }
    assert(ip1 =~= ip2);
}

} // verus!
