//! Building the small strings the proxy hands outward: decimal port
//! numbers, `host:port` addresses, and the completion log line.

use vstd::prelude::*;
use vstd::string::StringExecFns;

verus! {

/// The decimal digit character for `d` (`d < 10`).
pub open spec fn digit_char(d: nat) -> char {
    if d == 0 {
        '0'
    } else if d == 1 {
        '1'
    } else if d == 2 {
        '2'
    } else if d == 3 {
        '3'
    } else if d == 4 {
        '4'
    } else if d == 5 {
        '5'
    } else if d == 6 {
        '6'
    } else if d == 7 {
        '7'
    } else if d == 8 {
        '8'
    } else {
        '9'
    }
}

/// The decimal representation of `n`, most significant digit first,
/// with no leading zeros (`0` is rendered as `"0"`).
pub open spec fn dec_digits(n: nat) -> Seq<char>
    decreases n,
{
    if n < 10 {
        seq![digit_char(n)]
    } else {
        dec_digits(n / 10).push(digit_char(n % 10))
    }
}

fn digit_str(d: u16) -> (r: String)
    requires
        d < 10,
    ensures
        r@ == seq![digit_char(d as nat)],
{
    let r: String = match d {
        0 => "0".to_owned(),
        1 => "1".to_owned(),
        2 => "2".to_owned(),
        3 => "3".to_owned(),
        4 => "4".to_owned(),
        5 => "5".to_owned(),
        6 => "6".to_owned(),
        7 => "7".to_owned(),
        8 => "8".to_owned(),
        _ => "9".to_owned(),
    };
    proof {
        reveal_strlit("0");
        reveal_strlit("1");
        reveal_strlit("2");
        reveal_strlit("3");
        reveal_strlit("4");
        reveal_strlit("5");
        reveal_strlit("6");
        reveal_strlit("7");
        reveal_strlit("8");
        reveal_strlit("9");
        assert(r@ =~= seq![digit_char(d as nat)]);
    }
    r
}

/// Renders `n` in decimal.
pub fn u16_to_string(n: u16) -> (r: String)
    ensures
        r@ == dec_digits(n as nat),
    decreases n,
{
    if n < 10 {
        digit_str(n)
    } else {
        let mut prefix = u16_to_string(n / 10);
        let last = digit_str(n % 10);
        prefix.append(last.as_str());
        proof {
            assert(prefix@ =~= dec_digits(n as nat));
        }
        prefix
    }
}

/// Builds the `host:port` form of an address.
pub fn join_host_port(host: &str, port: u16) -> (r: String)
    ensures
        r@ == host@ + ":"@ + dec_digits(port as nat),
{
    let mut r = host.to_owned();
    r.append(":");
    let port_str = u16_to_string(port);
    r.append(port_str.as_str());
    proof {
        assert(r@ =~= host@ + ":"@ + dec_digits(port as nat));
    }
    r
}

/// Builds the one line logged when a request completes:
/// method, request URI, and final response status.
pub fn log_line(method: &str, uri: &str, status: u16) -> (r: String)
    ensures
        r@ == method@ + " "@ + uri@ + " -> "@ + dec_digits(status as nat),
{
    let mut r = method.to_owned();
    r.append(" ");
    r.append(uri);
    r.append(" -> ");
    let status_str = u16_to_string(status);
    r.append(status_str.as_str());
    proof {
        assert(r@ =~= method@ + " "@ + uri@ + " -> "@ + dec_digits(status as nat));
    }
    r
}

} // verus!
