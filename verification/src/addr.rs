//! Construction of the textual socket address `"host:port"` that a probe
//! targets, with a verified decimal rendering of the port number.

use vstd::prelude::*;
use vstd::string::StringExecFns;

verus! {

/// The character for one decimal digit value.
pub open spec fn digit_char(d: int) -> char
    recommends
        0 <= d < 10,
{
    if d == 0 {
        '0'
    } else if d == 1 {
        '1'
    } else if d == 2 {
        '2'
    } else if d == 3 {
        '3'
    } else if d == 4 {
        '4'
    } else if d == 5 {
        '5'
    } else if d == 6 {
        '6'
    } else if d == 7 {
        '7'
    } else if d == 8 {
        '8'
    } else {
        '9'
    }
}

/// The usual decimal rendering of a nonnegative integer: most significant
/// digit first, no leading zeros (except for the number zero itself).
pub open spec fn decimal_digits(n: int) -> Seq<char>
    recommends
        n >= 0,
    decreases n,
{
    if n < 10 {
        seq![digit_char(n)]
    } else {
        decimal_digits(n / 10) + seq![digit_char(n % 10)]
    }
}

/// The full textual form of a socket address: host, a colon, then the port
/// in decimal.
pub open spec fn socket_addr_chars(host: Seq<char>, port: int) -> Seq<char> {
    host + seq![':'] + decimal_digits(port)
}

fn digit_str(d: u32) -> (s: &'static str)
    requires
        d < 10,
    ensures
        s@ == seq![digit_char(d as int)],
{
    let s = match d {
        0 => "0",
        1 => "1",
        2 => "2",
        3 => "3",
        4 => "4",
        5 => "5",
        6 => "6",
        7 => "7",
        8 => "8",
        _ => "9",
    };
    proof {
        reveal_strlit("0");
        reveal_strlit("1");
        reveal_strlit("2");
        reveal_strlit("3");
        reveal_strlit("4");
        reveal_strlit("5");
        reveal_strlit("6");
        reveal_strlit("7");
        reveal_strlit("8");
        reveal_strlit("9");
        assert(s@ =~= seq![digit_char(d as int)]);
    }
    s
}

/// Renders a port number (or any unsigned value) in decimal.
pub fn decimal_string(n: u32) -> (s: String)
    ensures
        s@ == decimal_digits(n as int),
    decreases n,
{
    let d = n % 10;
    let ds = digit_str(d);
    if n < 10 {
        ds.to_owned()
    } else {
        let mut s = decimal_string(n / 10);
        s.append(ds);
        proof {
            assert(s@ =~= decimal_digits(n as int));
        }
        s
    }
}

/// Builds the `"host:port"` string that a probe parses into a socket address.
pub fn socket_addr_string(host: &str, port: u32) -> (s: String)
    ensures
        s@ == socket_addr_chars(host@, port as int),
{
    let mut s = host.to_owned();
    s.append(":");
    let p = decimal_string(port);
    s.append(p.as_str());
    proof {
        reveal_strlit(":");
        assert(s@ =~= socket_addr_chars(host@, port as int));
    }
    s
}

} // verus!
