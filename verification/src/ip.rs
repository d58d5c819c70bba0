//! Network addresses as plain values, with a verified textual form.
//!
//! The discovery records carry IPv4 or IPv6 addresses. This module models
//! them as plain integers (four octets, or eight 16-bit groups) so that the
//! parser and the cache can be reasoned about directly. The textual form is
//! dotted decimal for IPv4 and lower-case colon-separated hexadecimal groups
//! for IPv6 (written out in full, without `::` compression).

use vstd::prelude::*;

verus! {

/// An IPv4 or IPv6 address held as plain integer components.
#[derive(Clone, Copy, Debug, PartialEq, Eq, Hash, Structural)]
pub enum IpAddress {
    /// An IPv4 address `a.b.c.d`.
    V4 { a: u8, b: u8, c: u8, d: u8 },
    /// An IPv6 address of eight 16-bit groups, most significant first.
    V6 { g0: u16, g1: u16, g2: u16, g3: u16, g4: u16, g5: u16, g6: u16, g7: u16 },
}

/// The character for one digit value below sixteen, lower case.
pub open spec fn digit_char(d: int) -> char {
    if d == 0 {
        '0'
    } else if d == 1 {
        '1'
    } else if d == 2 {
        '2'
    } else if d == 3 {
        '3'
    } else if d == 4 {
        '4'
    } else if d == 5 {
        '5'
    } else if d == 6 {
        '6'
    } else if d == 7 {
        '7'
    } else if d == 8 {
        '8'
    } else if d == 9 {
        '9'
    } else if d == 10 {
        'a'
    } else if d == 11 {
        'b'
    } else if d == 12 {
        'c'
    } else if d == 13 {
        'd'
    } else if d == 14 {
        'e'
    } else {
        'f'
    }
}

/// Decimal digits of `n`, most significant first, no leading zeros.
pub open spec fn dec_seq(n: int) -> Seq<char>
    recommends
        n >= 0,
    decreases n,
{
    if n < 10 {
        seq![digit_char(n)]
    } else {
        dec_seq(n / 10).push(digit_char(n % 10))
    }
}

/// Hexadecimal digits of `n`, most significant first, no leading zeros,
/// lower case.
pub open spec fn hex_seq(n: int) -> Seq<char>
    recommends
        n >= 0,
    decreases n,
{
    if n < 16 {
        seq![digit_char(n)]
    } else {
        hex_seq(n / 16).push(digit_char(n % 16))
    }
}

/// The textual form of an address: dotted decimal for IPv4, colon-separated
/// lower-case hexadecimal groups for IPv6.
pub open spec fn ip_text(ip: IpAddress) -> Seq<char> {
    match ip {
        IpAddress::V4 { a, b, c, d } => dec_seq(a as int) + seq!['.'] + dec_seq(b as int)
            + seq!['.'] + dec_seq(c as int) + seq!['.'] + dec_seq(d as int),
        IpAddress::V6 { g0, g1, g2, g3, g4, g5, g6, g7 } => hex_seq(g0 as int) + seq![':']
            + hex_seq(g1 as int) + seq![':'] + hex_seq(g2 as int) + seq![':'] + hex_seq(
            g3 as int,
        ) + seq![':'] + hex_seq(g4 as int) + seq![':'] + hex_seq(g5 as int) + seq![':'] + hex_seq(
            g6 as int,
        ) + seq![':'] + hex_seq(g7 as int),
    }
}

/// The one-character string for a digit value below sixteen.
fn digit_str(d: u8) -> (r: &'static str)
    requires
        d < 16,
    ensures
        r@ == seq![digit_char(d as int)],
{
    let r: &'static str = match d {
        0 => "0",
        1 => "1",
        2 => "2",
        3 => "3",
        4 => "4",
        5 => "5",
        6 => "6",
        7 => "7",
        8 => "8",
        9 => "9",
        10 => "a",
        11 => "b",
        12 => "c",
        13 => "d",
        14 => "e",
        _ => "f",
    };
    proof {
        reveal_strlit("0");
        reveal_strlit("1");
        reveal_strlit("2");
        reveal_strlit("3");
        reveal_strlit("4");
        reveal_strlit("5");
        reveal_strlit("6");
        reveal_strlit("7");
        reveal_strlit("8");
        reveal_strlit("9");
        reveal_strlit("a");
        reveal_strlit("b");
        reveal_strlit("c");
        reveal_strlit("d");
        reveal_strlit("e");
        reveal_strlit("f");
        assert(r@ =~= seq![digit_char(d as int)]);
    }
    r
}

/// Decimal text of an eight-bit value, no leading zeros.
pub fn dec_u8(n: u8) -> (r: String)
    ensures
        r@ == dec_seq(n as int),
    decreases n,
{
    if n < 10 {
        String::from_str(digit_str(n))
    } else {
        let prefix = dec_u8(n / 10);
        let r = prefix.concat(digit_str(n % 10));
        proof {
            assert(r@ =~= dec_seq(n as int));
        }
        r
    }
}

/// Hexadecimal text of a sixteen-bit value, no leading zeros, lower case.
pub fn hex_u16(n: u16) -> (r: String)
    ensures
        r@ == hex_seq(n as int),
    decreases n,
{
    if n < 16 {
        String::from_str(digit_str(n as u8))
    } else {
        let prefix = hex_u16(n / 16);
        let r = prefix.concat(digit_str((n % 16) as u8));
        proof {
            assert(r@ =~= hex_seq(n as int));
        }
        r
    }
}

impl IpAddress {
    /// The address's textual form, as [`ip_text`] states it.
    pub fn to_text(&self) -> (r: String)
        ensures
            r@ == ip_text(*self),
    {
        proof {
            reveal_strlit(".");
            reveal_strlit(":");
        }
        match *self {
            IpAddress::V4 { a, b, c, d } => {
                let mut s = dec_u8(a);
                s.append(".");
                s.append(dec_u8(b).as_str());
                s.append(".");
                s.append(dec_u8(c).as_str());
                s.append(".");
                s.append(dec_u8(d).as_str());
                proof {
                    assert(s@ =~= ip_text(*self));
                }
                s
            },
            IpAddress::V6 { g0, g1, g2, g3, g4, g5, g6, g7 } => {
                let mut s = hex_u16(g0);
                s.append(":");
                s.append(hex_u16(g1).as_str());
                s.append(":");
                s.append(hex_u16(g2).as_str());
                s.append(":");
                s.append(hex_u16(g3).as_str());
                s.append(":");
                s.append(hex_u16(g4).as_str());
                s.append(":");
                s.append(hex_u16(g5).as_str());
                s.append(":");
                s.append(hex_u16(g6).as_str());
                s.append(":");
                s.append(hex_u16(g7).as_str());
                proof {
                    assert(s@ =~= ip_text(*self));
                }
                s
            },
        }
    }
}

} // verus!
