//! Protocol (IPv4) and hardware (MAC) addresses, and their literals.
//!
//! An IPv4 literal is the dotted-decimal text of an address: four decimal
//! octets without leading zeros, joined by dots. The parser is proved to be
//! the inverse of that text. A MAC literal is six hexadecimal components
//! joined by colons or by hyphens; its components are read by `pnet`.

use vstd::prelude::*;
use vstd::string::*;
use pnet::datalink::{MacAddr, ParseMacAddrErr};
use std::str::FromStr;

verus! {

/// An IPv4 address, most significant octet first.
#[derive(Clone, Copy, Debug, PartialEq, Eq, Structural)]
pub struct Ipv4Address(pub u8, pub u8, pub u8, pub u8);

/// A 48-bit Ethernet hardware address, in transmission order.
#[derive(Clone, Copy, Debug, PartialEq, Eq, Structural)]
pub struct MacAddress(pub u8, pub u8, pub u8, pub u8, pub u8, pub u8);

impl Ipv4Address {
    /// The four octets in network order.
    pub open spec fn octets(self) -> Seq<u8> {
        seq![self.0, self.1, self.2, self.3]
    }
}

impl MacAddress {
    /// The six octets in transmission order.
    pub open spec fn octets(self) -> Seq<u8> {
        seq![self.0, self.1, self.2, self.3, self.4, self.5]
    }
}

/// Whether `c` is a decimal digit.
pub open spec fn is_digit(c: char) -> bool {
    '0' <= c <= '9'
}

/// The character that writes the decimal digit `d`.
pub open spec fn digit_char(d: int) -> char
    recommends
        0 <= d <= 9,
{
    (d + 48) as char
}

/// The decimal text of an octet, without leading zeros.
pub open spec fn decimal(n: u8) -> Seq<char> {
    if n < 10 {
        seq![digit_char(n as int)]
    } else if n < 100 {
        seq![digit_char(n as int / 10), digit_char(n as int % 10)]
    } else {
        seq![digit_char(n as int / 100), digit_char(n as int / 10 % 10), digit_char(n as int % 10)]
    }
}

/// The dotted-decimal text of an address.
pub open spec fn ipv4_text(a: Ipv4Address) -> Seq<char> {
    decimal(a.0) + seq!['.'] + decimal(a.1) + seq!['.'] + decimal(a.2) + seq!['.'] + decimal(a.3)
}

/// The address that `s` is the dotted-decimal text of, if it is that of any.
pub open spec fn ipv4_from_text(s: Seq<char>) -> Option<Ipv4Address> {
    if exists|a: Ipv4Address| #[trigger] ipv4_text(a) == s {
        Some(choose|a: Ipv4Address| #[trigger] ipv4_text(a) == s)
    } else {
        None
    }
}

/// The text of `v` stands in `s` from `p` up to `q`, and no digit follows it.
spec fn octet_ends_at(s: Seq<char>, p: int, v: u8, q: int) -> bool {
    &&& 0 <= p < q <= s.len()
    &&& q == p + width(v)
    &&& if v < 10 {
        s[p] == digit_char(v as int)
    } else if v < 100 {
        s[p] == digit_char(v as int / 10) && s[p + 1] == digit_char(v as int % 10)
    } else {
        s[p] == digit_char(v as int / 100) && s[p + 1] == digit_char(v as int / 10 % 10) && s[p
            + 2] == digit_char(v as int % 10)
    }
    &&& (q == s.len() || !is_digit(s[q]))
}

/// The number of characters of `decimal(v)`.
spec fn width(v: u8) -> int {
    if v < 10 {
        1
    } else if v < 100 {
        2
    } else {
        3
    }
}

/// Where the text of octet `k` of `a` ends within `ipv4_text(a)`.
spec fn octet_end(a: Ipv4Address, k: int) -> int {
    if k == 0 {
        width(a.0)
    } else if k == 1 {
        width(a.0) + 1 + width(a.1)
    } else if k == 2 {
        width(a.0) + 1 + width(a.1) + 1 + width(a.2)
    } else {
        width(a.0) + 1 + width(a.1) + 1 + width(a.2) + 1 + width(a.3)
    }
}

/// `s` is made of four octet texts, each followed by a dot but the last.
spec fn dotted(s: Seq<char>, a: Ipv4Address) -> bool {
    &&& octet_ends_at(s, 0, a.0, octet_end(a, 0))
    &&& s[octet_end(a, 0)] == '.'
    &&& octet_ends_at(s, octet_end(a, 0) + 1, a.1, octet_end(a, 1))
    &&& s[octet_end(a, 1)] == '.'
    &&& octet_ends_at(s, octet_end(a, 1) + 1, a.2, octet_end(a, 2))
    &&& s[octet_end(a, 2)] == '.'
    &&& octet_ends_at(s, octet_end(a, 2) + 1, a.3, octet_end(a, 3))
    &&& s.len() == octet_end(a, 3)
}

/// Where each part stands in four parts joined by dots.
proof fn lemma_joined(d0: Seq<char>, d1: Seq<char>, d2: Seq<char>, d3: Seq<char>)
    ensures
        ({
            let s = d0 + seq!['.'] + d1 + seq!['.'] + d2 + seq!['.'] + d3;
            let e0 = d0.len() as int;
            let e1 = e0 + 1 + d1.len();
            let e2 = e1 + 1 + d2.len();
            &&& s.len() == e2 + 1 + d3.len()
            &&& s[e0] == '.'
            &&& s[e1] == '.'
            &&& s[e2] == '.'
            &&& forall|i: int| 0 <= i < d0.len() ==> s[i] == #[trigger] d0[i]
            &&& forall|i: int| 0 <= i < d1.len() ==> s[e0 + 1 + i] == #[trigger] d1[i]
            &&& forall|i: int| 0 <= i < d2.len() ==> s[e1 + 1 + i] == #[trigger] d2[i]
            &&& forall|i: int| 0 <= i < d3.len() ==> s[e2 + 1 + i] == #[trigger] d3[i]
        }),
{
}

/// The text of `v`, found in `s` at `p` and followed by no digit, ends an octet there.
proof fn lemma_octet_found(s: Seq<char>, p: int, v: u8)
    requires
        0 <= p,
        p + decimal(v).len() <= s.len(),
        forall|i: int| 0 <= i < decimal(v).len() ==> s[p + i] == #[trigger] decimal(v)[i],
        p + decimal(v).len() == s.len() || !is_digit(s[p + decimal(v).len()]),
    ensures
        octet_ends_at(s, p, v, p + width(v)),
{
    let d = decimal(v);
    assert(d.len() == width(v));
    assert(s[p] == d[0]);
    if v >= 10 {
        assert(s[p + 1] == d[1]);
    }
    if v >= 100 {
        assert(s[p + 2] == d[2]);
    }
}

/// The text of an address is made of its four octet texts and three dots.
proof fn lemma_text_is_dotted(a: Ipv4Address)
    ensures
        dotted(ipv4_text(a), a),
{
    let s = ipv4_text(a);
    lemma_joined(decimal(a.0), decimal(a.1), decimal(a.2), decimal(a.3));
    assert(decimal(a.0).len() == width(a.0));
    assert(decimal(a.1).len() == width(a.1));
    assert(decimal(a.2).len() == width(a.2));
    assert(decimal(a.3).len() == width(a.3));
    lemma_octet_found(s, 0, a.0);
    lemma_octet_found(s, octet_end(a, 0) + 1, a.1);
    lemma_octet_found(s, octet_end(a, 1) + 1, a.2);
    lemma_octet_found(s, octet_end(a, 2) + 1, a.3);
}

/// A text made of the four octet texts of `a` and three dots is the text of `a`.
proof fn lemma_dotted_is_text(s: Seq<char>, a: Ipv4Address)
    requires
        dotted(s, a),
    ensures
        s == ipv4_text(a),
{
    assert(s =~= ipv4_text(a));
}

/// At most one octet text ends at a given place: a shorter one would be
/// followed by a digit of the longer.
proof fn lemma_octet_unique(s: Seq<char>, p: int, v: u8, q: int, w: u8, r: int)
    requires
        octet_ends_at(s, p, v, q),
        octet_ends_at(s, p, w, r),
    ensures
        v == w,
        q == r,
{
}

/// Any address whose text is `s` has the octets that are read off `s`.
proof fn lemma_dotted_unique(s: Seq<char>, a: Ipv4Address, b: Ipv4Address)
    requires
        dotted(s, a),
        dotted(s, b),
    ensures
        a == b,
{
    lemma_octet_unique(s, 0, a.0, octet_end(a, 0), b.0, octet_end(b, 0));
    lemma_octet_unique(s, octet_end(a, 0) + 1, a.1, octet_end(a, 1), b.1, octet_end(b, 1));
    lemma_octet_unique(s, octet_end(a, 1) + 1, a.2, octet_end(a, 2), b.2, octet_end(b, 2));
    lemma_octet_unique(s, octet_end(a, 2) + 1, a.3, octet_end(a, 3), b.3, octet_end(b, 3));
}

/// Reading the text of an address gives the address back: no two addresses
/// share a text.
pub proof fn lemma_ipv4_text_round_trip(a: Ipv4Address)
    ensures
        ipv4_from_text(ipv4_text(a)) == Some(a),
{
    let s = ipv4_text(a);
    let b = choose|b: Ipv4Address| #[trigger] ipv4_text(b) == s;
    lemma_text_is_dotted(a);
    lemma_text_is_dotted(b);
    lemma_dotted_unique(s, a, b);
}

/// What is read is what was written: a text that parses is the text of the
/// address it parses to.
pub proof fn lemma_ipv4_from_text_is_text(s: Seq<char>)
    ensures
        ipv4_from_text(s) matches Some(a) ==> ipv4_text(a) == s,
{
}

/// Whether `c` is a decimal digit.
fn is_decimal_digit(c: char) -> (r: bool)
    ensures
        r == is_digit(c),
{
    c >= '0' && c <= '9'
}

/// The value of the decimal digit `c`.
fn digit_value(c: char) -> (d: u8)
    requires
        is_digit(c),
    ensures
        d <= 9,
        c == digit_char(d as int),
{
    ((c as u32) - 48) as u8
}

/// Reads the octet that starts at `p`: one to three digits, no leading zero,
/// at most 255, and no digit after it.
fn read_octet(s: &str, n: usize, p: usize) -> (r: Option<(u8, usize)>)
    requires
        n == s@.len(),
        p <= n,
    ensures
        match r {
            Some((v, q)) => octet_ends_at(s@, p as int, v, q as int),
            None => forall|w: u8, q: int| !octet_ends_at(s@, p as int, w, q),
        },
{
    if p >= n {
        return None;
    }
    let c0 = s.get_char(p);
    if !is_decimal_digit(c0) {
        return None;
    }
    let d0 = digit_value(c0);
    if n - p < 2 || !is_decimal_digit(s.get_char(p + 1)) {
        return Some((d0, p + 1));
    }
    let d1 = digit_value(s.get_char(p + 1));
    if d0 == 0 {
        return None;
    }
    if n - p < 3 || !is_decimal_digit(s.get_char(p + 2)) {
        return Some((d0 * 10 + d1, p + 2));
    }
    let d2 = digit_value(s.get_char(p + 2));
    if n - p >= 4 && is_decimal_digit(s.get_char(p + 3)) {
        return None;
    }
    let v: u16 = (d0 as u16) * 100 + (d1 as u16) * 10 + (d2 as u16);
    if v > 255 {
        return None;
    }
    Some((v as u8, p + 3))
}

/// Whether a dot stands in `s` at `p`.
fn dot_at(s: &str, n: usize, p: usize) -> (r: bool)
    requires
        n == s@.len(),
    ensures
        r == (p < n && s@[p as int] == '.'),
{
    p < n && s.get_char(p) == '.'
}

/// Parses a dotted-decimal IPv4 literal. The literal is accepted exactly when
/// it is the text of an address, and that address is returned.
pub fn parse_ipv4(s: &str) -> (r: Option<Ipv4Address>)
    ensures
        r == ipv4_from_text(s@),
{
    let n = s.unicode_len();
    proof {
        // Whatever address `s` may be the text of, its parts stand in `s`.
        assert forall|a: Ipv4Address| #[trigger] ipv4_text(a) == s@ implies dotted(s@, a) by {
            lemma_text_is_dotted(a);
        }
    }
    let (v0, q0) = match read_octet(s, n, 0) {
        Some(x) => x,
        None => { return None; },
    };
    proof {
        assert forall|a: Ipv4Address| #[trigger] ipv4_text(a) == s@ implies a.0 == v0 by {
            lemma_octet_unique(s@, 0, a.0, octet_end(a, 0), v0, q0 as int);
        }
    }
    if !dot_at(s, n, q0) {
        return None;
    }
    let (v1, q1) = match read_octet(s, n, q0 + 1) {
        Some(x) => x,
        None => { return None; },
    };
    proof {
        assert forall|a: Ipv4Address| #[trigger] ipv4_text(a) == s@ implies a.1 == v1 by {
            lemma_octet_unique(s@, q0 + 1, a.1, octet_end(a, 1), v1, q1 as int);
        }
    }
    if !dot_at(s, n, q1) {
        return None;
    }
    let (v2, q2) = match read_octet(s, n, q1 + 1) {
        Some(x) => x,
        None => { return None; },
    };
    proof {
        assert forall|a: Ipv4Address| #[trigger] ipv4_text(a) == s@ implies a.2 == v2 by {
            lemma_octet_unique(s@, q1 + 1, a.2, octet_end(a, 2), v2, q2 as int);
        }
    }
    if !dot_at(s, n, q2) {
        return None;
    }
    let (v3, q3) = match read_octet(s, n, q2 + 1) {
        Some(x) => x,
        None => { return None; },
    };
    proof {
        assert forall|a: Ipv4Address| #[trigger] ipv4_text(a) == s@ implies a.3 == v3 by {
            lemma_octet_unique(s@, q2 + 1, a.3, octet_end(a, 3), v3, q3 as int);
        }
    }
    if q3 != n {
        return None;
    }
    let address = Ipv4Address(v0, v1, v2, v3);
    proof {
        lemma_dotted_is_text(s@, address);
    }
    Some(address)
}

/// Why a hardware-address literal is rejected.
#[derive(Clone, Copy, Debug, PartialEq, Eq, Structural)]
pub enum MacLiteralError {
    /// More than six components.
    TooManyComponents,
    /// Fewer than six components.
    TooFewComponents,
    /// A component that is empty or no hexadecimal octet.
    InvalidComponent,
}

/// What `pnet` makes of the colon-separated hardware-address literal `s`:
/// the address it reads, or why it rejects the text.
pub uninterp spec fn pnet_mac_addr(s: Seq<char>) -> Result<MacAddress, MacLiteralError>;

/// Calls `MacAddr::from_str` of `pnet`, which splits the text at its colons
/// and reads each component as a hexadecimal octet. The result is a function
/// of the text alone; the contract gives it the name `pnet_mac_addr` and
/// claims nothing more of it. The call returns for every text.
#[verifier::external_body]
fn mac_addr_from_str(s: &str) -> (r: Result<MacAddress, MacLiteralError>)
    ensures
        r == pnet_mac_addr(s@),
{
    match MacAddr::from_str(s) {
        Ok(m) => Ok(MacAddress(m.0, m.1, m.2, m.3, m.4, m.5)),
        Err(ParseMacAddrErr::TooManyComponents) => Err(MacLiteralError::TooManyComponents),
        Err(ParseMacAddrErr::TooFewComponents) => Err(MacLiteralError::TooFewComponents),
        Err(ParseMacAddrErr::InvalidComponent) => Err(MacLiteralError::InvalidComponent),
    }
}

/// The text `s` with a colon in place of each hyphen.
pub open spec fn colon_separated(s: Seq<char>) -> Seq<char> {
    s.map_values(|c: char| if c == '-' { ':' } else { c })
}

/// Calls `str::replace` of the standard library, which copies the text with
/// every match of the pattern replaced: here each hyphen by one colon.
#[verifier::external_body]
fn hyphens_to_colons(s: &str) -> (r: String)
    ensures
        r@ == colon_separated(s@),
{
    s.replace('-', ":")
}

/// The hardware address that the literal `s` stands for: six hexadecimal
/// components, separated by colons or by hyphens.
pub open spec fn mac_from_text(s: Seq<char>) -> Result<MacAddress, MacLiteralError> {
    pnet_mac_addr(colon_separated(s))
}

/// Parses a hardware-address literal whose components are separated by
/// colons or by hyphens.
pub fn parse_mac(s: &str) -> (r: Result<MacAddress, MacLiteralError>)
    ensures
        r == mac_from_text(s@),
{
    let text = hyphens_to_colons(s);
    mac_addr_from_str(text.as_str())
}

} // verus!
