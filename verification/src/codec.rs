//! Pure codec from a bounded 2-D position and an 8-bit RGB triple to a
//! 128-bit network address of eight 16-bit groups, together with the
//! inverse decomposition of a position group.

use vstd::prelude::*;
use vstd::string::StringExecFns;

verus! {

/// A pixel position on the canvas: an ordered pair of non-negative
/// coordinates.
#[derive(Clone, Copy, Debug, PartialEq, Eq, Structural)]
pub struct Position {
    pub x: usize,
    pub y: usize,
}

impl Position {
    /// Componentwise addition, used to place an image at an offset.
    pub fn add(self, other: Position) -> (r: Position)
        requires
            self.x + other.x <= usize::MAX,
            self.y + other.y <= usize::MAX,
        ensures
            r.x == self.x + other.x,
            r.y == self.y + other.y,
    {
        Position { x: self.x + other.x, y: self.y + other.y }
    }
}

/// An opaque RGB color: three 8-bit channels, no alpha.
#[derive(Clone, Copy, Debug, PartialEq, Eq, Structural)]
pub struct Rgb {
    pub r: u8,
    pub g: u8,
    pub b: u8,
}

/// A 128-bit network address as eight 16-bit groups. Groups 0-2 are the
/// fixed prefix, groups 3-4 encode the x and y coordinates, and groups
/// 5-7 hold the red, green and blue channels zero-extended to 16 bits.
#[derive(Clone, Copy, Debug, PartialEq, Eq, Structural)]
pub struct IpAddress {
    pub g0: u16,
    pub g1: u16,
    pub g2: u16,
    pub g3: u16,
    pub g4: u16,
    pub g5: u16,
    pub g6: u16,
    pub g7: u16,
}

/// The digit-preserving position encoding: the base-10 digits of `n` are
/// placed one-to-one into base-16 digit positions, so that the hexadecimal
/// rendering of the result reads as the decimal rendering of `n`.
pub open spec fn dec_to_hex_spec(n: nat) -> nat {
    n % 10 + 16 * ((n / 10) % 10) + 256 * (n / 100)
}

/// The inverse decomposition: reads the base-16 digits of a group back as
/// base-10 digits.
pub open spec fn hex_to_dec_spec(v: nat) -> nat {
    v % 16 + 10 * ((v / 16) % 16) + 100 * (v / 256)
}

/// Maps a coordinate value to the 16-bit group whose hexadecimal digit
/// string equals the decimal digit string of `num`.
pub fn dec_to_hex(num: usize) -> (r: u16)
    requires
        num <= 255,
    ensures
        r == dec_to_hex_spec(num as nat),
{
    (num % 10 + 16 * ((num / 10) % 10) + 256 * (num / 100)) as u16
}

/// Reads a position group back into the coordinate it encodes.
pub fn hex_to_dec(v: u16) -> (n: usize)
    ensures
        n == hex_to_dec_spec(v as nat),
{
    let x = v as usize;
    x % 16 + 10 * ((x / 16) % 16) + 100 * (x / 256)
}

/// What `pixel_to_ip_addr` returns: prefix, digit-encoded coordinates,
/// zero-extended channels.
pub open spec fn encode_spec(pos: Position, rgb: Rgb) -> IpAddress {
    IpAddress {
        g0: crate::IP_PREFIX_0,
        g1: crate::IP_PREFIX_1,
        g2: crate::IP_PREFIX_2,
        g3: dec_to_hex_spec(pos.x as nat) as u16,
        g4: dec_to_hex_spec(pos.y as nat) as u16,
        g5: rgb.r as u16,
        g6: rgb.g as u16,
        g7: rgb.b as u16,
    }
}

/// Assembles the probe address for one pixel from its absolute position
/// and its color.
pub fn pixel_to_ip_addr(pos: Position, rgb: Rgb) -> (r: IpAddress)
    requires
        pos.x <= 255,
        pos.y <= 255,
    ensures
        r == encode_spec(pos, rgb),
{
    IpAddress {
        g0: crate::IP_PREFIX_0,
        g1: crate::IP_PREFIX_1,
        g2: crate::IP_PREFIX_2,
        g3: dec_to_hex(pos.x),
        g4: dec_to_hex(pos.y),
        g5: rgb.r as u16,
        g6: rgb.g as u16,
        g7: rgb.b as u16,
    }
}

/// The character that renders the digit `d` in base 10 or base 16.
pub open spec fn digit_char(d: nat) -> char {
    if d == 0 {
        '0'
    } else if d == 1 {
        '1'
    } else if d == 2 {
        '2'
    } else if d == 3 {
        '3'
    } else if d == 4 {
        '4'
    } else if d == 5 {
        '5'
    } else if d == 6 {
        '6'
    } else if d == 7 {
        '7'
    } else if d == 8 {
        '8'
    } else if d == 9 {
        '9'
    } else if d == 10 {
        'a'
    } else if d == 11 {
        'b'
    } else if d == 12 {
        'c'
    } else if d == 13 {
        'd'
    } else if d == 14 {
        'e'
    } else {
        'f'
    }
}

/// The decimal digit string of `n`, without leading zeros.
pub open spec fn dec_digits(n: nat) -> Seq<char>
    decreases n,
{
    if n < 10 {
        seq![digit_char(n)]
    } else {
        dec_digits(n / 10).push(digit_char(n % 10))
    }
}

/// The hexadecimal digit string of `n`, without leading zeros.
pub open spec fn hex_digits(n: nat) -> Seq<char>
    decreases n,
{
    if n < 16 {
        seq![digit_char(n)]
    } else {
        hex_digits(n / 16).push(digit_char(n % 16))
    }
}

/// The one-character rendering of a single base-16 digit.
fn digit_str(d: u16) -> (s: &'static str)
    requires
        d < 16,
    ensures
        s@ == seq![digit_char(d as nat)],
{
    proof {
        reveal_strlit("0");
        reveal_strlit("1");
        reveal_strlit("2");
        reveal_strlit("3");
        reveal_strlit("4");
        reveal_strlit("5");
        reveal_strlit("6");
        reveal_strlit("7");
        reveal_strlit("8");
        reveal_strlit("9");
        reveal_strlit("a");
        reveal_strlit("b");
        reveal_strlit("c");
        reveal_strlit("d");
        reveal_strlit("e");
        reveal_strlit("f");
    }
    let s: &'static str = if d == 0 {
        "0"
    } else if d == 1 {
        "1"
    } else if d == 2 {
        "2"
    } else if d == 3 {
        "3"
    } else if d == 4 {
        "4"
    } else if d == 5 {
        "5"
    } else if d == 6 {
        "6"
    } else if d == 7 {
        "7"
    } else if d == 8 {
        "8"
    } else if d == 9 {
        "9"
    } else if d == 10 {
        "a"
    } else if d == 11 {
        "b"
    } else if d == 12 {
        "c"
    } else if d == 13 {
        "d"
    } else if d == 14 {
        "e"
    } else {
        "f"
    };
    proof {
        assert(s@ =~= seq![digit_char(d as nat)]);
    }
    s
}

/// Renders one 16-bit group as its hexadecimal digit string, without
/// leading zeros.
pub fn hex_group_str(v: u16) -> (s: String)
    ensures
        s@ == hex_digits(v as nat),
    decreases v,
{
    if v < 16 {
        String::from_str(digit_str(v))
    } else {
        let mut s = hex_group_str(v / 16);
        s.append(digit_str(v % 16));
        proof {
            assert(s@ =~= hex_digits(v as nat));
        }
        s
    }
}

/// The digit-preserving law: for every coordinate value in [0, 255], the
/// hexadecimal digit string of its encoded group equals the decimal digit
/// string of the value itself.
pub proof fn lemma_digit_preserving(n: nat)
    requires
        n <= 255,
    ensures
        hex_digits(dec_to_hex_spec(n)) == dec_digits(n),
{
    let a = n % 10;
    let b = (n / 10) % 10;
    let c = n / 100;
    let v = dec_to_hex_spec(n);
    assert(a < 10 && b < 10 && c <= 2) by (nonlinear_arith)
        requires
            a == n % 10 && b == (n / 10) % 10 && c == n / 100 && n <= 255,
    ;
    if n < 10 {
        assert(v == n);
    } else if n < 100 {
        assert(n / 100 == 0 && (n / 10) % 10 == n / 10 && n / 10 >= 1) by (nonlinear_arith)
            requires
                10 <= n < 100,
        ;
        assert(v == a + 16 * b);
        assert(v % 16 == a && v / 16 == b) by (nonlinear_arith)
            requires
                v == a + 16 * b && a < 10 && b < 10,
        ;
        assert(hex_digits(v) == hex_digits(b).push(digit_char(a)));
        assert(dec_digits(n) == dec_digits(b).push(digit_char(a)));
    } else {
        assert(c >= 1 && (n / 10) / 10 == n / 100 && n / 10 >= 10) by (nonlinear_arith)
            requires
                100 <= n <= 255 && c == n / 100,
        ;
        assert(v == a + 16 * b + 256 * c);
        let m = b + 16 * c;
        assert(v % 16 == a && v / 16 == m) by (nonlinear_arith)
            requires
                v == a + 16 * b + 256 * c && m == b + 16 * c && a < 10 && b < 10 && c <= 2,
        ;
        assert(m >= 16 && m % 16 == b && m / 16 == c) by (nonlinear_arith)
            requires
                m == b + 16 * c && b < 10 && 1 <= c <= 2,
        ;
        assert(v >= 256);
        assert(hex_digits(v) == hex_digits(m).push(digit_char(a)));
        assert(hex_digits(m) == hex_digits(c).push(digit_char(b)));
        assert(hex_digits(v) == hex_digits(c).push(digit_char(b)).push(digit_char(a)));
        assert(dec_digits(n / 10) == dec_digits(c).push(digit_char(b)));
        assert(dec_digits(n) == dec_digits(c).push(digit_char(b)).push(digit_char(a)));
    }
}

impl IpAddress {
    /// The textual form of the address: the eight groups rendered in
    /// hexadecimal, without leading zeros, joined by colons.
    pub open spec fn text_spec(self) -> Seq<char> {
        hex_digits(self.g0 as nat) + seq![':'] + hex_digits(self.g1 as nat) + seq![':']
            + hex_digits(self.g2 as nat) + seq![':'] + hex_digits(self.g3 as nat) + seq![':']
            + hex_digits(self.g4 as nat) + seq![':'] + hex_digits(self.g5 as nat) + seq![':']
            + hex_digits(self.g6 as nat) + seq![':'] + hex_digits(self.g7 as nat)
    }

    /// Renders the address in its textual form.
    pub fn to_text(&self) -> (s: String)
        ensures
            s@ == self.text_spec(),
    {
        proof {
            reveal_strlit(":");
        }
        let mut s = hex_group_str(self.g0);
        let g1 = hex_group_str(self.g1);
        let g2 = hex_group_str(self.g2);
        let g3 = hex_group_str(self.g3);
        let g4 = hex_group_str(self.g4);
        let g5 = hex_group_str(self.g5);
        let g6 = hex_group_str(self.g6);
        let g7 = hex_group_str(self.g7);
        s.append(":");
        s.append(g1.as_str());
        s.append(":");
        s.append(g2.as_str());
        s.append(":");
        s.append(g3.as_str());
        s.append(":");
        s.append(g4.as_str());
        s.append(":");
        s.append(g5.as_str());
        s.append(":");
        s.append(g6.as_str());
        s.append(":");
        s.append(g7.as_str());
        proof {
            assert(s@ =~= self.text_spec());
        }
        s
    }
}

/// Decoding a group produced by the digit-preserving encoding recovers the
/// original coordinate exactly.
pub proof fn lemma_round_trip(n: nat)
    requires
        n <= 255,
    ensures
        hex_to_dec_spec(dec_to_hex_spec(n)) == n,
{
    let a = n % 10;
    let b = (n / 10) % 10;
    let c = n / 100;
    let v = dec_to_hex_spec(n);
    assert(v == a + 16 * b + 256 * c);
    assert(a < 10 && b < 10 && c <= 2) by (nonlinear_arith)
        requires
            a == n % 10 && b == (n / 10) % 10 && c == n / 100 && n <= 255,
    ;
    assert(v % 16 == a && (v / 16) % 16 == b && v / 256 == c) by (nonlinear_arith)
        requires
            v == a + 16 * b + 256 * c && a < 10 && b < 10 && c <= 2,
    ;
    assert(a + 10 * b + 100 * c == n) by (nonlinear_arith)
        requires
            a == n % 10 && b == (n / 10) % 10 && c == n / 100,
    ;
}

/// The digit-preserving encoding is injective on [0, 255].
pub proof fn lemma_dec_to_hex_injective(n1: nat, n2: nat)
    requires
        n1 <= 255,
        n2 <= 255,
        dec_to_hex_spec(n1) == dec_to_hex_spec(n2),
    ensures
        n1 == n2,
{
    lemma_round_trip(n1);
    lemma_round_trip(n2);
}

/// Injectivity of the whole encoding on the bounded domain: two pixels at
/// distinct positions, or with distinct colors, are assigned distinct
/// addresses; equivalently, equal addresses come from equal inputs.
pub proof fn lemma_encode_injective(p1: Position, c1: Rgb, p2: Position, c2: Rgb)
    requires
        p1.x < crate::MAX_X,
        p1.y < crate::MAX_Y,
        p2.x < crate::MAX_X,
        p2.y < crate::MAX_Y,
        encode_spec(p1, c1) == encode_spec(p2, c2),
    ensures
        p1 == p2,
        c1 == c2,
{
    assert(dec_to_hex_spec(p1.x as nat) <= 665 && dec_to_hex_spec(p2.x as nat) <= 665)
        by (nonlinear_arith)
        requires
            p1.x < 160 && p2.x < 160,
    ;
    assert(dec_to_hex_spec(p1.y as nat) <= 665 && dec_to_hex_spec(p2.y as nat) <= 665)
        by (nonlinear_arith)
        requires
            p1.y < 120 && p2.y < 120,
    ;
    lemma_dec_to_hex_injective(p1.x as nat, p2.x as nat);
    lemma_dec_to_hex_injective(p1.y as nat, p2.y as nat);
}

} // verus!
