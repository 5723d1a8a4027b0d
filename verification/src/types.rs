//! Curve points, proofs and verification keys, with their byte layouts.
//!
//! A G1 point is written as 64 bytes, `x` then `y`, each big-endian. A G2
//! point is written as 128 bytes with the imaginary part of each coordinate
//! first: `x.c1`, `x.c0`, `y.c1`, `y.c0`. Decimal ingress gives the real part
//! first, so reading and writing use opposite orders; both live here.

use vstd::prelude::*;
use vstd::arithmetic::div_mod::{lemma_fundamental_div_mod_converse, lemma_small_mod};
use vstd::std_specs::cmp::PartialEqSpecImpl;
use vstd::std_specs::convert::FromSpecImpl;
use vstd::string::StringExecFns;
use crate::bytes::{be_bytes, be_value, concat32, concat64, le_bytes, lemma_be_bytes_len,
    lemma_be_value_of_bytes, lemma_byte_weights, limbs_from_be_bytes, limbs_to_be_bytes,
    limbs_to_le_bytes};
use crate::decimal::{all_decimal, decimal_digits, decimal_value, lemma_decimal_round_trip,
    lemma_parse_decimal_ok, limbs_to_decimal, parse_decimal, parse_decimal_limbs, FromDecStrErr};
use crate::limbs::{ct_gte, lemma_limbs4_injective, limbs4_value, pow128, pow192, pow256, pow64,
    sub_with_borrow_256};

verus! {

/// A 256-bit unsigned integer: four 64-bit limbs, least significant first.
/// It is reduced modulo nothing; only reading raw bytes wraps, modulo `2^256`.
#[derive(Clone, Copy, Debug, Eq)]
pub struct U256(pub [u64; 4]);

impl View for U256 {
    type V = nat;

    open spec fn view(&self) -> nat {
        limbs4_value(self.0)
    }
}

impl PartialEq for U256 {
    fn eq(&self, other: &Self) -> (r: bool) {
        self.0[0] == other.0[0] && self.0[1] == other.0[1] && self.0[2] == other.0[2] && self.0[3]
            == other.0[3]
    }
}

impl PartialEqSpecImpl for U256 {
    open spec fn obeys_eq_spec() -> bool {
        true
    }

    open spec fn eq_spec(&self, other: &Self) -> bool {
        self.0[0] == other.0[0] && self.0[1] == other.0[1] && self.0[2] == other.0[2] && self.0[3]
            == other.0[3]
    }
}

impl Default for U256 {
    /// Zero.
    fn default() -> (r: Self)
        ensures
            r@ == 0,
    {
        U256([0, 0, 0, 0])
    }
}

impl From<u64> for U256 {
    fn from(n: u64) -> (r: Self) {
        U256([n, 0, 0, 0])
    }
}

impl FromSpecImpl<u64> for U256 {
    open spec fn obeys_from_spec() -> bool {
        true
    }

    open spec fn from_spec(n: u64) -> Self {
        U256([n, 0, 0, 0])
    }
}

/// Two 256-bit integers of the same value are the same.
pub proof fn lemma_u256_equal(a: U256, b: U256)
    requires
        a@ == b@,
    ensures
        a == b,
{
    lemma_limbs4_injective(a.0, b.0);
}

/// The 256-bit integer that holds `v mod 2^256`.
pub open spec fn u256_of(v: nat) -> U256 {
    U256(
        [
            (v % pow64()) as u64,
            ((v / pow64()) % pow64()) as u64,
            ((v / pow128()) % pow64()) as u64,
            ((v / pow192()) % pow64()) as u64,
        ],
    )
}

/// `u256_of` keeps the value modulo `2^256`.
pub proof fn lemma_u256_of(v: nat)
    ensures
        u256_of(v)@ == v % pow256(),
{
    let b = pow64() as int;
    let q1 = v as int / b;
    let q2 = q1 / b;
    let q3 = q2 / b;
    let q4 = q3 / b;
    assert(v == q1 * b + v as int % b);
    assert(q1 == q2 * b + q1 % b);
    assert(q2 == q3 * b + q2 % b);
    assert(q3 == q4 * b + q3 % b);
    assert(v as int / (pow128() as int) == q2) by {
        lemma_fundamental_div_mod_converse(
            v as int,
            pow128() as int,
            q2,
            (q1 % b) * b + v as int % b,
        );
    }
    assert(v as int / (pow192() as int) == q3) by {
        lemma_fundamental_div_mod_converse(
            v as int,
            pow192() as int,
            q3,
            (q2 % b) * pow128() + (q1 % b) * b + v as int % b,
        );
    }
    let low = (q3 % b) * pow192() + (q2 % b) * pow128() + (q1 % b) * b + v as int % b;
    assert(u256_of(v)@ == low);
    lemma_fundamental_div_mod_converse(v as int, pow256() as int, q4, low);
}

/// `u256_of` gives back a 256-bit integer made from its own value.
pub proof fn lemma_u256_of_value(x: U256)
    ensures
        u256_of(x@) == x,
{
    lemma_u256_of(x@);
    lemma_small_mod(x@, pow256());
    lemma_u256_equal(u256_of(x@), x);
}

/// The BN254 base-field order `q`, as limbs.
pub const BASE_MODULUS: [u64; 4] = [
    0x3c208c16d87cfd47,
    0x97816a916871ca8d,
    0xb85045b68181585d,
    0x30644e72e131a029,
];

/// The BN254 base-field order `q`, the modulus of point coordinates. It is
/// not the scalar-field order.
pub open spec fn base_modulus() -> nat {
    21888242871839275222246405745257275088696311157297823662689037894645226208583nat
}

/// The limbs of the base-field order stand for it.
pub proof fn lemma_base_modulus()
    ensures
        limbs4_value(BASE_MODULUS) == base_modulus(),
{
}

impl U256 {
    /// Zero.
    pub fn zero() -> (r: Self)
        ensures
            r@ == 0,
    {
        U256([0, 0, 0, 0])
    }

    /// Whether the value is zero.
    pub fn is_zero(&self) -> (r: bool)
        ensures
            r == (self@ == 0),
    {
        self.0[0] == 0 && self.0[1] == 0 && self.0[2] == 0 && self.0[3] == 0
    }

    /// Whether the value is at least that of `other`.
    pub fn gte(&self, other: &Self) -> (r: bool)
        ensures
            r == (self@ >= other@),
    {
        ct_gte(&self.0, &other.0)
    }

    /// Reads a decimal string. Only the digits `0`..`9` are accepted and the
    /// value must fit in 256 bits; the empty string reads as zero.
    pub fn from_dec_str(value: &str) -> (r: Result<Self, FromDecStrErr>)
        ensures
            r is Ok <==> all_decimal(value@) && decimal_value(value@) < pow256(),
            match r {
                Ok(v) => parse_decimal(value@) == Ok::<nat, FromDecStrErr>(v@) && v@
                    == decimal_value(value@),
                Err(e) => parse_decimal(value@) == Err::<nat, FromDecStrErr>(e),
            },
    {
        proof {
            lemma_parse_decimal_ok(value@);
        }
        match parse_decimal_limbs(value) {
            Ok(limbs) => Ok(U256(limbs)),
            Err(e) => Err(e),
        }
    }

    /// The shortest decimal writing of the value.
    pub fn to_string(&self) -> (r: String)
        ensures
            r@ == decimal_digits(self@),
    {
        limbs_to_decimal(&self.0)
    }

    /// The value as 32 bytes, most significant first.
    pub fn to_be_bytes(&self) -> (r: [u8; 32])
        ensures
            r@ == be_bytes(self@, 32),
    {
        limbs_to_be_bytes(&self.0)
    }

    /// The value as 32 bytes, least significant first.
    pub fn to_le_bytes(&self) -> (r: [u8; 32])
        ensures
            r@ == le_bytes(self@, 32),
    {
        limbs_to_le_bytes(&self.0)
    }

    /// Reads big-endian bytes. A string longer than 32 bytes wraps modulo
    /// `2^256`, which keeps its last 32 bytes.
    pub fn from_be_bytes(bytes: &[u8]) -> (r: Self)
        ensures
            r == u256_of(be_value(bytes@)),
            r@ == be_value(bytes@) % pow256(),
    {
        let r = U256(limbs_from_be_bytes(bytes));
        proof {
            lemma_u256_of(be_value(bytes@));
            lemma_u256_equal(r, u256_of(be_value(bytes@)));
        }
        r
    }
}

/// The 256-bit integer written in the 32 bytes of `s` that start at `from`.
pub open spec fn coordinate_at(s: Seq<u8>, from: int) -> U256 {
    u256_of(be_value(s.subrange(from, from + 32)))
}

/// A coordinate of a point, as named in a parse failure.
#[derive(Clone, Copy, Debug, PartialEq, Eq, Structural)]
pub enum Coordinate {
    X,
    Y,
    X0,
    X1,
    Y0,
    Y1,
}

/// Why a point, a proof or a verification key could not be read.
#[derive(Clone, Copy, Debug, PartialEq, Eq, Structural)]
pub enum ParseReason {
    /// A G1 point with fewer than two coordinates.
    TooFewCoordinates,
    /// A G2 point with fewer than two coordinate pairs.
    TooFewPairs,
    /// A G2 coordinate with fewer than two elements.
    TooFewElements,
    /// A coordinate that is no decimal string of a 256-bit number.
    InvalidDecimal(Coordinate),
    /// A verification key without a single `IC` point.
    EmptyIc,
}

/// The part of a proof or of a verification key that a parse failure is
/// about.
#[derive(Clone, Copy, Debug, PartialEq, Eq, Structural)]
pub enum ParseSubject {
    PiA,
    PiB,
    PiC,
    VkAlpha1,
    VkBeta2,
    VkGamma2,
    VkDelta2,
    /// The list `IC` as a whole.
    Ic,
    /// The `IC` point at this index.
    IcPoint(usize),
}

/// A parse failure: which part was malformed, and why.
#[derive(Clone, Copy, Debug, PartialEq, Eq, Structural)]
pub struct ParseError {
    pub which: ParseSubject,
    pub why: ParseReason,
}

impl ParseReason {
    /// The reason in words.
    pub fn message(&self) -> (r: &'static str)
        ensures
            r@ == reason_text(*self),
    {
        match self {
            ParseReason::TooFewCoordinates => "G1 point requires at least 2 coordinates",
            ParseReason::TooFewPairs => "G2 point requires at least 2 coordinate pairs",
            ParseReason::TooFewElements => "Each G2 coordinate requires 2 elements",
            ParseReason::InvalidDecimal(Coordinate::X) => "Invalid decimal string for x",
            ParseReason::InvalidDecimal(Coordinate::Y) => "Invalid decimal string for y",
            ParseReason::InvalidDecimal(Coordinate::X0) => "Invalid decimal string for x0",
            ParseReason::InvalidDecimal(Coordinate::X1) => "Invalid decimal string for x1",
            ParseReason::InvalidDecimal(Coordinate::Y0) => "Invalid decimal string for y0",
            ParseReason::InvalidDecimal(Coordinate::Y1) => "Invalid decimal string for y1",
            ParseReason::EmptyIc => "Verification key requires at least 1 IC point",
        }
    }
}

/// The words for each reason.
pub open spec fn reason_text(why: ParseReason) -> Seq<char> {
    match why {
        ParseReason::TooFewCoordinates => "G1 point requires at least 2 coordinates"@,
        ParseReason::TooFewPairs => "G2 point requires at least 2 coordinate pairs"@,
        ParseReason::TooFewElements => "Each G2 coordinate requires 2 elements"@,
        ParseReason::InvalidDecimal(Coordinate::X) => "Invalid decimal string for x"@,
        ParseReason::InvalidDecimal(Coordinate::Y) => "Invalid decimal string for y"@,
        ParseReason::InvalidDecimal(Coordinate::X0) => "Invalid decimal string for x0"@,
        ParseReason::InvalidDecimal(Coordinate::X1) => "Invalid decimal string for x1"@,
        ParseReason::InvalidDecimal(Coordinate::Y0) => "Invalid decimal string for y0"@,
        ParseReason::InvalidDecimal(Coordinate::Y1) => "Invalid decimal string for y1"@,
        ParseReason::EmptyIc => "Verification key requires at least 1 IC point"@,
    }
}

/// Whether a string is the decimal writing of a 256-bit number.
pub open spec fn is_coordinate(s: Seq<char>) -> bool {
    parse_decimal(s) is Ok
}

/// The 256-bit number that a decimal string stands for.
pub open spec fn coordinate_of(s: Seq<char>) -> U256 {
    u256_of(parse_decimal(s)->Ok_0)
}

/// Reads one coordinate; `None` when the string is no decimal writing of a
/// 256-bit number.
pub fn read_coordinate(s: &str) -> (r: Option<U256>)
    ensures
        r is Some <==> is_coordinate(s@),
        r is Some ==> r->0 == coordinate_of(s@),
{
    match U256::from_dec_str(s) {
        Ok(v) => {
            proof {
                lemma_u256_of_value(v);
            }
            Some(v)
        },
        Err(_) => None,
    }
}

/// What the decimal array of a G1 point stands for. Elements after the
/// first two, the projective `1` among them, are not looked at.
pub open spec fn parse_g1(arr: Seq<String>) -> Result<G1Point, ParseReason> {
    if arr.len() < 2 {
        Err(ParseReason::TooFewCoordinates)
    } else if !is_coordinate(arr[0]@) {
        Err(ParseReason::InvalidDecimal(Coordinate::X))
    } else if !is_coordinate(arr[1]@) {
        Err(ParseReason::InvalidDecimal(Coordinate::Y))
    } else {
        Ok(G1Point { x: coordinate_of(arr[0]@), y: coordinate_of(arr[1]@) })
    }
}

/// What the decimal array of a G2 point stands for: two pairs, each with
/// the real part first. A third pair is not looked at.
pub open spec fn parse_g2(arr: Seq<Vec<String>>) -> Result<G2Point, ParseReason> {
    if arr.len() < 2 {
        Err(ParseReason::TooFewPairs)
    } else if arr[0]@.len() < 2 || arr[1]@.len() < 2 {
        Err(ParseReason::TooFewElements)
    } else if !is_coordinate(arr[0]@[0]@) {
        Err(ParseReason::InvalidDecimal(Coordinate::X0))
    } else if !is_coordinate(arr[0]@[1]@) {
        Err(ParseReason::InvalidDecimal(Coordinate::X1))
    } else if !is_coordinate(arr[1]@[0]@) {
        Err(ParseReason::InvalidDecimal(Coordinate::Y0))
    } else if !is_coordinate(arr[1]@[1]@) {
        Err(ParseReason::InvalidDecimal(Coordinate::Y1))
    } else {
        Ok(
            G2Point {
                x: [coordinate_of(arr[0]@[0]@), coordinate_of(arr[0]@[1]@)],
                y: [coordinate_of(arr[1]@[0]@), coordinate_of(arr[1]@[1]@)],
            },
        )
    }
}

/// A point of G1 in affine coordinates. Both coordinates zero stand for the
/// point at infinity. Nothing here checks that a point lies on the curve.
#[derive(Clone, Copy, Debug)]
pub struct G1Point {
    pub x: U256,
    pub y: U256,
}

/// The 64-byte writing of a G1 point: `x`, then `y`, each big-endian.
pub open spec fn g1_bytes(p: G1Point) -> Seq<u8> {
    be_bytes(p.x@, 32) + be_bytes(p.y@, 32)
}

/// The G1 point that 64 bytes stand for.
pub open spec fn g1_from_bytes(s: Seq<u8>) -> G1Point {
    G1Point { x: coordinate_at(s, 0), y: coordinate_at(s, 32) }
}

impl G1Point {
    /// The point at infinity.
    pub fn zero() -> (r: Self)
        ensures
            r.x@ == 0,
            r.y@ == 0,
    {
        G1Point { x: U256::zero(), y: U256::zero() }
    }

    /// Whether this is the point at infinity.
    pub fn is_zero(&self) -> (r: bool)
        ensures
            r == (self.x@ == 0 && self.y@ == 0),
    {
        self.x.is_zero() && self.y.is_zero()
    }

    /// The 64-byte writing of the point.
    pub fn to_bytes(&self) -> (r: [u8; 64])
        ensures
            r@ == g1_bytes(*self),
    {
        concat32(&self.x.to_be_bytes(), &self.y.to_be_bytes())
    }

    /// The point that 64 bytes stand for.
    pub fn from_bytes(bytes: &[u8; 64]) -> (r: Self)
        ensures
            r == g1_from_bytes(bytes@),
    {
        G1Point { x: U256::from_be_bytes(&bytes[0..32]), y: U256::from_be_bytes(&bytes[32..64]) }
    }

    /// Reads the decimal array `[x, y, ...]` of a point.
    pub fn from_json_array(arr: &[String]) -> (r: Result<Self, ParseReason>)
        ensures
            r == parse_g1(arr@),
    {
        if arr.len() < 2 {
            return Err(ParseReason::TooFewCoordinates);
        }
        let x = match read_coordinate(arr[0].as_str()) {
            Some(v) => v,
            None => {
                return Err(ParseReason::InvalidDecimal(Coordinate::X));
            },
        };
        let y = match read_coordinate(arr[1].as_str()) {
            Some(v) => v,
            None => {
                return Err(ParseReason::InvalidDecimal(Coordinate::Y));
            },
        };
        Ok(G1Point { x, y })
    }
}

/// A point of G2 in affine coordinates over the quadratic extension: each
/// coordinate is `[c0, c1]`, standing for `c0 + c1 * u` with `u^2 = -1`.
#[derive(Clone, Copy, Debug)]
pub struct G2Point {
    pub x: [U256; 2],
    pub y: [U256; 2],
}

/// The 128-byte writing of a G2 point, imaginary parts first:
/// `x.c1`, `x.c0`, `y.c1`, `y.c0`.
pub open spec fn g2_bytes(p: G2Point) -> Seq<u8> {
    be_bytes(p.x[1]@, 32) + be_bytes(p.x[0]@, 32) + be_bytes(p.y[1]@, 32) + be_bytes(p.y[0]@, 32)
}

/// The G2 point that 128 bytes stand for: the real part of each coordinate
/// is read from behind its imaginary part.
pub open spec fn g2_from_bytes(s: Seq<u8>) -> G2Point {
    G2Point {
        x: [coordinate_at(s, 32), coordinate_at(s, 0)],
        y: [coordinate_at(s, 96), coordinate_at(s, 64)],
    }
}

impl G2Point {
    /// The point at infinity.
    pub fn zero() -> (r: Self)
        ensures
            r.x[0]@ == 0,
            r.x[1]@ == 0,
            r.y[0]@ == 0,
            r.y[1]@ == 0,
    {
        G2Point { x: [U256::zero(), U256::zero()], y: [U256::zero(), U256::zero()] }
    }

    /// Whether this is the point at infinity.
    pub fn is_zero(&self) -> (r: bool)
        ensures
            r == (self.x[0]@ == 0 && self.x[1]@ == 0 && self.y[0]@ == 0 && self.y[1]@ == 0),
    {
        self.x[0].is_zero() && self.x[1].is_zero() && self.y[0].is_zero() && self.y[1].is_zero()
    }

    /// The 128-byte writing of the point.
    pub fn to_bytes(&self) -> (r: [u8; 128])
        ensures
            r@ == g2_bytes(*self),
    {
        let x = concat32(&self.x[1].to_be_bytes(), &self.x[0].to_be_bytes());
        let y = concat32(&self.y[1].to_be_bytes(), &self.y[0].to_be_bytes());
        let r = concat64(&x, &y);
        proof {
            assert(r@ =~= g2_bytes(*self));
        }
        r
    }

    /// The point that 128 bytes stand for; undoes the imaginary-first order.
    pub fn from_bytes(bytes: &[u8; 128]) -> (r: Self)
        ensures
            r == g2_from_bytes(bytes@),
    {
        let r = G2Point {
            x: [U256::from_be_bytes(&bytes[32..64]), U256::from_be_bytes(&bytes[0..32])],
            y: [U256::from_be_bytes(&bytes[96..128]), U256::from_be_bytes(&bytes[64..96])],
        };
        proof {
            assert(r.x@ =~= g2_from_bytes(bytes@).x@);
            assert(r.y@ =~= g2_from_bytes(bytes@).y@);
        }
        r
    }

    /// Reads the decimal array `[[x0, x1], [y0, y1], ...]` of a point.
    pub fn from_json_array(arr: &[Vec<String>]) -> (r: Result<Self, ParseReason>)
        ensures
            r == parse_g2(arr@),
    {
        if arr.len() < 2 {
            return Err(ParseReason::TooFewPairs);
        }
        if arr[0].len() < 2 || arr[1].len() < 2 {
            return Err(ParseReason::TooFewElements);
        }
        let x0 = match read_coordinate(arr[0][0].as_str()) {
            Some(v) => v,
            None => {
                return Err(ParseReason::InvalidDecimal(Coordinate::X0));
            },
        };
        let x1 = match read_coordinate(arr[0][1].as_str()) {
            Some(v) => v,
            None => {
                return Err(ParseReason::InvalidDecimal(Coordinate::X1));
            },
        };
        let y0 = match read_coordinate(arr[1][0].as_str()) {
            Some(v) => v,
            None => {
                return Err(ParseReason::InvalidDecimal(Coordinate::Y0));
            },
        };
        let y1 = match read_coordinate(arr[1][1].as_str()) {
            Some(v) => v,
            None => {
                return Err(ParseReason::InvalidDecimal(Coordinate::Y1));
            },
        };
        let r = G2Point { x: [x0, x1], y: [y0, y1] };
        proof {
            let want = parse_g2(arr@)->Ok_0;
            assert(r.x@ =~= want.x@);
            assert(r.y@ =~= want.y@);
            assert(r.x == want.x);
            assert(r.y == want.y);
        }
        Ok(r)
    }
}

/// A 256-bit integer written as 32 bytes anywhere in a byte string is read
/// back from that place unchanged.
pub proof fn lemma_coordinate_round_trip(before: Seq<u8>, v: U256, after: Seq<u8>)
    ensures
        coordinate_at(before + be_bytes(v@, 32) + after, before.len() as int) == v,
{
    let s = before + be_bytes(v@, 32) + after;
    lemma_be_bytes_len(v@, 32);
    lemma_byte_weights();
    lemma_be_value_of_bytes(v@, 32);
    assert(s.subrange(before.len() as int, before.len() as int + 32) =~= be_bytes(v@, 32));
    lemma_u256_of_value(v);
}

/// Round trip of the G1 codec: a point read back from its own writing is
/// the point itself.
pub proof fn lemma_g1_round_trip(p: G1Point)
    ensures
        g1_from_bytes(g1_bytes(p)) == p,
{
    let e = Seq::<u8>::empty();
    lemma_be_bytes_len(p.x@, 32);
    lemma_be_bytes_len(p.y@, 32);
    lemma_coordinate_round_trip(e, p.x, be_bytes(p.y@, 32));
    assert(e + be_bytes(p.x@, 32) + be_bytes(p.y@, 32) =~= g1_bytes(p));
    lemma_coordinate_round_trip(be_bytes(p.x@, 32), p.y, e);
    assert(be_bytes(p.x@, 32) + be_bytes(p.y@, 32) + e =~= g1_bytes(p));
}

/// Round trip of the G2 codec: a point read back from its own writing is
/// the point itself.
pub proof fn lemma_g2_round_trip(p: G2Point)
    ensures
        g2_from_bytes(g2_bytes(p)) == p,
{
    let e = Seq::<u8>::empty();
    let x1 = be_bytes(p.x[1]@, 32);
    let x0 = be_bytes(p.x[0]@, 32);
    let y1 = be_bytes(p.y[1]@, 32);
    let y0 = be_bytes(p.y[0]@, 32);
    lemma_be_bytes_len(p.x[1]@, 32);
    lemma_be_bytes_len(p.x[0]@, 32);
    lemma_be_bytes_len(p.y[1]@, 32);
    lemma_be_bytes_len(p.y[0]@, 32);
    lemma_coordinate_round_trip(e, p.x[1], x0 + y1 + y0);
    assert(e + x1 + (x0 + y1 + y0) =~= g2_bytes(p));
    lemma_coordinate_round_trip(x1, p.x[0], y1 + y0);
    assert(x1 + x0 + (y1 + y0) =~= g2_bytes(p));
    lemma_coordinate_round_trip(x1 + x0, p.y[1], y0);
    assert((x1 + x0) + y1 + y0 =~= g2_bytes(p));
    lemma_coordinate_round_trip(x1 + x0 + y1, p.y[0], e);
    assert((x1 + x0 + y1) + y0 + e =~= g2_bytes(p));
    let q = g2_from_bytes(g2_bytes(p));
    assert(q.x@ =~= p.x@);
    assert(q.y@ =~= p.y@);
    assert(q.x == p.x);
    assert(q.y == p.y);
}

/// Round trip of the decimal codec: a 256-bit value read back from its own
/// decimal writing is the value itself.
pub proof fn lemma_decimal_codec_round_trip(v: U256)
    ensures
        parse_decimal(decimal_digits(v@)) == Ok::<nat, FromDecStrErr>(v@),
{
    lemma_decimal_round_trip(v@);
    lemma_parse_decimal_ok(decimal_digits(v@));
}

/// Whether a G1 point can be negated: it is the point at infinity, or its
/// `y` does not exceed the base-field order.
pub open spec fn negatable(p: G1Point) -> bool {
    (p.x@ == 0 && p.y@ == 0) || p.y@ <= base_modulus()
}

/// The negation of a G1 point: `(x, q - y)`, with `q` the base-field order,
/// not the scalar-field order. The point at infinity is its own negation.
pub open spec fn negation(p: G1Point) -> G1Point {
    if p.x@ == 0 && p.y@ == 0 {
        p
    } else {
        G1Point { x: p.x, y: u256_of((base_modulus() - p.y@) as nat) }
    }
}

/// Negating twice gives the point back. The one point that can be negated
/// and is not given back is `(0, q)`, whose negation is the point at
/// infinity.
pub proof fn lemma_negation_twice(p: G1Point)
    requires
        negatable(p),
        !(p.x@ == 0 && p.y@ == base_modulus()),
    ensures
        negatable(negation(p)),
        negation(negation(p)) == p,
{
    if !(p.x@ == 0 && p.y@ == 0) {
        let once = negation(p);
        lemma_u256_of((base_modulus() - p.y@) as nat);
        lemma_small_mod((base_modulus() - p.y@) as nat, pow256());
        assert(once.y@ == base_modulus() - p.y@);
        lemma_u256_of_value(p.y);
        assert(negation(once).y == p.y);
    }
}

/// Negates a G1 point, for the rearranged pairing equation.
pub fn negate_g1(p: &G1Point) -> (r: G1Point)
    requires
        negatable(*p),
    ensures
        r == negation(*p),
{
    if p.is_zero() {
        return *p;
    }
    proof {
        lemma_base_modulus();
    }
    let (neg_y, _borrow) = sub_with_borrow_256(&BASE_MODULUS, &p.y.0);
    let y = U256(neg_y);
    proof {
        lemma_u256_of_value(y);
    }
    G1Point { x: p.x, y }
}

/// Whether a G1 point can be negated.
pub fn is_negatable(p: &G1Point) -> (r: bool)
    ensures
        r == negatable(*p),
{
    proof {
        lemma_base_modulus();
    }
    p.is_zero() || U256(BASE_MODULUS).gte(&p.y)
}

/// A Groth16 proof: `A` in G1, `B` in G2, `C` in G1.
#[derive(Clone, Copy, Debug)]
pub struct Proof {
    pub a: G1Point,
    pub b: G2Point,
    pub c: G1Point,
}

/// What the three decimal arrays of a proof stand for. The first array
/// that is malformed decides the failure.
pub open spec fn parse_proof(pi_a: Seq<String>, pi_b: Seq<Vec<String>>, pi_c: Seq<String>) -> Result<
    Proof,
    ParseError,
> {
    match parse_g1(pi_a) {
        Err(why) => Err(ParseError { which: ParseSubject::PiA, why }),
        Ok(a) => match parse_g2(pi_b) {
            Err(why) => Err(ParseError { which: ParseSubject::PiB, why }),
            Ok(b) => match parse_g1(pi_c) {
                Err(why) => Err(ParseError { which: ParseSubject::PiC, why }),
                Ok(c) => Ok(Proof { a, b, c }),
            },
        },
    }
}

impl Proof {
    /// Reads a proof from its three decimal arrays.
    pub fn from_json(pi_a: &[String], pi_b: &[Vec<String>], pi_c: &[String]) -> (r: Result<
        Self,
        ParseError,
    >)
        ensures
            r == parse_proof(pi_a@, pi_b@, pi_c@),
    {
        let a = match G1Point::from_json_array(pi_a) {
            Ok(p) => p,
            Err(why) => {
                return Err(ParseError { which: ParseSubject::PiA, why });
            },
        };
        let b = match G2Point::from_json_array(pi_b) {
            Ok(p) => p,
            Err(why) => {
                return Err(ParseError { which: ParseSubject::PiB, why });
            },
        };
        let c = match G1Point::from_json_array(pi_c) {
            Ok(p) => p,
            Err(why) => {
                return Err(ParseError { which: ParseSubject::PiC, why });
            },
        };
        Ok(Proof { a, b, c })
    }

    /// The byte writings of `A`, `B` and `C`, with `A` negated on request.
    pub fn to_pairing_bytes(&self, negate_a: bool) -> (r: ([u8; 64], [u8; 128], [u8; 64]))
        requires
            negate_a ==> negatable(self.a),
        ensures
            r.0@ == g1_bytes(if negate_a { negation(self.a) } else { self.a }),
            r.1@ == g2_bytes(self.b),
            r.2@ == g1_bytes(self.c),
    {
        let a_bytes = if negate_a {
            negate_g1(&self.a).to_bytes()
        } else {
            self.a.to_bytes()
        };
        (a_bytes, self.b.to_bytes(), self.c.to_bytes())
    }
}

/// A Groth16 verification key. `ic[0]` is the base of the input
/// combination, `ic[i + 1]` the point that public input `i` multiplies.
#[derive(Clone, Debug)]
pub struct VerificationKey {
    pub alpha: G1Point,
    pub beta: G2Point,
    pub gamma: G2Point,
    pub delta: G2Point,
    pub ic: Vec<G1Point>,
}

/// A verification key as a mathematical value.
pub struct VerificationKeyView {
    pub alpha: G1Point,
    pub beta: G2Point,
    pub gamma: G2Point,
    pub delta: G2Point,
    pub ic: Seq<G1Point>,
}

impl View for VerificationKey {
    type V = VerificationKeyView;

    open spec fn view(&self) -> VerificationKeyView {
        VerificationKeyView {
            alpha: self.alpha,
            beta: self.beta,
            gamma: self.gamma,
            delta: self.delta,
            ic: self.ic@,
        }
    }
}

impl VerificationKeyView {
    /// The number of public inputs that the key expects: one less than the
    /// number of `IC` points.
    pub open spec fn num_inputs(self) -> nat {
        if self.ic.len() == 0 {
            0
        } else {
            (self.ic.len() - 1) as nat
        }
    }
}

/// What a list of decimal arrays stands for as `IC` points. The first
/// malformed point decides the failure.
pub open spec fn parse_ic(ic: Seq<Vec<String>>) -> Result<Seq<G1Point>, ParseError>
    decreases ic.len(),
{
    if ic.len() == 0 {
        Ok(Seq::<G1Point>::empty())
    } else {
        match parse_ic(ic.drop_last()) {
            Err(e) => Err(e),
            Ok(points) => match parse_g1(ic.last()@) {
                Err(why) => Err(
                    ParseError { which: ParseSubject::IcPoint((ic.len() - 1) as usize), why },
                ),
                Ok(p) => Ok(points.push(p)),
            },
        }
    }
}

/// An error met while reading a prefix of the `IC` list is the error of the
/// whole list.
pub proof fn lemma_parse_ic_error_stays(ic: Seq<Vec<String>>, k: int)
    requires
        0 <= k <= ic.len(),
        parse_ic(ic.take(k)) is Err,
    ensures
        parse_ic(ic) == parse_ic(ic.take(k)),
    decreases ic.len() - k,
{
    if k < ic.len() {
        assert(ic.take(k + 1).drop_last() =~= ic.take(k));
        lemma_parse_ic_error_stays(ic, k + 1);
    } else {
        assert(ic.take(k) =~= ic);
    }
}

/// What the decimal arrays of a verification key stand for. The parts are
/// read in the order `alpha`, `beta`, `gamma`, `delta`, `IC`; the first
/// that is malformed decides the failure. A key without `IC` points is
/// rejected.
pub open spec fn parse_vk(
    vk_alpha_1: Seq<String>,
    vk_beta_2: Seq<Vec<String>>,
    vk_gamma_2: Seq<Vec<String>>,
    vk_delta_2: Seq<Vec<String>>,
    ic: Seq<Vec<String>>,
) -> Result<VerificationKeyView, ParseError> {
    match parse_g1(vk_alpha_1) {
        Err(why) => Err(ParseError { which: ParseSubject::VkAlpha1, why }),
        Ok(alpha) => match parse_g2(vk_beta_2) {
            Err(why) => Err(ParseError { which: ParseSubject::VkBeta2, why }),
            Ok(beta) => match parse_g2(vk_gamma_2) {
                Err(why) => Err(ParseError { which: ParseSubject::VkGamma2, why }),
                Ok(gamma) => match parse_g2(vk_delta_2) {
                    Err(why) => Err(ParseError { which: ParseSubject::VkDelta2, why }),
                    Ok(delta) => if ic.len() == 0 {
                        Err(ParseError { which: ParseSubject::Ic, why: ParseReason::EmptyIc })
                    } else {
                        match parse_ic(ic) {
                            Err(e) => Err(e),
                            Ok(points) => Ok(
                                VerificationKeyView { alpha, beta, gamma, delta, ic: points },
                            ),
                        }
                    },
                },
            },
        },
    }
}

/// Reads the `IC` points of a verification key.
pub fn read_ic(ic: &[Vec<String>]) -> (r: Result<Vec<G1Point>, ParseError>)
    ensures
        match r {
            Ok(points) => parse_ic(ic@) == Ok::<Seq<G1Point>, ParseError>(points@),
            Err(e) => parse_ic(ic@) == Err::<Seq<G1Point>, ParseError>(e),
        },
{
    let mut points: Vec<G1Point> = Vec::new();
    for i in 0..ic.len()
        invariant
            parse_ic(ic@.take(i as int)) == Ok::<Seq<G1Point>, ParseError>(points@),
    {
        proof {
            assert(ic@.take(i + 1).drop_last() =~= ic@.take(i as int));
            assert(ic@.take(i + 1).last() == ic@[i as int]);
        }
        match G1Point::from_json_array(ic[i].as_slice()) {
            Ok(p) => {
                points.push(p);
            },
            Err(why) => {
                proof {
                    lemma_parse_ic_error_stays(ic@, i + 1);
                }
                return Err(ParseError { which: ParseSubject::IcPoint(i), why });
            },
        }
    }
    proof {
        assert(ic@.take(ic@.len() as int) =~= ic@);
    }
    Ok(points)
}

impl VerificationKey {
    /// Reads a verification key from its decimal arrays.
    pub fn from_json(
        vk_alpha_1: &[String],
        vk_beta_2: &[Vec<String>],
        vk_gamma_2: &[Vec<String>],
        vk_delta_2: &[Vec<String>],
        ic: &[Vec<String>],
    ) -> (r: Result<Self, ParseError>)
        ensures
            match r {
                Ok(vk) => parse_vk(vk_alpha_1@, vk_beta_2@, vk_gamma_2@, vk_delta_2@, ic@) == Ok::<
                    VerificationKeyView,
                    ParseError,
                >(vk@) && vk@.ic.len() >= 1,
                Err(e) => parse_vk(vk_alpha_1@, vk_beta_2@, vk_gamma_2@, vk_delta_2@, ic@) == Err::<
                    VerificationKeyView,
                    ParseError,
                >(e),
            },
    {
        let alpha = match G1Point::from_json_array(vk_alpha_1) {
            Ok(p) => p,
            Err(why) => {
                return Err(ParseError { which: ParseSubject::VkAlpha1, why });
            },
        };
        let beta = match G2Point::from_json_array(vk_beta_2) {
            Ok(p) => p,
            Err(why) => {
                return Err(ParseError { which: ParseSubject::VkBeta2, why });
            },
        };
        let gamma = match G2Point::from_json_array(vk_gamma_2) {
            Ok(p) => p,
            Err(why) => {
                return Err(ParseError { which: ParseSubject::VkGamma2, why });
            },
        };
        let delta = match G2Point::from_json_array(vk_delta_2) {
            Ok(p) => p,
            Err(why) => {
                return Err(ParseError { which: ParseSubject::VkDelta2, why });
            },
        };
        if ic.len() == 0 {
            return Err(ParseError { which: ParseSubject::Ic, why: ParseReason::EmptyIc });
        }
        let points = match read_ic(ic) {
            Ok(points) => points,
            Err(e) => {
                return Err(e);
            },
        };
        proof {
            lemma_parse_ic_len(ic@);
        }
        Ok(VerificationKey { alpha, beta, gamma, delta, ic: points })
    }

    /// The number of public inputs that the key expects.
    pub fn num_inputs(&self) -> (r: usize)
        ensures
            r == self@.num_inputs(),
    {
        if self.ic.len() == 0 {
            0
        } else {
            self.ic.len() - 1
        }
    }
}

/// A list of `IC` points that was read has as many points as it had arrays.
pub proof fn lemma_parse_ic_len(ic: Seq<Vec<String>>)
    ensures
        parse_ic(ic) is Ok ==> parse_ic(ic)->Ok_0.len() == ic.len(),
    decreases ic.len(),
{
    if ic.len() > 0 {
        lemma_parse_ic_len(ic.drop_last());
    }
}

/// A proof as snarkjs writes it: decimal strings, each point with a
/// trailing projective coordinate.
#[derive(Debug)]
pub struct ProofJson {
    pub pi_a: Vec<String>,
    pub pi_b: Vec<Vec<String>>,
    pub pi_c: Vec<String>,
    pub protocol: Option<String>,
    pub curve: Option<String>,
}

impl ProofJson {
    /// Reads the proof.
    pub fn to_proof(&self) -> (r: Result<Proof, ParseError>)
        ensures
            r == parse_proof(self.pi_a@, self.pi_b@, self.pi_c@),
    {
        Proof::from_json(self.pi_a.as_slice(), self.pi_b.as_slice(), self.pi_c.as_slice())
    }
}

/// A verification key as snarkjs writes it.
#[derive(Debug)]
pub struct VerificationKeyJson {
    pub protocol: Option<String>,
    pub curve: Option<String>,
    pub n_public: Option<u32>,
    pub vk_alpha_1: Vec<String>,
    pub vk_beta_2: Vec<Vec<String>>,
    pub vk_gamma_2: Vec<Vec<String>>,
    pub vk_delta_2: Vec<Vec<String>>,
    pub ic: Vec<Vec<String>>,
}

impl VerificationKeyJson {
    /// Reads the verification key.
    pub fn to_vk(&self) -> (r: Result<VerificationKey, ParseError>)
        ensures
            match r {
                Ok(vk) => parse_vk(
                    self.vk_alpha_1@,
                    self.vk_beta_2@,
                    self.vk_gamma_2@,
                    self.vk_delta_2@,
                    self.ic@,
                ) == Ok::<VerificationKeyView, ParseError>(vk@) && vk@.ic.len() >= 1,
                Err(e) => parse_vk(
                    self.vk_alpha_1@,
                    self.vk_beta_2@,
                    self.vk_gamma_2@,
                    self.vk_delta_2@,
                    self.ic@,
                ) == Err::<VerificationKeyView, ParseError>(e),
            },
    {
        VerificationKey::from_json(
            self.vk_alpha_1.as_slice(),
            self.vk_beta_2.as_slice(),
            self.vk_gamma_2.as_slice(),
            self.vk_delta_2.as_slice(),
            self.ic.as_slice(),
        )
    }
}

/// Whether every string of a list is the decimal writing of a 256-bit
/// number.
pub open spec fn all_coordinates(arr: Seq<String>) -> bool {
    forall|i: int| 0 <= i < arr.len() ==> is_coordinate(#[trigger] arr[i]@)
}

/// Whether a decimal array is fit to be a G1 point: two coordinates at
/// least, and every element a 256-bit number.
pub open spec fn g1_well_formed(arr: Seq<String>) -> bool {
    arr.len() >= 2 && all_coordinates(arr)
}

/// Whether a decimal array is fit to be a G2 point: two pairs at least, the
/// first two of two elements at least, and every element a 256-bit number.
pub open spec fn g2_well_formed(arr: Seq<Vec<String>>) -> bool {
    arr.len() >= 2 && arr[0]@.len() >= 2 && arr[1]@.len() >= 2 && forall|i: int|
        0 <= i < arr.len() ==> all_coordinates(#[trigger] arr[i]@)
}

/// Whether a list of decimal arrays is fit to be the `IC` points of a key:
/// there is one at least, and each is fit to be a G1 point.
pub open spec fn ic_well_formed(ic: Seq<Vec<String>>) -> bool {
    ic.len() >= 1 && forall|i: int| 0 <= i < ic.len() ==> g1_well_formed(#[trigger] ic[i]@)
}

/// Whether every string of a list is the decimal writing of a 256-bit
/// number.
pub fn check_coordinates(arr: &[String]) -> (r: bool)
    ensures
        r == all_coordinates(arr@),
{
    for i in 0..arr.len()
        invariant
            forall|j: int| 0 <= j < i ==> is_coordinate(#[trigger] arr@[j]@),
    {
        if read_coordinate(arr[i].as_str()).is_none() {
            assert(!is_coordinate(arr@[i as int]@));
            return false;
        }
    }
    true
}

/// Whether a decimal array is fit to be a G2 point.
pub fn check_g2(arr: &[Vec<String>]) -> (r: bool)
    ensures
        r == g2_well_formed(arr@),
{
    if arr.len() < 2 || arr[0].len() < 2 || arr[1].len() < 2 {
        return false;
    }
    for i in 0..arr.len()
        invariant
            forall|j: int| 0 <= j < i ==> all_coordinates(#[trigger] arr@[j]@),
    {
        if !check_coordinates(arr[i].as_slice()) {
            assert(!all_coordinates(arr@[i as int]@));
            return false;
        }
    }
    true
}

/// Whether a list of decimal arrays is fit to be the `IC` points of a key.
pub fn check_ic(ic: &[Vec<String>]) -> (r: bool)
    ensures
        r == ic_well_formed(ic@),
{
    if ic.len() == 0 {
        return false;
    }
    for i in 0..ic.len()
        invariant
            forall|j: int| 0 <= j < i ==> g1_well_formed(#[trigger] ic@[j]@),
    {
        if ic[i].len() < 2 || !check_coordinates(ic[i].as_slice()) {
            assert(!g1_well_formed(ic@[i as int]@));
            return false;
        }
    }
    true
}

/// Whether an optional label is present and reads as `expected`.
pub fn label_is(label: &Option<String>, expected: &str) -> (r: bool)
    ensures
        r == (label is Some && label->0@ == expected@),
{
    match label {
        Some(text) => {
            let want = String::from_str(expected);
            *text == want
        },
        None => false,
    }
}

/// What a look at a verification key found, part by part.
#[derive(Clone, Copy, Debug, PartialEq, Eq, Structural)]
pub struct KeyReport {
    /// The protocol is named, and is `groth16`.
    pub protocol_ok: bool,
    /// The curve is named, and is `bn128`.
    pub curve_ok: bool,
    pub alpha_ok: bool,
    pub beta_ok: bool,
    pub gamma_ok: bool,
    pub delta_ok: bool,
    pub ic_ok: bool,
}

impl KeyReport {
    /// Whether the key can be used: every point is well formed. The names
    /// of protocol and curve do not count.
    pub fn is_valid(&self) -> (r: bool)
        ensures
            r == (self.alpha_ok && self.beta_ok && self.gamma_ok && self.delta_ok && self.ic_ok),
    {
        self.alpha_ok && self.beta_ok && self.gamma_ok && self.delta_ok && self.ic_ok
    }

    /// Whether protocol or curve is absent or not the expected one.
    pub fn has_warnings(&self) -> (r: bool)
        ensures
            r == !(self.protocol_ok && self.curve_ok),
    {
        !(self.protocol_ok && self.curve_ok)
    }
}

impl VerificationKeyJson {
    /// Looks at every part of the key without reading it.
    pub fn validate(&self) -> (r: KeyReport)
        ensures
            r.protocol_ok == (self.protocol is Some && self.protocol->0@ == "groth16"@),
            r.curve_ok == (self.curve is Some && self.curve->0@ == "bn128"@),
            r.alpha_ok == g1_well_formed(self.vk_alpha_1@),
            r.beta_ok == g2_well_formed(self.vk_beta_2@),
            r.gamma_ok == g2_well_formed(self.vk_gamma_2@),
            r.delta_ok == g2_well_formed(self.vk_delta_2@),
            r.ic_ok == ic_well_formed(self.ic@),
    {
        KeyReport {
            protocol_ok: label_is(&self.protocol, "groth16"),
            curve_ok: label_is(&self.curve, "bn128"),
            alpha_ok: self.vk_alpha_1.len() >= 2 && check_coordinates(self.vk_alpha_1.as_slice()),
            beta_ok: check_g2(self.vk_beta_2.as_slice()),
            gamma_ok: check_g2(self.vk_gamma_2.as_slice()),
            delta_ok: check_g2(self.vk_delta_2.as_slice()),
            ic_ok: check_ic(self.ic.as_slice()),
        }
    }
}

/// A list of `IC` arrays that are each fit to be a G1 point can be read.
pub proof fn lemma_well_formed_ic_parses(ic: Seq<Vec<String>>)
    requires
        forall|i: int| 0 <= i < ic.len() ==> g1_well_formed(#[trigger] ic[i]@),
    ensures
        parse_ic(ic) is Ok,
    decreases ic.len(),
{
    if ic.len() > 0 {
        let head = ic.drop_last();
        assert forall|i: int| 0 <= i < head.len() implies g1_well_formed(#[trigger] head[i]@) by {
            assert(head[i] == ic[i]);
        }
        lemma_well_formed_ic_parses(head);
        let last = ic[ic.len() - 1]@;
        assert(g1_well_formed(last));
        assert(is_coordinate(last[0]@) && is_coordinate(last[1]@));
    }
}

/// A key whose every part is well formed can be read.
pub proof fn lemma_valid_key_parses(json: VerificationKeyJson)
    requires
        g1_well_formed(json.vk_alpha_1@),
        g2_well_formed(json.vk_beta_2@),
        g2_well_formed(json.vk_gamma_2@),
        g2_well_formed(json.vk_delta_2@),
        ic_well_formed(json.ic@),
    ensures
        parse_vk(json.vk_alpha_1@, json.vk_beta_2@, json.vk_gamma_2@, json.vk_delta_2@, json.ic@)
            is Ok,
{
    let a = json.vk_alpha_1@;
    assert(is_coordinate(a[0]@) && is_coordinate(a[1]@));
    lemma_well_formed_g2_parses(json.vk_beta_2@);
    lemma_well_formed_g2_parses(json.vk_gamma_2@);
    lemma_well_formed_g2_parses(json.vk_delta_2@);
    lemma_well_formed_ic_parses(json.ic@);
}

/// A decimal array that is fit to be a G2 point can be read.
pub proof fn lemma_well_formed_g2_parses(arr: Seq<Vec<String>>)
    requires
        g2_well_formed(arr),
    ensures
        parse_g2(arr) is Ok,
{
    assert(all_coordinates(arr[0]@));
    assert(all_coordinates(arr[1]@));
    assert(is_coordinate(arr[0]@[0]@) && is_coordinate(arr[0]@[1]@));
    assert(is_coordinate(arr[1]@[0]@) && is_coordinate(arr[1]@[1]@));
}

} // verus!
