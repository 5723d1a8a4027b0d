//! The byte layout of the NEAR `alt_bn128` host functions.
//!
//! The verifier writes coordinates big-endian, a multiexp pair as scalar
//! then point, and the imaginary part of a G2 coordinate first. The NEAR
//! host takes every number little-endian, a multiexp element as point then
//! scalar, a sum element with a sign byte in front, and the real part of a
//! G2 coordinate first. The functions here take a question from the one
//! layout to the other, and a point in an answer back.

use vstd::prelude::*;
use crate::groth16::{HostCall, HostCallView};

verus! {

/// A 64-byte G1 point with each coordinate reversed: big-endian becomes
/// little-endian, and little-endian big-endian.
pub open spec fn near_g1(point: Seq<u8>) -> Seq<u8> {
    point.subrange(0, 32).reverse() + point.subrange(32, 64).reverse()
}

/// A 128-byte G2 point for the host: the real part of each coordinate
/// before the imaginary part, each little-endian.
pub open spec fn near_g2(point: Seq<u8>) -> Seq<u8> {
    point.subrange(32, 64).reverse() + point.subrange(0, 32).reverse() + point.subrange(
        96,
        128,
    ).reverse() + point.subrange(64, 96).reverse()
}

/// A multiexp input for the host: each whole pair of scalar and point
/// becomes point and scalar. Bytes that fill no whole pair stay as they are.
pub open spec fn near_multiexp_input(bytes: Seq<u8>) -> Seq<u8>
    decreases bytes.len(),
{
    if bytes.len() < 96 {
        bytes
    } else {
        near_g1(bytes.subrange(32, 96)) + bytes.subrange(0, 32) + near_multiexp_input(
            bytes.subrange(96, bytes.len() as int),
        )
    }
}

/// A sum input for the host: each whole point gets the sign byte of a
/// point that is added. Bytes that fill no whole point stay as they are.
pub open spec fn near_sum_input(bytes: Seq<u8>) -> Seq<u8>
    decreases bytes.len(),
{
    if bytes.len() < 64 {
        bytes
    } else {
        seq![0u8] + near_g1(bytes.subrange(0, 64)) + near_sum_input(
            bytes.subrange(64, bytes.len() as int),
        )
    }
}

/// A pairing input for the host, pair by pair. Bytes that fill no whole
/// pair stay as they are.
pub open spec fn near_pairing_input(bytes: Seq<u8>) -> Seq<u8>
    decreases bytes.len(),
{
    if bytes.len() < 192 {
        bytes
    } else {
        near_g1(bytes.subrange(0, 64)) + near_g2(bytes.subrange(64, 192)) + near_pairing_input(
            bytes.subrange(192, bytes.len() as int),
        )
    }
}

/// The bytes that the host is given for a question.
pub open spec fn near_input(call: HostCallView) -> Seq<u8> {
    match call {
        HostCallView::G1Multiexp(bytes) => near_multiexp_input(bytes),
        HostCallView::G1Sum(bytes) => near_sum_input(bytes),
        HostCallView::PairingCheck(bytes) => near_pairing_input(bytes),
    }
}

/// The point in an answer of the host, in the verifier's layout. An answer
/// that is no 64 bytes long is handed on as it is, for the verifier to
/// refuse.
pub open spec fn near_point(reply: Seq<u8>) -> Seq<u8> {
    if reply.len() == 64 {
        near_g1(reply)
    } else {
        reply
    }
}

/// Reversing the coordinates of a point twice gives the point back.
pub proof fn lemma_near_g1_twice(point: Seq<u8>)
    requires
        point.len() == 64,
    ensures
        near_g1(near_g1(point)) == point,
        near_g1(point).len() == 64,
{
    let once = near_g1(point);
    assert(once.subrange(0, 32) =~= point.subrange(0, 32).reverse());
    assert(once.subrange(32, 64) =~= point.subrange(32, 64).reverse());
    assert(near_g1(once) =~= point);
}

/// Appends the bytes of `bytes` from `from` up to `to`, last byte first.
fn push_reversed(out: &mut Vec<u8>, bytes: &[u8], from: usize, to: usize)
    requires
        from <= to <= bytes@.len(),
    ensures
        final(out)@ == old(out)@ + bytes@.subrange(from as int, to as int).reverse(),
{
    let mut i: usize = to;
    while i > from
        invariant
            from <= i <= to <= bytes@.len(),
            out@ == old(out)@ + bytes@.subrange(i as int, to as int).reverse(),
        decreases i,
    {
        i = i - 1;
        out.push(bytes[i]);
        proof {
            assert(out@ =~= old(out)@ + bytes@.subrange(i as int, to as int).reverse());
        }
    }
    proof {
        assert(out@ =~= old(out)@ + bytes@.subrange(from as int, to as int).reverse());
    }
}

/// Appends the bytes of `bytes` from `from` up to `to`.
fn push_range(out: &mut Vec<u8>, bytes: &[u8], from: usize, to: usize)
    requires
        from <= to <= bytes@.len(),
    ensures
        final(out)@ == old(out)@ + bytes@.subrange(from as int, to as int),
{
    let mut i: usize = from;
    while i < to
        invariant
            from <= i <= to <= bytes@.len(),
            out@ == old(out)@ + bytes@.subrange(from as int, i as int),
        decreases to - i,
    {
        out.push(bytes[i]);
        i = i + 1;
        proof {
            assert(out@ =~= old(out)@ + bytes@.subrange(from as int, i as int));
        }
    }
}

/// Appends the G1 point that starts at `from`, in the other byte order.
fn push_g1(out: &mut Vec<u8>, bytes: &[u8], from: usize)
    requires
        from + 64 <= bytes@.len(),
    ensures
        final(out)@ == old(out)@ + near_g1(bytes@.subrange(from as int, from + 64)),
{
    let _len = bytes.len();
    push_reversed(out, bytes, from, from + 32);
    push_reversed(out, bytes, from + 32, from + 64);
    proof {
        let point = bytes@.subrange(from as int, from + 64);
        assert(point.subrange(0, 32) =~= bytes@.subrange(from as int, from + 32));
        assert(point.subrange(32, 64) =~= bytes@.subrange(from + 32, from + 64));
        assert(out@ =~= old(out)@ + near_g1(point));
    }
}

/// Appends the G2 point that starts at `from`, as the host takes it.
fn push_g2(out: &mut Vec<u8>, bytes: &[u8], from: usize)
    requires
        from + 128 <= bytes@.len(),
    ensures
        final(out)@ == old(out)@ + near_g2(bytes@.subrange(from as int, from + 128)),
{
    let _len = bytes.len();
    push_reversed(out, bytes, from + 32, from + 64);
    push_reversed(out, bytes, from, from + 32);
    push_reversed(out, bytes, from + 96, from + 128);
    push_reversed(out, bytes, from + 64, from + 96);
    proof {
        let point = bytes@.subrange(from as int, from + 128);
        assert(point.subrange(0, 32) =~= bytes@.subrange(from as int, from + 32));
        assert(point.subrange(32, 64) =~= bytes@.subrange(from + 32, from + 64));
        assert(point.subrange(64, 96) =~= bytes@.subrange(from + 64, from + 96));
        assert(point.subrange(96, 128) =~= bytes@.subrange(from + 96, from + 128));
        assert(out@ =~= old(out)@ + near_g2(point));
    }
}

/// A multiexp input in the host's layout.
pub fn to_near_multiexp(bytes: &[u8]) -> (r: Vec<u8>)
    ensures
        r@ == near_multiexp_input(bytes@),
{
    let mut out: Vec<u8> = Vec::new();
    let mut at: usize = 0;
    proof {
        assert(bytes@.subrange(0, bytes@.len() as int) =~= bytes@);
        assert(out@ + near_multiexp_input(bytes@) =~= near_multiexp_input(bytes@));
    }
    while bytes.len() - at >= 96
        invariant
            at <= bytes@.len(),
            out@ + near_multiexp_input(bytes@.subrange(at as int, bytes@.len() as int))
                == near_multiexp_input(bytes@),
        decreases bytes@.len() - at,
    {
        let ghost rest = bytes@.subrange(at as int, bytes@.len() as int);
        let ghost before = out@;
        push_g1(&mut out, bytes, at + 32);
        push_range(&mut out, bytes, at, at + 32);
        proof {
            assert(rest.subrange(32, 96) =~= bytes@.subrange(at + 32, at + 96));
            assert(rest.subrange(0, 32) =~= bytes@.subrange(at as int, at + 32));
            assert(rest.subrange(96, rest.len() as int) =~= bytes@.subrange(
                at + 96,
                bytes@.len() as int,
            ));
            assert(out@ + near_multiexp_input(bytes@.subrange(at + 96, bytes@.len() as int))
                =~= before + near_multiexp_input(rest));
        }
        at = at + 96;
    }
    let ghost before = out@;
    push_range(&mut out, bytes, at, bytes.len());
    proof {
        assert(out@ =~= before + near_multiexp_input(
            bytes@.subrange(at as int, bytes@.len() as int),
        ));
    }
    out
}

/// A sum input in the host's layout.
pub fn to_near_sum(bytes: &[u8]) -> (r: Vec<u8>)
    ensures
        r@ == near_sum_input(bytes@),
{
    let mut out: Vec<u8> = Vec::new();
    let mut at: usize = 0;
    proof {
        assert(bytes@.subrange(0, bytes@.len() as int) =~= bytes@);
        assert(out@ + near_sum_input(bytes@) =~= near_sum_input(bytes@));
    }
    while bytes.len() - at >= 64
        invariant
            at <= bytes@.len(),
            out@ + near_sum_input(bytes@.subrange(at as int, bytes@.len() as int))
                == near_sum_input(bytes@),
        decreases bytes@.len() - at,
    {
        let ghost rest = bytes@.subrange(at as int, bytes@.len() as int);
        let ghost before = out@;
        out.push(0u8);
        push_g1(&mut out, bytes, at);
        proof {
            assert(rest.subrange(0, 64) =~= bytes@.subrange(at as int, at + 64));
            assert(rest.subrange(64, rest.len() as int) =~= bytes@.subrange(
                at + 64,
                bytes@.len() as int,
            ));
            assert(out@ + near_sum_input(bytes@.subrange(at + 64, bytes@.len() as int))
                =~= before + near_sum_input(rest));
        }
        at = at + 64;
    }
    let ghost before = out@;
    push_range(&mut out, bytes, at, bytes.len());
    proof {
        assert(out@ =~= before + near_sum_input(bytes@.subrange(at as int, bytes@.len() as int)));
    }
    out
}

/// A pairing input in the host's layout.
pub fn to_near_pairing(bytes: &[u8]) -> (r: Vec<u8>)
    ensures
        r@ == near_pairing_input(bytes@),
{
    let mut out: Vec<u8> = Vec::new();
    let mut at: usize = 0;
    proof {
        assert(bytes@.subrange(0, bytes@.len() as int) =~= bytes@);
        assert(out@ + near_pairing_input(bytes@) =~= near_pairing_input(bytes@));
    }
    while bytes.len() - at >= 192
        invariant
            at <= bytes@.len(),
            out@ + near_pairing_input(bytes@.subrange(at as int, bytes@.len() as int))
                == near_pairing_input(bytes@),
        decreases bytes@.len() - at,
    {
        let ghost rest = bytes@.subrange(at as int, bytes@.len() as int);
        let ghost before = out@;
        push_g1(&mut out, bytes, at);
        push_g2(&mut out, bytes, at + 64);
        proof {
            assert(rest.subrange(0, 64) =~= bytes@.subrange(at as int, at + 64));
            assert(rest.subrange(64, 192) =~= bytes@.subrange(at + 64, at + 192));
            assert(rest.subrange(192, rest.len() as int) =~= bytes@.subrange(
                at + 192,
                bytes@.len() as int,
            ));
            assert(out@ + near_pairing_input(bytes@.subrange(at + 192, bytes@.len() as int))
                =~= before + near_pairing_input(rest));
        }
        at = at + 192;
    }
    let ghost before = out@;
    push_range(&mut out, bytes, at, bytes.len());
    proof {
        assert(out@ =~= before + near_pairing_input(
            bytes@.subrange(at as int, bytes@.len() as int),
        ));
    }
    out
}

/// The bytes to hand to the host function that answers a question.
pub fn to_near(call: &HostCall) -> (r: Vec<u8>)
    ensures
        r@ == near_input(call@),
{
    match call {
        HostCall::G1Multiexp(bytes) => to_near_multiexp(bytes.as_slice()),
        HostCall::G1Sum(bytes) => to_near_sum(bytes.as_slice()),
        HostCall::PairingCheck(bytes) => to_near_pairing(bytes.as_slice()),
    }
}

/// The point in an answer of the host, in the verifier's layout.
pub fn from_near_point(reply: &[u8]) -> (r: Vec<u8>)
    ensures
        r@ == near_point(reply@),
{
    let mut out: Vec<u8> = Vec::new();
    if reply.len() == 64 {
        push_g1(&mut out, reply, 0);
        proof {
            assert(reply@.subrange(0, 64) =~= reply@);
        }
    } else {
        push_range(&mut out, reply, 0, reply.len());
        proof {
            assert(reply@.subrange(0, reply@.len() as int) =~= reply@);
        }
    }
    out
}

} // verus!
