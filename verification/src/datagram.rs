//! Decoding a received UDP datagram into a packet, by rosc.
use crate::message::{Message, Packet};
use crate::osc_type::{OscArg, OscColor, OscMidiMessage, OscTime};
use rosc::{OscError, OscPacket, OscType};
use vstd::prelude::*;

verus! {

#[verifier::external_type_specification]
#[verifier::external_body]
pub struct ExOscPacket(OscPacket);

#[verifier::external_type_specification]
#[verifier::external_body]
pub struct ExOscType(OscType);

/// What rosc's `decoder::decode_udp` gives on `bytes`: the packet it reads,
/// taken one for one into a [`Packet`], or the error it refuses them with.
pub uninterp spec fn decode_result(bytes: Seq<u8>) -> Result<Packet, OscError>;

/// rosc's `OscType` taken one for one into an [`OscArg`]: arrays, colors,
/// MIDI messages and time tags here, the others by [`scalar_from_rosc`].
/// Only the body of [`decode_datagram`] calls it.
#[verifier::external_body]
fn arg_from_rosc(t: &OscType) -> OscArg {
    match t {
        OscType::Array(a) => OscArg::Array(a.content.iter().map(arg_from_rosc).collect()),
        OscType::Time(t) => OscArg::Time(OscTime { seconds: t.seconds, fractional: t.fractional }),
        OscType::Color(c) => OscArg::Color(
            OscColor { red: c.red, green: c.green, blue: c.blue, alpha: c.alpha },
        ),
        OscType::Midi(m) => OscArg::Midi(
            OscMidiMessage { port: m.port, status: m.status, data1: m.data1, data2: m.data2 },
        ),
        _ => scalar_from_rosc(t),
    }
}

/// rosc's numbers, characters, booleans, `Nil` and `Inf` taken one for one
/// into an [`OscArg`], floating-point values by their bit pattern; strings
/// and blobs by [`bytes_from_rosc`].
#[verifier::external_body]
fn scalar_from_rosc(t: &OscType) -> OscArg {
    match t {
        OscType::Int(v) => OscArg::Int(*v),
        OscType::Float(v) => OscArg::Float(v.to_bits()),
        OscType::Long(v) => OscArg::Long(*v),
        OscType::Double(v) => OscArg::Double(v.to_bits()),
        OscType::Char(c) => OscArg::Char(*c),
        OscType::Bool(b) => OscArg::Bool(*b),
        OscType::Nil => OscArg::Nil,
        OscType::Inf => OscArg::Inf,
        _ => bytes_from_rosc(t),
    }
}

/// rosc's strings and blobs taken one for one into an [`OscArg`]; the
/// other variants are taken by [`arg_from_rosc`] and [`scalar_from_rosc`]
/// and do not reach here.
#[verifier::external_body]
fn bytes_from_rosc(t: &OscType) -> OscArg {
    match t {
        OscType::String(s) => OscArg::String(s.clone()),
        OscType::Blob(b) => OscArg::Blob(b.clone()),
        _ => OscArg::Nil,
    }
}

/// rosc's `OscPacket` taken one for one into a [`Packet`]. Only the body of
/// [`decode_datagram`] calls it.
#[verifier::external_body]
fn packet_from_rosc(p: &OscPacket) -> Packet {
    match p {
        OscPacket::Message(m) => Packet::Message(
            Message { addr: m.addr.clone(), args: m.args.iter().map(arg_from_rosc).collect() },
        ),
        OscPacket::Bundle(b) => Packet::Bundle {
            timetag: OscTime { seconds: b.timetag.seconds, fractional: b.timetag.fractional },
            content: b.content.iter().map(packet_from_rosc).collect(),
        },
    }
}

/// rosc's `decoder::decode_udp`, its packet taken into a [`Packet`] (the
/// bytes after the packet are ignored). The contract claims that the result,
/// packet or error, is a function of the bytes alone ([`decode_result`],
/// named, not stated).
#[verifier::external_body]
pub(crate) fn decode_datagram(bytes: &[u8]) -> (r: Result<Packet, OscError>)
    ensures
        r == decode_result(bytes@),
{
    match rosc::decoder::decode_udp(bytes) {
        Ok((_, packet)) => Ok(packet_from_rosc(&packet)),
        Err(e) => Err(e),
    }
}

} // verus!
