use vstd::prelude::*;

use crate::capability::{Capability, Comparator};
use crate::instruction::{
    Sieve,
    AddressPart, ContentTypePart, Envelope, HeaderPart, HeaderVariable, Location, MatchType,
    Clear, ErrorAction, FileInto, ForEveryPart, HeaderTest, Include, Instruction, Invalid, MessagePart, Modifier, ReceivedHostname, ReceivedPart, Redirect, Reject, SetAction, SizeTest, StringTest, Test, Value, VariableType,
};

verus! {

/// The little-endian eight-byte form of a number.
pub open spec fn enc_u64(v: u64) -> Seq<u8> {
    Seq::new(8, |i: int| ((v >> (8 * i) as u64) & 0xff) as u8)
}

/// Appends the eight bytes of a number.
pub fn ser_u64(out: &mut Vec<u8>, v: u64)
    ensures
        final(out)@ == old(out)@ + enc_u64(v),
{
    let b0 = (v & 0xff) as u8;
    let b1 = ((v >> 8) & 0xff) as u8;
    let b2 = ((v >> 16) & 0xff) as u8;
    let b3 = ((v >> 24) & 0xff) as u8;
    let b4 = ((v >> 32) & 0xff) as u8;
    let b5 = ((v >> 40) & 0xff) as u8;
    let b6 = ((v >> 48) & 0xff) as u8;
    let b7 = ((v >> 56) & 0xff) as u8;
    out.push(b0);
    out.push(b1);
    out.push(b2);
    out.push(b3);
    out.push(b4);
    out.push(b5);
    out.push(b6);
    out.push(b7);
    proof {
        assert(v >> 0 == v) by (bit_vector);
        assert(final(out)@ =~= old(out)@ + enc_u64(v));
    }
}

/// Reads the eight bytes of a number; whatever comes back re-encodes to
/// exactly the bytes consumed.
pub fn deser_u64(buf: &Vec<u8>, pos: usize) -> (r: Option<(u64, usize)>)
    ensures
        r matches Some(x) ==> pos < x.1 <= buf@.len() && enc_u64(x.0) == buf@.subrange(
            pos as int,
            x.1 as int,
        ),
{
    if pos < buf.len() && buf.len() - pos >= 8 {
        let b0 = buf[pos];
        let b1 = buf[pos + 1];
        let b2 = buf[pos + 2];
        let b3 = buf[pos + 3];
        let b4 = buf[pos + 4];
        let b5 = buf[pos + 5];
        let b6 = buf[pos + 6];
        let b7 = buf[pos + 7];
        let v = (b0 as u64) | ((b1 as u64) << 8) | ((b2 as u64) << 16) | ((b3 as u64) << 24) | ((
        b4 as u64) << 32) | ((b5 as u64) << 40) | ((b6 as u64) << 48) | ((b7 as u64) << 56);
        proof {
            assert(((v >> 0) & 0xff) as u8 == b0 && ((v >> 8) & 0xff) as u8 == b1 && ((v >> 16)
                & 0xff) as u8 == b2 && ((v >> 24) & 0xff) as u8 == b3 && ((v >> 32) & 0xff) as u8
                == b4 && ((v >> 40) & 0xff) as u8 == b5 && ((v >> 48) & 0xff) as u8 == b6 && ((v
                >> 56) & 0xff) as u8 == b7) by (bit_vector)
                requires
                    v == (b0 as u64) | ((b1 as u64) << 8) | ((b2 as u64) << 16) | ((b3 as u64)
                        << 24) | ((b4 as u64) << 32) | ((b5 as u64) << 40) | ((b6 as u64) << 48) | (
                    (b7 as u64) << 56),
            ;
            assert(enc_u64(v) =~= buf@.subrange(pos as int, pos + 8));
        }
        Some((v, pos + 8))
    } else {
        None
    }
}

/// A byte string: its length, then its bytes.
pub open spec fn enc_bytes(b: Seq<u8>) -> Seq<u8> {
    enc_u64(b.len() as u64) + b
}

/// Appends a byte string.
pub fn ser_bytes(out: &mut Vec<u8>, b: &Vec<u8>)
    ensures
        final(out)@ == old(out)@ + enc_bytes(b@),
{
    ser_u64(out, b.len() as u64);
    let mut i: usize = 0;
    let ghost mid = out@;
    while i < b.len()
        invariant
            i <= b@.len(),
            out@ == mid + b@.take(i as int),
        decreases b@.len() - i,
    {
        out.push(b[i]);
        i += 1;
        proof {
            assert(out@ =~= mid + b@.take(i as int));
        }
    }
    proof {
        assert(out@ =~= old(out)@ + enc_bytes(b@));
    }
}

/// Reads a byte string; whatever comes back re-encodes to exactly the
/// bytes consumed.
pub fn deser_bytes(buf: &Vec<u8>, pos: usize) -> (r: Option<(Vec<u8>, usize)>)
    ensures
        r matches Some(x) ==> pos < x.1 <= buf@.len() && enc_bytes(x.0@) == buf@.subrange(
            pos as int,
            x.1 as int,
        ),
{
    match deser_u64(buf, pos) {
        Some((n, p2)) => {
            if n <= usize::MAX as u64 && (n as usize) <= buf.len() && p2 <= buf.len() - (
            n as usize) {
                let end = p2 + (n as usize);
                let piece = crate::strutil::copy_byte_range(buf, p2, end);
                proof {
                    assert(piece@.len() as u64 == n);
                    assert(enc_bytes(piece@) =~= buf@.subrange(pos as int, end as int));
                }
                Some((piece, end))
            } else {
                None
            }
        },
        None => None,
    }
}

/// A flag byte.
pub open spec fn enc_bool(b: bool) -> Seq<u8> {
    if b {
        seq![1u8]
    } else {
        seq![0u8]
    }
}

pub fn ser_bool(out: &mut Vec<u8>, b: bool)
    ensures
        final(out)@ == old(out)@ + enc_bool(b),
{
    if b {
        out.push(1);
    } else {
        out.push(0);
    }
    proof {
        assert(final(out)@ =~= old(out)@ + enc_bool(b));
    }
}

pub fn deser_bool(buf: &Vec<u8>, pos: usize) -> (r: Option<(bool, usize)>)
    ensures
        r matches Some(x) ==> pos < x.1 <= buf@.len() && enc_bool(x.0) == buf@.subrange(
            pos as int,
            x.1 as int,
        ),
{
    if pos < buf.len() {
        let b = buf[pos];
        if b == 1 {
            proof {
                assert(enc_bool(true) =~= buf@.subrange(pos as int, pos + 1));
            }
            Some((true, pos + 1))
        } else if b == 0 {
            proof {
                assert(enc_bool(false) =~= buf@.subrange(pos as int, pos + 1));
            }
            Some((false, pos + 1))
        } else {
            None
        }
    } else {
        None
    }
}

/// The coded form of `Envelope`.
pub open spec fn enc_envelope(v: Envelope) -> Seq<u8> {
    match v {
        Envelope::From => seq![0u8],
        Envelope::To => seq![1u8],
        Envelope::ByTimeAbsolute => seq![2u8],
        Envelope::ByTimeRelative => seq![3u8],
        Envelope::ByMode => seq![4u8],
        Envelope::ByTrace => seq![5u8],
        Envelope::Notify => seq![6u8],
        Envelope::Orcpt => seq![7u8],
        Envelope::Ret => seq![8u8],
        Envelope::Envid => seq![9u8],
    }
}

pub fn ser_envelope(out: &mut Vec<u8>, v: &Envelope)
    ensures
        final(out)@ == old(out)@ + enc_envelope(*v),
{
    match v {
        Envelope::From => {
            out.push(0);
        },
        Envelope::To => {
            out.push(1);
        },
        Envelope::ByTimeAbsolute => {
            out.push(2);
        },
        Envelope::ByTimeRelative => {
            out.push(3);
        },
        Envelope::ByMode => {
            out.push(4);
        },
        Envelope::ByTrace => {
            out.push(5);
        },
        Envelope::Notify => {
            out.push(6);
        },
        Envelope::Orcpt => {
            out.push(7);
        },
        Envelope::Ret => {
            out.push(8);
        },
        Envelope::Envid => {
            out.push(9);
        },
    }
    proof {
        assert(final(out)@ =~= old(out)@ + enc_envelope(*v));
    }
}

pub fn deser_envelope(buf: &Vec<u8>, pos: usize) -> (r: Option<(Envelope, usize)>)
    ensures
        r matches Some(x) ==> pos < x.1 <= buf@.len() && enc_envelope(x.0) == buf@.subrange(
            pos as int,
            x.1 as int,
        ),
{
    if pos >= buf.len() {
        return None;
    }
    let b = buf[pos];
    if b == 0 {
        let v = Envelope::From;
        proof {
            assert(buf@.subrange(pos as int, pos + 1) =~= seq![buf@[pos as int]]);
            assert(enc_envelope(v) == buf@.subrange(pos as int, pos + 1));
        }
        Some((v, pos + 1))
    } else if b == 1 {
        let v = Envelope::To;
        proof {
            assert(buf@.subrange(pos as int, pos + 1) =~= seq![buf@[pos as int]]);
            assert(enc_envelope(v) == buf@.subrange(pos as int, pos + 1));
        }
        Some((v, pos + 1))
    } else if b == 2 {
        let v = Envelope::ByTimeAbsolute;
        proof {
            assert(buf@.subrange(pos as int, pos + 1) =~= seq![buf@[pos as int]]);
            assert(enc_envelope(v) == buf@.subrange(pos as int, pos + 1));
        }
        Some((v, pos + 1))
    } else if b == 3 {
        let v = Envelope::ByTimeRelative;
        proof {
            assert(buf@.subrange(pos as int, pos + 1) =~= seq![buf@[pos as int]]);
            assert(enc_envelope(v) == buf@.subrange(pos as int, pos + 1));
        }
        Some((v, pos + 1))
    } else if b == 4 {
        let v = Envelope::ByMode;
        proof {
            assert(buf@.subrange(pos as int, pos + 1) =~= seq![buf@[pos as int]]);
            assert(enc_envelope(v) == buf@.subrange(pos as int, pos + 1));
        }
        Some((v, pos + 1))
    } else if b == 5 {
        let v = Envelope::ByTrace;
        proof {
            assert(buf@.subrange(pos as int, pos + 1) =~= seq![buf@[pos as int]]);
            assert(enc_envelope(v) == buf@.subrange(pos as int, pos + 1));
        }
        Some((v, pos + 1))
    } else if b == 6 {
        let v = Envelope::Notify;
        proof {
            assert(buf@.subrange(pos as int, pos + 1) =~= seq![buf@[pos as int]]);
            assert(enc_envelope(v) == buf@.subrange(pos as int, pos + 1));
        }
        Some((v, pos + 1))
    } else if b == 7 {
        let v = Envelope::Orcpt;
        proof {
            assert(buf@.subrange(pos as int, pos + 1) =~= seq![buf@[pos as int]]);
            assert(enc_envelope(v) == buf@.subrange(pos as int, pos + 1));
        }
        Some((v, pos + 1))
    } else if b == 8 {
        let v = Envelope::Ret;
        proof {
            assert(buf@.subrange(pos as int, pos + 1) =~= seq![buf@[pos as int]]);
            assert(enc_envelope(v) == buf@.subrange(pos as int, pos + 1));
        }
        Some((v, pos + 1))
    } else if b == 9 {
        let v = Envelope::Envid;
        proof {
            assert(buf@.subrange(pos as int, pos + 1) =~= seq![buf@[pos as int]]);
            assert(enc_envelope(v) == buf@.subrange(pos as int, pos + 1));
        }
        Some((v, pos + 1))
    } else {
        None
    }
}

/// The coded form of `AddressPart`.
pub open spec fn enc_addresspart(v: AddressPart) -> Seq<u8> {
    match v {
        AddressPart::All => seq![0u8],
        AddressPart::LocalPart => seq![1u8],
        AddressPart::Domain => seq![2u8],
        AddressPart::User => seq![3u8],
        AddressPart::Detail => seq![4u8],
        AddressPart::Name => seq![5u8],
    }
}

pub fn ser_addresspart(out: &mut Vec<u8>, v: &AddressPart)
    ensures
        final(out)@ == old(out)@ + enc_addresspart(*v),
{
    match v {
        AddressPart::All => {
            out.push(0);
        },
        AddressPart::LocalPart => {
            out.push(1);
        },
        AddressPart::Domain => {
            out.push(2);
        },
        AddressPart::User => {
            out.push(3);
        },
        AddressPart::Detail => {
            out.push(4);
        },
        AddressPart::Name => {
            out.push(5);
        },
    }
    proof {
        assert(final(out)@ =~= old(out)@ + enc_addresspart(*v));
    }
}

pub fn deser_addresspart(buf: &Vec<u8>, pos: usize) -> (r: Option<(AddressPart, usize)>)
    ensures
        r matches Some(x) ==> pos < x.1 <= buf@.len() && enc_addresspart(x.0) == buf@.subrange(
            pos as int,
            x.1 as int,
        ),
{
    if pos >= buf.len() {
        return None;
    }
    let b = buf[pos];
    if b == 0 {
        let v = AddressPart::All;
        proof {
            assert(buf@.subrange(pos as int, pos + 1) =~= seq![buf@[pos as int]]);
            assert(enc_addresspart(v) == buf@.subrange(pos as int, pos + 1));
        }
        Some((v, pos + 1))
    } else if b == 1 {
        let v = AddressPart::LocalPart;
        proof {
            assert(buf@.subrange(pos as int, pos + 1) =~= seq![buf@[pos as int]]);
            assert(enc_addresspart(v) == buf@.subrange(pos as int, pos + 1));
        }
        Some((v, pos + 1))
    } else if b == 2 {
        let v = AddressPart::Domain;
        proof {
            assert(buf@.subrange(pos as int, pos + 1) =~= seq![buf@[pos as int]]);
            assert(enc_addresspart(v) == buf@.subrange(pos as int, pos + 1));
        }
        Some((v, pos + 1))
    } else if b == 3 {
        let v = AddressPart::User;
        proof {
            assert(buf@.subrange(pos as int, pos + 1) =~= seq![buf@[pos as int]]);
            assert(enc_addresspart(v) == buf@.subrange(pos as int, pos + 1));
        }
        Some((v, pos + 1))
    } else if b == 4 {
        let v = AddressPart::Detail;
        proof {
            assert(buf@.subrange(pos as int, pos + 1) =~= seq![buf@[pos as int]]);
            assert(enc_addresspart(v) == buf@.subrange(pos as int, pos + 1));
        }
        Some((v, pos + 1))
    } else if b == 5 {
        let v = AddressPart::Name;
        proof {
            assert(buf@.subrange(pos as int, pos + 1) =~= seq![buf@[pos as int]]);
            assert(enc_addresspart(v) == buf@.subrange(pos as int, pos + 1));
        }
        Some((v, pos + 1))
    } else {
        None
    }
}

/// The coded form of `ReceivedHostname`.
pub open spec fn enc_receivedhostname(v: ReceivedHostname) -> Seq<u8> {
    match v {
        ReceivedHostname::Name => seq![0u8],
        ReceivedHostname::Ip => seq![1u8],
        ReceivedHostname::Any => seq![2u8],
    }
}

pub fn ser_receivedhostname(out: &mut Vec<u8>, v: &ReceivedHostname)
    ensures
        final(out)@ == old(out)@ + enc_receivedhostname(*v),
{
    match v {
        ReceivedHostname::Name => {
            out.push(0);
        },
        ReceivedHostname::Ip => {
            out.push(1);
        },
        ReceivedHostname::Any => {
            out.push(2);
        },
    }
    proof {
        assert(final(out)@ =~= old(out)@ + enc_receivedhostname(*v));
    }
}

pub fn deser_receivedhostname(buf: &Vec<u8>, pos: usize) -> (r: Option<(ReceivedHostname, usize)>)
    ensures
        r matches Some(x) ==> pos < x.1 <= buf@.len() && enc_receivedhostname(x.0) == buf@.subrange(
            pos as int,
            x.1 as int,
        ),
{
    if pos >= buf.len() {
        return None;
    }
    let b = buf[pos];
    if b == 0 {
        let v = ReceivedHostname::Name;
        proof {
            assert(buf@.subrange(pos as int, pos + 1) =~= seq![buf@[pos as int]]);
            assert(enc_receivedhostname(v) == buf@.subrange(pos as int, pos + 1));
        }
        Some((v, pos + 1))
    } else if b == 1 {
        let v = ReceivedHostname::Ip;
        proof {
            assert(buf@.subrange(pos as int, pos + 1) =~= seq![buf@[pos as int]]);
            assert(enc_receivedhostname(v) == buf@.subrange(pos as int, pos + 1));
        }
        Some((v, pos + 1))
    } else if b == 2 {
        let v = ReceivedHostname::Any;
        proof {
            assert(buf@.subrange(pos as int, pos + 1) =~= seq![buf@[pos as int]]);
            assert(enc_receivedhostname(v) == buf@.subrange(pos as int, pos + 1));
        }
        Some((v, pos + 1))
    } else {
        None
    }
}

/// The coded form of `Location`.
pub open spec fn enc_location(v: Location) -> Seq<u8> {
    match v {
        Location::Personal => seq![0u8],
        Location::Global => seq![1u8],
    }
}

pub fn ser_location(out: &mut Vec<u8>, v: &Location)
    ensures
        final(out)@ == old(out)@ + enc_location(*v),
{
    match v {
        Location::Personal => {
            out.push(0);
        },
        Location::Global => {
            out.push(1);
        },
    }
    proof {
        assert(final(out)@ =~= old(out)@ + enc_location(*v));
    }
}

pub fn deser_location(buf: &Vec<u8>, pos: usize) -> (r: Option<(Location, usize)>)
    ensures
        r matches Some(x) ==> pos < x.1 <= buf@.len() && enc_location(x.0) == buf@.subrange(
            pos as int,
            x.1 as int,
        ),
{
    if pos >= buf.len() {
        return None;
    }
    let b = buf[pos];
    if b == 0 {
        let v = Location::Personal;
        proof {
            assert(buf@.subrange(pos as int, pos + 1) =~= seq![buf@[pos as int]]);
            assert(enc_location(v) == buf@.subrange(pos as int, pos + 1));
        }
        Some((v, pos + 1))
    } else if b == 1 {
        let v = Location::Global;
        proof {
            assert(buf@.subrange(pos as int, pos + 1) =~= seq![buf@[pos as int]]);
            assert(enc_location(v) == buf@.subrange(pos as int, pos + 1));
        }
        Some((v, pos + 1))
    } else {
        None
    }
}

/// The coded form of `Comparator`.
pub open spec fn enc_comparator(v: Comparator) -> Seq<u8> {
    match v {
        Comparator::Octet => seq![0u8],
        Comparator::AsciiCaseMap => seq![1u8],
        Comparator::AsciiNumeric => seq![2u8],
        Comparator::Other(x) => seq![3u8] + enc_bytes(x@),
    }
}

pub fn ser_comparator(out: &mut Vec<u8>, v: &Comparator)
    ensures
        final(out)@ == old(out)@ + enc_comparator(*v),
{
    match v {
        Comparator::Octet => {
            out.push(0);
        },
        Comparator::AsciiCaseMap => {
            out.push(1);
        },
        Comparator::AsciiNumeric => {
            out.push(2);
        },
        Comparator::Other(x) => {
            out.push(3);
            ser_bytes(out, x);
        },
    }
    proof {
        assert(final(out)@ =~= old(out)@ + enc_comparator(*v));
    }
}

pub fn deser_comparator(buf: &Vec<u8>, pos: usize) -> (r: Option<(Comparator, usize)>)
    ensures
        r matches Some(x) ==> pos < x.1 <= buf@.len() && enc_comparator(x.0) == buf@.subrange(
            pos as int,
            x.1 as int,
        ),
{
    if pos >= buf.len() {
        return None;
    }
    let b = buf[pos];
    if b == 0 {
        let v = Comparator::Octet;
        proof {
            assert(buf@.subrange(pos as int, pos + 1) =~= seq![buf@[pos as int]]);
            assert(enc_comparator(v) == buf@.subrange(pos as int, pos + 1));
        }
        Some((v, pos + 1))
    } else if b == 1 {
        let v = Comparator::AsciiCaseMap;
        proof {
            assert(buf@.subrange(pos as int, pos + 1) =~= seq![buf@[pos as int]]);
            assert(enc_comparator(v) == buf@.subrange(pos as int, pos + 1));
        }
        Some((v, pos + 1))
    } else if b == 2 {
        let v = Comparator::AsciiNumeric;
        proof {
            assert(buf@.subrange(pos as int, pos + 1) =~= seq![buf@[pos as int]]);
            assert(enc_comparator(v) == buf@.subrange(pos as int, pos + 1));
        }
        Some((v, pos + 1))
    } else if b == 3 {
        match deser_bytes(buf, pos + 1) {
            Some(xp) => {
                let v = Comparator::Other(xp.0);
                proof {
                    assert(buf@.subrange(pos as int, xp.1 as int) =~= seq![buf@[pos as int]]
                        + buf@.subrange(pos + 1, xp.1 as int));
                    assert(enc_comparator(v) =~= buf@.subrange(pos as int, xp.1 as int));
                }
                Some((v, xp.1))
            },
            None => None,
        }
    } else {
        None
    }
}

/// The coded form of `MessagePart`.
pub open spec fn enc_messagepart(v: MessagePart) -> Seq<u8> {
    match v {
        MessagePart::TextBody(x) => seq![0u8] + enc_bool(x),
        MessagePart::HtmlBody(x) => seq![1u8] + enc_bool(x),
        MessagePart::Contents => seq![2u8],
        MessagePart::Raw => seq![3u8],
    }
}

pub fn ser_messagepart(out: &mut Vec<u8>, v: &MessagePart)
    ensures
        final(out)@ == old(out)@ + enc_messagepart(*v),
{
    match v {
        MessagePart::TextBody(x) => {
            out.push(0);
            ser_bool(out, *x);
        },
        MessagePart::HtmlBody(x) => {
            out.push(1);
            ser_bool(out, *x);
        },
        MessagePart::Contents => {
            out.push(2);
        },
        MessagePart::Raw => {
            out.push(3);
        },
    }
    proof {
        assert(final(out)@ =~= old(out)@ + enc_messagepart(*v));
    }
}

pub fn deser_messagepart(buf: &Vec<u8>, pos: usize) -> (r: Option<(MessagePart, usize)>)
    ensures
        r matches Some(x) ==> pos < x.1 <= buf@.len() && enc_messagepart(x.0) == buf@.subrange(
            pos as int,
            x.1 as int,
        ),
{
    if pos >= buf.len() {
        return None;
    }
    let b = buf[pos];
    if b == 0 {
        match deser_bool(buf, pos + 1) {
            Some(xp) => {
                let v = MessagePart::TextBody(xp.0);
                proof {
                    assert(buf@.subrange(pos as int, xp.1 as int) =~= seq![buf@[pos as int]]
                        + buf@.subrange(pos + 1, xp.1 as int));
                    assert(enc_messagepart(v) =~= buf@.subrange(pos as int, xp.1 as int));
                }
                Some((v, xp.1))
            },
            None => None,
        }
    } else if b == 1 {
        match deser_bool(buf, pos + 1) {
            Some(xp) => {
                let v = MessagePart::HtmlBody(xp.0);
                proof {
                    assert(buf@.subrange(pos as int, xp.1 as int) =~= seq![buf@[pos as int]]
                        + buf@.subrange(pos + 1, xp.1 as int));
                    assert(enc_messagepart(v) =~= buf@.subrange(pos as int, xp.1 as int));
                }
                Some((v, xp.1))
            },
            None => None,
        }
    } else if b == 2 {
        let v = MessagePart::Contents;
        proof {
            assert(buf@.subrange(pos as int, pos + 1) =~= seq![buf@[pos as int]]);
            assert(enc_messagepart(v) == buf@.subrange(pos as int, pos + 1));
        }
        Some((v, pos + 1))
    } else if b == 3 {
        let v = MessagePart::Raw;
        proof {
            assert(buf@.subrange(pos as int, pos + 1) =~= seq![buf@[pos as int]]);
            assert(enc_messagepart(v) == buf@.subrange(pos as int, pos + 1));
        }
        Some((v, pos + 1))
    } else {
        None
    }
}

/// The coded form of `ContentTypePart`.
pub open spec fn enc_contenttypepart(v: ContentTypePart) -> Seq<u8> {
    match v {
        ContentTypePart::Type => seq![0u8],
        ContentTypePart::Subtype => seq![1u8],
        ContentTypePart::Attribute(x) => seq![2u8] + enc_bytes(x@),
    }
}

pub fn ser_contenttypepart(out: &mut Vec<u8>, v: &ContentTypePart)
    ensures
        final(out)@ == old(out)@ + enc_contenttypepart(*v),
{
    match v {
        ContentTypePart::Type => {
            out.push(0);
        },
        ContentTypePart::Subtype => {
            out.push(1);
        },
        ContentTypePart::Attribute(x) => {
            out.push(2);
            ser_bytes(out, x);
        },
    }
    proof {
        assert(final(out)@ =~= old(out)@ + enc_contenttypepart(*v));
    }
}

pub fn deser_contenttypepart(buf: &Vec<u8>, pos: usize) -> (r: Option<(ContentTypePart, usize)>)
    ensures
        r matches Some(x) ==> pos < x.1 <= buf@.len() && enc_contenttypepart(x.0) == buf@.subrange(
            pos as int,
            x.1 as int,
        ),
{
    if pos >= buf.len() {
        return None;
    }
    let b = buf[pos];
    if b == 0 {
        let v = ContentTypePart::Type;
        proof {
            assert(buf@.subrange(pos as int, pos + 1) =~= seq![buf@[pos as int]]);
            assert(enc_contenttypepart(v) == buf@.subrange(pos as int, pos + 1));
        }
        Some((v, pos + 1))
    } else if b == 1 {
        let v = ContentTypePart::Subtype;
        proof {
            assert(buf@.subrange(pos as int, pos + 1) =~= seq![buf@[pos as int]]);
            assert(enc_contenttypepart(v) == buf@.subrange(pos as int, pos + 1));
        }
        Some((v, pos + 1))
    } else if b == 2 {
        match deser_bytes(buf, pos + 1) {
            Some(xp) => {
                let v = ContentTypePart::Attribute(xp.0);
                proof {
                    assert(buf@.subrange(pos as int, xp.1 as int) =~= seq![buf@[pos as int]]
                        + buf@.subrange(pos + 1, xp.1 as int));
                    assert(enc_contenttypepart(v) =~= buf@.subrange(pos as int, xp.1 as int));
                }
                Some((v, xp.1))
            },
            None => None,
        }
    } else {
        None
    }
}

/// The coded form of `ReceivedPart`.
pub open spec fn enc_receivedpart(v: ReceivedPart) -> Seq<u8> {
    match v {
        ReceivedPart::From(x) => seq![0u8] + enc_receivedhostname(x),
        ReceivedPart::FromIp => seq![1u8],
        ReceivedPart::FromIpRev => seq![2u8],
        ReceivedPart::By(x) => seq![3u8] + enc_receivedhostname(x),
        ReceivedPart::For => seq![4u8],
        ReceivedPart::With => seq![5u8],
        ReceivedPart::TlsVersion => seq![6u8],
        ReceivedPart::TlsCipher => seq![7u8],
        ReceivedPart::Id => seq![8u8],
        ReceivedPart::Ident => seq![9u8],
        ReceivedPart::Via => seq![10u8],
        ReceivedPart::Date => seq![11u8],
        ReceivedPart::DateRaw => seq![12u8],
    }
}

pub fn ser_receivedpart(out: &mut Vec<u8>, v: &ReceivedPart)
    ensures
        final(out)@ == old(out)@ + enc_receivedpart(*v),
{
    match v {
        ReceivedPart::From(x) => {
            out.push(0);
            ser_receivedhostname(out, x);
        },
        ReceivedPart::FromIp => {
            out.push(1);
        },
        ReceivedPart::FromIpRev => {
            out.push(2);
        },
        ReceivedPart::By(x) => {
            out.push(3);
            ser_receivedhostname(out, x);
        },
        ReceivedPart::For => {
            out.push(4);
        },
        ReceivedPart::With => {
            out.push(5);
        },
        ReceivedPart::TlsVersion => {
            out.push(6);
        },
        ReceivedPart::TlsCipher => {
            out.push(7);
        },
        ReceivedPart::Id => {
            out.push(8);
        },
        ReceivedPart::Ident => {
            out.push(9);
        },
        ReceivedPart::Via => {
            out.push(10);
        },
        ReceivedPart::Date => {
            out.push(11);
        },
        ReceivedPart::DateRaw => {
            out.push(12);
        },
    }
    proof {
        assert(final(out)@ =~= old(out)@ + enc_receivedpart(*v));
    }
}

pub fn deser_receivedpart(buf: &Vec<u8>, pos: usize) -> (r: Option<(ReceivedPart, usize)>)
    ensures
        r matches Some(x) ==> pos < x.1 <= buf@.len() && enc_receivedpart(x.0) == buf@.subrange(
            pos as int,
            x.1 as int,
        ),
{
    if pos >= buf.len() {
        return None;
    }
    let b = buf[pos];
    if b == 0 {
        match deser_receivedhostname(buf, pos + 1) {
            Some(xp) => {
                let v = ReceivedPart::From(xp.0);
                proof {
                    assert(buf@.subrange(pos as int, xp.1 as int) =~= seq![buf@[pos as int]]
                        + buf@.subrange(pos + 1, xp.1 as int));
                    assert(enc_receivedpart(v) =~= buf@.subrange(pos as int, xp.1 as int));
                }
                Some((v, xp.1))
            },
            None => None,
        }
    } else if b == 1 {
        let v = ReceivedPart::FromIp;
        proof {
            assert(buf@.subrange(pos as int, pos + 1) =~= seq![buf@[pos as int]]);
            assert(enc_receivedpart(v) == buf@.subrange(pos as int, pos + 1));
        }
        Some((v, pos + 1))
    } else if b == 2 {
        let v = ReceivedPart::FromIpRev;
        proof {
            assert(buf@.subrange(pos as int, pos + 1) =~= seq![buf@[pos as int]]);
            assert(enc_receivedpart(v) == buf@.subrange(pos as int, pos + 1));
        }
        Some((v, pos + 1))
    } else if b == 3 {
        match deser_receivedhostname(buf, pos + 1) {
            Some(xp) => {
                let v = ReceivedPart::By(xp.0);
                proof {
                    assert(buf@.subrange(pos as int, xp.1 as int) =~= seq![buf@[pos as int]]
                        + buf@.subrange(pos + 1, xp.1 as int));
                    assert(enc_receivedpart(v) =~= buf@.subrange(pos as int, xp.1 as int));
                }
                Some((v, xp.1))
            },
            None => None,
        }
    } else if b == 4 {
        let v = ReceivedPart::For;
        proof {
            assert(buf@.subrange(pos as int, pos + 1) =~= seq![buf@[pos as int]]);
            assert(enc_receivedpart(v) == buf@.subrange(pos as int, pos + 1));
        }
        Some((v, pos + 1))
    } else if b == 5 {
        let v = ReceivedPart::With;
        proof {
            assert(buf@.subrange(pos as int, pos + 1) =~= seq![buf@[pos as int]]);
            assert(enc_receivedpart(v) == buf@.subrange(pos as int, pos + 1));
        }
        Some((v, pos + 1))
    } else if b == 6 {
        let v = ReceivedPart::TlsVersion;
        proof {
            assert(buf@.subrange(pos as int, pos + 1) =~= seq![buf@[pos as int]]);
            assert(enc_receivedpart(v) == buf@.subrange(pos as int, pos + 1));
        }
        Some((v, pos + 1))
    } else if b == 7 {
        let v = ReceivedPart::TlsCipher;
        proof {
            assert(buf@.subrange(pos as int, pos + 1) =~= seq![buf@[pos as int]]);
            assert(enc_receivedpart(v) == buf@.subrange(pos as int, pos + 1));
        }
        Some((v, pos + 1))
    } else if b == 8 {
        let v = ReceivedPart::Id;
        proof {
            assert(buf@.subrange(pos as int, pos + 1) =~= seq![buf@[pos as int]]);
            assert(enc_receivedpart(v) == buf@.subrange(pos as int, pos + 1));
        }
        Some((v, pos + 1))
    } else if b == 9 {
        let v = ReceivedPart::Ident;
        proof {
            assert(buf@.subrange(pos as int, pos + 1) =~= seq![buf@[pos as int]]);
            assert(enc_receivedpart(v) == buf@.subrange(pos as int, pos + 1));
        }
        Some((v, pos + 1))
    } else if b == 10 {
        let v = ReceivedPart::Via;
        proof {
            assert(buf@.subrange(pos as int, pos + 1) =~= seq![buf@[pos as int]]);
            assert(enc_receivedpart(v) == buf@.subrange(pos as int, pos + 1));
        }
        Some((v, pos + 1))
    } else if b == 11 {
        let v = ReceivedPart::Date;
        proof {
            assert(buf@.subrange(pos as int, pos + 1) =~= seq![buf@[pos as int]]);
            assert(enc_receivedpart(v) == buf@.subrange(pos as int, pos + 1));
        }
        Some((v, pos + 1))
    } else if b == 12 {
        let v = ReceivedPart::DateRaw;
        proof {
            assert(buf@.subrange(pos as int, pos + 1) =~= seq![buf@[pos as int]]);
            assert(enc_receivedpart(v) == buf@.subrange(pos as int, pos + 1));
        }
        Some((v, pos + 1))
    } else {
        None
    }
}

/// The coded form of `HeaderPart`.
pub open spec fn enc_headerpart(v: HeaderPart) -> Seq<u8> {
    match v {
        HeaderPart::Text => seq![0u8],
        HeaderPart::Date => seq![1u8],
        HeaderPart::Id => seq![2u8],
        HeaderPart::Address(x) => seq![3u8] + enc_addresspart(x),
        HeaderPart::ContentType(x) => seq![4u8] + enc_contenttypepart(x),
        HeaderPart::Received(x) => seq![5u8] + enc_receivedpart(x),
        HeaderPart::Raw => seq![6u8],
        HeaderPart::RawName => seq![7u8],
        HeaderPart::Exists => seq![8u8],
    }
}

pub fn ser_headerpart(out: &mut Vec<u8>, v: &HeaderPart)
    ensures
        final(out)@ == old(out)@ + enc_headerpart(*v),
{
    match v {
        HeaderPart::Text => {
            out.push(0);
        },
        HeaderPart::Date => {
            out.push(1);
        },
        HeaderPart::Id => {
            out.push(2);
        },
        HeaderPart::Address(x) => {
            out.push(3);
            ser_addresspart(out, x);
        },
        HeaderPart::ContentType(x) => {
            out.push(4);
            ser_contenttypepart(out, x);
        },
        HeaderPart::Received(x) => {
            out.push(5);
            ser_receivedpart(out, x);
        },
        HeaderPart::Raw => {
            out.push(6);
        },
        HeaderPart::RawName => {
            out.push(7);
        },
        HeaderPart::Exists => {
            out.push(8);
        },
    }
    proof {
        assert(final(out)@ =~= old(out)@ + enc_headerpart(*v));
    }
}

pub fn deser_headerpart(buf: &Vec<u8>, pos: usize) -> (r: Option<(HeaderPart, usize)>)
    ensures
        r matches Some(x) ==> pos < x.1 <= buf@.len() && enc_headerpart(x.0) == buf@.subrange(
            pos as int,
            x.1 as int,
        ),
{
    if pos >= buf.len() {
        return None;
    }
    let b = buf[pos];
    if b == 0 {
        let v = HeaderPart::Text;
        proof {
            assert(buf@.subrange(pos as int, pos + 1) =~= seq![buf@[pos as int]]);
            assert(enc_headerpart(v) == buf@.subrange(pos as int, pos + 1));
        }
        Some((v, pos + 1))
    } else if b == 1 {
        let v = HeaderPart::Date;
        proof {
            assert(buf@.subrange(pos as int, pos + 1) =~= seq![buf@[pos as int]]);
            assert(enc_headerpart(v) == buf@.subrange(pos as int, pos + 1));
        }
        Some((v, pos + 1))
    } else if b == 2 {
        let v = HeaderPart::Id;
        proof {
            assert(buf@.subrange(pos as int, pos + 1) =~= seq![buf@[pos as int]]);
            assert(enc_headerpart(v) == buf@.subrange(pos as int, pos + 1));
        }
        Some((v, pos + 1))
    } else if b == 3 {
        match deser_addresspart(buf, pos + 1) {
            Some(xp) => {
                let v = HeaderPart::Address(xp.0);
                proof {
                    assert(buf@.subrange(pos as int, xp.1 as int) =~= seq![buf@[pos as int]]
                        + buf@.subrange(pos + 1, xp.1 as int));
                    assert(enc_headerpart(v) =~= buf@.subrange(pos as int, xp.1 as int));
                }
                Some((v, xp.1))
            },
            None => None,
        }
    } else if b == 4 {
        match deser_contenttypepart(buf, pos + 1) {
            Some(xp) => {
                let v = HeaderPart::ContentType(xp.0);
                proof {
                    assert(buf@.subrange(pos as int, xp.1 as int) =~= seq![buf@[pos as int]]
                        + buf@.subrange(pos + 1, xp.1 as int));
                    assert(enc_headerpart(v) =~= buf@.subrange(pos as int, xp.1 as int));
                }
                Some((v, xp.1))
            },
            None => None,
        }
    } else if b == 5 {
        match deser_receivedpart(buf, pos + 1) {
            Some(xp) => {
                let v = HeaderPart::Received(xp.0);
                proof {
                    assert(buf@.subrange(pos as int, xp.1 as int) =~= seq![buf@[pos as int]]
                        + buf@.subrange(pos + 1, xp.1 as int));
                    assert(enc_headerpart(v) =~= buf@.subrange(pos as int, xp.1 as int));
                }
                Some((v, xp.1))
            },
            None => None,
        }
    } else if b == 6 {
        let v = HeaderPart::Raw;
        proof {
            assert(buf@.subrange(pos as int, pos + 1) =~= seq![buf@[pos as int]]);
            assert(enc_headerpart(v) == buf@.subrange(pos as int, pos + 1));
        }
        Some((v, pos + 1))
    } else if b == 7 {
        let v = HeaderPart::RawName;
        proof {
            assert(buf@.subrange(pos as int, pos + 1) =~= seq![buf@[pos as int]]);
            assert(enc_headerpart(v) == buf@.subrange(pos as int, pos + 1));
        }
        Some((v, pos + 1))
    } else if b == 8 {
        let v = HeaderPart::Exists;
        proof {
            assert(buf@.subrange(pos as int, pos + 1) =~= seq![buf@[pos as int]]);
            assert(enc_headerpart(v) == buf@.subrange(pos as int, pos + 1));
        }
        Some((v, pos + 1))
    } else {
        None
    }
}

/// The coded form of `MatchType`.
pub open spec fn enc_matchtype(v: MatchType) -> Seq<u8> {
    match v {
        MatchType::Is => seq![0u8],
        MatchType::Contains => seq![1u8],
        MatchType::Matches(x) => seq![2u8] + enc_u64(x),
        MatchType::Regex(x) => seq![3u8] + enc_u64(x),
        MatchType::Count => seq![4u8],
        MatchType::ValueMatch => seq![5u8],
    }
}

pub fn ser_matchtype(out: &mut Vec<u8>, v: &MatchType)
    ensures
        final(out)@ == old(out)@ + enc_matchtype(*v),
{
    match v {
        MatchType::Is => {
            out.push(0);
        },
        MatchType::Contains => {
            out.push(1);
        },
        MatchType::Matches(x) => {
            out.push(2);
            ser_u64(out, *x);
        },
        MatchType::Regex(x) => {
            out.push(3);
            ser_u64(out, *x);
        },
        MatchType::Count => {
            out.push(4);
        },
        MatchType::ValueMatch => {
            out.push(5);
        },
    }
    proof {
        assert(final(out)@ =~= old(out)@ + enc_matchtype(*v));
    }
}

pub fn deser_matchtype(buf: &Vec<u8>, pos: usize) -> (r: Option<(MatchType, usize)>)
    ensures
        r matches Some(x) ==> pos < x.1 <= buf@.len() && enc_matchtype(x.0) == buf@.subrange(
            pos as int,
            x.1 as int,
        ),
{
    if pos >= buf.len() {
        return None;
    }
    let b = buf[pos];
    if b == 0 {
        let v = MatchType::Is;
        proof {
            assert(buf@.subrange(pos as int, pos + 1) =~= seq![buf@[pos as int]]);
            assert(enc_matchtype(v) == buf@.subrange(pos as int, pos + 1));
        }
        Some((v, pos + 1))
    } else if b == 1 {
        let v = MatchType::Contains;
        proof {
            assert(buf@.subrange(pos as int, pos + 1) =~= seq![buf@[pos as int]]);
            assert(enc_matchtype(v) == buf@.subrange(pos as int, pos + 1));
        }
        Some((v, pos + 1))
    } else if b == 2 {
        match deser_u64(buf, pos + 1) {
            Some(xp) => {
                let v = MatchType::Matches(xp.0);
                proof {
                    assert(buf@.subrange(pos as int, xp.1 as int) =~= seq![buf@[pos as int]]
                        + buf@.subrange(pos + 1, xp.1 as int));
                    assert(enc_matchtype(v) =~= buf@.subrange(pos as int, xp.1 as int));
                }
                Some((v, xp.1))
            },
            None => None,
        }
    } else if b == 3 {
        match deser_u64(buf, pos + 1) {
            Some(xp) => {
                let v = MatchType::Regex(xp.0);
                proof {
                    assert(buf@.subrange(pos as int, xp.1 as int) =~= seq![buf@[pos as int]]
                        + buf@.subrange(pos + 1, xp.1 as int));
                    assert(enc_matchtype(v) =~= buf@.subrange(pos as int, xp.1 as int));
                }
                Some((v, xp.1))
            },
            None => None,
        }
    } else if b == 4 {
        let v = MatchType::Count;
        proof {
            assert(buf@.subrange(pos as int, pos + 1) =~= seq![buf@[pos as int]]);
            assert(enc_matchtype(v) == buf@.subrange(pos as int, pos + 1));
        }
        Some((v, pos + 1))
    } else if b == 5 {
        let v = MatchType::ValueMatch;
        proof {
            assert(buf@.subrange(pos as int, pos + 1) =~= seq![buf@[pos as int]]);
            assert(enc_matchtype(v) == buf@.subrange(pos as int, pos + 1));
        }
        Some((v, pos + 1))
    } else {
        None
    }
}

/// The coded form of `Capability`.
pub open spec fn enc_capability(v: Capability) -> Seq<u8> {
    match v {
        Capability::Envelope => seq![0u8],
        Capability::EnvelopeDsn => seq![1u8],
        Capability::EnvelopeDeliverBy => seq![2u8],
        Capability::FileInto => seq![3u8],
        Capability::EncodedCharacter => seq![4u8],
        Capability::Body => seq![5u8],
        Capability::ConvertCap => seq![6u8],
        Capability::Copy => seq![7u8],
        Capability::Relational => seq![8u8],
        Capability::Date => seq![9u8],
        Capability::Index => seq![10u8],
        Capability::Duplicate => seq![11u8],
        Capability::Variables => seq![12u8],
        Capability::EditHeader => seq![13u8],
        Capability::ForEveryPart => seq![14u8],
        Capability::Mime => seq![15u8],
        Capability::Replace => seq![16u8],
        Capability::Enclose => seq![17u8],
        Capability::ExtractText => seq![18u8],
        Capability::Enotify => seq![19u8],
        Capability::SubAddress => seq![20u8],
        Capability::Vacation => seq![21u8],
        Capability::VacationSeconds => seq![22u8],
        Capability::Fcc => seq![23u8],
        Capability::Mailbox => seq![24u8],
        Capability::MailboxId => seq![25u8],
        Capability::MboxMetadata => seq![26u8],
        Capability::ServerMetadata => seq![27u8],
        Capability::SpecialUse => seq![28u8],
        Capability::Imap4Flags => seq![29u8],
        Capability::Ihave => seq![30u8],
        Capability::ImapSieve => seq![31u8],
        Capability::Include => seq![32u8],
        Capability::Regex => seq![33u8],
        Capability::Reject => seq![34u8],
        Capability::Ereject => seq![35u8],
        Capability::SpamTest => seq![36u8],
        Capability::SpamTestPlus => seq![37u8],
        Capability::VirusTest => seq![38u8],
        Capability::Comparator(x) => seq![39u8] + enc_comparator(x),
        Capability::Other(x) => seq![40u8] + enc_bytes(x@),
    }
}

pub fn ser_capability(out: &mut Vec<u8>, v: &Capability)
    ensures
        final(out)@ == old(out)@ + enc_capability(*v),
{
    match v {
        Capability::Envelope => {
            out.push(0);
        },
        Capability::EnvelopeDsn => {
            out.push(1);
        },
        Capability::EnvelopeDeliverBy => {
            out.push(2);
        },
        Capability::FileInto => {
            out.push(3);
        },
        Capability::EncodedCharacter => {
            out.push(4);
        },
        Capability::Body => {
            out.push(5);
        },
        Capability::ConvertCap => {
            out.push(6);
        },
        Capability::Copy => {
            out.push(7);
        },
        Capability::Relational => {
            out.push(8);
        },
        Capability::Date => {
            out.push(9);
        },
        Capability::Index => {
            out.push(10);
        },
        Capability::Duplicate => {
            out.push(11);
        },
        Capability::Variables => {
            out.push(12);
        },
        Capability::EditHeader => {
            out.push(13);
        },
        Capability::ForEveryPart => {
            out.push(14);
        },
        Capability::Mime => {
            out.push(15);
        },
        Capability::Replace => {
            out.push(16);
        },
        Capability::Enclose => {
            out.push(17);
        },
        Capability::ExtractText => {
            out.push(18);
        },
        Capability::Enotify => {
            out.push(19);
        },
        Capability::SubAddress => {
            out.push(20);
        },
        Capability::Vacation => {
            out.push(21);
        },
        Capability::VacationSeconds => {
            out.push(22);
        },
        Capability::Fcc => {
            out.push(23);
        },
        Capability::Mailbox => {
            out.push(24);
        },
        Capability::MailboxId => {
            out.push(25);
        },
        Capability::MboxMetadata => {
            out.push(26);
        },
        Capability::ServerMetadata => {
            out.push(27);
        },
        Capability::SpecialUse => {
            out.push(28);
        },
        Capability::Imap4Flags => {
            out.push(29);
        },
        Capability::Ihave => {
            out.push(30);
        },
        Capability::ImapSieve => {
            out.push(31);
        },
        Capability::Include => {
            out.push(32);
        },
        Capability::Regex => {
            out.push(33);
        },
        Capability::Reject => {
            out.push(34);
        },
        Capability::Ereject => {
            out.push(35);
        },
        Capability::SpamTest => {
            out.push(36);
        },
        Capability::SpamTestPlus => {
            out.push(37);
        },
        Capability::VirusTest => {
            out.push(38);
        },
        Capability::Comparator(x) => {
            out.push(39);
            ser_comparator(out, x);
        },
        Capability::Other(x) => {
            out.push(40);
            ser_bytes(out, x);
        },
    }
    proof {
        assert(final(out)@ =~= old(out)@ + enc_capability(*v));
    }
}

pub fn deser_capability(buf: &Vec<u8>, pos: usize) -> (r: Option<(Capability, usize)>)
    ensures
        r matches Some(x) ==> pos < x.1 <= buf@.len() && enc_capability(x.0) == buf@.subrange(
            pos as int,
            x.1 as int,
        ),
{
    if pos >= buf.len() {
        return None;
    }
    let b = buf[pos];
    if b == 0 {
        let v = Capability::Envelope;
        proof {
            assert(buf@.subrange(pos as int, pos + 1) =~= seq![buf@[pos as int]]);
            assert(enc_capability(v) == buf@.subrange(pos as int, pos + 1));
        }
        Some((v, pos + 1))
    } else if b == 1 {
        let v = Capability::EnvelopeDsn;
        proof {
            assert(buf@.subrange(pos as int, pos + 1) =~= seq![buf@[pos as int]]);
            assert(enc_capability(v) == buf@.subrange(pos as int, pos + 1));
        }
        Some((v, pos + 1))
    } else if b == 2 {
        let v = Capability::EnvelopeDeliverBy;
        proof {
            assert(buf@.subrange(pos as int, pos + 1) =~= seq![buf@[pos as int]]);
            assert(enc_capability(v) == buf@.subrange(pos as int, pos + 1));
        }
        Some((v, pos + 1))
    } else if b == 3 {
        let v = Capability::FileInto;
        proof {
            assert(buf@.subrange(pos as int, pos + 1) =~= seq![buf@[pos as int]]);
            assert(enc_capability(v) == buf@.subrange(pos as int, pos + 1));
        }
        Some((v, pos + 1))
    } else if b == 4 {
        let v = Capability::EncodedCharacter;
        proof {
            assert(buf@.subrange(pos as int, pos + 1) =~= seq![buf@[pos as int]]);
            assert(enc_capability(v) == buf@.subrange(pos as int, pos + 1));
        }
        Some((v, pos + 1))
    } else if b == 5 {
        let v = Capability::Body;
        proof {
            assert(buf@.subrange(pos as int, pos + 1) =~= seq![buf@[pos as int]]);
            assert(enc_capability(v) == buf@.subrange(pos as int, pos + 1));
        }
        Some((v, pos + 1))
    } else if b == 6 {
        let v = Capability::ConvertCap;
        proof {
            assert(buf@.subrange(pos as int, pos + 1) =~= seq![buf@[pos as int]]);
            assert(enc_capability(v) == buf@.subrange(pos as int, pos + 1));
        }
        Some((v, pos + 1))
    } else if b == 7 {
        let v = Capability::Copy;
        proof {
            assert(buf@.subrange(pos as int, pos + 1) =~= seq![buf@[pos as int]]);
            assert(enc_capability(v) == buf@.subrange(pos as int, pos + 1));
        }
        Some((v, pos + 1))
    } else if b == 8 {
        let v = Capability::Relational;
        proof {
            assert(buf@.subrange(pos as int, pos + 1) =~= seq![buf@[pos as int]]);
            assert(enc_capability(v) == buf@.subrange(pos as int, pos + 1));
        }
        Some((v, pos + 1))
    } else if b == 9 {
        let v = Capability::Date;
        proof {
            assert(buf@.subrange(pos as int, pos + 1) =~= seq![buf@[pos as int]]);
            assert(enc_capability(v) == buf@.subrange(pos as int, pos + 1));
        }
        Some((v, pos + 1))
    } else if b == 10 {
        let v = Capability::Index;
        proof {
            assert(buf@.subrange(pos as int, pos + 1) =~= seq![buf@[pos as int]]);
            assert(enc_capability(v) == buf@.subrange(pos as int, pos + 1));
        }
        Some((v, pos + 1))
    } else if b == 11 {
        let v = Capability::Duplicate;
        proof {
            assert(buf@.subrange(pos as int, pos + 1) =~= seq![buf@[pos as int]]);
            assert(enc_capability(v) == buf@.subrange(pos as int, pos + 1));
        }
        Some((v, pos + 1))
    } else if b == 12 {
        let v = Capability::Variables;
        proof {
            assert(buf@.subrange(pos as int, pos + 1) =~= seq![buf@[pos as int]]);
            assert(enc_capability(v) == buf@.subrange(pos as int, pos + 1));
        }
        Some((v, pos + 1))
    } else if b == 13 {
        let v = Capability::EditHeader;
        proof {
            assert(buf@.subrange(pos as int, pos + 1) =~= seq![buf@[pos as int]]);
            assert(enc_capability(v) == buf@.subrange(pos as int, pos + 1));
        }
        Some((v, pos + 1))
    } else if b == 14 {
        let v = Capability::ForEveryPart;
        proof {
            assert(buf@.subrange(pos as int, pos + 1) =~= seq![buf@[pos as int]]);
            assert(enc_capability(v) == buf@.subrange(pos as int, pos + 1));
        }
        Some((v, pos + 1))
    } else if b == 15 {
        let v = Capability::Mime;
        proof {
            assert(buf@.subrange(pos as int, pos + 1) =~= seq![buf@[pos as int]]);
            assert(enc_capability(v) == buf@.subrange(pos as int, pos + 1));
        }
        Some((v, pos + 1))
    } else if b == 16 {
        let v = Capability::Replace;
        proof {
            assert(buf@.subrange(pos as int, pos + 1) =~= seq![buf@[pos as int]]);
            assert(enc_capability(v) == buf@.subrange(pos as int, pos + 1));
        }
        Some((v, pos + 1))
    } else if b == 17 {
        let v = Capability::Enclose;
        proof {
            assert(buf@.subrange(pos as int, pos + 1) =~= seq![buf@[pos as int]]);
            assert(enc_capability(v) == buf@.subrange(pos as int, pos + 1));
        }
        Some((v, pos + 1))
    } else if b == 18 {
        let v = Capability::ExtractText;
        proof {
            assert(buf@.subrange(pos as int, pos + 1) =~= seq![buf@[pos as int]]);
            assert(enc_capability(v) == buf@.subrange(pos as int, pos + 1));
        }
        Some((v, pos + 1))
    } else if b == 19 {
        let v = Capability::Enotify;
        proof {
            assert(buf@.subrange(pos as int, pos + 1) =~= seq![buf@[pos as int]]);
            assert(enc_capability(v) == buf@.subrange(pos as int, pos + 1));
        }
        Some((v, pos + 1))
    } else if b == 20 {
        let v = Capability::SubAddress;
        proof {
            assert(buf@.subrange(pos as int, pos + 1) =~= seq![buf@[pos as int]]);
            assert(enc_capability(v) == buf@.subrange(pos as int, pos + 1));
        }
        Some((v, pos + 1))
    } else if b == 21 {
        let v = Capability::Vacation;
        proof {
            assert(buf@.subrange(pos as int, pos + 1) =~= seq![buf@[pos as int]]);
            assert(enc_capability(v) == buf@.subrange(pos as int, pos + 1));
        }
        Some((v, pos + 1))
    } else if b == 22 {
        let v = Capability::VacationSeconds;
        proof {
            assert(buf@.subrange(pos as int, pos + 1) =~= seq![buf@[pos as int]]);
            assert(enc_capability(v) == buf@.subrange(pos as int, pos + 1));
        }
        Some((v, pos + 1))
    } else if b == 23 {
        let v = Capability::Fcc;
        proof {
            assert(buf@.subrange(pos as int, pos + 1) =~= seq![buf@[pos as int]]);
            assert(enc_capability(v) == buf@.subrange(pos as int, pos + 1));
        }
        Some((v, pos + 1))
    } else if b == 24 {
        let v = Capability::Mailbox;
        proof {
            assert(buf@.subrange(pos as int, pos + 1) =~= seq![buf@[pos as int]]);
            assert(enc_capability(v) == buf@.subrange(pos as int, pos + 1));
        }
        Some((v, pos + 1))
    } else if b == 25 {
        let v = Capability::MailboxId;
        proof {
            assert(buf@.subrange(pos as int, pos + 1) =~= seq![buf@[pos as int]]);
            assert(enc_capability(v) == buf@.subrange(pos as int, pos + 1));
        }
        Some((v, pos + 1))
    } else if b == 26 {
        let v = Capability::MboxMetadata;
        proof {
            assert(buf@.subrange(pos as int, pos + 1) =~= seq![buf@[pos as int]]);
            assert(enc_capability(v) == buf@.subrange(pos as int, pos + 1));
        }
        Some((v, pos + 1))
    } else if b == 27 {
        let v = Capability::ServerMetadata;
        proof {
            assert(buf@.subrange(pos as int, pos + 1) =~= seq![buf@[pos as int]]);
            assert(enc_capability(v) == buf@.subrange(pos as int, pos + 1));
        }
        Some((v, pos + 1))
    } else if b == 28 {
        let v = Capability::SpecialUse;
        proof {
            assert(buf@.subrange(pos as int, pos + 1) =~= seq![buf@[pos as int]]);
            assert(enc_capability(v) == buf@.subrange(pos as int, pos + 1));
        }
        Some((v, pos + 1))
    } else if b == 29 {
        let v = Capability::Imap4Flags;
        proof {
            assert(buf@.subrange(pos as int, pos + 1) =~= seq![buf@[pos as int]]);
            assert(enc_capability(v) == buf@.subrange(pos as int, pos + 1));
        }
        Some((v, pos + 1))
    } else if b == 30 {
        let v = Capability::Ihave;
        proof {
            assert(buf@.subrange(pos as int, pos + 1) =~= seq![buf@[pos as int]]);
            assert(enc_capability(v) == buf@.subrange(pos as int, pos + 1));
        }
        Some((v, pos + 1))
    } else if b == 31 {
        let v = Capability::ImapSieve;
        proof {
            assert(buf@.subrange(pos as int, pos + 1) =~= seq![buf@[pos as int]]);
            assert(enc_capability(v) == buf@.subrange(pos as int, pos + 1));
        }
        Some((v, pos + 1))
    } else if b == 32 {
        let v = Capability::Include;
        proof {
            assert(buf@.subrange(pos as int, pos + 1) =~= seq![buf@[pos as int]]);
            assert(enc_capability(v) == buf@.subrange(pos as int, pos + 1));
        }
        Some((v, pos + 1))
    } else if b == 33 {
        let v = Capability::Regex;
        proof {
            assert(buf@.subrange(pos as int, pos + 1) =~= seq![buf@[pos as int]]);
            assert(enc_capability(v) == buf@.subrange(pos as int, pos + 1));
        }
        Some((v, pos + 1))
    } else if b == 34 {
        let v = Capability::Reject;
        proof {
            assert(buf@.subrange(pos as int, pos + 1) =~= seq![buf@[pos as int]]);
            assert(enc_capability(v) == buf@.subrange(pos as int, pos + 1));
        }
        Some((v, pos + 1))
    } else if b == 35 {
        let v = Capability::Ereject;
        proof {
            assert(buf@.subrange(pos as int, pos + 1) =~= seq![buf@[pos as int]]);
            assert(enc_capability(v) == buf@.subrange(pos as int, pos + 1));
        }
        Some((v, pos + 1))
    } else if b == 36 {
        let v = Capability::SpamTest;
        proof {
            assert(buf@.subrange(pos as int, pos + 1) =~= seq![buf@[pos as int]]);
            assert(enc_capability(v) == buf@.subrange(pos as int, pos + 1));
        }
        Some((v, pos + 1))
    } else if b == 37 {
        let v = Capability::SpamTestPlus;
        proof {
            assert(buf@.subrange(pos as int, pos + 1) =~= seq![buf@[pos as int]]);
            assert(enc_capability(v) == buf@.subrange(pos as int, pos + 1));
        }
        Some((v, pos + 1))
    } else if b == 38 {
        let v = Capability::VirusTest;
        proof {
            assert(buf@.subrange(pos as int, pos + 1) =~= seq![buf@[pos as int]]);
            assert(enc_capability(v) == buf@.subrange(pos as int, pos + 1));
        }
        Some((v, pos + 1))
    } else if b == 39 {
        match deser_comparator(buf, pos + 1) {
            Some(xp) => {
                let v = Capability::Comparator(xp.0);
                proof {
                    assert(buf@.subrange(pos as int, xp.1 as int) =~= seq![buf@[pos as int]]
                        + buf@.subrange(pos + 1, xp.1 as int));
                    assert(enc_capability(v) =~= buf@.subrange(pos as int, xp.1 as int));
                }
                Some((v, xp.1))
            },
            None => None,
        }
    } else if b == 40 {
        match deser_bytes(buf, pos + 1) {
            Some(xp) => {
                let v = Capability::Other(xp.0);
                proof {
                    assert(buf@.subrange(pos as int, xp.1 as int) =~= seq![buf@[pos as int]]
                        + buf@.subrange(pos + 1, xp.1 as int));
                    assert(enc_capability(v) =~= buf@.subrange(pos as int, xp.1 as int));
                }
                Some((v, xp.1))
            },
            None => None,
        }
    } else {
        None
    }
}


/// A signed number: its sign, then its magnitude.
pub open spec fn mag_i64(x: i64) -> u64 {
    if x >= 0 {
        x as u64
    } else {
        (-(x as int)) as u64
    }
}

pub open spec fn enc_i64(x: i64) -> Seq<u8> {
    enc_bool(x < 0) + enc_u64(mag_i64(x))
}

pub fn ser_i64(out: &mut Vec<u8>, x: i64)
    ensures
        final(out)@ == old(out)@ + enc_i64(x),
{
    if x >= 0 {
        ser_bool(out, false);
        ser_u64(out, x as u64);
    } else {
        ser_bool(out, true);
        let mag: u64 = ((-(x + 1)) as u64) + 1;
        proof {
            assert(mag == mag_i64(x));
        }
        ser_u64(out, mag);
    }
    proof {
        assert(final(out)@ =~= old(out)@ + enc_i64(x));
    }
}

pub fn deser_i64(buf: &Vec<u8>, pos: usize) -> (r: Option<(i64, usize)>)
    ensures
        r matches Some(x) ==> pos < x.1 <= buf@.len() && enc_i64(x.0) == buf@.subrange(
            pos as int,
            x.1 as int,
        ),
{
    let (neg, p2) = match deser_bool(buf, pos) {
        Some(x) => x,
        None => {
            return None;
        },
    };
    let (mag, p3) = match deser_u64(buf, p2) {
        Some(x) => x,
        None => {
            return None;
        },
    };
    let x: i64;
    if !neg {
        if mag > i64::MAX as u64 {
            return None;
        }
        x = mag as i64;
    } else {
        if mag == 0 || mag > 9223372036854775808u64 {
            return None;
        }
        x = -((mag - 1) as i64) - 1;
    }
    proof {
        assert(mag_i64(x) == mag);
        assert((x < 0) == neg);
        assert(enc_i64(x) =~= buf@.subrange(pos as int, p3 as int));
    }
    Some((x, p3))
}

/// The coded forms of a run of byte strings, from position `i` on.
pub open spec fn enc_byteslist_from(vs: Seq<Vec<u8>>, i: int) -> Seq<u8>
    decreases vs.len() - i,
{
    if i < 0 || i >= vs.len() {
        Seq::empty()
    } else {
        enc_bytes(vs[i]@) + enc_byteslist_from(vs, i + 1)
    }
}

/// A list of byte strings: its count, then each string.
pub open spec fn enc_byteslist(v: Vec<Vec<u8>>) -> Seq<u8> {
    enc_u64(v@.len() as u64) + enc_byteslist_from(v@, 0)
}

fn ser_byteslist_from(out: &mut Vec<u8>, v: &Vec<Vec<u8>>, i: usize)
    requires
        i <= v@.len(),
    ensures
        final(out)@ == old(out)@ + enc_byteslist_from(v@, i as int),
    decreases v@.len() - i,
{
    if i == v.len() {
        proof {
            assert(final(out)@ =~= old(out)@ + enc_byteslist_from(v@, i as int));
        }
        return ;
    }
    ser_bytes(out, &v[i]);
    ser_byteslist_from(out, v, i + 1);
    proof {
        assert(final(out)@ =~= old(out)@ + enc_byteslist_from(v@, i as int));
    }
}

pub fn ser_byteslist(out: &mut Vec<u8>, v: &Vec<Vec<u8>>)
    ensures
        final(out)@ == old(out)@ + enc_byteslist(*v),
{
    ser_u64(out, v.len() as u64);
    ser_byteslist_from(out, v, 0);
    proof {
        assert(final(out)@ =~= old(out)@ + enc_byteslist(*v));
    }
}

fn deser_byteslist_into(buf: &Vec<u8>, pos: usize, n: usize, out: &mut Vec<Vec<u8>>) -> (r: Option<
    usize,
>)
    ensures
        r matches Some(p) ==> pos <= p <= buf@.len() && final(out)@.len() == old(out)@.len()
            + n && final(out)@.take(old(out)@.len() as int) == old(out)@ && enc_byteslist_from(
            final(out)@,
            old(out)@.len() as int,
        ) == buf@.subrange(pos as int, p as int),
        r is None ==> final(out)@ == old(out)@,
    decreases n,
{
    if pos > buf.len() {
        return None;
    }
    if n == 0 {
        proof {
            assert(final(out)@.take(old(out)@.len() as int) =~= old(out)@);
            assert(enc_byteslist_from(final(out)@, old(out)@.len() as int) =~= buf@.subrange(
                pos as int,
                pos as int,
            ));
        }
        return Some(pos);
    }
    let (piece, p2) = match deser_bytes(buf, pos) {
        Some(x) => x,
        None => {
            return None;
        },
    };
    let ghost piece_view = piece@;
    let ghost k = out@.len();
    out.push(piece);
    let ghost mid = out@;
    match deser_byteslist_into(buf, p2, n - 1, out) {
        Some(p3) => {
            proof {
                assert(final(out)@.take(mid.len() as int) == mid);
                assert(final(out)@[k as int] == mid[k as int]);
                assert(final(out)@[k as int]@ == piece_view);
                assert(final(out)@.take(k as int) =~= old(out)@);
                assert(enc_byteslist_from(final(out)@, k as int) == enc_bytes(piece_view)
                    + enc_byteslist_from(final(out)@, k + 1int));
                assert(enc_byteslist_from(final(out)@, k as int) =~= buf@.subrange(
                    pos as int,
                    p3 as int,
                ));
            }
            Some(p3)
        },
        None => {
            // put the list back as it was
            let _ = out.pop();
            proof {
                assert(out@ =~= old(out)@);
            }
            None
        },
    }
}

pub fn deser_byteslist(buf: &Vec<u8>, pos: usize) -> (r: Option<(Vec<Vec<u8>>, usize)>)
    ensures
        r matches Some(x) ==> pos < x.1 <= buf@.len() && enc_byteslist(x.0) == buf@.subrange(
            pos as int,
            x.1 as int,
        ),
{
    let (n, p2) = match deser_u64(buf, pos) {
        Some(x) => x,
        None => {
            return None;
        },
    };
    if n > usize::MAX as u64 || (n as usize) > buf.len() {
        return None;
    }
    let mut items: Vec<Vec<u8>> = Vec::new();
    match deser_byteslist_into(buf, p2, n as usize, &mut items) {
        Some(p3) => {
            proof {
                assert(items@.len() as u64 == n);
                assert(enc_byteslist_from(items@, 0) == buf@.subrange(p2 as int, p3 as int));
                assert(enc_byteslist(items) =~= buf@.subrange(pos as int, p3 as int));
            }
            Some((items, p3))
        },
        None => None,
    }
}


/// The coded form of a header-variable reference.
pub open spec fn enc_headervariable(h: HeaderVariable) -> Seq<u8> {
    enc_byteslist(h.name) + enc_headerpart(h.part) + enc_i64(h.index_hdr as i64) + enc_i64(
        h.index_part as i64,
    )
}

pub fn ser_headervariable(out: &mut Vec<u8>, h: &HeaderVariable)
    ensures
        final(out)@ == old(out)@ + enc_headervariable(*h),
{
    ser_byteslist(out, &h.name);
    ser_headerpart(out, &h.part);
    ser_i64(out, h.index_hdr as i64);
    ser_i64(out, h.index_part as i64);
    proof {
        assert(final(out)@ =~= old(out)@ + enc_headervariable(*h));
    }
}

pub fn deser_headervariable(buf: &Vec<u8>, pos: usize) -> (r: Option<(HeaderVariable, usize)>)
    ensures
        r matches Some(x) ==> pos < x.1 <= buf@.len() && enc_headervariable(x.0) == buf@.subrange(
            pos as int,
            x.1 as int,
        ),
{
    let (name, p2) = match deser_byteslist(buf, pos) {
        Some(x) => x,
        None => {
            return None;
        },
    };
    let (part, p3) = match deser_headerpart(buf, p2) {
        Some(x) => x,
        None => {
            return None;
        },
    };
    let (ih, p4) = match deser_i64(buf, p3) {
        Some(x) => x,
        None => {
            return None;
        },
    };
    let (ip, p5) = match deser_i64(buf, p4) {
        Some(x) => x,
        None => {
            return None;
        },
    };
    if ih > i32::MAX as i64 || ih < i32::MIN as i64 || ip > i32::MAX as i64 || ip < i32::MIN as i64
        {
        return None;
    }
    let h = HeaderVariable { name, part, index_hdr: ih as i32, index_part: ip as i32 };
    proof {
        assert(enc_headervariable(h) =~= buf@.subrange(pos as int, p5 as int));
    }
    Some((h, p5))
}

/// The coded form of a variable reference.
pub open spec fn enc_variabletype(v: VariableType) -> Seq<u8> {
    match v {
        VariableType::Local(n) => seq![0u8] + enc_u64(n as u64),
        VariableType::Match(n) => seq![1u8] + enc_u64(n as u64),
        VariableType::Global(b) => seq![2u8] + enc_bytes(b@),
        VariableType::Environment(b) => seq![3u8] + enc_bytes(b@),
        VariableType::Envelope(e) => seq![4u8] + enc_envelope(e),
        VariableType::Header(h) => seq![5u8] + enc_headervariable(h),
        VariableType::Part(p) => seq![6u8] + enc_messagepart(p),
    }
}

pub fn ser_variabletype(out: &mut Vec<u8>, v: &VariableType)
    ensures
        final(out)@ == old(out)@ + enc_variabletype(*v),
{
    match v {
        VariableType::Local(n) => {
            out.push(0);
            ser_u64(out, *n as u64);
        },
        VariableType::Match(n) => {
            out.push(1);
            ser_u64(out, *n as u64);
        },
        VariableType::Global(b) => {
            out.push(2);
            ser_bytes(out, b);
        },
        VariableType::Environment(b) => {
            out.push(3);
            ser_bytes(out, b);
        },
        VariableType::Envelope(e) => {
            out.push(4);
            ser_envelope(out, e);
        },
        VariableType::Header(h) => {
            out.push(5);
            ser_headervariable(out, h);
        },
        VariableType::Part(p) => {
            out.push(6);
            ser_messagepart(out, p);
        },
    }
    proof {
        assert(final(out)@ =~= old(out)@ + enc_variabletype(*v));
    }
}

pub fn deser_variabletype(buf: &Vec<u8>, pos: usize) -> (r: Option<(VariableType, usize)>)
    ensures
        r matches Some(x) ==> pos < x.1 <= buf@.len() && enc_variabletype(x.0) == buf@.subrange(
            pos as int,
            x.1 as int,
        ),
{
    if pos >= buf.len() {
        return None;
    }
    let b = buf[pos];
    if b == 0 || b == 1 {
        let (n, p2) = match deser_u64(buf, pos + 1) {
            Some(x) => x,
            None => {
                return None;
            },
        };
        if n > usize::MAX as u64 {
            return None;
        }
        let v = if b == 0 {
            VariableType::Local(n as usize)
        } else {
            VariableType::Match(n as usize)
        };
        proof {
            assert(buf@.subrange(pos as int, p2 as int) =~= seq![buf@[pos as int]] + buf@.subrange(
                pos + 1,
                p2 as int,
            ));
            assert(enc_variabletype(v) =~= buf@.subrange(pos as int, p2 as int));
        }
        Some((v, p2))
    } else if b == 2 || b == 3 {
        let (bytes, p2) = match deser_bytes(buf, pos + 1) {
            Some(x) => x,
            None => {
                return None;
            },
        };
        let v = if b == 2 {
            VariableType::Global(bytes)
        } else {
            VariableType::Environment(bytes)
        };
        proof {
            assert(buf@.subrange(pos as int, p2 as int) =~= seq![buf@[pos as int]] + buf@.subrange(
                pos + 1,
                p2 as int,
            ));
            assert(enc_variabletype(v) =~= buf@.subrange(pos as int, p2 as int));
        }
        Some((v, p2))
    } else if b == 4 {
        let (e, p2) = match deser_envelope(buf, pos + 1) {
            Some(x) => x,
            None => {
                return None;
            },
        };
        let v = VariableType::Envelope(e);
        proof {
            assert(buf@.subrange(pos as int, p2 as int) =~= seq![buf@[pos as int]] + buf@.subrange(
                pos + 1,
                p2 as int,
            ));
            assert(enc_variabletype(v) =~= buf@.subrange(pos as int, p2 as int));
        }
        Some((v, p2))
    } else if b == 5 {
        let (h, p2) = match deser_headervariable(buf, pos + 1) {
            Some(x) => x,
            None => {
                return None;
            },
        };
        let v = VariableType::Header(h);
        proof {
            assert(buf@.subrange(pos as int, p2 as int) =~= seq![buf@[pos as int]] + buf@.subrange(
                pos + 1,
                p2 as int,
            ));
            assert(enc_variabletype(v) =~= buf@.subrange(pos as int, p2 as int));
        }
        Some((v, p2))
    } else if b == 6 {
        let (p, p2) = match deser_messagepart(buf, pos + 1) {
            Some(x) => x,
            None => {
                return None;
            },
        };
        let v = VariableType::Part(p);
        proof {
            assert(buf@.subrange(pos as int, p2 as int) =~= seq![buf@[pos as int]] + buf@.subrange(
                pos + 1,
                p2 as int,
            ));
            assert(enc_variabletype(v) =~= buf@.subrange(pos as int, p2 as int));
        }
        Some((v, p2))
    } else {
        None
    }
}

/// The coded form of a `set` modifier.
pub open spec fn enc_modifier(m: Modifier) -> Seq<u8> {
    match m {
        Modifier::Lower => seq![0u8],
        Modifier::Upper => seq![1u8],
        Modifier::LowerFirst => seq![2u8],
        Modifier::UpperFirst => seq![3u8],
        Modifier::QuoteWildcard => seq![4u8],
        Modifier::QuoteRegex => seq![5u8],
        Modifier::Length => seq![6u8],
        Modifier::EncodeUrl => seq![7u8],
        Modifier::Replace { find, replace } => seq![8u8] + enc_value(find) + enc_value(replace),
    }
}

pub fn ser_modifier(out: &mut Vec<u8>, m: &Modifier)
    ensures
        final(out)@ == old(out)@ + enc_modifier(*m),
{
    match m {
        Modifier::Lower => out.push(0),
        Modifier::Upper => out.push(1),
        Modifier::LowerFirst => out.push(2),
        Modifier::UpperFirst => out.push(3),
        Modifier::QuoteWildcard => out.push(4),
        Modifier::QuoteRegex => out.push(5),
        Modifier::Length => out.push(6),
        Modifier::EncodeUrl => out.push(7),
        Modifier::Replace { find, replace } => {
            out.push(8);
            ser_value(out, find);
            ser_value(out, replace);
        },
    }
    proof {
        assert(final(out)@ =~= old(out)@ + enc_modifier(*m));
    }
}

pub fn deser_modifier(buf: &Vec<u8>, pos: usize) -> (r: Option<(Modifier, usize)>)
    ensures
        r matches Some(x) ==> pos < x.1 <= buf@.len() && enc_modifier(x.0) == buf@.subrange(
            pos as int,
            x.1 as int,
        ),
        r matches Some(x) ==> modifier_regexes_ok(x.0),
{
    if pos >= buf.len() {
        return None;
    }
    let b = buf[pos];
    if b <= 7 {
        let m = if b == 0 {
            Modifier::Lower
        } else if b == 1 {
            Modifier::Upper
        } else if b == 2 {
            Modifier::LowerFirst
        } else if b == 3 {
            Modifier::UpperFirst
        } else if b == 4 {
            Modifier::QuoteWildcard
        } else if b == 5 {
            Modifier::QuoteRegex
        } else if b == 6 {
            Modifier::Length
        } else {
            Modifier::EncodeUrl
        };
        proof {
            assert(buf@.subrange(pos as int, pos + 1) =~= seq![buf@[pos as int]]);
            assert(enc_modifier(m) == buf@.subrange(pos as int, pos + 1));
        }
        Some((m, pos + 1))
    } else if b == 8 {
        let (find, p2) = match deser_value(buf, pos + 1) {
            Some(x) => x,
            None => {
                return None;
            },
        };
        let (replace, p3) = match deser_value(buf, p2) {
            Some(x) => x,
            None => {
                return None;
            },
        };
        let m = Modifier::Replace { find, replace };
        proof {
            assert(buf@.subrange(pos as int, p3 as int) =~= seq![buf@[pos as int]] + buf@.subrange(
                pos + 1,
                p2 as int,
            ) + buf@.subrange(p2 as int, p3 as int));
            assert(enc_modifier(m) =~= buf@.subrange(pos as int, p3 as int));
        }
        Some((m, p3))
    } else {
        None
    }
}

/// The coded forms of a run of modifiers, from position `i` on.
pub open spec fn enc_modifiers_from(vs: Seq<Modifier>, i: int) -> Seq<u8>
    decreases vs.len() - i,
{
    if i < 0 || i >= vs.len() {
        Seq::empty()
    } else {
        enc_modifier(vs[i]) + enc_modifiers_from(vs, i + 1)
    }
}

/// A modifier list: its count, then each modifier.
pub open spec fn enc_modifiers(v: Vec<Modifier>) -> Seq<u8> {
    enc_u64(v@.len() as u64) + enc_modifiers_from(v@, 0)
}

fn ser_modifiers_from(out: &mut Vec<u8>, v: &Vec<Modifier>, i: usize)
    requires
        i <= v@.len(),
    ensures
        final(out)@ == old(out)@ + enc_modifiers_from(v@, i as int),
    decreases v@.len() - i,
{
    if i == v.len() {
        proof {
            assert(final(out)@ =~= old(out)@ + enc_modifiers_from(v@, i as int));
        }
        return ;
    }
    ser_modifier(out, &v[i]);
    ser_modifiers_from(out, v, i + 1);
    proof {
        assert(final(out)@ =~= old(out)@ + enc_modifiers_from(v@, i as int));
    }
}

pub fn ser_modifiers(out: &mut Vec<u8>, v: &Vec<Modifier>)
    ensures
        final(out)@ == old(out)@ + enc_modifiers(*v),
{
    ser_u64(out, v.len() as u64);
    ser_modifiers_from(out, v, 0);
    proof {
        assert(final(out)@ =~= old(out)@ + enc_modifiers(*v));
    }
}

fn deser_modifiers_into(buf: &Vec<u8>, pos: usize, n: usize, out: &mut Vec<Modifier>) -> (r:
    Option<usize>)
    ensures
        r matches Some(p) ==> pos <= p <= buf@.len() && final(out)@.len() == old(out)@.len()
            + n && final(out)@.take(old(out)@.len() as int) == old(out)@ && enc_modifiers_from(
            final(out)@,
            old(out)@.len() as int,
        ) == buf@.subrange(pos as int, p as int),
        r matches Some(p) ==> modifiers_regexes_ok(final(out)@, old(out)@.len() as int),
        r is None ==> final(out)@ == old(out)@,
    decreases n,
{
    if pos > buf.len() {
        return None;
    }
    if n == 0 {
        proof {
            assert(final(out)@.take(old(out)@.len() as int) =~= old(out)@);
            assert(enc_modifiers_from(final(out)@, old(out)@.len() as int) =~= buf@.subrange(
                pos as int,
                pos as int,
            ));
        }
        return Some(pos);
    }
    let (m, p2) = match deser_modifier(buf, pos) {
        Some(x) => x,
        None => {
            return None;
        },
    };
    let ghost mval = m;
    let ghost k = out@.len();
    out.push(m);
    let ghost mid = out@;
    match deser_modifiers_into(buf, p2, n - 1, out) {
        Some(p3) => {
            proof {
                assert(final(out)@[k as int] == mid[k as int]);
                assert(final(out)@.take(k as int) =~= old(out)@);
                assert(enc_modifiers_from(final(out)@, k as int) == enc_modifier(mval)
                    + enc_modifiers_from(final(out)@, k + 1int));
                assert(enc_modifiers_from(final(out)@, k as int) =~= buf@.subrange(
                    pos as int,
                    p3 as int,
                ));
            }
            Some(p3)
        },
        None => {
            let _ = out.pop();
            proof {
                assert(out@ =~= old(out)@);
            }
            None
        },
    }
}

pub fn deser_modifiers(buf: &Vec<u8>, pos: usize) -> (r: Option<(Vec<Modifier>, usize)>)
    ensures
        r matches Some(x) ==> pos < x.1 <= buf@.len() && enc_modifiers(x.0) == buf@.subrange(
            pos as int,
            x.1 as int,
        ),
        r matches Some(x) ==> modifiers_regexes_ok(x.0@, 0),
{
    let (n, p2) = match deser_u64(buf, pos) {
        Some(x) => x,
        None => {
            return None;
        },
    };
    if n > usize::MAX as u64 || (n as usize) > buf.len() {
        return None;
    }
    let mut items: Vec<Modifier> = Vec::new();
    match deser_modifiers_into(buf, p2, n as usize, &mut items) {
        Some(p3) => {
            proof {
                assert(items@.len() as u64 == n);
                assert(enc_modifiers(items) =~= buf@.subrange(pos as int, p3 as int));
            }
            Some((items, p3))
        },
        None => None,
    }
}


/// The coded form of a value.
pub open spec fn enc_value(v: Value) -> Seq<u8>
    decreases v, 0int,
{
    match v {
        Value::Text(t) => seq![0u8] + enc_bytes(t@),
        Value::Number(n) => seq![1u8] + enc_i64(n),
        Value::Variable(vt) => seq![2u8] + enc_variabletype(vt),
        Value::Regex(e) => seq![3u8] + enc_bytes(e@),
        Value::List(items) => seq![4u8] + enc_u64(items@.len() as u64) + enc_values_from(
            items@,
            0,
        ),
    }
}

/// The coded forms of a run of values, from position `i` on.
pub open spec fn enc_values_from(vs: Seq<Value>, i: int) -> Seq<u8>
    decreases vs, vs.len() - i,
{
    if i < 0 || i >= vs.len() {
        Seq::empty()
    } else {
        enc_value(vs[i]) + enc_values_from(vs, i + 1)
    }
}

fn ser_value(out: &mut Vec<u8>, v: &Value)
    ensures
        final(out)@ == old(out)@ + enc_value(*v),
    decreases *v, 0int,
{
    match v {
        Value::Text(t) => {
            out.push(0);
            ser_bytes(out, t);
        },
        Value::Number(n) => {
            out.push(1);
            ser_i64(out, *n);
        },
        Value::Variable(vt) => {
            out.push(2);
            ser_variabletype(out, vt);
        },
        Value::Regex(e) => {
            out.push(3);
            ser_bytes(out, e);
        },
        Value::List(items) => {
            out.push(4);
            ser_u64(out, items.len() as u64);
            ser_values_from(out, items, 0);
        },
    }
    proof {
        assert(final(out)@ =~= old(out)@ + enc_value(*v));
    }
}

fn ser_values_from(out: &mut Vec<u8>, vs: &Vec<Value>, i: usize)
    requires
        i <= vs@.len(),
    ensures
        final(out)@ == old(out)@ + enc_values_from(vs@, i as int),
    decreases *vs, vs@.len() - i,
{
    if i == vs.len() {
        proof {
            assert(final(out)@ =~= old(out)@ + enc_values_from(vs@, i as int));
        }
        return ;
    }
    ser_value(out, &vs[i]);
    ser_values_from(out, vs, i + 1);
    proof {
        assert(final(out)@ =~= old(out)@ + enc_values_from(vs@, i as int));
    }
}

/// Writes a value list with its count.
pub open spec fn enc_values(v: Vec<Value>) -> Seq<u8> {
    enc_u64(v@.len() as u64) + enc_values_from(v@, 0)
}

fn ser_values(out: &mut Vec<u8>, v: &Vec<Value>)
    ensures
        final(out)@ == old(out)@ + enc_values(*v),
{
    ser_u64(out, v.len() as u64);
    ser_values_from(out, v, 0);
    proof {
        assert(final(out)@ =~= old(out)@ + enc_values(*v));
    }
}

/// Every regex literal in this value is a pattern the engine accepts.
pub open spec fn value_regexes_ok(v: Value) -> bool
    decreases v, 0int,
{
    match v {
        Value::Regex(e) => crate::regexutil::regex_valid(e@),
        Value::List(items) => values_regexes_ok(items@, 0),
        _ => true,
    }
}

/// Every regex literal in the values from position `i` on is accepted.
pub open spec fn values_regexes_ok(vs: Seq<Value>, i: int) -> bool
    decreases vs, vs.len() - i,
{
    if i < 0 || i >= vs.len() {
        true
    } else {
        value_regexes_ok(vs[i]) && values_regexes_ok(vs, i + 1)
    }
}

/// Every regex literal in this modifier's arguments is accepted.
pub open spec fn modifier_regexes_ok(m: Modifier) -> bool {
    match m {
        Modifier::Replace { find, replace } => value_regexes_ok(find) && value_regexes_ok(replace),
        _ => true,
    }
}

/// Every regex literal in the modifiers from position `i` on is accepted.
pub open spec fn modifiers_regexes_ok(ms: Seq<Modifier>, i: int) -> bool
    decreases ms.len() - i,
{
    if i < 0 || i >= ms.len() {
        true
    } else {
        modifier_regexes_ok(ms[i]) && modifiers_regexes_ok(ms, i + 1)
    }
}

/// Every regex literal in this test's values is accepted.
pub open spec fn test_regexes_ok(t: Test) -> bool {
    match t {
        Test::Header(h) => values_regexes_ok(h.header_list@, 0) && values_regexes_ok(
            h.key_list@,
            0,
        ),
        Test::StringTest(s) => values_regexes_ok(s.source@, 0) && values_regexes_ok(s.key_list@, 0),
        Test::Exists(vs) => values_regexes_ok(vs@, 0),
        _ => true,
    }
}

/// Every regex literal in this instruction's values is accepted.
pub open spec fn instr_regexes_ok(i: Instruction) -> bool {
    match i {
        Instruction::FileInto(f) => value_regexes_ok(f.folder),
        Instruction::Redirect(r) => value_regexes_ok(r.address),
        Instruction::Test(t) => test_regexes_ok(t),
        Instruction::SetVar(s) => value_regexes_ok(s.value) && modifiers_regexes_ok(
            s.modifiers@,
            0,
        ),
        Instruction::Reject(r) => value_regexes_ok(r.reason),
        Instruction::ErrorCmd(e) => value_regexes_ok(e.message),
        Instruction::Include(inc) => value_regexes_ok(inc.name),
        _ => true,
    }
}

/// Every regex literal in the instructions from position `i` on is
/// accepted.
pub open spec fn instructions_regexes_ok(s: Seq<Instruction>, i: int) -> bool
    decreases s.len() - i,
{
    if i < 0 || i >= s.len() {
        true
    } else {
        instr_regexes_ok(s[i]) && instructions_regexes_ok(s, i + 1)
    }
}

/// Every regex literal anywhere in the program is a pattern the engine
/// accepts.
pub open spec fn sieve_regexes_ok(s: Sieve) -> bool {
    forall|k: int|
        0 <= k < s.instructions@.len() ==> instr_regexes_ok(#[trigger] s.instructions@[k])
}

/// A pointwise reading of `instructions_regexes_ok`.
proof fn lemma_instrs_ok_at(s: Seq<Instruction>, i: int, k: int)
    requires
        0 <= i <= k < s.len(),
        instructions_regexes_ok(s, i),
    ensures
        instr_regexes_ok(s[k]),
    decreases k - i,
{
    if i < k {
        lemma_instrs_ok_at(s, i + 1, k);
    }
}

fn deser_value(buf: &Vec<u8>, pos: usize) -> (r: Option<(Value, usize)>)
    ensures
        r matches Some(x) ==> pos < x.1 <= buf@.len() && enc_value(x.0) == buf@.subrange(
            pos as int,
            x.1 as int,
        ),
        r matches Some(x) ==> value_regexes_ok(x.0),
    decreases buf@.len() - pos, 0int,
{
    if pos >= buf.len() {
        return None;
    }
    let b = buf[pos];
    if b == 0 || b == 3 {
        let (bytes, p2) = match deser_bytes(buf, pos + 1) {
            Some(x) => x,
            None => {
                return None;
            },
        };
        if b == 3 && !crate::regexutil::regex_is_valid(&bytes) {
            return None;
        }
        let v = if b == 0 {
            Value::Text(bytes)
        } else {
            Value::Regex(bytes)
        };
        proof {
            assert(buf@.subrange(pos as int, p2 as int) =~= seq![buf@[pos as int]] + buf@.subrange(
                pos + 1,
                p2 as int,
            ));
            assert(enc_value(v) =~= buf@.subrange(pos as int, p2 as int));
        }
        Some((v, p2))
    } else if b == 1 {
        let (n, p2) = match deser_i64(buf, pos + 1) {
            Some(x) => x,
            None => {
                return None;
            },
        };
        let v = Value::Number(n);
        proof {
            assert(buf@.subrange(pos as int, p2 as int) =~= seq![buf@[pos as int]] + buf@.subrange(
                pos + 1,
                p2 as int,
            ));
            assert(enc_value(v) =~= buf@.subrange(pos as int, p2 as int));
        }
        Some((v, p2))
    } else if b == 2 {
        let (vt, p2) = match deser_variabletype(buf, pos + 1) {
            Some(x) => x,
            None => {
                return None;
            },
        };
        let v = Value::Variable(vt);
        proof {
            assert(buf@.subrange(pos as int, p2 as int) =~= seq![buf@[pos as int]] + buf@.subrange(
                pos + 1,
                p2 as int,
            ));
            assert(enc_value(v) =~= buf@.subrange(pos as int, p2 as int));
        }
        Some((v, p2))
    } else if b == 4 {
        let (n, p2) = match deser_u64(buf, pos + 1) {
            Some(x) => x,
            None => {
                return None;
            },
        };
        if n > usize::MAX as u64 || (n as usize) > buf.len() {
            return None;
        }
        let mut items: Vec<Value> = Vec::new();
        let p3 = match deser_values_into(buf, p2, n as usize, &mut items) {
            Some(p3) => p3,
            None => {
                return None;
            },
        };
        let v = Value::List(items);
        proof {
            assert(buf@.subrange(pos as int, p3 as int) =~= seq![buf@[pos as int]] + buf@.subrange(
                pos + 1,
                p2 as int,
            ) + buf@.subrange(p2 as int, p3 as int));
            assert(enc_value(v) =~= buf@.subrange(pos as int, p3 as int));
        }
        Some((v, p3))
    } else {
        None
    }
}

fn deser_values_into(buf: &Vec<u8>, pos: usize, n: usize, out: &mut Vec<Value>) -> (r: Option<
    usize,
>)
    ensures
        r matches Some(p) ==> pos <= p <= buf@.len() && final(out)@.len() == old(out)@.len()
            + n && final(out)@.take(old(out)@.len() as int) == old(out)@ && enc_values_from(
            final(out)@,
            old(out)@.len() as int,
        ) == buf@.subrange(pos as int, p as int),
        r matches Some(p) ==> values_regexes_ok(final(out)@, old(out)@.len() as int),
        r is None ==> final(out)@ == old(out)@,
    decreases buf@.len() - pos, 1int + n,
{
    if pos > buf.len() {
        return None;
    }
    if n == 0 {
        proof {
            assert(final(out)@.take(old(out)@.len() as int) =~= old(out)@);
            assert(enc_values_from(final(out)@, old(out)@.len() as int) =~= buf@.subrange(
                pos as int,
                pos as int,
            ));
        }
        return Some(pos);
    }
    let (v, p2) = match deser_value(buf, pos) {
        Some(x) => x,
        None => {
            return None;
        },
    };
    let ghost vval = v;
    let ghost k = out@.len();
    out.push(v);
    let ghost mid = out@;
    match deser_values_into(buf, p2, n - 1, out) {
        Some(p3) => {
            proof {
                assert(final(out)@.take(mid.len() as int) == mid);
                assert(final(out)@[k as int] == mid[k as int]);
                assert(final(out)@.take(k as int) =~= old(out)@);
                assert(final(out)@[k as int] == vval);
                assert(enc_values_from(final(out)@, k as int) == enc_value(vval)
                    + enc_values_from(final(out)@, k + 1int));
                assert(enc_values_from(final(out)@, k as int) =~= buf@.subrange(
                    pos as int,
                    p3 as int,
                ));
            }
            Some(p3)
        },
        None => {
            let _ = out.pop();
            proof {
                assert(out@ =~= old(out)@);
            }
            None
        },
    }
}

fn deser_values(buf: &Vec<u8>, pos: usize) -> (r: Option<(Vec<Value>, usize)>)
    ensures
        r matches Some(x) ==> pos < x.1 <= buf@.len() && enc_values(x.0) == buf@.subrange(
            pos as int,
            x.1 as int,
        ),
        r matches Some(x) ==> values_regexes_ok(x.0@, 0),
{
    let (n, p2) = match deser_u64(buf, pos) {
        Some(x) => x,
        None => {
            return None;
        },
    };
    if n > usize::MAX as u64 || (n as usize) > buf.len() {
        return None;
    }
    let mut items: Vec<Value> = Vec::new();
    match deser_values_into(buf, p2, n as usize, &mut items) {
        Some(p3) => {
            proof {
                assert(items@.len() as u64 == n);
                assert(enc_values(items) =~= buf@.subrange(pos as int, p3 as int));
            }
            Some((items, p3))
        },
        None => None,
    }
}


/// The coded form of a test.
pub open spec fn enc_test(t: Test) -> Seq<u8> {
    match t {
        Test::True => seq![0u8],
        Test::False => seq![1u8],
        Test::Header(h) => seq![2u8] + enc_values(h.header_list) + enc_values(h.key_list)
            + enc_matchtype(h.match_type),
        Test::StringTest(st) => seq![3u8] + enc_values(st.source) + enc_values(st.key_list)
            + enc_matchtype(st.match_type),
        Test::Size(sz) => seq![4u8] + enc_bool(sz.over) + enc_u64(sz.limit as u64),
        Test::Exists(names) => seq![5u8] + enc_values(names),
    }
}

fn ser_test(out: &mut Vec<u8>, t: &Test)
    ensures
        final(out)@ == old(out)@ + enc_test(*t),
{
    match t {
        Test::True => out.push(0),
        Test::False => out.push(1),
        Test::Header(h) => {
            out.push(2);
            ser_values(out, &h.header_list);
            ser_values(out, &h.key_list);
            ser_matchtype(out, &h.match_type);
        },
        Test::StringTest(st) => {
            out.push(3);
            ser_values(out, &st.source);
            ser_values(out, &st.key_list);
            ser_matchtype(out, &st.match_type);
        },
        Test::Size(sz) => {
            out.push(4);
            ser_bool(out, sz.over);
            ser_u64(out, sz.limit as u64);
        },
        Test::Exists(names) => {
            out.push(5);
            ser_values(out, names);
        },
    }
    proof {
        assert(final(out)@ =~= old(out)@ + enc_test(*t));
    }
}

fn deser_test(buf: &Vec<u8>, pos: usize) -> (r: Option<(Test, usize)>)
    ensures
        r matches Some(x) ==> pos < x.1 <= buf@.len() && enc_test(x.0) == buf@.subrange(
            pos as int,
            x.1 as int,
        ),
        r matches Some(x) ==> test_regexes_ok(x.0),
{
    if pos >= buf.len() {
        return None;
    }
    let b = buf[pos];
    if b == 0 || b == 1 {
        let t = if b == 0 {
            Test::True
        } else {
            Test::False
        };
        proof {
            assert(buf@.subrange(pos as int, pos + 1) =~= seq![buf@[pos as int]]);
            assert(enc_test(t) == buf@.subrange(pos as int, pos + 1));
        }
        Some((t, pos + 1))
    } else if b == 2 || b == 3 {
        let (l1, p2) = match deser_values(buf, pos + 1) {
            Some(x) => x,
            None => {
                return None;
            },
        };
        let (l2, p3) = match deser_values(buf, p2) {
            Some(x) => x,
            None => {
                return None;
            },
        };
        let (mt, p4) = match deser_matchtype(buf, p3) {
            Some(x) => x,
            None => {
                return None;
            },
        };
        let t = if b == 2 {
            Test::Header(HeaderTest { header_list: l1, key_list: l2, match_type: mt })
        } else {
            Test::StringTest(StringTest { source: l1, key_list: l2, match_type: mt })
        };
        proof {
            assert(buf@.subrange(pos as int, p4 as int) =~= seq![buf@[pos as int]] + buf@.subrange(
                pos + 1,
                p2 as int,
            ) + buf@.subrange(p2 as int, p3 as int) + buf@.subrange(p3 as int, p4 as int));
            assert(enc_test(t) =~= buf@.subrange(pos as int, p4 as int));
        }
        Some((t, p4))
    } else if b == 4 {
        let (over, p2) = match deser_bool(buf, pos + 1) {
            Some(x) => x,
            None => {
                return None;
            },
        };
        let (limit, p3) = match deser_u64(buf, p2) {
            Some(x) => x,
            None => {
                return None;
            },
        };
        if limit > usize::MAX as u64 {
            return None;
        }
        let t = Test::Size(SizeTest { over, limit: limit as usize });
        proof {
            assert(buf@.subrange(pos as int, p3 as int) =~= seq![buf@[pos as int]] + buf@.subrange(
                pos + 1,
                p2 as int,
            ) + buf@.subrange(p2 as int, p3 as int));
            assert(enc_test(t) =~= buf@.subrange(pos as int, p3 as int));
        }
        Some((t, p3))
    } else if b == 5 {
        let (names, p2) = match deser_values(buf, pos + 1) {
            Some(x) => x,
            None => {
                return None;
            },
        };
        let t = Test::Exists(names);
        proof {
            assert(buf@.subrange(pos as int, p2 as int) =~= seq![buf@[pos as int]] + buf@.subrange(
                pos + 1,
                p2 as int,
            ));
            assert(enc_test(t) =~= buf@.subrange(pos as int, p2 as int));
        }
        Some((t, p2))
    } else {
        None
    }
}

/// The coded forms of a run of capabilities, from position `i` on.
pub open spec fn enc_capabilities_from(vs: Seq<Capability>, i: int) -> Seq<u8>
    decreases vs.len() - i,
{
    if i < 0 || i >= vs.len() {
        Seq::empty()
    } else {
        enc_capability(vs[i]) + enc_capabilities_from(vs, i + 1)
    }
}

/// A capability list: its count, then each capability.
pub open spec fn enc_capabilities(v: Vec<Capability>) -> Seq<u8> {
    enc_u64(v@.len() as u64) + enc_capabilities_from(v@, 0)
}

fn ser_capabilities_from(out: &mut Vec<u8>, v: &Vec<Capability>, i: usize)
    requires
        i <= v@.len(),
    ensures
        final(out)@ == old(out)@ + enc_capabilities_from(v@, i as int),
    decreases v@.len() - i,
{
    if i == v.len() {
        proof {
            assert(final(out)@ =~= old(out)@ + enc_capabilities_from(v@, i as int));
        }
        return ;
    }
    ser_capability(out, &v[i]);
    ser_capabilities_from(out, v, i + 1);
    proof {
        assert(final(out)@ =~= old(out)@ + enc_capabilities_from(v@, i as int));
    }
}

fn ser_capabilities(out: &mut Vec<u8>, v: &Vec<Capability>)
    ensures
        final(out)@ == old(out)@ + enc_capabilities(*v),
{
    ser_u64(out, v.len() as u64);
    ser_capabilities_from(out, v, 0);
    proof {
        assert(final(out)@ =~= old(out)@ + enc_capabilities(*v));
    }
}

fn deser_capabilities_into(buf: &Vec<u8>, pos: usize, n: usize, out: &mut Vec<Capability>) -> (r:
    Option<usize>)
    ensures
        r matches Some(p) ==> pos <= p <= buf@.len() && final(out)@.len() == old(out)@.len()
            + n && final(out)@.take(old(out)@.len() as int) == old(out)@ && enc_capabilities_from(
            final(out)@,
            old(out)@.len() as int,
        ) == buf@.subrange(pos as int, p as int),
        r is None ==> final(out)@ == old(out)@,
    decreases n,
{
    if pos > buf.len() {
        return None;
    }
    if n == 0 {
        proof {
            assert(final(out)@.take(old(out)@.len() as int) =~= old(out)@);
            assert(enc_capabilities_from(final(out)@, old(out)@.len() as int) =~= buf@.subrange(
                pos as int,
                pos as int,
            ));
        }
        return Some(pos);
    }
    let (cap, p2) = match deser_capability(buf, pos) {
        Some(x) => x,
        None => {
            return None;
        },
    };
    let ghost cval = cap;
    let ghost k = out@.len();
    out.push(cap);
    let ghost mid = out@;
    match deser_capabilities_into(buf, p2, n - 1, out) {
        Some(p3) => {
            proof {
                assert(final(out)@.take(mid.len() as int) == mid);
                assert(final(out)@[k as int] == mid[k as int]);
                assert(final(out)@.take(k as int) =~= old(out)@);
                assert(enc_capabilities_from(final(out)@, k as int) == enc_capability(cval)
                    + enc_capabilities_from(final(out)@, k + 1int));
                assert(enc_capabilities_from(final(out)@, k as int) =~= buf@.subrange(
                    pos as int,
                    p3 as int,
                ));
            }
            Some(p3)
        },
        None => {
            let _ = out.pop();
            proof {
                assert(out@ =~= old(out)@);
            }
            None
        },
    }
}

fn deser_capabilities(buf: &Vec<u8>, pos: usize) -> (r: Option<(Vec<Capability>, usize)>)
    ensures
        r matches Some(x) ==> pos < x.1 <= buf@.len() && enc_capabilities(x.0) == buf@.subrange(
            pos as int,
            x.1 as int,
        ),
{
    let (n, p2) = match deser_u64(buf, pos) {
        Some(x) => x,
        None => {
            return None;
        },
    };
    if n > usize::MAX as u64 || (n as usize) > buf.len() {
        return None;
    }
    let mut items: Vec<Capability> = Vec::new();
    match deser_capabilities_into(buf, p2, n as usize, &mut items) {
        Some(p3) => {
            proof {
                assert(items@.len() as u64 == n);
                assert(enc_capabilities(items) =~= buf@.subrange(pos as int, p3 as int));
            }
            Some((items, p3))
        },
        None => None,
    }
}

/// The coded form of an instruction.
pub open spec fn enc_instruction(i: Instruction) -> Seq<u8> {
    match i {
        Instruction::Require(x) => seq![0u8] + enc_capabilities(x),
        Instruction::Keep => seq![1u8],
        Instruction::FileInto(p) => seq![2u8] + enc_value(p.folder) + enc_bool(p.copy) + enc_bool(p.create),
        Instruction::Redirect(p) => seq![3u8] + enc_value(p.address) + enc_bool(p.copy),
        Instruction::Discard => seq![4u8],
        Instruction::Stop => seq![5u8],
        Instruction::Invalid(p) => seq![6u8] + enc_bytes(p.name@) + enc_u64(p.line_num as u64) + enc_u64(p.line_pos as u64),
        Instruction::Test(x) => seq![7u8] + enc_test(x),
        Instruction::Jmp(x) => seq![8u8] + enc_u64(x as u64),
        Instruction::Jz(x) => seq![9u8] + enc_u64(x as u64),
        Instruction::Jnz(x) => seq![10u8] + enc_u64(x as u64),
        Instruction::ForEveryPartPush => seq![11u8],
        Instruction::ForEveryPart(p) => seq![12u8] + enc_u64(p.jz_pos as u64),
        Instruction::ForEveryPartPop(x) => seq![13u8] + enc_u64(x as u64),
        Instruction::SetVar(p) => seq![14u8] + enc_variabletype(p.name) + enc_value(p.value) + enc_modifiers(p.modifiers),
        Instruction::Clear(p) => seq![15u8] + enc_u64(p.match_vars) + enc_u64(p.local_vars_idx as u64) + enc_u64(p.local_vars_num as u64),
        Instruction::Reject(p) => seq![16u8] + enc_bool(p.ereject) + enc_value(p.reason),
        Instruction::ErrorCmd(p) => seq![17u8] + enc_value(p.message),
        Instruction::Include(p) => seq![18u8] + enc_location(p.location) + enc_value(p.name) + enc_bool(p.once) + enc_bool(p.optional),
        Instruction::Return => seq![19u8],
    }
}

fn ser_instruction(out: &mut Vec<u8>, i: &Instruction)
    ensures
        final(out)@ == old(out)@ + enc_instruction(*i),
{
    match i {
        Instruction::Require(x) => {
            out.push(0);
            ser_capabilities(out, x);
        },
        Instruction::Keep => out.push(1),
        Instruction::FileInto(p) => {
            out.push(2);
            ser_value(out, &p.folder);
            ser_bool(out, p.copy);
            ser_bool(out, p.create);
        },
        Instruction::Redirect(p) => {
            out.push(3);
            ser_value(out, &p.address);
            ser_bool(out, p.copy);
        },
        Instruction::Discard => out.push(4),
        Instruction::Stop => out.push(5),
        Instruction::Invalid(p) => {
            out.push(6);
            ser_bytes(out, &p.name);
            ser_u64(out, p.line_num as u64);
            ser_u64(out, p.line_pos as u64);
        },
        Instruction::Test(x) => {
            out.push(7);
            ser_test(out, x);
        },
        Instruction::Jmp(x) => {
            out.push(8);
            ser_u64(out, *x as u64);
        },
        Instruction::Jz(x) => {
            out.push(9);
            ser_u64(out, *x as u64);
        },
        Instruction::Jnz(x) => {
            out.push(10);
            ser_u64(out, *x as u64);
        },
        Instruction::ForEveryPartPush => out.push(11),
        Instruction::ForEveryPart(p) => {
            out.push(12);
            ser_u64(out, p.jz_pos as u64);
        },
        Instruction::ForEveryPartPop(x) => {
            out.push(13);
            ser_u64(out, *x as u64);
        },
        Instruction::SetVar(p) => {
            out.push(14);
            ser_variabletype(out, &p.name);
            ser_value(out, &p.value);
            ser_modifiers(out, &p.modifiers);
        },
        Instruction::Clear(p) => {
            out.push(15);
            ser_u64(out, p.match_vars);
            ser_u64(out, p.local_vars_idx as u64);
            ser_u64(out, p.local_vars_num as u64);
        },
        Instruction::Reject(p) => {
            out.push(16);
            ser_bool(out, p.ereject);
            ser_value(out, &p.reason);
        },
        Instruction::ErrorCmd(p) => {
            out.push(17);
            ser_value(out, &p.message);
        },
        Instruction::Include(p) => {
            out.push(18);
            ser_location(out, &p.location);
            ser_value(out, &p.name);
            ser_bool(out, p.once);
            ser_bool(out, p.optional);
        },
        Instruction::Return => out.push(19),
    }
    proof {
        assert(final(out)@ =~= old(out)@ + enc_instruction(*i));
    }
}

#[verifier::rlimit(60)]
fn deser_instruction(buf: &Vec<u8>, pos: usize) -> (r: Option<(Instruction, usize)>)
    ensures
        r matches Some(x) ==> pos < x.1 <= buf@.len() && enc_instruction(x.0) == buf@.subrange(
            pos as int,
            x.1 as int,
        ),
        r matches Some(x) ==> instr_regexes_ok(x.0),
{
    if pos >= buf.len() {
        return None;
    }
    let b = buf[pos];
    if b == 0 {
        let (f0, p2) = match deser_capabilities(buf, pos + 1) {
            Some(x) => x,
            None => {
                return None;
            },
        };
        let v = Instruction::Require(f0);
        proof {
            assert(buf@.subrange(pos as int, p2 as int) =~= seq![buf@[pos as int]] + buf@.subrange(pos + 1, p2 as int));
            assert(enc_instruction(v) =~= buf@.subrange(pos as int, p2 as int));
        }
        Some((v, p2))
    } else if b == 1 {
        let v = Instruction::Keep;
        proof {
            assert(buf@.subrange(pos as int, pos + 1) =~= seq![buf@[pos as int]]);
            assert(enc_instruction(v) == buf@.subrange(pos as int, pos + 1));
        }
        Some((v, pos + 1))
    } else if b == 2 {
        let (f0, p2) = match deser_value(buf, pos + 1) {
            Some(x) => x,
            None => {
                return None;
            },
        };
        let (f1, p3) = match deser_bool(buf, p2) {
            Some(x) => x,
            None => {
                return None;
            },
        };
        let (f2, p4) = match deser_bool(buf, p3) {
            Some(x) => x,
            None => {
                return None;
            },
        };
        let v = Instruction::FileInto(FileInto { folder: f0, copy: f1, create: f2 });
        proof {
            assert(buf@.subrange(pos as int, p4 as int) =~= seq![buf@[pos as int]] + buf@.subrange(pos + 1, p2 as int) + buf@.subrange(p2 as int, p3 as int) + buf@.subrange(p3 as int, p4 as int));
            assert(enc_instruction(v) =~= buf@.subrange(pos as int, p4 as int));
        }
        Some((v, p4))
    } else if b == 3 {
        let (f0, p2) = match deser_value(buf, pos + 1) {
            Some(x) => x,
            None => {
                return None;
            },
        };
        let (f1, p3) = match deser_bool(buf, p2) {
            Some(x) => x,
            None => {
                return None;
            },
        };
        let v = Instruction::Redirect(Redirect { address: f0, copy: f1 });
        proof {
            assert(buf@.subrange(pos as int, p3 as int) =~= seq![buf@[pos as int]] + buf@.subrange(pos + 1, p2 as int) + buf@.subrange(p2 as int, p3 as int));
            assert(enc_instruction(v) =~= buf@.subrange(pos as int, p3 as int));
        }
        Some((v, p3))
    } else if b == 4 {
        let v = Instruction::Discard;
        proof {
            assert(buf@.subrange(pos as int, pos + 1) =~= seq![buf@[pos as int]]);
            assert(enc_instruction(v) == buf@.subrange(pos as int, pos + 1));
        }
        Some((v, pos + 1))
    } else if b == 5 {
        let v = Instruction::Stop;
        proof {
            assert(buf@.subrange(pos as int, pos + 1) =~= seq![buf@[pos as int]]);
            assert(enc_instruction(v) == buf@.subrange(pos as int, pos + 1));
        }
        Some((v, pos + 1))
    } else if b == 6 {
        let (f0, p2) = match deser_bytes(buf, pos + 1) {
            Some(x) => x,
            None => {
                return None;
            },
        };
        let (f1, p3) = match deser_u64(buf, p2) {
            Some(x) => x,
            None => {
                return None;
            },
        };
        if f1 > usize::MAX as u64 {
            return None;
        }
        let (f2, p4) = match deser_u64(buf, p3) {
            Some(x) => x,
            None => {
                return None;
            },
        };
        if f2 > usize::MAX as u64 {
            return None;
        }
        let v = Instruction::Invalid(Invalid { name: f0, line_num: f1 as usize, line_pos: f2 as usize });
        proof {
            assert(buf@.subrange(pos as int, p4 as int) =~= seq![buf@[pos as int]] + buf@.subrange(pos + 1, p2 as int) + buf@.subrange(p2 as int, p3 as int) + buf@.subrange(p3 as int, p4 as int));
            assert(enc_instruction(v) =~= buf@.subrange(pos as int, p4 as int));
        }
        Some((v, p4))
    } else if b == 7 {
        let (f0, p2) = match deser_test(buf, pos + 1) {
            Some(x) => x,
            None => {
                return None;
            },
        };
        let v = Instruction::Test(f0);
        proof {
            assert(buf@.subrange(pos as int, p2 as int) =~= seq![buf@[pos as int]] + buf@.subrange(pos + 1, p2 as int));
            assert(enc_instruction(v) =~= buf@.subrange(pos as int, p2 as int));
        }
        Some((v, p2))
    } else if b == 8 {
        let (f0, p2) = match deser_u64(buf, pos + 1) {
            Some(x) => x,
            None => {
                return None;
            },
        };
        if f0 > usize::MAX as u64 {
            return None;
        }
        let v = Instruction::Jmp(f0 as usize);
        proof {
            assert(buf@.subrange(pos as int, p2 as int) =~= seq![buf@[pos as int]] + buf@.subrange(pos + 1, p2 as int));
            assert(enc_instruction(v) =~= buf@.subrange(pos as int, p2 as int));
        }
        Some((v, p2))
    } else if b == 9 {
        let (f0, p2) = match deser_u64(buf, pos + 1) {
            Some(x) => x,
            None => {
                return None;
            },
        };
        if f0 > usize::MAX as u64 {
            return None;
        }
        let v = Instruction::Jz(f0 as usize);
        proof {
            assert(buf@.subrange(pos as int, p2 as int) =~= seq![buf@[pos as int]] + buf@.subrange(pos + 1, p2 as int));
            assert(enc_instruction(v) =~= buf@.subrange(pos as int, p2 as int));
        }
        Some((v, p2))
    } else if b == 10 {
        let (f0, p2) = match deser_u64(buf, pos + 1) {
            Some(x) => x,
            None => {
                return None;
            },
        };
        if f0 > usize::MAX as u64 {
            return None;
        }
        let v = Instruction::Jnz(f0 as usize);
        proof {
            assert(buf@.subrange(pos as int, p2 as int) =~= seq![buf@[pos as int]] + buf@.subrange(pos + 1, p2 as int));
            assert(enc_instruction(v) =~= buf@.subrange(pos as int, p2 as int));
        }
        Some((v, p2))
    } else if b == 11 {
        let v = Instruction::ForEveryPartPush;
        proof {
            assert(buf@.subrange(pos as int, pos + 1) =~= seq![buf@[pos as int]]);
            assert(enc_instruction(v) == buf@.subrange(pos as int, pos + 1));
        }
        Some((v, pos + 1))
    } else if b == 12 {
        let (f0, p2) = match deser_u64(buf, pos + 1) {
            Some(x) => x,
            None => {
                return None;
            },
        };
        if f0 > usize::MAX as u64 {
            return None;
        }
        let v = Instruction::ForEveryPart(ForEveryPart { jz_pos: f0 as usize });
        proof {
            assert(buf@.subrange(pos as int, p2 as int) =~= seq![buf@[pos as int]] + buf@.subrange(pos + 1, p2 as int));
            assert(enc_instruction(v) =~= buf@.subrange(pos as int, p2 as int));
        }
        Some((v, p2))
    } else if b == 13 {
        let (f0, p2) = match deser_u64(buf, pos + 1) {
            Some(x) => x,
            None => {
                return None;
            },
        };
        if f0 > usize::MAX as u64 {
            return None;
        }
        let v = Instruction::ForEveryPartPop(f0 as usize);
        proof {
            assert(buf@.subrange(pos as int, p2 as int) =~= seq![buf@[pos as int]] + buf@.subrange(pos + 1, p2 as int));
            assert(enc_instruction(v) =~= buf@.subrange(pos as int, p2 as int));
        }
        Some((v, p2))
    } else if b == 14 {
        let (f0, p2) = match deser_variabletype(buf, pos + 1) {
            Some(x) => x,
            None => {
                return None;
            },
        };
        let (f1, p3) = match deser_value(buf, p2) {
            Some(x) => x,
            None => {
                return None;
            },
        };
        let (f2, p4) = match deser_modifiers(buf, p3) {
            Some(x) => x,
            None => {
                return None;
            },
        };
        let v = Instruction::SetVar(SetAction { name: f0, value: f1, modifiers: f2 });
        proof {
            assert(buf@.subrange(pos as int, p4 as int) =~= seq![buf@[pos as int]] + buf@.subrange(pos + 1, p2 as int) + buf@.subrange(p2 as int, p3 as int) + buf@.subrange(p3 as int, p4 as int));
            assert(enc_instruction(v) =~= buf@.subrange(pos as int, p4 as int));
        }
        Some((v, p4))
    } else if b == 15 {
        let (f0, p2) = match deser_u64(buf, pos + 1) {
            Some(x) => x,
            None => {
                return None;
            },
        };
        let (f1, p3) = match deser_u64(buf, p2) {
            Some(x) => x,
            None => {
                return None;
            },
        };
        if f1 > u32::MAX as u64 {
            return None;
        }
        let (f2, p4) = match deser_u64(buf, p3) {
            Some(x) => x,
            None => {
                return None;
            },
        };
        if f2 > u32::MAX as u64 {
            return None;
        }
        let v = Instruction::Clear(Clear { match_vars: f0, local_vars_idx: f1 as u32, local_vars_num: f2 as u32 });
        proof {
            assert(buf@.subrange(pos as int, p4 as int) =~= seq![buf@[pos as int]] + buf@.subrange(pos + 1, p2 as int) + buf@.subrange(p2 as int, p3 as int) + buf@.subrange(p3 as int, p4 as int));
            assert(enc_instruction(v) =~= buf@.subrange(pos as int, p4 as int));
        }
        Some((v, p4))
    } else if b == 16 {
        let (f0, p2) = match deser_bool(buf, pos + 1) {
            Some(x) => x,
            None => {
                return None;
            },
        };
        let (f1, p3) = match deser_value(buf, p2) {
            Some(x) => x,
            None => {
                return None;
            },
        };
        let v = Instruction::Reject(Reject { ereject: f0, reason: f1 });
        proof {
            assert(buf@.subrange(pos as int, p3 as int) =~= seq![buf@[pos as int]] + buf@.subrange(pos + 1, p2 as int) + buf@.subrange(p2 as int, p3 as int));
            assert(enc_instruction(v) =~= buf@.subrange(pos as int, p3 as int));
        }
        Some((v, p3))
    } else if b == 17 {
        let (f0, p2) = match deser_value(buf, pos + 1) {
            Some(x) => x,
            None => {
                return None;
            },
        };
        let v = Instruction::ErrorCmd(ErrorAction { message: f0 });
        proof {
            assert(buf@.subrange(pos as int, p2 as int) =~= seq![buf@[pos as int]] + buf@.subrange(pos + 1, p2 as int));
            assert(enc_instruction(v) =~= buf@.subrange(pos as int, p2 as int));
        }
        Some((v, p2))
    } else if b == 18 {
        let (f0, p2) = match deser_location(buf, pos + 1) {
            Some(x) => x,
            None => {
                return None;
            },
        };
        let (f1, p3) = match deser_value(buf, p2) {
            Some(x) => x,
            None => {
                return None;
            },
        };
        let (f2, p4) = match deser_bool(buf, p3) {
            Some(x) => x,
            None => {
                return None;
            },
        };
        let (f3, p5) = match deser_bool(buf, p4) {
            Some(x) => x,
            None => {
                return None;
            },
        };
        let v = Instruction::Include(Include { location: f0, name: f1, once: f2, optional: f3 });
        proof {
            assert(buf@.subrange(pos as int, p5 as int) =~= seq![buf@[pos as int]] + buf@.subrange(pos + 1, p2 as int) + buf@.subrange(p2 as int, p3 as int) + buf@.subrange(p3 as int, p4 as int) + buf@.subrange(p4 as int, p5 as int));
            assert(enc_instruction(v) =~= buf@.subrange(pos as int, p5 as int));
        }
        Some((v, p5))
    } else if b == 19 {
        let v = Instruction::Return;
        proof {
            assert(buf@.subrange(pos as int, pos + 1) =~= seq![buf@[pos as int]]);
            assert(enc_instruction(v) == buf@.subrange(pos as int, pos + 1));
        }
        Some((v, pos + 1))
    } else {
        None
    }
}


/// The coded forms of a run of instructions, from position `i` on.
pub open spec fn enc_instructions_from(vs: Seq<Instruction>, i: int) -> Seq<u8>
    decreases vs.len() - i,
{
    if i < 0 || i >= vs.len() {
        Seq::empty()
    } else {
        enc_instruction(vs[i]) + enc_instructions_from(vs, i + 1)
    }
}

/// The cached form of a compiled program: the format version, then the
/// instructions with their count, then the two variable counters.
pub open spec fn enc_sieve(s: Sieve) -> Seq<u8> {
    enc_u64(SERIAL_VERSION as u64) + enc_u64(s.instructions@.len() as u64)
        + enc_instructions_from(s.instructions@, 0) + enc_u64(s.num_vars as u64) + enc_u64(
        s.num_match_vars as u64,
    )
}

/// The version stamp checked when a cached program is read back.
pub const SERIAL_VERSION: u64 = 2;

fn ser_instructions_from(out: &mut Vec<u8>, v: &Vec<Instruction>, i: usize)
    requires
        i <= v@.len(),
    ensures
        final(out)@ == old(out)@ + enc_instructions_from(v@, i as int),
    decreases v@.len() - i,
{
    if i == v.len() {
        proof {
            assert(final(out)@ =~= old(out)@ + enc_instructions_from(v@, i as int));
        }
        return ;
    }
    ser_instruction(out, &v[i]);
    ser_instructions_from(out, v, i + 1);
    proof {
        assert(final(out)@ =~= old(out)@ + enc_instructions_from(v@, i as int));
    }
}

fn deser_instructions_into(buf: &Vec<u8>, pos: usize, n: usize, out: &mut Vec<Instruction>) -> (r:
    Option<usize>)
    ensures
        r matches Some(p) ==> pos <= p <= buf@.len() && final(out)@.len() == old(out)@.len()
            + n && final(out)@.take(old(out)@.len() as int) == old(out)@ && enc_instructions_from(
            final(out)@,
            old(out)@.len() as int,
        ) == buf@.subrange(pos as int, p as int),
        r matches Some(p) ==> instructions_regexes_ok(final(out)@, old(out)@.len() as int),
        r is None ==> final(out)@ == old(out)@,
    decreases n,
{
    if pos > buf.len() {
        return None;
    }
    if n == 0 {
        proof {
            assert(final(out)@.take(old(out)@.len() as int) =~= old(out)@);
            assert(enc_instructions_from(final(out)@, old(out)@.len() as int) =~= buf@.subrange(
                pos as int,
                pos as int,
            ));
        }
        return Some(pos);
    }
    let (instr, p2) = match deser_instruction(buf, pos) {
        Some(x) => x,
        None => {
            return None;
        },
    };
    let ghost ival = instr;
    let ghost k = out@.len();
    out.push(instr);
    let ghost mid = out@;
    match deser_instructions_into(buf, p2, n - 1, out) {
        Some(p3) => {
            proof {
                assert(final(out)@.take(mid.len() as int) == mid);
                assert(final(out)@[k as int] == mid[k as int]);
                assert(final(out)@.take(k as int) =~= old(out)@);
                assert(enc_instructions_from(final(out)@, k as int) == enc_instruction(ival)
                    + enc_instructions_from(final(out)@, k + 1int));
                assert(enc_instructions_from(final(out)@, k as int) =~= buf@.subrange(
                    pos as int,
                    p3 as int,
                ));
            }
            Some(p3)
        },
        None => {
            let _ = out.pop();
            proof {
                assert(out@ =~= old(out)@);
            }
            None
        },
    }
}

/// Checks a program's well-formedness: every jump resolved and in range,
/// every local reference under the peak count.
pub fn check_wf(s: &Sieve) -> (r: bool)
    ensures
        r == s.wf(),
{
    let len = s.instructions.len();
    let mut k: usize = 0;
    while k < len
        invariant
            len == s.instructions@.len(),
            k <= len,
            forall|j: int|
                0 <= j < k ==> crate::instruction::instr_jumps_ok(
                    #[trigger] s.instructions@[j],
                    len as int,
                ) && crate::instruction::instr_local_bound(s.instructions@[j]) <= s.num_vars as int,
        decreases len - k,
    {
        let ok: bool = match &s.instructions[k] {
            Instruction::Jmp(t) => *t <= len && *t < usize::MAX,
            Instruction::Jz(t) => *t <= len && *t < usize::MAX,
            Instruction::Jnz(t) => *t <= len && *t < usize::MAX,
            Instruction::ForEveryPart(f) => f.jz_pos <= len && f.jz_pos < usize::MAX,
            Instruction::SetVar(a) => match &a.name {
                VariableType::Local(n) => *n < usize::MAX && *n < s.num_vars,
                _ => true,
            },
            Instruction::Clear(cl) => cl.local_vars_idx as u64 + cl.local_vars_num as u64
                <= s.num_vars as u64,
            _ => true,
        };
        if !ok {
            return false;
        }
        k += 1;
    }
    true
}

/// Writes a compiled program in its cached byte form.
pub fn serialize(s: &Sieve) -> (r: Vec<u8>)
    ensures
        r@ == enc_sieve(*s),
{
    let mut out: Vec<u8> = Vec::new();
    ser_u64(&mut out, SERIAL_VERSION);
    ser_u64(&mut out, s.instructions.len() as u64);
    ser_instructions_from(&mut out, &s.instructions, 0);
    ser_u64(&mut out, s.num_vars as u64);
    ser_u64(&mut out, s.num_match_vars as u64);
    proof {
        assert(out@ =~= enc_sieve(*s));
    }
    out
}

/// Reads a compiled program back from its cached byte form. Whatever comes
/// back is well formed, holds only regex patterns the engine accepts, and
/// re-encodes to exactly the given bytes, so a cached program can never be
/// silently altered.
pub fn deserialize(buf: &Vec<u8>) -> (r: Option<Sieve>)
    ensures
        r matches Some(s) ==> enc_sieve(s) == buf@ && s.wf() && sieve_regexes_ok(s),
{
    let (version, p1) = match deser_u64(buf, 0) {
        Some(x) => x,
        None => {
            return None;
        },
    };
    if version != SERIAL_VERSION {
        return None;
    }
    let (n, p2) = match deser_u64(buf, p1) {
        Some(x) => x,
        None => {
            return None;
        },
    };
    if n > usize::MAX as u64 || (n as usize) > buf.len() {
        return None;
    }
    let mut instructions: Vec<Instruction> = Vec::new();
    let p3 = match deser_instructions_into(buf, p2, n as usize, &mut instructions) {
        Some(p) => p,
        None => {
            return None;
        },
    };
    let (num_vars, p4) = match deser_u64(buf, p3) {
        Some(x) => x,
        None => {
            return None;
        },
    };
    let (num_match_vars, p5) = match deser_u64(buf, p4) {
        Some(x) => x,
        None => {
            return None;
        },
    };
    if num_vars > usize::MAX as u64 || num_match_vars > usize::MAX as u64 {
        return None;
    }
    if p5 != buf.len() {
        return None;
    }
    let s = Sieve {
        instructions,
        num_vars: num_vars as usize,
        num_match_vars: num_match_vars as usize,
    };
    if !check_wf(&s) {
        return None;
    }
    proof {
        assert(s.instructions@.len() as u64 == n);
        assert(enc_sieve(s) =~= buf@);
        assert forall|k: int| 0 <= k < s.instructions@.len() implies instr_regexes_ok(
            #[trigger] s.instructions@[k],
        ) by {
            lemma_instrs_ok_at(s.instructions@, 0, k);
        }
    }
    Some(s)
}

} // verus!
