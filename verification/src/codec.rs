//! Boundary to the wire codec.
//!
//! The client treats the OSC wire format as a provided codec: `rosc` turns
//! messages into datagram bytes and back.  The trusted items below give that
//! codec a contract in terms of three named functions: `wire_bytes` (what
//! encoding a message yields), `wire_parse` (what messages a datagram parses
//! into), and `wire_msg` (the value a parsed wire message carries).  The
//! round-trip fact — a well-formed message encodes to bytes that parse back
//! to exactly that message — is stated where the encoder is trusted and is
//! what every contract downstream builds on.

use vstd::prelude::*;
use crate::error::{ScClientError, ScErrorKind};
use crate::types::{message_well_formed, msg_wf};

verus! {

#[verifier::external_type_specification]
#[verifier::external_body]
pub struct ExOscMessage(rosc::OscMessage);

/// The bytes that encoding a message yields; a function of the message
/// alone.
pub uninterp spec fn wire_bytes(m: crate::types::MessageView) -> Seq<u8>;

/// The wire messages a datagram parses into: one for a message datagram,
/// the directly contained messages in order for a bundle datagram, and
/// nothing for a malformed datagram.
pub uninterp spec fn wire_parse(b: Seq<u8>) -> Option<Seq<rosc::OscMessage>>;

/// The value a parsed wire message carries, when all its arguments are of
/// the kinds this client speaks (integer, float, string, blob).
pub uninterp spec fn wire_msg(m: rosc::OscMessage) -> Option<crate::types::MessageView>;

/// The bytes parse as exactly the one message `m`: this is what a
/// well-formed message's encoding is trusted to satisfy.
pub open spec fn encodes_exactly(b: Seq<u8>, m: crate::types::MessageView) -> bool {
    wire_parse(b) matches Some(s) && s.len() == 1 && wire_msg(s[0]) == Some(m)
}

/// Relies on rosc::encoder::encode: the bytes depend on the message alone,
/// and on nom::number::complete::be_f32: it rebuilds the 32-bit float from
/// its big-endian bit pattern, exactly inverting what the encoder writes.
/// Further: rosc::decoder::decode_udp parses the bytes back to the same
/// message — the encoder writes the address and each string argument
/// NUL-terminated (so they must be NUL-free to survive), the decoder accepts
/// only addresses starting with '/', and integer, float (by bit pattern),
/// string and blob payloads are written and read back exactly.
#[verifier::external_body]
fn encode_wire(m: &crate::types::Message) -> (r: Vec<u8>)
    ensures
        r@ == wire_bytes(m@),
        msg_wf(m@) ==> encodes_exactly(r@, m@),
{
    let args = m.args.iter().map(|a| match a {
        crate::types::OscType::Int(x) => rosc::OscType::Int(*x),
        crate::types::OscType::Float(x) => rosc::OscType::Float(
            nom::number::complete::be_f32::<_, nom::error::Error<_>>(x.to_be_bytes().as_slice())
                .unwrap().1,
        ),
        crate::types::OscType::Str(s) => rosc::OscType::String(s.clone()),
        crate::types::OscType::Blob(b) => rosc::OscType::Blob(b.clone()),
    }).collect();
    let msg = rosc::OscMessage { addr: m.addr.clone(), args };
    rosc::encoder::encode(&rosc::OscPacket::Message(msg)).unwrap_or_default()
}

/// Relies on rosc::decoder::decode_udp: a datagram is either one message, a
/// bundle whose content is taken message by message (the protocol's control
/// path never nests bundles, so nested bundles are dropped), or malformed.
#[verifier::external_body]
fn decode_wire(buf: &[u8]) -> (r: Option<Vec<rosc::OscMessage>>)
    ensures
        match r {
            Some(v) => wire_parse(buf@) == Some(v@),
            None => wire_parse(buf@) is None,
        },
{
    match rosc::decoder::decode_udp(buf) {
        Ok((_, rosc::OscPacket::Message(m))) => Some(vec![m]),
        Ok((_, rosc::OscPacket::Bundle(b))) => Some(
            b.content.into_iter().filter_map(|p| match p {
                rosc::OscPacket::Message(m) => Some(m),
                rosc::OscPacket::Bundle(_) => None,
            }).collect(),
        ),
        Err(_) => None,
    }
}

/// Relies on the field layout of rosc::OscMessage: the address and the
/// arguments are moved across, variant by variant; an argument kind this
/// client does not speak makes the whole message unusable.
#[verifier::external_body]
fn message_from_wire(m: rosc::OscMessage) -> (r: Option<crate::types::Message>)
    ensures
        match r {
            Some(x) => wire_msg(m) == Some(x@),
            None => wire_msg(m) is None,
        },
{
    let mut args: Vec<crate::types::OscType> = Vec::with_capacity(m.args.len());
    for a in m.args {
        args.push(match a {
            rosc::OscType::Int(x) => crate::types::OscType::Int(x),
            rosc::OscType::Float(x) => crate::types::OscType::Float(x.to_bits()),
            rosc::OscType::String(s) => crate::types::OscType::Str(s),
            rosc::OscType::Blob(b) => crate::types::OscType::Blob(b),
            _ => return None,
        });
    }
    Some(crate::types::Message { addr: m.addr, args })
}

/// The messages a sequence of wire messages carries, or nothing when any of
/// them carries an argument kind this client does not speak.
pub open spec fn lift_msgs(ms: Seq<rosc::OscMessage>) -> Option<Seq<crate::types::MessageView>>
    decreases ms.len(),
{
    if ms.len() == 0 {
        Some(Seq::empty())
    } else {
        match (wire_msg(ms[0]), lift_msgs(ms.drop_first())) {
            (Some(v), Some(rest)) => Some(seq![v] + rest),
            _ => None,
        }
    }
}

/// The messages a datagram carries: what the codec parses, lifted to values.
pub open spec fn parse_datagram(b: Seq<u8>) -> Option<Seq<crate::types::MessageView>> {
    match wire_parse(b) {
        Some(ms) => lift_msgs(ms),
        None => None,
    }
}

proof fn lemma_lift_append(a: Seq<rosc::OscMessage>, b: Seq<rosc::OscMessage>)
    ensures
        lift_msgs(a + b) == (match (lift_msgs(a), lift_msgs(b)) {
            (Some(x), Some(y)) => Some(x + y),
            _ => None::<Seq<crate::types::MessageView>>,
        }),
    decreases a.len(),
{
    if a.len() == 0 {
        assert(a + b =~= b);
        if lift_msgs(b) is Some {
            assert(Seq::<crate::types::MessageView>::empty() + lift_msgs(b)->0 =~= lift_msgs(b)->0);
        }
    } else {
        assert((a + b).len() > 0);
        assert((a + b)[0] == a[0]);
        assert((a + b).drop_first() =~= a.drop_first() + b);
        lemma_lift_append(a.drop_first(), b);
        if wire_msg(a[0]) is Some && lift_msgs(a.drop_first()) is Some && lift_msgs(b) is Some {
            let v = wire_msg(a[0])->0;
            let x = lift_msgs(a.drop_first())->0;
            let y = lift_msgs(b)->0;
            assert(seq![v] + (x + y) =~= (seq![v] + x) + y);
        }
    }
}

proof fn lemma_lift_singleton(m: rosc::OscMessage)
    ensures
        lift_msgs(seq![m]) == (match wire_msg(m) {
            Some(v) => Some(seq![v]),
            None => None::<Seq<crate::types::MessageView>>,
        }),
{
    let s = seq![m];
    assert(s.len() == 1);
    assert(s[0] == m);
    assert(s.drop_first() =~= Seq::<rosc::OscMessage>::empty());
    assert(lift_msgs(Seq::<rosc::OscMessage>::empty()) == Some(
        Seq::<crate::types::MessageView>::empty(),
    ));
    if wire_msg(m) is Some {
        let v = wire_msg(m)->0;
        assert(seq![v] + Seq::<crate::types::MessageView>::empty() =~= seq![v]);
        assert(lift_msgs(s) == Some(seq![v] + Seq::<crate::types::MessageView>::empty()));
    } else {
        assert(lift_msgs(s) is None);
    }
}

/// Encode a message for transmission.  A well-formed message always
/// encodes; a malformed one is rejected before it can be corrupted in
/// transit.
pub fn encode_message(m: &crate::types::Message) -> (r: Result<Vec<u8>, ScClientError>)
    ensures
        msg_wf(m@) ==> (r matches Ok(b) && b@ == wire_bytes(m@)),
        !msg_wf(m@) ==> (r matches Err(e) && e.kind == ScErrorKind::Encoding),
{
    if !message_well_formed(m) {
        return Err(ScClientError::with_kind(ScErrorKind::Encoding, "malformed outbound message"));
    }
    Ok(encode_wire(m))
}

/// Decode one received datagram into the messages it carries, in order.
/// A malformed datagram, and one carrying an argument kind this client
/// does not speak, decodes to nothing.
pub fn decode_datagram(buf: &[u8]) -> (r: Option<Vec<crate::types::Message>>)
    ensures
        match r {
            Some(v) => parse_datagram(buf@) == Some(v.deep_view()),
            None => parse_datagram(buf@) is None,
        },
{
    let raw = decode_wire(buf);
    match raw {
        None => None,
        Some(mut rest) => {
            let ghost orig = rest@;
            let mut out: Vec<crate::types::Message> = Vec::new();
            let ghost k: int = 0;
            while rest.len() > 0
                invariant
                    0 <= k <= orig.len(),
                    rest@ =~= orig.subrange(k, orig.len() as int),
                    lift_msgs(orig.subrange(0, k)) == Some(out.deep_view()),
                    wire_parse(buf@) == Some(orig),
                decreases rest.len(),
            {
                let m = rest.remove(0);
                proof {
                    assert(m == orig[k]);
                    assert(rest@ =~= orig.subrange(k + 1, orig.len() as int));
                }
                match message_from_wire(m) {
                    Some(x) => {
                        let ghost prev_out = out.deep_view();
                        out.push(x);
                        proof {
                            lemma_lift_append(orig.subrange(0, k), seq![orig[k]]);
                            lemma_lift_singleton(orig[k]);
                            assert(orig.subrange(0, k) + seq![orig[k]] =~= orig.subrange(
                                0,
                                k + 1,
                            ));
                            assert(out.deep_view() =~= prev_out + seq![x@]);
                            assert(prev_out + seq![x@] =~= prev_out.push(x@));
                            assert(lift_msgs(orig.subrange(0, k + 1)) == Some(out.deep_view()));
                        }
                        proof {
                            k = k + 1;
                        }
                    },
                    None => {
                        proof {
                            let suffix = orig.subrange(k, orig.len() as int);
                            assert(suffix.len() > 0);
                            assert(suffix[0] == orig[k]);
                            assert(lift_msgs(suffix) is None);
                            lemma_lift_append(orig.subrange(0, k), suffix);
                            assert(orig.subrange(0, k) + suffix =~= orig);
                            assert(lift_msgs(orig) is None);
                        }
                        return None;
                    },
                }
            }
            proof {
                assert(orig.subrange(0, k) =~= orig);
            }
            Some(out)
        },
    }
}

/// Round trip: encoding a well-formed message and decoding the resulting
/// bytes yields exactly that message and nothing else.
pub fn encode_then_decode(m: &crate::types::Message) -> (r: Option<Vec<crate::types::Message>>)
    ensures
        msg_wf(m@) ==> (r matches Some(v) && v.deep_view() == seq![m@]),
{
    let bytes = encode_wire(m);
    let r = decode_datagram(bytes.as_slice());
    proof {
        if msg_wf(m@) {
            let s = wire_parse(bytes@)->0;
            assert(s =~= seq![s[0]]);
            lemma_lift_singleton(s[0]);
            assert(parse_datagram(bytes@) == Some(seq![m@]));
        }
    }
    r
}

} // verus!
