//! The wire format of a metric packet. A packet travels as one datagram:
//! an eight-byte little-endian length, the origin label's UTF-8 bytes, the
//! timestamp, a sample tag, and the sample's counters, each counter as one
//! nine-byte scalar (a sign byte and a little-endian magnitude). Encoding and
//! decoding are exact inverses — the round trip is proved below — and a
//! malformed datagram is reported, never trusted.

use vstd::prelude::*;
use vstd::bytes::{
    lemma_auto_spec_u64_to_from_le_bytes, spec_u64_from_le_bytes, spec_u64_to_le_bytes,
    u64_from_le_bytes, u64_to_le_bytes,
};
use vstd::slice::{slice_subrange, slice_to_vec};
use vstd::string::StrSliceExecFns;
use vstd::utf8::{
    decode_utf8, encode_utf8, encode_utf8_decode_utf8, encode_utf8_valid_utf8, valid_utf8,
};
use crate::proc_fs::bytes_to_string;
use crate::proc_fs::net::TcpStat;
use crate::proc_fs::stats::ProcStatm;
use crate::publisher::{Metric, MetricPacket, PacketView};

verus! {

/// A datagram that is not a well-formed packet.
#[derive(Clone, Copy, PartialEq, Eq, Structural, Debug)]
pub enum CodecError {
    Malformed,
}

/// One unsigned counter on the wire: a zero sign byte, then the magnitude.
pub open spec fn spec_enc_unsigned(x: u64) -> Seq<u8> {
    seq![0u8] + spec_u64_to_le_bytes(x)
}

/// One signed counter on the wire: a sign byte, then the magnitude. A
/// negative value carries its absolute value, so zero is always written with
/// sign zero and every value has exactly one encoding.
pub open spec fn spec_enc_signed(x: i64) -> Seq<u8> {
    if x >= 0 {
        seq![0u8] + spec_u64_to_le_bytes(x as u64)
    } else {
        seq![1u8] + spec_u64_to_le_bytes((-(x as int)) as u64)
    }
}

/// Reads one unsigned counter; the sign byte must be zero.
pub open spec fn spec_dec_unsigned(v: Seq<u8>) -> Option<u64> {
    if v.len() == 9 && v[0] == 0 {
        Some(spec_u64_from_le_bytes(v.skip(1)))
    } else {
        None
    }
}

/// Reads one signed counter, rejecting magnitudes out of range and the
/// non-canonical negative zero.
pub open spec fn spec_dec_signed(v: Seq<u8>) -> Option<i64> {
    if v.len() != 9 {
        None
    } else {
        let mag = spec_u64_from_le_bytes(v.skip(1));
        if v[0] == 0 {
            if mag <= i64::MAX as u64 {
                Some(mag as i64)
            } else {
                None
            }
        } else if v[0] == 1 {
            if 1 <= mag && mag <= 0x8000_0000_0000_0000u64 {
                Some((-(mag as int)) as i64)
            } else {
                None
            }
        } else {
            None
        }
    }
}

pub proof fn lemma_unsigned_scalar(x: u64)
    ensures
        spec_enc_unsigned(x).len() == 9,
        spec_dec_unsigned(spec_enc_unsigned(x)) == Some(x),
{
    lemma_auto_spec_u64_to_from_le_bytes();
    assert(spec_u64_to_le_bytes(x).len() == 8);
    assert(spec_enc_unsigned(x).skip(1) =~= spec_u64_to_le_bytes(x));
}

pub proof fn lemma_signed_scalar(x: i64)
    ensures
        spec_enc_signed(x).len() == 9,
        spec_dec_signed(spec_enc_signed(x)) == Some(x),
{
    lemma_auto_spec_u64_to_from_le_bytes();
    if x >= 0 {
        assert(spec_u64_to_le_bytes(x as u64).len() == 8);
        assert(spec_enc_signed(x).skip(1) =~= spec_u64_to_le_bytes(x as u64));
    } else {
        let mag = (-(x as int)) as u64;
        assert(spec_u64_to_le_bytes(mag).len() == 8);
        assert(spec_enc_signed(x).skip(1) =~= spec_u64_to_le_bytes(mag));
        assert(1 <= mag && mag <= 0x8000_0000_0000_0000u64);
        assert((-(mag as int)) as i64 == x);
    }
}

/// The TCP sample's fourteen counters on the wire.
pub open spec fn spec_enc_tcp(t: TcpStat) -> Seq<u8> {
    spec_enc_signed(t.rto_algorithm as i64) + spec_enc_signed(t.rto_min) + spec_enc_signed(
        t.rto_max,
    ) + spec_enc_signed(t.max_conn) + spec_enc_unsigned(t.active_opens) + spec_enc_unsigned(
        t.passive_opens,
    ) + spec_enc_unsigned(t.attempt_fails) + spec_enc_unsigned(t.establish_resets)
        + spec_enc_unsigned(t.current_establish) + spec_enc_unsigned(t.segments_received)
        + spec_enc_unsigned(t.segments_sent) + spec_enc_unsigned(t.segments_retransmitted)
        + spec_enc_unsigned(t.segments_errors_received) + spec_enc_unsigned(t.resets_sent)
}

/// Reads a TCP sample's counters; the first must fit the algorithm's byte.
pub open spec fn spec_dec_tcp(v: Seq<u8>) -> Option<TcpStat> {
    if v.len() != 126 {
        None
    } else {
        let f0 = spec_dec_signed(v.subrange(0, 9));
        let f1 = spec_dec_signed(v.subrange(9, 18));
        let f2 = spec_dec_signed(v.subrange(18, 27));
        let f3 = spec_dec_signed(v.subrange(27, 36));
        let f4 = spec_dec_unsigned(v.subrange(36, 45));
        let f5 = spec_dec_unsigned(v.subrange(45, 54));
        let f6 = spec_dec_unsigned(v.subrange(54, 63));
        let f7 = spec_dec_unsigned(v.subrange(63, 72));
        let f8 = spec_dec_unsigned(v.subrange(72, 81));
        let f9 = spec_dec_unsigned(v.subrange(81, 90));
        let f10 = spec_dec_unsigned(v.subrange(90, 99));
        let f11 = spec_dec_unsigned(v.subrange(99, 108));
        let f12 = spec_dec_unsigned(v.subrange(108, 117));
        let f13 = spec_dec_unsigned(v.subrange(117, 126));
        if f0 is Some && -128 <= f0->Some_0 <= 127 && f1 is Some && f2 is Some && f3 is Some
            && f4 is Some && f5 is Some && f6 is Some && f7 is Some && f8 is Some && f9 is Some
            && f10 is Some && f11 is Some && f12 is Some && f13 is Some {
            Some(
                TcpStat {
                    rto_algorithm: f0->Some_0 as i8,
                    rto_min: f1->Some_0,
                    rto_max: f2->Some_0,
                    max_conn: f3->Some_0,
                    active_opens: f4->Some_0,
                    passive_opens: f5->Some_0,
                    attempt_fails: f6->Some_0,
                    establish_resets: f7->Some_0,
                    current_establish: f8->Some_0,
                    segments_received: f9->Some_0,
                    segments_sent: f10->Some_0,
                    segments_retransmitted: f11->Some_0,
                    segments_errors_received: f12->Some_0,
                    resets_sent: f13->Some_0,
                },
            )
        } else {
            None
        }
    }
}

/// The memory sample's seven counters on the wire.
pub open spec fn spec_enc_statm(s: ProcStatm) -> Seq<u8> {
    spec_enc_unsigned(s.size) + spec_enc_unsigned(s.resident) + spec_enc_unsigned(s.share)
        + spec_enc_unsigned(s.text) + spec_enc_unsigned(s.lib) + spec_enc_unsigned(s.data)
        + spec_enc_unsigned(s.dt)
}

/// Reads a memory sample's counters.
pub open spec fn spec_dec_statm(v: Seq<u8>) -> Option<ProcStatm> {
    if v.len() != 63 {
        None
    } else {
        let f0 = spec_dec_unsigned(v.subrange(0, 9));
        let f1 = spec_dec_unsigned(v.subrange(9, 18));
        let f2 = spec_dec_unsigned(v.subrange(18, 27));
        let f3 = spec_dec_unsigned(v.subrange(27, 36));
        let f4 = spec_dec_unsigned(v.subrange(36, 45));
        let f5 = spec_dec_unsigned(v.subrange(45, 54));
        let f6 = spec_dec_unsigned(v.subrange(54, 63));
        if f0 is Some && f1 is Some && f2 is Some && f3 is Some && f4 is Some && f5 is Some
            && f6 is Some {
            Some(
                ProcStatm {
                    size: f0->Some_0,
                    resident: f1->Some_0,
                    share: f2->Some_0,
                    text: f3->Some_0,
                    lib: f4->Some_0,
                    data: f5->Some_0,
                    dt: f6->Some_0,
                },
            )
        } else {
            None
        }
    }
}

/// One sample on the wire: its tag byte, then its counters.
pub open spec fn spec_enc_metric(m: Metric) -> Seq<u8> {
    match m {
        Metric::Network(t) => seq![0u8] + spec_enc_tcp(t),
        Metric::Process(s) => seq![1u8] + spec_enc_statm(s),
    }
}

/// A packet's origin label can be carried only if its byte length fits the
/// length field.
pub open spec fn packet_wf(origin: Seq<char>, timestamp: i64, data: Metric) -> bool {
    encode_utf8(origin).len() <= u64::MAX
}

/// A whole packet on the wire.
pub open spec fn spec_enc_packet(origin: Seq<char>, timestamp: i64, data: Metric) -> Seq<u8> {
    spec_u64_to_le_bytes(encode_utf8(origin).len() as u64) + encode_utf8(origin)
        + spec_enc_signed(timestamp) + spec_enc_metric(data)
}

/// Reads a whole packet, or nothing if any part of the datagram is not
/// exactly as the format demands.
pub open spec fn spec_dec_packet(v: Seq<u8>) -> Option<PacketView> {
    if v.len() < 8 {
        None
    } else {
        let n = spec_u64_from_le_bytes(v.take(8)) as int;
        if v.len() < 8 + n {
            None
        } else {
            let ob = v.subrange(8, 8 + n);
            if !valid_utf8(ob) {
                None
            } else {
                let rest = v.skip(8 + n);
                if rest.len() < 10 {
                    None
                } else {
                    let ts = spec_dec_signed(rest.take(9));
                    if ts is None {
                        None
                    } else {
                        let tag = rest[9];
                        let body = rest.skip(10);
                        if tag == 0 {
                            match spec_dec_tcp(body) {
                                Some(t) => Some(
                                    PacketView {
                                        origin: decode_utf8(ob),
                                        timestamp: ts->Some_0 as int,
                                        data: Metric::Network(t),
                                    },
                                ),
                                None => None,
                            }
                        } else if tag == 1 {
                            match spec_dec_statm(body) {
                                Some(s) => Some(
                                    PacketView {
                                        origin: decode_utf8(ob),
                                        timestamp: ts->Some_0 as int,
                                        data: Metric::Process(s),
                                    },
                                ),
                                None => None,
                            }
                        } else {
                            None
                        }
                    }
                }
            }
        }
    }
}

/// Appends one unsigned counter.
fn push_unsigned(out: &mut Vec<u8>, x: u64)
    ensures
        final(out)@ == old(out)@ + spec_enc_unsigned(x),
{
    out.push(0);
    let mut b = u64_to_le_bytes(x);
    out.append(&mut b);
    proof {
        assert(out@ =~= old(out)@ + spec_enc_unsigned(x));
    }
}

/// Appends one signed counter.
fn push_signed(out: &mut Vec<u8>, x: i64)
    ensures
        final(out)@ == old(out)@ + spec_enc_signed(x),
{
    if x >= 0 {
        out.push(0);
        let mut b = u64_to_le_bytes(x as u64);
        out.append(&mut b);
    } else {
        out.push(1);
        let mag: u64 = ((-(x + 1)) as u64) + 1;
        proof {
            assert(mag == (-(x as int)) as u64);
        }
        let mut b = u64_to_le_bytes(mag);
        out.append(&mut b);
    }
    proof {
        assert(out@ =~= old(out)@ + spec_enc_signed(x));
    }
}

/// Appends one sample: its tag, then its counters.
fn encode_metric(out: &mut Vec<u8>, m: &Metric)
    ensures
        final(out)@ == old(out)@ + spec_enc_metric(*m),
{
    match m {
        Metric::Network(t) => {
            out.push(0);
            push_signed(out, t.rto_algorithm as i64);
            push_signed(out, t.rto_min);
            push_signed(out, t.rto_max);
            push_signed(out, t.max_conn);
            push_unsigned(out, t.active_opens);
            push_unsigned(out, t.passive_opens);
            push_unsigned(out, t.attempt_fails);
            push_unsigned(out, t.establish_resets);
            push_unsigned(out, t.current_establish);
            push_unsigned(out, t.segments_received);
            push_unsigned(out, t.segments_sent);
            push_unsigned(out, t.segments_retransmitted);
            push_unsigned(out, t.segments_errors_received);
            push_unsigned(out, t.resets_sent);
            proof {
                assert(out@ =~= old(out)@ + spec_enc_metric(*m));
            }
        },
        Metric::Process(s) => {
            out.push(1);
            push_unsigned(out, s.size);
            push_unsigned(out, s.resident);
            push_unsigned(out, s.share);
            push_unsigned(out, s.text);
            push_unsigned(out, s.lib);
            push_unsigned(out, s.data);
            push_unsigned(out, s.dt);
            proof {
                assert(out@ =~= old(out)@ + spec_enc_metric(*m));
            }
        },
    }
}

/// Serializes one packet for transmission.
pub fn encode_packet(p: &MetricPacket) -> (out: Vec<u8>)
    ensures
        out@ == spec_enc_packet(p.origin@, p.timestamp, p.data),
{
    let mut ob = p.origin.as_str().as_bytes_vec();
    let mut out = u64_to_le_bytes(ob.len() as u64);
    out.append(&mut ob);
    push_signed(&mut out, p.timestamp);
    encode_metric(&mut out, &p.data);
    proof {
        assert(out@ =~= spec_enc_packet(p.origin@, p.timestamp, p.data));
    }
    out
}

/// Reads one unsigned counter at a given offset.
fn read_unsigned(v: &Vec<u8>, at: usize) -> (r: Option<u64>)
    requires
        at + 9 <= v@.len(),
    ensures
        r == spec_dec_unsigned(v@.subrange(at as int, at as int + 9)),
{
    proof {
        assert(v@.subrange(at as int, at as int + 9).skip(1) =~= v@.subrange(
            at as int + 1,
            at as int + 9,
        ));
        assert(v@.subrange(at as int, at as int + 9)[0] == v@[at as int]);
    }
    let len = v.len();
    proof {
        assert(at + 9 <= len);
    }
    let sign = v[at];
    if sign != 0 {
        return None;
    }
    let s = slice_subrange(v.as_slice(), at + 1, at + 9);
    Some(u64_from_le_bytes(s))
}

/// Reads one signed counter at a given offset.
fn read_signed(v: &Vec<u8>, at: usize) -> (r: Option<i64>)
    requires
        at + 9 <= v@.len(),
    ensures
        r == spec_dec_signed(v@.subrange(at as int, at as int + 9)),
{
    proof {
        assert(v@.subrange(at as int, at as int + 9).skip(1) =~= v@.subrange(
            at as int + 1,
            at as int + 9,
        ));
        assert(v@.subrange(at as int, at as int + 9)[0] == v@[at as int]);
    }
    let len = v.len();
    proof {
        assert(at + 9 <= len);
    }
    let sign = v[at];
    let s = slice_subrange(v.as_slice(), at + 1, at + 9);
    let mag = u64_from_le_bytes(s);
    if sign == 0 {
        if mag <= 0x7fff_ffff_ffff_ffffu64 {
            Some(mag as i64)
        } else {
            None
        }
    } else if sign == 1 {
        if 1 <= mag && mag <= 0x8000_0000_0000_0000u64 {
            if mag == 0x8000_0000_0000_0000u64 {
                Some(i64::MIN)
            } else {
                Some(-(mag as i64))
            }
        } else {
            None
        }
    } else {
        None
    }
}

/// Deserializes one datagram, reporting anything malformed.
pub fn decode_packet(v: &Vec<u8>) -> (r: Result<MetricPacket, CodecError>)
    ensures
        r is Ok <==> spec_dec_packet(v@) is Some,
        r is Ok ==> r->Ok_0@ == spec_dec_packet(v@)->Some_0,
        r is Err ==> r->Err_0 == CodecError::Malformed,
{
    if v.len() < 8 {
        return Err(CodecError::Malformed);
    }
    proof {
        assert(v@.subrange(0, 8) =~= v@.take(8));
    }
    let s = slice_subrange(v.as_slice(), 0, 8);
    let n64 = u64_from_le_bytes(s);
    if n64 > (v.len() - 8) as u64 {
        return Err(CodecError::Malformed);
    }
    let n = n64 as usize;
    let ob_slice = slice_subrange(v.as_slice(), 8, 8 + n);
    let ob = slice_to_vec(ob_slice);
    let ghost origin_bytes = ob@;
    let origin = match bytes_to_string(ob) {
        Some(s) => s,
        None => {
            return Err(CodecError::Malformed);
        },
    };
    proof {
        encode_utf8_decode_utf8(origin@);
        assert(origin_bytes == v@.subrange(8, 8 + n64 as int));
    }
    let base = 8 + n;
    if v.len() - base < 10 {
        proof {
            assert(v@.skip(base as int).len() < 10);
        }
        return Err(CodecError::Malformed);
    }
    proof {
        assert(v@.skip(base as int).take(9) =~= v@.subrange(base as int, base as int + 9));
        assert(v@.skip(base as int)[9] == v@[base as int + 9]);
        assert(v@.skip(base as int).skip(10) =~= v@.skip(base as int + 10));
    }
    let ts = match read_signed(v, base) {
        Some(t) => t,
        None => {
            return Err(CodecError::Malformed);
        },
    };
    let tag = v[base + 9];
    let body_start = base + 10;
    let ghost body = v@.skip(body_start as int);
    if tag == 0 {
        if v.len() - body_start != 126 {
            return Err(CodecError::Malformed);
        }
        let ghost b0 = body_start as int;
        proof {
            assert(body.subrange(0, 9) =~= v@.subrange(b0, b0 + 9));
            assert(body.subrange(9, 18) =~= v@.subrange(b0 + 9, b0 + 18));
            assert(body.subrange(18, 27) =~= v@.subrange(b0 + 18, b0 + 27));
            assert(body.subrange(27, 36) =~= v@.subrange(b0 + 27, b0 + 36));
            assert(body.subrange(36, 45) =~= v@.subrange(b0 + 36, b0 + 45));
            assert(body.subrange(45, 54) =~= v@.subrange(b0 + 45, b0 + 54));
            assert(body.subrange(54, 63) =~= v@.subrange(b0 + 54, b0 + 63));
            assert(body.subrange(63, 72) =~= v@.subrange(b0 + 63, b0 + 72));
            assert(body.subrange(72, 81) =~= v@.subrange(b0 + 72, b0 + 81));
            assert(body.subrange(81, 90) =~= v@.subrange(b0 + 81, b0 + 90));
            assert(body.subrange(90, 99) =~= v@.subrange(b0 + 90, b0 + 99));
            assert(body.subrange(99, 108) =~= v@.subrange(b0 + 99, b0 + 108));
            assert(body.subrange(108, 117) =~= v@.subrange(b0 + 108, b0 + 117));
            assert(body.subrange(117, 126) =~= v@.subrange(b0 + 117, b0 + 126));
        }
        let f0 = match read_signed(v, body_start) {
            Some(x) => x,
            None => {
                return Err(CodecError::Malformed);
            },
        };
        if !(-128 <= f0 && f0 <= 127) {
            return Err(CodecError::Malformed);
        }
        let f1 = match read_signed(v, body_start + 9) {
            Some(x) => x,
            None => {
                return Err(CodecError::Malformed);
            },
        };
        let f2 = match read_signed(v, body_start + 18) {
            Some(x) => x,
            None => {
                return Err(CodecError::Malformed);
            },
        };
        let f3 = match read_signed(v, body_start + 27) {
            Some(x) => x,
            None => {
                return Err(CodecError::Malformed);
            },
        };
        let f4 = match read_unsigned(v, body_start + 36) {
            Some(x) => x,
            None => {
                return Err(CodecError::Malformed);
            },
        };
        let f5 = match read_unsigned(v, body_start + 45) {
            Some(x) => x,
            None => {
                return Err(CodecError::Malformed);
            },
        };
        let f6 = match read_unsigned(v, body_start + 54) {
            Some(x) => x,
            None => {
                return Err(CodecError::Malformed);
            },
        };
        let f7 = match read_unsigned(v, body_start + 63) {
            Some(x) => x,
            None => {
                return Err(CodecError::Malformed);
            },
        };
        let f8 = match read_unsigned(v, body_start + 72) {
            Some(x) => x,
            None => {
                return Err(CodecError::Malformed);
            },
        };
        let f9 = match read_unsigned(v, body_start + 81) {
            Some(x) => x,
            None => {
                return Err(CodecError::Malformed);
            },
        };
        let f10 = match read_unsigned(v, body_start + 90) {
            Some(x) => x,
            None => {
                return Err(CodecError::Malformed);
            },
        };
        let f11 = match read_unsigned(v, body_start + 99) {
            Some(x) => x,
            None => {
                return Err(CodecError::Malformed);
            },
        };
        let f12 = match read_unsigned(v, body_start + 108) {
            Some(x) => x,
            None => {
                return Err(CodecError::Malformed);
            },
        };
        let f13 = match read_unsigned(v, body_start + 117) {
            Some(x) => x,
            None => {
                return Err(CodecError::Malformed);
            },
        };
        Ok(
            MetricPacket {
                origin,
                timestamp: ts,
                data: Metric::Network(
                    TcpStat {
                        rto_algorithm: f0 as i8,
                        rto_min: f1,
                        rto_max: f2,
                        max_conn: f3,
                        active_opens: f4,
                        passive_opens: f5,
                        attempt_fails: f6,
                        establish_resets: f7,
                        current_establish: f8,
                        segments_received: f9,
                        segments_sent: f10,
                        segments_retransmitted: f11,
                        segments_errors_received: f12,
                        resets_sent: f13,
                    },
                ),
            },
        )
    } else if tag == 1 {
        if v.len() - body_start != 63 {
            return Err(CodecError::Malformed);
        }
        let ghost b0 = body_start as int;
        proof {
            assert(body.subrange(0, 9) =~= v@.subrange(b0, b0 + 9));
            assert(body.subrange(9, 18) =~= v@.subrange(b0 + 9, b0 + 18));
            assert(body.subrange(18, 27) =~= v@.subrange(b0 + 18, b0 + 27));
            assert(body.subrange(27, 36) =~= v@.subrange(b0 + 27, b0 + 36));
            assert(body.subrange(36, 45) =~= v@.subrange(b0 + 36, b0 + 45));
            assert(body.subrange(45, 54) =~= v@.subrange(b0 + 45, b0 + 54));
            assert(body.subrange(54, 63) =~= v@.subrange(b0 + 54, b0 + 63));
        }
        let f0 = match read_unsigned(v, body_start) {
            Some(x) => x,
            None => {
                return Err(CodecError::Malformed);
            },
        };
        let f1 = match read_unsigned(v, body_start + 9) {
            Some(x) => x,
            None => {
                return Err(CodecError::Malformed);
            },
        };
        let f2 = match read_unsigned(v, body_start + 18) {
            Some(x) => x,
            None => {
                return Err(CodecError::Malformed);
            },
        };
        let f3 = match read_unsigned(v, body_start + 27) {
            Some(x) => x,
            None => {
                return Err(CodecError::Malformed);
            },
        };
        let f4 = match read_unsigned(v, body_start + 36) {
            Some(x) => x,
            None => {
                return Err(CodecError::Malformed);
            },
        };
        let f5 = match read_unsigned(v, body_start + 45) {
            Some(x) => x,
            None => {
                return Err(CodecError::Malformed);
            },
        };
        let f6 = match read_unsigned(v, body_start + 54) {
            Some(x) => x,
            None => {
                return Err(CodecError::Malformed);
            },
        };
        Ok(
            MetricPacket {
                origin,
                timestamp: ts,
                data: Metric::Process(
                    ProcStatm {
                        size: f0,
                        resident: f1,
                        share: f2,
                        text: f3,
                        lib: f4,
                        data: f5,
                        dt: f6,
                    },
                ),
            },
        )
    } else {
        Err(CodecError::Malformed)
    }
}

pub proof fn lemma_tcp_round_trip(t: TcpStat)
    ensures
        spec_enc_tcp(t).len() == 126,
        spec_dec_tcp(spec_enc_tcp(t)) == Some(t),
{
    let v = spec_enc_tcp(t);
    lemma_signed_scalar(t.rto_algorithm as i64);
    lemma_signed_scalar(t.rto_min);
    lemma_signed_scalar(t.rto_max);
    lemma_signed_scalar(t.max_conn);
    lemma_unsigned_scalar(t.active_opens);
    lemma_unsigned_scalar(t.passive_opens);
    lemma_unsigned_scalar(t.attempt_fails);
    lemma_unsigned_scalar(t.establish_resets);
    lemma_unsigned_scalar(t.current_establish);
    lemma_unsigned_scalar(t.segments_received);
    lemma_unsigned_scalar(t.segments_sent);
    lemma_unsigned_scalar(t.segments_retransmitted);
    lemma_unsigned_scalar(t.segments_errors_received);
    lemma_unsigned_scalar(t.resets_sent);
    assert(v.subrange(0, 9) =~= spec_enc_signed(t.rto_algorithm as i64));
    assert(v.subrange(9, 18) =~= spec_enc_signed(t.rto_min));
    assert(v.subrange(18, 27) =~= spec_enc_signed(t.rto_max));
    assert(v.subrange(27, 36) =~= spec_enc_signed(t.max_conn));
    assert(v.subrange(36, 45) =~= spec_enc_unsigned(t.active_opens));
    assert(v.subrange(45, 54) =~= spec_enc_unsigned(t.passive_opens));
    assert(v.subrange(54, 63) =~= spec_enc_unsigned(t.attempt_fails));
    assert(v.subrange(63, 72) =~= spec_enc_unsigned(t.establish_resets));
    assert(v.subrange(72, 81) =~= spec_enc_unsigned(t.current_establish));
    assert(v.subrange(81, 90) =~= spec_enc_unsigned(t.segments_received));
    assert(v.subrange(90, 99) =~= spec_enc_unsigned(t.segments_sent));
    assert(v.subrange(99, 108) =~= spec_enc_unsigned(t.segments_retransmitted));
    assert(v.subrange(108, 117) =~= spec_enc_unsigned(t.segments_errors_received));
    assert(v.subrange(117, 126) =~= spec_enc_unsigned(t.resets_sent));
}

pub proof fn lemma_statm_round_trip(s: ProcStatm)
    ensures
        spec_enc_statm(s).len() == 63,
        spec_dec_statm(spec_enc_statm(s)) == Some(s),
{
    let v = spec_enc_statm(s);
    lemma_unsigned_scalar(s.size);
    lemma_unsigned_scalar(s.resident);
    lemma_unsigned_scalar(s.share);
    lemma_unsigned_scalar(s.text);
    lemma_unsigned_scalar(s.lib);
    lemma_unsigned_scalar(s.data);
    lemma_unsigned_scalar(s.dt);
    assert(v.subrange(0, 9) =~= spec_enc_unsigned(s.size));
    assert(v.subrange(9, 18) =~= spec_enc_unsigned(s.resident));
    assert(v.subrange(18, 27) =~= spec_enc_unsigned(s.share));
    assert(v.subrange(27, 36) =~= spec_enc_unsigned(s.text));
    assert(v.subrange(36, 45) =~= spec_enc_unsigned(s.lib));
    assert(v.subrange(45, 54) =~= spec_enc_unsigned(s.data));
    assert(v.subrange(54, 63) =~= spec_enc_unsigned(s.dt));
}

/// Law: the wire format round-trips. Any packet whose origin label fits the
/// length field decodes, after encoding, to exactly its own origin,
/// timestamp and sample.
pub proof fn theorem_packet_round_trip(origin: Seq<char>, timestamp: i64, data: Metric)
    requires
        packet_wf(origin, timestamp, data),
    ensures
        spec_dec_packet(spec_enc_packet(origin, timestamp, data)) == Some(
            PacketView { origin, timestamp: timestamp as int, data },
        ),
{
    lemma_auto_spec_u64_to_from_le_bytes();
    let ob = encode_utf8(origin);
    let n = ob.len() as int;
    let lenb = spec_u64_to_le_bytes(ob.len() as u64);
    let tsb = spec_enc_signed(timestamp);
    let mb = spec_enc_metric(data);
    let v = spec_enc_packet(origin, timestamp, data);
    lemma_signed_scalar(timestamp);
    assert(lenb.len() == 8);
    match data {
        Metric::Network(t) => {
            lemma_tcp_round_trip(t);
            assert(mb.len() == 127);
        },
        Metric::Process(s) => {
            lemma_statm_round_trip(s);
            assert(mb.len() == 64);
        },
    }
    assert(v.len() == 8 + n + 9 + mb.len());
    assert(v.take(8) =~= lenb);
    assert(spec_u64_from_le_bytes(v.take(8)) == ob.len() as u64);
    assert(v.subrange(8, 8 + n) =~= ob);
    encode_utf8_valid_utf8(origin);
    encode_utf8_decode_utf8(origin);
    let rest = v.skip(8 + n);
    assert(rest.take(9) =~= tsb);
    match data {
        Metric::Network(t) => {
            assert(rest[9] == 0);
            assert(rest.skip(10) =~= spec_enc_tcp(t));
        },
        Metric::Process(s) => {
            assert(rest[9] == 1);
            assert(rest.skip(10) =~= spec_enc_statm(s));
        },
    }
}

} // verus!
