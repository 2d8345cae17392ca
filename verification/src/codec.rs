//! Decoding and encoding of the sub-attribute run.
//!
//! The wire form is a concatenation of eight-byte records with no padding:
//! a two-byte record length (always eight), a two-byte kind number and a
//! four-byte little-endian value. The decoder walks the buffer eight bytes
//! at a time; the encoder replays the recorded order, eight bytes per entry.

use vstd::prelude::*;
use vstd::slice::slice_subrange;

use crate::bytes::{read_u16_le, read_u32_le, split_u32_le};
use crate::bytes::{u16_from_le, u16_le_bytes, u32_from_le, u32_le_bytes};
use crate::error::DecodeError;
use crate::kinds::TcaFqCodel;
use crate::params::{FqCodel, FqCodelView};
use crate::{ATTR_LEN, NLA_HEADER_LEN};

verus! {

/// What parsing one record at the front of `data` yields: its kind number
/// and value, or the first structural fault among the checks, in the order
/// the decoder makes them.
pub open spec fn spec_parse_attr(data: Seq<u8>) -> Result<(u16, u32), DecodeError> {
    if data.len() < NLA_HEADER_LEN {
        Err(DecodeError::TruncatedHeader)
    } else {
        let length = u16_from_le(data[0], data[1]) as int;
        if length > data.len() {
            Err(DecodeError::LengthExceedsBuffer)
        } else if length == 0 {
            Err(DecodeError::EmptyRecord)
        } else if length < NLA_HEADER_LEN {
            Err(DecodeError::HeaderTooShort)
        } else if length - NLA_HEADER_LEN != ATTR_LEN {
            Err(DecodeError::UnexpectedPayloadSize)
        } else {
            Ok((u16_from_le(data[2], data[3]), u32_from_le(data[4], data[5], data[6], data[7])))
        }
    }
}

/// The result of decoding `data` on top of `acc`: records are consumed from
/// the front, eight bytes at a time, and applied to `acc` in input order,
/// later records overwriting earlier ones field-wise. A record whose kind
/// names no field fails the whole decode.
pub open spec fn spec_decode_from(acc: FqCodelView, data: Seq<u8>) -> Result<
    FqCodelView,
    DecodeError,
>
    decreases data.len(),
{
    if data.len() == 0 {
        Ok(acc)
    } else {
        match spec_parse_attr(data) {
            Err(e) => Err(e),
            Ok((code, value)) => {
                let kind = TcaFqCodel::spec_from_code(code);
                if !kind.is_field() {
                    Err(DecodeError::UnknownAttributeKind)
                } else {
                    spec_decode_from(acc.with_record(kind, value), data.skip(8))
                }
            },
        }
    }
}

/// The parameter set that a whole buffer decodes to, starting from the
/// empty set.
pub open spec fn spec_decode(data: Seq<u8>) -> Result<FqCodelView, DecodeError> {
    spec_decode_from(FqCodelView::empty(), data)
}

/// True when the record starting at byte `8 * i` of `data` declares length
/// eight, the only length the format carries.
pub open spec fn spec_record_len_ok(data: Seq<u8>, i: int) -> bool {
    u16_from_le(data[8 * i], data[8 * i + 1]) == 8
}

/// True when the kind number of the record starting at byte `8 * i` of
/// `data` names one of the nine parameter fields.
pub open spec fn spec_record_kind_ok(data: Seq<u8>, i: int) -> bool {
    TcaFqCodel::spec_from_code(u16_from_le(data[8 * i + 2], data[8 * i + 3])).is_field()
}

/// True of the record starting at byte `8 * i` of `data`: it declares
/// length eight and its kind number names one of the nine fields.
pub open spec fn spec_record_ok(data: Seq<u8>, i: int) -> bool {
    &&& spec_record_len_ok(data, i)
    &&& spec_record_kind_ok(data, i)
}

/// True of exactly the buffers that decode successfully: a whole number of
/// eight-byte records, each declaring length eight and naming a field.
pub open spec fn spec_wire_ok(data: Seq<u8>) -> bool {
    &&& data.len() % 8 == 0
    &&& forall|i: int| 0 <= i < data.len() / 8 ==> spec_record_ok(data, i)
}

/// The eight bytes of one record of kind `k` and value `v`.
pub open spec fn spec_record_bytes(k: TcaFqCodel, v: u32) -> Seq<u8> {
    u16_le_bytes(8u16) + u16_le_bytes(k.spec_code()) + u32_le_bytes(v)
}

/// The bytes that emitting the kinds of `order`, with values drawn from
/// `fq`, writes: eight per entry, in order.
pub open spec fn spec_encode_order(fq: FqCodelView, order: Seq<TcaFqCodel>) -> Seq<u8>
    decreases order.len(),
{
    if order.len() == 0 {
        Seq::empty()
    } else {
        spec_record_bytes(order[0], fq.field(order[0])) + spec_encode_order(fq, order.skip(1))
    }
}

/// The bytes that encoding `fq` writes: one record per entry of its order.
pub open spec fn spec_encode(fq: FqCodelView) -> Seq<u8> {
    spec_encode_order(fq, fq.order)
}

/// Parses the record at the front of `data`, validating its declared
/// length before reading the four-byte value.
fn unmarshal_fq_codel_attr(data: &[u8]) -> (r: Result<(u16, u32), DecodeError>)
    ensures
        r == spec_parse_attr(data@),
{
    if data.len() < NLA_HEADER_LEN {
        return Err(DecodeError::TruncatedHeader);
    }
    let length = read_u16_le(data[0], data[1]) as usize;
    let kind = read_u16_le(data[2], data[3]);
    if length > data.len() {
        return Err(DecodeError::LengthExceedsBuffer);
    }
    if length == 0 {
        return Err(DecodeError::EmptyRecord);
    }
    if length < NLA_HEADER_LEN {
        return Err(DecodeError::HeaderTooShort);
    }
    if length - NLA_HEADER_LEN != ATTR_LEN {
        return Err(DecodeError::UnexpectedPayloadSize);
    }
    let value = read_u32_le(data[4], data[5], data[6], data[7]);
    Ok((kind, value))
}

/// Decodes a whole sub-attribute buffer into a parameter set.
///
/// The cursor advances by a fixed eight bytes per record, whatever the
/// record's declared (and validated) length says; succeeds exactly on the
/// buffers that [`spec_wire_ok`] admits, and otherwise reports the first
/// structural fault.
pub fn unmarshal_fq_codel(data: &[u8]) -> (r: Result<FqCodel, DecodeError>)
    ensures
        (r matches Ok(fq) ==> spec_decode(data@) == Ok::<FqCodelView, DecodeError>(fq@)
            && fq@.canonical()),
        (r matches Err(e) ==> spec_decode(data@) == Err::<FqCodelView, DecodeError>(e)),
        r is Ok <==> spec_wire_ok(data@),
{
    let mut fq = FqCodel::default();
    proof {
        assert(data@.skip(0) =~= data@);
    }
    let length = data.len();
    let mut offset: usize = 0;
    while offset < length
        invariant
            offset <= length,
            length == data@.len(),
            spec_decode_from(fq@, data@.skip(offset as int)) == spec_decode(data@),
        decreases length - offset,
    {
        let buf = slice_subrange(data, offset, length);
        proof {
            assert(buf@ =~= data@.skip(offset as int));
        }
        let parsed = unmarshal_fq_codel_attr(buf);
        match parsed {
            Err(e) => {
                proof {
                    crate::laws::lemma_decode_ok_iff_wire_ok(data@);
                }
                return Err(e);
            },
            Ok((code, value)) => {
                let ghost prev = fq@;
                let kind = TcaFqCodel::from(code);
                fq.order.push(kind);
                match kind {
                    TcaFqCodel::Target => fq.target = value,
                    TcaFqCodel::Limit => fq.limit = value,
                    TcaFqCodel::Interval => fq.interval = value,
                    TcaFqCodel::Ecn => fq.ecn = value,
                    TcaFqCodel::Flows => fq.flows = value,
                    TcaFqCodel::Quantum => fq.quantum = value,
                    TcaFqCodel::CeThreshold => fq.ce_threshold = value,
                    TcaFqCodel::DropBatchSize => fq.drop_batch_size = value,
                    TcaFqCodel::MemoryLimit => fq.memory_limit = value,
                    _ => {
                        proof {
                            crate::laws::lemma_decode_ok_iff_wire_ok(data@);
                        }
                        return Err(DecodeError::UnknownAttributeKind);
                    },
                }
                proof {
                    assert(data@.skip(offset as int).len() >= 8);
                    assert(fq@ =~= prev.with_record(kind, value));
                    assert(data@.skip(offset as int).skip(8) =~= data@.skip(offset as int + 8));
                }
                offset = offset + 8;
            },
        }
    }
    proof {
        assert(data@.skip(offset as int) =~= Seq::<u8>::empty());
        crate::laws::lemma_decode_ok_iff_wire_ok(data@);
        crate::laws::lemma_decode_gives_canonical(data@);
    }
    Ok(fq)
}

impl FqCodel {
    /// Decodes a raw sub-attribute payload into a parameter set; the same
    /// operation as [`unmarshal_fq_codel`].
    pub fn new(data: &[u8]) -> (r: Result<FqCodel, DecodeError>)
        ensures
            (r matches Ok(fq) ==> spec_decode(data@) == Ok::<FqCodelView, DecodeError>(fq@)
                && fq@.canonical()),
            (r matches Err(e) ==> spec_decode(data@) == Err::<FqCodelView, DecodeError>(e)),
            r is Ok <==> spec_wire_ok(data@),
    {
        unmarshal_fq_codel(data)
    }

    /// Writes one eight-byte record per entry of the order into the front
    /// of `buffer`, in order, and leaves every byte past the written run as
    /// it was. The buffer's length never changes, so the 64-byte buffer the
    /// declared payload length calls for comes back 64 bytes long however
    /// few records were written.
    pub fn emit_value(&self, buffer: &mut Vec<u8>)
        requires
            self@.wf(),
            8 * self@.order.len() <= old(buffer)@.len(),
        ensures
            final(buffer)@.len() == old(buffer)@.len(),
            final(buffer)@.subrange(0, 8 * self@.order.len() as int) == spec_encode(self@),
            final(buffer)@.skip(8 * self@.order.len() as int) == old(buffer)@.skip(
                8 * self@.order.len() as int,
            ),
    {
        let mut i: usize = 0;
        while i < self.order.len()
            invariant
                i <= self@.order.len(),
                self@.wf(),
                8 * self@.order.len() <= buffer@.len(),
                buffer@.len() == old(buffer)@.len(),
                buffer@.subrange(0, 8 * i as int) == spec_encode_order(
                    self@,
                    self@.order.take(i as int),
                ),
                buffer@.skip(8 * i as int) == old(buffer)@.skip(8 * i as int),
            decreases self@.order.len() - i,
        {
            let ghost entered = buffer@;
            let blen = buffer.len();
            proof {
                assert(8 * (i as int) + 8 <= blen as int);
            }
            let k = self.order[i];
            let code = k.code();
            let value = self.field_value(k);
            let (v0, v1, v2, v3) = split_u32_le(value);
            let off = 8 * i;
            buffer.set(off, 8u8);
            buffer.set(off + 1, 0u8);
            buffer.set(off + 2, (code % 256) as u8);
            buffer.set(off + 3, (code / 256) as u8);
            buffer.set(off + 4, v0);
            buffer.set(off + 5, v1);
            buffer.set(off + 6, v2);
            buffer.set(off + 7, v3);
            proof {
                crate::laws::lemma_encode_order_snoc(self@, self@.order.take(i as int), k);
                assert(self@.order.take(i as int).push(k) =~= self@.order.take(i as int + 1));
                assert(buffer@.subrange(0, 8 * (i as int)) =~= entered.subrange(0, 8 * (i as int)));
                assert(spec_record_bytes(k, value) == spec_record_bytes(k, self@.field(k)));
                assert(buffer@.subrange(8 * (i as int), 8 * (i as int) + 8) =~= spec_record_bytes(
                    k,
                    value,
                ));
                assert(buffer@.subrange(0, 8 * (i as int + 1)) =~= buffer@.subrange(
                    0,
                    8 * (i as int),
                ) + buffer@.subrange(8 * (i as int), 8 * (i as int) + 8));
                assert(buffer@.skip(8 * (i as int + 1)) =~= entered.skip(8 * (i as int + 1)));
                assert(entered.skip(8 * (i as int) + 8) =~= entered.skip(8 * (i as int)).skip(8));
                assert(old(buffer)@.skip(8 * (i as int) + 8) =~= old(buffer)@.skip(
                    8 * (i as int),
                ).skip(8));
                assert(entered.skip(8 * (i as int + 1)) =~= old(buffer)@.skip(8 * (i as int + 1)));
            }
            i = i + 1;
        }
        proof {
            assert(self@.order.take(self@.order.len() as int) =~= self@.order);
        }
    }
}

} // verus!
