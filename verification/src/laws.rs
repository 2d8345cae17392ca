//! The laws the codec obeys: what encoding writes, which buffers decode,
//! and that a decode followed by an encode round-trips byte for byte at
//! the level of parameter sets.

use vstd::prelude::*;

use crate::bytes::{lemma_u16_le_round_trip, lemma_u32_le_round_trip};
use crate::bytes::{u16_from_le, u32_from_le};
use crate::codec::{
    spec_decode, spec_decode_from, spec_encode, spec_encode_order, spec_parse_attr,
    spec_record_bytes, spec_record_kind_ok, spec_record_len_ok, spec_record_ok, spec_wire_ok,
};
use crate::error::DecodeError;
use crate::kinds::{lemma_code_round_trip, TcaFqCodel};
use crate::params::FqCodelView;

verus! {

/// Law: encoding writes exactly eight bytes per entry of the order.
pub proof fn lemma_encode_len(fq: FqCodelView, order: Seq<TcaFqCodel>)
    ensures
        spec_encode_order(fq, order).len() == 8 * order.len(),
    decreases order.len(),
{
    if order.len() > 0 {
        lemma_encode_len(fq, order.skip(1));
    }
}

/// Appending a kind to the order appends that kind's record to the bytes.
pub proof fn lemma_encode_order_snoc(fq: FqCodelView, order: Seq<TcaFqCodel>, k: TcaFqCodel)
    ensures
        spec_encode_order(fq, order.push(k)) == spec_encode_order(fq, order) + spec_record_bytes(
            k,
            fq.field(k),
        ),
    decreases order.len(),
{
    let p = order.push(k);
    let rec = spec_record_bytes(k, fq.field(k));
    if order.len() == 0 {
        assert(p[0] == k);
        assert(p.skip(1) =~= Seq::<TcaFqCodel>::empty());
        assert(spec_encode_order(fq, p.skip(1)) == Seq::<u8>::empty());
        assert(spec_encode_order(fq, p) == rec + Seq::<u8>::empty());
        assert(rec + Seq::<u8>::empty() =~= Seq::<u8>::empty() + rec);
    } else {
        lemma_encode_order_snoc(fq, order.skip(1), k);
        let head = spec_record_bytes(order[0], fq.field(order[0]));
        let tail = spec_encode_order(fq, order.skip(1));
        assert(p[0] == order[0]);
        assert(p.skip(1) =~= order.skip(1).push(k));
        assert(spec_encode_order(fq, p) == head + spec_encode_order(fq, p.skip(1)));
        assert(spec_encode_order(fq, p.skip(1)) == tail + rec);
        assert(head + (tail + rec) =~= (head + tail) + rec);
    }
}

/// What a successful decode adds on top of its accumulator: the order only
/// grows, and a field whose kind the result's order never names keeps the
/// accumulator's value.
proof fn lemma_decode_from_extends(acc: FqCodelView, data: Seq<u8>)
    requires
        spec_decode_from(acc, data) is Ok,
    ensures
        ({
            let res = spec_decode_from(acc, data)->Ok_0;
            &&& acc.wf() ==> res.wf()
            &&& forall|k: TcaFqCodel| acc.order.contains(k) ==> #[trigger] res.order.contains(k)
            &&& forall|k: TcaFqCodel|
                k.is_field() && !res.order.contains(k) ==> #[trigger] res.field(k) == acc.field(k)
        }),
    decreases data.len(),
{
    if data.len() == 0 {
    } else {
        let (code, value) = spec_parse_attr(data)->Ok_0;
        let kind = TcaFqCodel::spec_from_code(code);
        let acc2 = acc.with_record(kind, value);
        lemma_decode_from_extends(acc2, data.skip(8));
        let res = spec_decode_from(acc, data)->Ok_0;
        assert(acc.wf() ==> acc2.wf()) by {
            if acc.wf() {
                assert(forall|i: int|
                    0 <= i < acc2.order.len() ==> (#[trigger] acc2.order[i]).is_field());
            }
        }
        assert(acc2.order.contains(kind)) by {
            assert(acc2.order[acc2.order.len() - 1] == kind);
        }
        assert forall|k: TcaFqCodel| acc.order.contains(k) implies #[trigger] res.order.contains(
            k,
        ) by {
            let j = choose|j: int| 0 <= j < acc.order.len() && acc.order[j] == k;
            assert(acc2.order[j] == k);
            assert(acc2.order.contains(k));
        }
        assert forall|k: TcaFqCodel|
            k.is_field() && !res.order.contains(k) implies #[trigger] res.field(k) == acc.field(
            k,
        ) by {
            assert(res.field(k) == acc2.field(k));
            assert(k != kind);
        }
    }
}

/// Law: a successful decode yields a canonical parameter set: every entry
/// of its order names a field, and every field its order never names is
/// still zero.
pub proof fn lemma_decode_gives_canonical(data: Seq<u8>)
    requires
        spec_decode(data) is Ok,
    ensures
        spec_decode(data)->Ok_0.canonical(),
{
    lemma_decode_from_extends(FqCodelView::empty(), data);
}

/// A record that starts and validates at the front of a buffer keeps its
/// meaning when the buffer loses its first record.
proof fn lemma_wire_ok_step(data: Seq<u8>)
    requires
        data.len() >= 8,
        spec_record_ok(data, 0),
    ensures
        spec_wire_ok(data) <==> spec_wire_ok(data.skip(8)),
{
    let rest = data.skip(8);
    let n = data.len() as int;
    assert((n - 8) % 8 == n % 8) by (nonlinear_arith)
        requires n >= 8;
    if spec_wire_ok(data) {
        assert((n - 8) / 8 == n / 8 - 1) by (nonlinear_arith)
            requires n >= 8;
        assert forall|i: int| 0 <= i < rest.len() / 8 implies spec_record_ok(rest, i) by {
            assert(spec_record_ok(data, i + 1));
            assert(rest[8 * i] == data[8 * (i + 1)]);
            assert(rest[8 * i + 1] == data[8 * (i + 1) + 1]);
            assert(rest[8 * i + 2] == data[8 * (i + 1) + 2]);
            assert(rest[8 * i + 3] == data[8 * (i + 1) + 3]);
        }
        assert(spec_wire_ok(rest));
    }
    if spec_wire_ok(rest) {
        assert(n % 8 == 0);
        assert(n / 8 - 1 == (n - 8) / 8) by (nonlinear_arith)
            requires n >= 8;
        assert forall|i: int| 0 <= i < n / 8 implies spec_record_ok(data, i) by {
            if i > 0 {
                assert(spec_record_ok(rest, i - 1));
                assert(rest[8 * (i - 1)] == data[8 * i]);
                assert(rest[8 * (i - 1) + 1] == data[8 * i + 1]);
                assert(rest[8 * (i - 1) + 2] == data[8 * i + 2]);
                assert(rest[8 * (i - 1) + 3] == data[8 * i + 3]);
            }
        }
        assert(spec_wire_ok(data));
    }
}

/// The generalisation of [`lemma_decode_ok_iff_wire_ok`] over an arbitrary
/// accumulator, for the induction.
proof fn lemma_decode_from_ok_iff(acc: FqCodelView, data: Seq<u8>)
    ensures
        spec_decode_from(acc, data) is Ok <==> spec_wire_ok(data),
    decreases data.len(),
{
    let n = data.len() as int;
    if n == 0 {
        assert(spec_wire_ok(data));
    } else if n < 8 {
        assert(spec_parse_attr(data) is Err);
        assert(n % 8 != 0) by (nonlinear_arith)
            requires 0 < n < 8;
    } else {
        if spec_parse_attr(data) is Err {
            assert(!spec_record_len_ok(data, 0));
            if spec_wire_ok(data) {
                assert(n / 8 >= 1) by (nonlinear_arith)
                    requires n >= 8;
                assert(spec_record_ok(data, 0));
                assert(false);
            }
        } else {
            let (code, value) = spec_parse_attr(data)->Ok_0;
            let kind = TcaFqCodel::spec_from_code(code);
            assert(spec_record_len_ok(data, 0));
            if !kind.is_field() {
                assert(!spec_record_kind_ok(data, 0));
                if spec_wire_ok(data) {
                    assert(n / 8 >= 1) by (nonlinear_arith)
                        requires n >= 8;
                    assert(spec_record_ok(data, 0));
                    assert(false);
                }
            } else {
                assert(spec_record_ok(data, 0));
                lemma_decode_from_ok_iff(acc.with_record(kind, value), data.skip(8));
                lemma_wire_ok_step(data);
            }
        }
    }
}

/// Law: decoding succeeds on exactly the buffers of [`spec_wire_ok`]: a
/// whole number of eight-byte records, each declaring length eight and
/// naming one of the nine fields.
pub proof fn lemma_decode_ok_iff_wire_ok(data: Seq<u8>)
    ensures
        spec_decode(data) is Ok <==> spec_wire_ok(data),
{
    lemma_decode_from_ok_iff(FqCodelView::empty(), data);
}

/// Law: a buffer whose length is not a multiple of eight never decodes;
/// the cursor advances by exactly eight bytes per record, so a dangling
/// partial record always trips one of the length checks.
pub proof fn lemma_ragged_buffer_rejected(data: Seq<u8>)
    requires
        data.len() % 8 != 0,
    ensures
        spec_decode(data) is Err,
{
    lemma_decode_ok_iff_wire_ok(data);
}

/// The generalisation of [`lemma_unknown_kind_rejected`] over an arbitrary
/// accumulator, for the induction.
proof fn lemma_decode_from_unknown_kind(acc: FqCodelView, data: Seq<u8>)
    requires
        data.len() % 8 == 0,
        forall|i: int| 0 <= i < data.len() / 8 ==> #[trigger] spec_record_len_ok(data, i),
        exists|i: int| 0 <= i < data.len() / 8 && !(#[trigger] spec_record_kind_ok(data, i)),
    ensures
        spec_decode_from(acc, data) == Err::<FqCodelView, DecodeError>(
            DecodeError::UnknownAttributeKind,
        ),
    decreases data.len(),
{
    let n = data.len() as int;
    let bad = choose|i: int| 0 <= i < n / 8 && !(#[trigger] spec_record_kind_ok(data, i));
    assert(n >= 8) by (nonlinear_arith)
        requires n % 8 == 0, n / 8 >= 1;
    assert(spec_record_len_ok(data, 0));
    let (code, value) = spec_parse_attr(data)->Ok_0;
    let kind = TcaFqCodel::spec_from_code(code);
    if !kind.is_field() {
    } else {
        assert(spec_record_kind_ok(data, 0));
        assert(bad >= 1);
        let rest = data.skip(8);
        assert((n - 8) % 8 == n % 8) by (nonlinear_arith)
            requires n >= 8;
        assert((n - 8) / 8 == n / 8 - 1) by (nonlinear_arith)
            requires n >= 8;
        assert forall|i: int| 0 <= i < rest.len() / 8 implies #[trigger] spec_record_len_ok(
            rest,
            i,
        ) by {
            assert(spec_record_len_ok(data, i + 1));
            assert(rest[8 * i] == data[8 * (i + 1)]);
            assert(rest[8 * i + 1] == data[8 * (i + 1) + 1]);
        }
        assert(!spec_record_kind_ok(rest, bad - 1)) by {
            assert(rest[8 * (bad - 1) + 2] == data[8 * bad + 2]);
            assert(rest[8 * (bad - 1) + 3] == data[8 * bad + 3]);
        }
        lemma_decode_from_unknown_kind(acc.with_record(kind, value), rest);
    }
}

/// Law: when every record is a whole, length-eight record but some
/// record's kind number names no field, the whole decode fails with
/// [`DecodeError::UnknownAttributeKind`], however many valid records
/// surround it.
pub proof fn lemma_unknown_kind_rejected(data: Seq<u8>)
    requires
        data.len() % 8 == 0,
        forall|i: int| 0 <= i < data.len() / 8 ==> #[trigger] spec_record_len_ok(data, i),
        exists|i: int| 0 <= i < data.len() / 8 && !(#[trigger] spec_record_kind_ok(data, i)),
    ensures
        spec_decode(data) == Err::<FqCodelView, DecodeError>(DecodeError::UnknownAttributeKind),
{
    lemma_decode_from_unknown_kind(FqCodelView::empty(), data);
}

/// Decoding the bytes that an order of field kinds encodes succeeds, and
/// yields the accumulator extended by that order, with each named field
/// taking the encoded set's value.
proof fn lemma_decode_encoded(acc: FqCodelView, fq: FqCodelView, order: Seq<TcaFqCodel>)
    requires
        forall|i: int| 0 <= i < order.len() ==> (#[trigger] order[i]).is_field(),
    ensures
        spec_decode_from(acc, spec_encode_order(fq, order)) is Ok,
        ({
            let res = spec_decode_from(acc, spec_encode_order(fq, order))->Ok_0;
            &&& res.order == acc.order + order
            &&& forall|k: TcaFqCodel|
                #[trigger] k.is_field() ==> res.field(k) == if order.contains(k) {
                    fq.field(k)
                } else {
                    acc.field(k)
                }
        }),
    decreases order.len(),
{
    let bytes = spec_encode_order(fq, order);
    if order.len() == 0 {
        assert(acc.order + order =~= acc.order);
    } else {
        let k0 = order[0];
        let v0 = fq.field(k0);
        let rec = spec_record_bytes(k0, v0);
        let rest_bytes = spec_encode_order(fq, order.skip(1));
        assert(bytes == rec + rest_bytes);
        lemma_u16_le_round_trip(8u16);
        lemma_u16_le_round_trip(k0.spec_code());
        lemma_u32_le_round_trip(v0);
        lemma_code_round_trip(k0);
        assert(u16_from_le(bytes[0], bytes[1]) == 8);
        assert(u16_from_le(bytes[2], bytes[3]) == k0.spec_code());
        assert(u32_from_le(bytes[4], bytes[5], bytes[6], bytes[7]) == v0);
        assert(spec_parse_attr(bytes) == Ok::<(u16, u32), DecodeError>((k0.spec_code(), v0)));
        let acc2 = acc.with_record(k0, v0);
        assert(bytes.skip(8) =~= rest_bytes);
        assert forall|i: int|
            0 <= i < order.skip(1).len() implies (#[trigger] order.skip(1)[i]).is_field() by {
            assert(order.skip(1)[i] == order[i + 1]);
        }
        lemma_decode_encoded(acc2, fq, order.skip(1));
        let res = spec_decode_from(acc2, rest_bytes)->Ok_0;
        assert(acc2.order + order.skip(1) =~= acc.order + order);
        assert forall|k: TcaFqCodel| #[trigger] k.is_field() implies res.field(k) == (
        if order.contains(k) {
            fq.field(k)
        } else {
            acc.field(k)
        }) by {
            if order.skip(1).contains(k) {
                let j = choose|j: int|
                    0 <= j < order.skip(1).len() && order.skip(1)[j] == k;
                assert(order[j + 1] == k);
                assert(order.contains(k));
            } else if k == k0 {
                assert(order.contains(k)) by {
                    assert(order[0] == k);
                }
                assert(acc2.field(k) == fq.field(k));
            } else {
                assert(acc2.field(k) == acc.field(k));
                if order.contains(k) {
                    let j = choose|j: int| 0 <= j < order.len() && order[j] == k;
                    assert(j > 0);
                    assert(order.skip(1)[j - 1] == k);
                    assert(order.skip(1).contains(k));
                    assert(false);
                }
            }
        }
    }
}

/// Law: the round trip. Encoding a canonical parameter set — and every set
/// a successful decode produces is canonical — and decoding the written
/// bytes yields the same field values and the same order back.
pub proof fn lemma_round_trip(fq: FqCodelView)
    requires
        fq.canonical(),
    ensures
        spec_decode(spec_encode(fq)) == Ok::<FqCodelView, DecodeError>(fq),
{
    lemma_decode_encoded(FqCodelView::empty(), fq, fq.order);
    let res = spec_decode_from(FqCodelView::empty(), spec_encode_order(fq, fq.order))->Ok_0;
    assert(res.order =~= fq.order);
    assert(res.target == fq.target) by {
        assert(TcaFqCodel::Target.is_field());
        if !fq.order.contains(TcaFqCodel::Target) {
            assert(fq.field(TcaFqCodel::Target) == 0);
        }
    }
    assert(res.limit == fq.limit) by {
        assert(TcaFqCodel::Limit.is_field());
        if !fq.order.contains(TcaFqCodel::Limit) {
            assert(fq.field(TcaFqCodel::Limit) == 0);
        }
    }
    assert(res.interval == fq.interval) by {
        assert(TcaFqCodel::Interval.is_field());
        if !fq.order.contains(TcaFqCodel::Interval) {
            assert(fq.field(TcaFqCodel::Interval) == 0);
        }
    }
    assert(res.ecn == fq.ecn) by {
        assert(TcaFqCodel::Ecn.is_field());
        if !fq.order.contains(TcaFqCodel::Ecn) {
            assert(fq.field(TcaFqCodel::Ecn) == 0);
        }
    }
    assert(res.flows == fq.flows) by {
        assert(TcaFqCodel::Flows.is_field());
        if !fq.order.contains(TcaFqCodel::Flows) {
            assert(fq.field(TcaFqCodel::Flows) == 0);
        }
    }
    assert(res.quantum == fq.quantum) by {
        assert(TcaFqCodel::Quantum.is_field());
        if !fq.order.contains(TcaFqCodel::Quantum) {
            assert(fq.field(TcaFqCodel::Quantum) == 0);
        }
    }
    assert(res.ce_threshold == fq.ce_threshold) by {
        assert(TcaFqCodel::CeThreshold.is_field());
        if !fq.order.contains(TcaFqCodel::CeThreshold) {
            assert(fq.field(TcaFqCodel::CeThreshold) == 0);
        }
    }
    assert(res.drop_batch_size == fq.drop_batch_size) by {
        assert(TcaFqCodel::DropBatchSize.is_field());
        if !fq.order.contains(TcaFqCodel::DropBatchSize) {
            assert(fq.field(TcaFqCodel::DropBatchSize) == 0);
        }
    }
    assert(res.memory_limit == fq.memory_limit) by {
        assert(TcaFqCodel::MemoryLimit.is_field());
        if !fq.order.contains(TcaFqCodel::MemoryLimit) {
            assert(fq.field(TcaFqCodel::MemoryLimit) == 0);
        }
    }
    assert(res =~= fq);
}

} // verus!
