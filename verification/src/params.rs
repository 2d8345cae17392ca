//! The `fq_codel` parameter set and its mathematical view.

use vstd::prelude::*;

use crate::kinds::TcaFqCodel;
use crate::FQ_CODEL_LEN;
use crate::TCA_FQ_CODEL;

verus! {

/// The parameter set of one `fq_codel` parameter block.
///
/// The nine numeric fields are the kernel's tuning knobs. `order` records
/// which sub-attributes a decoded buffer carried, and in which order; it is
/// part of the set's identity, since encoding replays it so that a decoded
/// buffer re-encodes byte for byte. An empty order stands for a block that
/// carries no sub-attributes at all.
#[derive(Debug, Clone)]
pub struct FqCodel {
    pub target: u32,
    pub limit: u32,
    pub interval: u32,
    pub ecn: u32,
    pub flows: u32,
    pub quantum: u32,
    pub ce_threshold: u32,
    pub drop_batch_size: u32,
    pub memory_limit: u32,
    /// The kinds of the sub-attributes seen (or to be emitted), in wire order.
    pub order: Vec<TcaFqCodel>,
}

/// The mathematical content of an [`FqCodel`]: the nine field values and
/// the recorded wire order.
#[verifier::ext_equal]
pub ghost struct FqCodelView {
    pub target: u32,
    pub limit: u32,
    pub interval: u32,
    pub ecn: u32,
    pub flows: u32,
    pub quantum: u32,
    pub ce_threshold: u32,
    pub drop_batch_size: u32,
    pub memory_limit: u32,
    pub order: Seq<TcaFqCodel>,
}

impl View for FqCodel {
    type V = FqCodelView;

    open spec fn view(&self) -> FqCodelView {
        FqCodelView {
            target: self.target,
            limit: self.limit,
            interval: self.interval,
            ecn: self.ecn,
            flows: self.flows,
            quantum: self.quantum,
            ce_threshold: self.ce_threshold,
            drop_batch_size: self.drop_batch_size,
            memory_limit: self.memory_limit,
            order: self.order@,
        }
    }
}

impl FqCodelView {
    /// The parameter set with every field zero and no recorded order.
    pub open spec fn empty() -> FqCodelView {
        FqCodelView {
            target: 0,
            limit: 0,
            interval: 0,
            ecn: 0,
            flows: 0,
            quantum: 0,
            ce_threshold: 0,
            drop_batch_size: 0,
            memory_limit: 0,
            order: Seq::empty(),
        }
    }

    /// The value of the field that `k` names; the sentinel kinds name no
    /// field and yield zero.
    pub open spec fn field(self, k: TcaFqCodel) -> u32 {
        match k {
            TcaFqCodel::Target => self.target,
            TcaFqCodel::Limit => self.limit,
            TcaFqCodel::Interval => self.interval,
            TcaFqCodel::Ecn => self.ecn,
            TcaFqCodel::Flows => self.flows,
            TcaFqCodel::Quantum => self.quantum,
            TcaFqCodel::CeThreshold => self.ce_threshold,
            TcaFqCodel::DropBatchSize => self.drop_batch_size,
            TcaFqCodel::MemoryLimit => self.memory_limit,
            _ => 0,
        }
    }

    /// `self` with the field that `k` names set to `v`; the sentinel kinds
    /// name no field and leave `self` unchanged.
    pub open spec fn with_field(self, k: TcaFqCodel, v: u32) -> FqCodelView {
        match k {
            TcaFqCodel::Target => FqCodelView { target: v, ..self },
            TcaFqCodel::Limit => FqCodelView { limit: v, ..self },
            TcaFqCodel::Interval => FqCodelView { interval: v, ..self },
            TcaFqCodel::Ecn => FqCodelView { ecn: v, ..self },
            TcaFqCodel::Flows => FqCodelView { flows: v, ..self },
            TcaFqCodel::Quantum => FqCodelView { quantum: v, ..self },
            TcaFqCodel::CeThreshold => FqCodelView { ce_threshold: v, ..self },
            TcaFqCodel::DropBatchSize => FqCodelView { drop_batch_size: v, ..self },
            TcaFqCodel::MemoryLimit => FqCodelView { memory_limit: v, ..self },
            _ => self,
        }
    }

    /// `self` after one decoded record of kind `k` and value `v`: the field
    /// that `k` names takes `v`, and `k` is appended to the order.
    pub open spec fn with_record(self, k: TcaFqCodel, v: u32) -> FqCodelView {
        FqCodelView { order: self.order.push(k), ..self.with_field(k, v) }
    }

    /// Every entry of the order names one of the nine parameter fields.
    pub open spec fn wf(self) -> bool {
        forall|i: int| 0 <= i < self.order.len() ==> (#[trigger] self.order[i]).is_field()
    }

    /// Well formed, and every field that the order never names still holds
    /// zero: exactly the sets that a successful decode can produce.
    pub open spec fn canonical(self) -> bool {
        &&& self.wf()
        &&& forall|k: TcaFqCodel|
            k.is_field() && !self.order.contains(k) ==> #[trigger] self.field(k) == 0
    }
}

impl FqCodel {
    /// The declared payload length of an encoded parameter block: always 64
    /// bytes, however many sub-attributes the order holds.
    pub fn value_len(&self) -> (n: usize)
        ensures
            n == FQ_CODEL_LEN,
    {
        FQ_CODEL_LEN
    }

    /// The attribute type number under which the block is carried in its
    /// parent message.
    pub fn kind(&self) -> (k: u16)
        ensures
            k == TCA_FQ_CODEL,
    {
        TCA_FQ_CODEL
    }

    /// The current value of the field that `k` names; the sentinel kinds
    /// name no field and yield zero.
    pub fn field_value(&self, k: TcaFqCodel) -> (v: u32)
        ensures
            v == self@.field(k),
    {
        match k {
            TcaFqCodel::Target => self.target,
            TcaFqCodel::Limit => self.limit,
            TcaFqCodel::Interval => self.interval,
            TcaFqCodel::Ecn => self.ecn,
            TcaFqCodel::Flows => self.flows,
            TcaFqCodel::Quantum => self.quantum,
            TcaFqCodel::CeThreshold => self.ce_threshold,
            TcaFqCodel::DropBatchSize => self.drop_batch_size,
            TcaFqCodel::MemoryLimit => self.memory_limit,
            _ => 0,
        }
    }
}

impl Default for FqCodel {
    /// The empty parameter set: every field zero and no recorded order.
    fn default() -> (fq: FqCodel)
        ensures
            fq@ == FqCodelView::empty(),
    {
        FqCodel {
            target: 0,
            limit: 0,
            interval: 0,
            ecn: 0,
            flows: 0,
            quantum: 0,
            ce_threshold: 0,
            drop_batch_size: 0,
            memory_limit: 0,
            order: Vec::new(),
        }
    }
}

impl PartialEq for FqCodel {
    /// Two parameter sets are equal when the nine fields and the recorded
    /// order all agree.
    fn eq(&self, other: &FqCodel) -> (r: bool) {
        if !(self.target == other.target && self.limit == other.limit
            && self.interval == other.interval && self.ecn == other.ecn
            && self.flows == other.flows && self.quantum == other.quantum
            && self.ce_threshold == other.ce_threshold
            && self.drop_batch_size == other.drop_batch_size
            && self.memory_limit == other.memory_limit) {
            return false;
        }
        if self.order.len() != other.order.len() {
            return false;
        }
        let mut i: usize = 0;
        while i < self.order.len()
            invariant
                i <= self.order@.len(),
                self.order@.len() == other.order@.len(),
                forall|j: int| 0 <= j < i ==> self.order@[j] == other.order@[j],
            decreases self.order@.len() - i,
        {
            if self.order[i] != other.order[i] {
                return false;
            }
            i = i + 1;
        }
        proof {
            assert(self.order@ =~= other.order@);
        }
        true
    }
}

impl Eq for FqCodel {

}

impl vstd::std_specs::cmp::PartialEqSpecImpl for FqCodel {
    open spec fn obeys_eq_spec() -> bool {
        true
    }

    open spec fn eq_spec(&self, other: &FqCodel) -> bool {
        self@ == other@
    }
}

} // verus!
