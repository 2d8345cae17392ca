//! The closed set of sub-attribute kind numbers of the parameter block.

use vstd::prelude::*;

verus! {

/// A sub-attribute kind of the `fq_codel` parameter block.
///
/// The nine middle variants name the nine parameter fields and carry the
/// kernel-assigned wire numbers one through nine. `Unspec` stands for wire
/// number zero and `Max` for every number of ten or more (ten itself being
/// the kernel's count marker); neither names a field, and a decode that
/// meets one fails.
#[derive(Debug, Default, Clone, Copy, PartialEq, Eq, Structural)]
pub enum TcaFqCodel {
    #[default]
    Unspec,
    Target,
    Limit,
    Interval,
    Ecn,
    Flows,
    Quantum,
    CeThreshold,
    DropBatchSize,
    MemoryLimit,
    Max,
}

impl TcaFqCodel {
    /// The wire number of this kind.
    pub open spec fn spec_code(self) -> u16 {
        match self {
            TcaFqCodel::Unspec => 0,
            TcaFqCodel::Target => 1,
            TcaFqCodel::Limit => 2,
            TcaFqCodel::Interval => 3,
            TcaFqCodel::Ecn => 4,
            TcaFqCodel::Flows => 5,
            TcaFqCodel::Quantum => 6,
            TcaFqCodel::CeThreshold => 7,
            TcaFqCodel::DropBatchSize => 8,
            TcaFqCodel::MemoryLimit => 9,
            TcaFqCodel::Max => 10,
        }
    }

    /// The kind that a wire number stands for. Total: every number of ten
    /// or more maps to `Max`.
    pub open spec fn spec_from_code(code: u16) -> TcaFqCodel {
        if code == 0 {
            TcaFqCodel::Unspec
        } else if code == 1 {
            TcaFqCodel::Target
        } else if code == 2 {
            TcaFqCodel::Limit
        } else if code == 3 {
            TcaFqCodel::Interval
        } else if code == 4 {
            TcaFqCodel::Ecn
        } else if code == 5 {
            TcaFqCodel::Flows
        } else if code == 6 {
            TcaFqCodel::Quantum
        } else if code == 7 {
            TcaFqCodel::CeThreshold
        } else if code == 8 {
            TcaFqCodel::DropBatchSize
        } else if code == 9 {
            TcaFqCodel::MemoryLimit
        } else {
            TcaFqCodel::Max
        }
    }

    /// True of the nine kinds that name a parameter field.
    pub open spec fn is_field(self) -> bool {
        self != TcaFqCodel::Unspec && self != TcaFqCodel::Max
    }

    /// The wire number of this kind.
    pub fn code(&self) -> (c: u16)
        ensures
            c == self.spec_code(),
    {
        match self {
            TcaFqCodel::Unspec => 0,
            TcaFqCodel::Target => 1,
            TcaFqCodel::Limit => 2,
            TcaFqCodel::Interval => 3,
            TcaFqCodel::Ecn => 4,
            TcaFqCodel::Flows => 5,
            TcaFqCodel::Quantum => 6,
            TcaFqCodel::CeThreshold => 7,
            TcaFqCodel::DropBatchSize => 8,
            TcaFqCodel::MemoryLimit => 9,
            TcaFqCodel::Max => 10,
        }
    }
}

/// A kind's wire number maps back to the kind itself.
pub proof fn lemma_code_round_trip(k: TcaFqCodel)
    ensures
        TcaFqCodel::spec_from_code(k.spec_code()) == k,
{
}

impl From<u16> for TcaFqCodel {
    /// The kind that a wire number stands for.
    fn from(v: u16) -> (k: TcaFqCodel) {
        if v == 0 {
            TcaFqCodel::Unspec
        } else if v == 1 {
            TcaFqCodel::Target
        } else if v == 2 {
            TcaFqCodel::Limit
        } else if v == 3 {
            TcaFqCodel::Interval
        } else if v == 4 {
            TcaFqCodel::Ecn
        } else if v == 5 {
            TcaFqCodel::Flows
        } else if v == 6 {
            TcaFqCodel::Quantum
        } else if v == 7 {
            TcaFqCodel::CeThreshold
        } else if v == 8 {
            TcaFqCodel::DropBatchSize
        } else if v == 9 {
            TcaFqCodel::MemoryLimit
        } else {
            TcaFqCodel::Max
        }
    }
}

impl vstd::std_specs::convert::FromSpecImpl<u16> for TcaFqCodel {
    open spec fn obeys_from_spec() -> bool {
        true
    }

    open spec fn from_spec(v: u16) -> TcaFqCodel {
        TcaFqCodel::spec_from_code(v)
    }
}

} // verus!
