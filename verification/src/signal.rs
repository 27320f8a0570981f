//! Tri-valued signal levels and the boolean operators over them.
//!
//! `HiZ` (high impedance, an undriven line) dominates the binary operators:
//! whenever either operand is `HiZ`, the result is `HiZ`.

use vstd::prelude::*;

verus! {

/// A tri-valued logic level: driven low, driven high, or undriven.
#[derive(Clone, Copy, Debug, PartialEq, Eq, Structural)]
pub enum Signal {
    Low,
    High,
    HiZ,
}

impl Signal {
    /// The inversion of a level: `Low` and `High` swap, `HiZ` stays `HiZ`.
    pub open spec fn spec_invert(self) -> Signal {
        match self {
            Signal::High => Signal::Low,
            Signal::Low => Signal::High,
            Signal::HiZ => Signal::HiZ,
        }
    }

    pub fn is_low(self) -> (r: bool)
        ensures
            r == (self == Signal::Low),
    {
        self == Signal::Low
    }

    pub fn is_high(self) -> (r: bool)
        ensures
            r == (self == Signal::High),
    {
        self == Signal::High
    }

    pub fn invert(self) -> (r: Signal)
        ensures
            r == self.spec_invert(),
    {
        match self {
            Signal::High => Signal::Low,
            Signal::Low => Signal::High,
            Signal::HiZ => Signal::HiZ,
        }
    }

    /// The name of the level, as descriptions render it.
    pub open spec fn spec_name(self) -> Seq<char> {
        match self {
            Signal::Low => "Low"@,
            Signal::High => "High"@,
            Signal::HiZ => "HiZ"@,
        }
    }

    pub fn name(self) -> (r: &'static str)
        ensures
            r@ == self.spec_name(),
    {
        match self {
            Signal::Low => "Low",
            Signal::High => "High",
            Signal::HiZ => "HiZ",
        }
    }
}

/// Conjunction: `High` only when both operands are `High`; `HiZ` dominates.
pub open spec fn spec_and(a: Signal, b: Signal) -> Signal {
    if a == Signal::High && b == Signal::High {
        Signal::High
    } else if a == Signal::HiZ || b == Signal::HiZ {
        Signal::HiZ
    } else {
        Signal::Low
    }
}

/// Disjunction: `Low` only when both operands are `Low`; `HiZ` dominates.
pub open spec fn spec_or(a: Signal, b: Signal) -> Signal {
    if a == Signal::Low && b == Signal::Low {
        Signal::Low
    } else if a == Signal::HiZ || b == Signal::HiZ {
        Signal::HiZ
    } else {
        Signal::High
    }
}

/// Exclusive or: `High` when the operands differ; `HiZ` dominates.
pub open spec fn spec_xor(a: Signal, b: Signal) -> Signal {
    if a == Signal::HiZ || b == Signal::HiZ {
        Signal::HiZ
    } else if a == b {
        Signal::Low
    } else {
        Signal::High
    }
}

pub fn and(a: Signal, b: Signal) -> (r: Signal)
    ensures
        r == spec_and(a, b),
{
    match (a, b) {
        (Signal::High, Signal::High) => Signal::High,
        (Signal::HiZ, _) | (_, Signal::HiZ) => Signal::HiZ,
        _ => Signal::Low,
    }
}

pub fn or(a: Signal, b: Signal) -> (r: Signal)
    ensures
        r == spec_or(a, b),
{
    match (a, b) {
        (Signal::Low, Signal::Low) => Signal::Low,
        (Signal::HiZ, _) | (_, Signal::HiZ) => Signal::HiZ,
        _ => Signal::High,
    }
}

pub fn xor(a: Signal, b: Signal) -> (r: Signal)
    ensures
        r == spec_xor(a, b),
{
    match (a, b) {
        (Signal::HiZ, _) | (_, Signal::HiZ) => Signal::HiZ,
        (Signal::High, Signal::High) | (Signal::Low, Signal::Low) => Signal::Low,
        _ => Signal::High,
    }
}

/// Law: on driven operands, `and`, `or` and `xor` agree with the standard
/// boolean truth tables, reading `High` as true, and never yield `HiZ`.
pub proof fn lemma_driven_truth_tables(a: Signal, b: Signal)
    requires
        a != Signal::HiZ,
        b != Signal::HiZ,
    ensures
        spec_and(a, b) == Signal::High <==> (a == Signal::High && b == Signal::High),
        spec_or(a, b) == Signal::High <==> (a == Signal::High || b == Signal::High),
        spec_xor(a, b) == Signal::High <==> (a == Signal::High) != (b == Signal::High),
        spec_and(a, b) != Signal::HiZ,
        spec_or(a, b) != Signal::HiZ,
        spec_xor(a, b) != Signal::HiZ,
{
}

/// Law: on driven operands, the inverted gates `Nand`, `Nor` and `Xnor`
/// (inversion applied to `and`, `or`, `xor`) agree with the standard
/// boolean truth tables, and never yield `HiZ`.
pub proof fn lemma_driven_inverted_truth_tables(a: Signal, b: Signal)
    requires
        a != Signal::HiZ,
        b != Signal::HiZ,
    ensures
        spec_and(a, b).spec_invert() == Signal::High <==> !(a == Signal::High && b
            == Signal::High),
        spec_or(a, b).spec_invert() == Signal::High <==> !(a == Signal::High || b
            == Signal::High),
        spec_xor(a, b).spec_invert() == Signal::High <==> (a == Signal::High) == (b
            == Signal::High),
        spec_and(a, b).spec_invert() != Signal::HiZ,
        spec_or(a, b).spec_invert() != Signal::HiZ,
        spec_xor(a, b).spec_invert() != Signal::HiZ,
{
}

/// Law: an undriven operand dominates every binary operator, inverted or not.
pub proof fn lemma_hiz_dominates(a: Signal, b: Signal)
    requires
        a == Signal::HiZ || b == Signal::HiZ,
    ensures
        spec_and(a, b) == Signal::HiZ,
        spec_or(a, b) == Signal::HiZ,
        spec_xor(a, b) == Signal::HiZ,
        spec_and(a, b).spec_invert() == Signal::HiZ,
        spec_or(a, b).spec_invert() == Signal::HiZ,
        spec_xor(a, b).spec_invert() == Signal::HiZ,
{
}

} // verus!
