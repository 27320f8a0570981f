//! A boolean-level netlist: a thin facade over [`Circuit`] for graphs driven
//! entirely by two-valued levels. Writers read `true` as `High` and `false`
//! as `Low`; readers report whether a line is `High` (an undriven `HiZ` line
//! therefore reads as `false`).

use vstd::prelude::*;
use vstd::string::*;

use crate::circuit::{spec_eval, spec_propagate, Circuit, CircuitError, CircuitView};
use crate::gate::{spec_clock_tick, tag_of, GateKind, GateTag, GateView};
use crate::signal::Signal;

verus! {

/// The boolean reading of a level: only `High` is true.
pub open spec fn sig_bool(s: Signal) -> bool {
    s == Signal::High
}

/// The level a boolean writes: `true` drives `High`, `false` drives `Low`.
pub open spec fn bool_sig(v: bool) -> Signal {
    if v {
        Signal::High
    } else {
        Signal::Low
    }
}

/// The id of the inverter a toggle flip-flop reads its next state from.
pub open spec fn not_id(q: Seq<char>) -> Seq<char> {
    "_not_"@ + q
}

/// An id-indexed gate graph read and written at the boolean level.
#[derive(Debug)]
pub struct NetList {
    circuit: Circuit,
}

impl View for NetList {
    type V = CircuitView;

    closed spec fn view(&self) -> CircuitView {
        self.circuit@
    }
}

impl Default for NetList {
    fn default() -> (r: NetList)
        ensures
            r.wf(),
            r@.gates == Map::<Seq<char>, GateView>::empty(),
            r@.outputs == Seq::<Seq<char>>::empty(),
    {
        NetList { circuit: Circuit::new() }
    }
}

impl NetList {
    /// Well-formed: the underlying circuit table is well-formed.
    pub closed spec fn wf(&self) -> bool {
        self.circuit.wf()
    }

    /// Insert a constant gate under `id`.
    pub fn add_const(&mut self, id: &str, v: bool)
        requires
            old(self).wf(),
        ensures
            final(self).wf(),
            final(self)@.gates == old(self)@.gates.insert(id@, GateView::Const(bool_sig(v))),
            final(self)@.outputs == old(self)@.outputs,
    {
        self.circuit.add_gate(
            id,
            GateKind::Const(
                if v {
                    Signal::High
                } else {
                    Signal::Low
                },
            ),
        );
    }

    /// Insert an externally settable input gate under `id`.
    pub fn add_input(&mut self, id: &str, v: bool)
        requires
            old(self).wf(),
        ensures
            final(self).wf(),
            final(self)@.gates == old(self)@.gates.insert(id@, GateView::Input(bool_sig(v))),
            final(self)@.outputs == old(self)@.outputs,
    {
        self.circuit.add_gate(
            id,
            GateKind::Input(
                if v {
                    Signal::High
                } else {
                    Signal::Low
                },
            ),
        );
    }

    /// Insert an inverter of `src` under `id`.
    pub fn add_not(&mut self, id: &str, src: &str)
        requires
            old(self).wf(),
        ensures
            final(self).wf(),
            final(self)@.gates == old(self)@.gates.insert(id@, GateView::Not(src@)),
            final(self)@.outputs == old(self)@.outputs,
    {
        self.circuit.add_gate(id, GateKind::Not(src.to_owned()));
    }

    /// Insert a conjunction of `a` and `b` under `id`.
    pub fn add_and(&mut self, id: &str, a: &str, b: &str)
        requires
            old(self).wf(),
        ensures
            final(self).wf(),
            final(self)@.gates == old(self)@.gates.insert(id@, GateView::And(a@, b@)),
            final(self)@.outputs == old(self)@.outputs,
    {
        self.circuit.add_gate(id, GateKind::And(a.to_owned(), b.to_owned()));
    }

    /// Insert an exclusive-or of `a` and `b` under `id`.
    pub fn add_xor(&mut self, id: &str, a: &str, b: &str)
        requires
            old(self).wf(),
        ensures
            final(self).wf(),
            final(self)@.gates == old(self)@.gates.insert(id@, GateView::Xor(a@, b@)),
            final(self)@.outputs == old(self)@.outputs,
    {
        self.circuit.add_gate(id, GateKind::Xor(a.to_owned(), b.to_owned()));
    }

    /// Insert a half adder over `a` and `b`: `sum_id` becomes their `Xor`
    /// and `carry_id` their `And`.
    pub fn add_halfadder(&mut self, a: &str, b: &str, sum_id: &str, carry_id: &str)
        requires
            old(self).wf(),
        ensures
            final(self).wf(),
            final(self)@.gates == old(self)@.gates.insert(sum_id@, GateView::Xor(a@, b@)).insert(
                carry_id@,
                GateView::And(a@, b@),
            ),
            final(self)@.outputs == old(self)@.outputs,
    {
        self.add_xor(sum_id, a, b);
        self.add_and(carry_id, a, b);
    }

    /// Insert a clock gate under `id`, starting at the given level.
    pub fn add_clock(&mut self, id: &str, init: bool)
        requires
            old(self).wf(),
        ensures
            final(self).wf(),
            final(self)@.gates == old(self)@.gates.insert(id@, GateView::Clock(bool_sig(init))),
            final(self)@.outputs == old(self)@.outputs,
    {
        self.circuit.add_gate(
            id,
            GateKind::Clock(
                if init {
                    Signal::High
                } else {
                    Signal::Low
                },
            ),
        );
    }

    /// Insert a toggle flip-flop under `q`, clocked by `clk`: its data line
    /// is an inverter of `q` itself, placed under a generated id, so `q`
    /// flips on every rising clock edge once propagation runs.
    pub fn add_dflipflop(&mut self, q: &str, clk: &str, init: bool)
        requires
            old(self).wf(),
        ensures
            final(self).wf(),
            final(self)@.gates == old(self)@.gates.insert(
                q@,
                (GateView::DFlipFlop {
                    d: not_id(q@),
                    clk: clk@,
                    q: bool_sig(init),
                    last_clk: Signal::Low,
                }),
            ).insert(not_id(q@), GateView::Not(q@)),
            final(self)@.outputs == old(self)@.outputs,
    {
        let mut d_not = String::from_str("_not_");
        d_not.append(q);
        self.circuit.add_gate(
            q,
            GateKind::DFlipFlop {
                d: d_not.clone(),
                clk: clk.to_owned(),
                q: if init {
                    Signal::High
                } else {
                    Signal::Low
                },
                last_clk: Signal::Low,
            },
        );
        self.circuit.add_gate(d_not.as_str(), GateKind::Not(q.to_owned()));
    }

    /// Declare `id` as an output; outputs are read in declaration order.
    pub fn add_output(&mut self, id: &str)
        requires
            old(self).wf(),
        ensures
            final(self).wf(),
            final(self)@.gates == old(self)@.gates,
            final(self)@.outputs == old(self)@.outputs.push(id@),
    {
        self.circuit.add_output(id);
    }

    /// Run the propagation fixed-point loop of the underlying circuit.
    pub fn propagate(&mut self)
        requires
            old(self).wf(),
        ensures
            final(self).wf(),
            final(self)@ == spec_propagate(old(self)@),
    {
        self.circuit.propagate();
    }

    /// Advance the clock named `clk_id` by one tick; any other id, or an id
    /// bound to a gate of another kind, is silently ignored.
    pub fn tick(&mut self, clk_id: &str)
        requires
            old(self).wf(),
        ensures
            final(self).wf(),
            final(self)@.outputs == old(self)@.outputs,
            (old(self)@.gates.contains_key(clk_id@) && old(self)@.gates[clk_id@] matches
                GateView::Clock(s)) ==> final(self)@.gates == old(self)@.gates.insert(
                clk_id@,
                GateView::Clock(spec_clock_tick(old(self)@.gates[clk_id@]->Clock_0)),
            ),
            !(old(self)@.gates.contains_key(clk_id@) && old(self)@.gates[clk_id@] matches
                GateView::Clock(s)) ==> final(self)@ == old(self)@,
    {
        match self.circuit.gate(clk_id) {
            Some(GateKind::Clock(s)) => {
                let s2 = if s == Signal::Low {
                    Signal::High
                } else {
                    Signal::Low
                };
                self.circuit.add_gate(clk_id, GateKind::Clock(s2));
            },
            _ => {},
        }
    }

    /// Read every declared output at the boolean level, in declaration
    /// order; an id that does not resolve reads the default `Low`, so
    /// `false`.
    pub fn outputs(&self) -> (r: Vec<(String, bool)>)
        requires
            self.wf(),
        ensures
            r@.len() == self@.outputs.len(),
            forall|i: int|
                0 <= i < r@.len() ==> (#[trigger] r@[i]).0@ == self@.outputs[i] && r@[i].1
                    == sig_bool(spec_eval(self@, self@.outputs[i])),
    {
        let mut r: Vec<(String, bool)> = Vec::new();
        let ids = self.circuit.output_list();
        let n = ids.len();
        let mut i: usize = 0;
        while i < n
            invariant
                self.wf(),
                n == ids@.len(),
                i <= n,
                n == self@.outputs.len(),
                forall|j: int| 0 <= j < n ==> (#[trigger] ids@[j])@ == self@.outputs[j],
                r@.len() == i,
                forall|j: int|
                    0 <= j < i ==> (#[trigger] r@[j]).0@ == self@.outputs[j] && r@[j].1 == sig_bool(
                        spec_eval(self@, self@.outputs[j]),
                    ),
            decreases n - i,
        {
            let id = &ids[i];
            let v = self.circuit.eval_gate(id.as_str());
            r.push((id.clone(), v == Signal::High));
            i += 1;
        }
        r
    }

    /// Propagate, then read every declared output at the boolean level.
    pub fn read_outputs(&mut self) -> (r: Vec<(String, bool)>)
        requires
            old(self).wf(),
        ensures
            final(self).wf(),
            final(self)@ == spec_propagate(old(self)@),
            r@.len() == final(self)@.outputs.len(),
            forall|i: int|
                0 <= i < r@.len() ==> (#[trigger] r@[i]).0@ == final(self)@.outputs[i] && r@[i].1
                    == sig_bool(spec_eval(final(self)@, final(self)@.outputs[i])),
    {
        self.propagate();
        self.outputs()
    }

    /// Drive the input gate named `id` to the given boolean level. When the
    /// level actually changes, propagation runs before returning, so
    /// sequential gates settle. Fails with `NotFound` when no gate holds the
    /// id and with `TypeMismatch` when the id holds another kind; a
    /// failure leaves the netlist unchanged.
    pub fn set_input(&mut self, id: &str, value: bool) -> (r: Result<(), CircuitError>)
        requires
            old(self).wf(),
        ensures
            final(self).wf(),
            match r {
                Ok(()) => old(self)@.gates.contains_key(id@) && (old(self)@.gates[id@] matches
                    GateView::Input(s) && (if s == bool_sig(value) {
                    final(self)@ == old(self)@
                } else {
                    final(self)@ == spec_propagate(
                        (CircuitView {
                            gates: old(self)@.gates.insert(id@, GateView::Input(bool_sig(value))),
                            outputs: old(self)@.outputs,
                        }),
                    )
                })),
                Err(CircuitError::NotFound { id: e }) => e@ == id@ && !old(
                    self,
                )@.gates.contains_key(id@) && final(self)@ == old(self)@,
                Err(CircuitError::TypeMismatch { id: e, expected, actual }) => e@ == id@ && old(
                    self,
                )@.gates.contains_key(id@) && tag_of(old(self)@.gates[id@]) != GateTag::Input
                    && expected == GateTag::Input && actual == tag_of(old(self)@.gates[id@])
                    && final(self)@ == old(self)@,
                Err(CircuitError::UnsupportedGateType { .. }) => false,
            },
    {
        let level = if value {
            Signal::High
        } else {
            Signal::Low
        };
        match self.circuit.gate(id) {
            None => Err(CircuitError::NotFound { id: id.to_owned() }),
            Some(GateKind::Input(s)) => {
                if s != level {
                    let ghost pre = self@;
                    match self.circuit.set_input(id, level) {
                        Ok(()) => {},
                        Err(e) => {
                            return Err(e);
                        },
                    }
                    proof {
                        assert(self@ =~= (CircuitView {
                            gates: pre.gates.insert(id@, GateView::Input(bool_sig(value))),
                            outputs: pre.outputs,
                        }));
                    }
                    self.circuit.propagate();
                }
                Ok(())
            },
            Some(g) => Err(
                CircuitError::TypeMismatch {
                    id: id.to_owned(),
                    expected: GateTag::Input,
                    actual: g.tag(),
                },
            ),
        }
    }
}

} // verus!
