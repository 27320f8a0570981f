//! The circuit graph: an id-indexed table of gates plus an ordered list of
//! designated output ids. The table is the only place an id is resolved to a
//! gate, so gates may freely name ids that do not (or no longer) exist;
//! evaluation degrades such references to `Low` instead of failing.

use vstd::prelude::*;
use vstd::string::*;

use crate::gate::{tag_of, GateId, GateKind, GateTag, GateView};
use crate::signal::{spec_and, spec_or, spec_xor, Signal};
use crate::table::{
    gate_has_key, gate_keys_unique, gate_map, ids_set, lemma_gate_map_contains,
    lemma_gate_map_finite, lemma_gate_map_get, lemma_gate_map_push, lemma_gate_map_remove,
    lemma_gate_map_update, lemma_ids_set_contains, lemma_ids_set_finite, lemma_ids_set_push,
    lemma_memo_map_contains, lemma_memo_map_get, lemma_memo_map_push, memo_has_key,
    memo_keys_unique, memo_map,
};
use crate::wire::Wire;

verus! {

/// A recoverable failure of a mutation operation, carrying the offending id
/// and, for kind mismatches, the expected and the actual kind.
#[derive(Debug, Clone, PartialEq, Eq)]
pub enum CircuitError {
    /// The named id is absent from the table.
    NotFound { id: GateId },
    /// The named gate is not of the kind the operation requires.
    TypeMismatch { id: GateId, expected: GateTag, actual: GateTag },
    /// A persistence tag that cannot be reconstructed.
    UnsupportedGateType { tag: String },
}

/// The mathematical value of a circuit: a map from ids to gate values, and
/// the sequence of declared output ids.
#[verifier::ext_equal]
pub struct CircuitView {
    pub gates: Map<Seq<char>, GateView>,
    pub outputs: Seq<Seq<char>>,
}

/// The circuit graph container. Owns every gate by value; all cross-gate
/// references are ids resolved through this table.
#[derive(Debug)]
pub struct Circuit {
    gates: Vec<(GateId, GateKind)>,
    outputs: Vec<GateId>,
}

impl View for Circuit {
    type V = CircuitView;

    closed spec fn view(&self) -> CircuitView {
        CircuitView {
            gates: gate_map(self.gates@),
            outputs: self.outputs@.map_values(|id: String| id@),
        }
    }
}

impl Circuit {
    /// Well-formed: the stored table has pairwise distinct keys, so it reads
    /// back entry by entry. Every constructor establishes this and every
    /// method preserves it.
    pub closed spec fn wf(&self) -> bool {
        gate_keys_unique(self.gates@)
    }

    pub fn new() -> (r: Circuit)
        ensures
            r.wf(),
            r@.gates == Map::<Seq<char>, GateView>::empty(),
            r@.outputs == Seq::<Seq<char>>::empty(),
    {
        let r = Circuit { gates: Vec::new(), outputs: Vec::new() };
        proof {
            assert(r@.outputs =~= Seq::<Seq<char>>::empty());
        }
        r
    }

    /// The index of the entry holding `id`, if any.
    fn idx_of(&self, id: &String) -> (r: Option<usize>)
        ensures
            match r {
                Some(i) => i < self.gates@.len() && self.gates@[i as int].0@ == id@,
                None => forall|j: int| 0 <= j < self.gates@.len() ==> self.gates@[j].0@ != id@,
            },
    {
        let n = self.gates.len();
        let mut k: usize = 0;
        while k < n
            invariant
                n == self.gates@.len(),
                k <= n,
                forall|j: int| 0 <= j < k ==> self.gates@[j].0@ != id@,
            decreases n - k,
        {
            if self.gates[k].0 == *id {
                return Some(k);
            }
            k += 1;
        }
        None
    }

    /// Insert `gate` under `id`, replacing any gate already bound to `id`.
    pub fn add_gate(&mut self, id: &str, gate: GateKind)
        requires
            old(self).wf(),
        ensures
            final(self).wf(),
            final(self)@.gates == old(self)@.gates.insert(id@, gate@),
            final(self)@.outputs == old(self)@.outputs,
    {
        let key: String = id.to_owned();
        let ghost g0 = self.gates@;
        match self.idx_of(&key) {
            Some(i) => {
                let ghost p = (key, gate);
                self.gates[i] = (key, gate);
                proof {
                    assert forall|x: int, y: int|
                        0 <= x < y < self.gates@.len() implies self.gates@[x].0@
                        != self.gates@[y].0@ by {
                        assert(g0[x].0@ != g0[y].0@);
                    }
                    lemma_gate_map_update(g0, i as int, p);
                }
            },
            None => {
                let ghost p = (key, gate);
                self.gates.push((key, gate));
                proof {
                    assert forall|x: int, y: int|
                        0 <= x < y < self.gates@.len() implies self.gates@[x].0@
                        != self.gates@[y].0@ by {
                        if y < g0.len() {
                            assert(g0[x].0@ != g0[y].0@);
                        }
                    }
                    lemma_gate_map_push(g0, p);
                }
            },
        }
    }

    /// Declare `id` as an output; outputs are read in declaration order.
    pub fn add_output(&mut self, id: &str)
        requires
            old(self).wf(),
        ensures
            final(self).wf(),
            final(self)@.gates == old(self)@.gates,
            final(self)@.outputs == old(self)@.outputs.push(id@),
    {
        let key: String = id.to_owned();
        let ghost o0 = self.outputs@;
        self.outputs.push(key);
        proof {
            assert(self.outputs@.map_values(|x: String| x@) =~= o0.map_values(|x: String| x@).push(
                id@,
            ));
        }
    }

    /// Insert a wire gate under `id`, replacing any gate already bound to it.
    pub fn add_wire(&mut self, id: &str, wire: Wire)
        requires
            old(self).wf(),
        ensures
            final(self).wf(),
            final(self)@.gates == old(self)@.gates.insert(id@, wire@),
            final(self)@.outputs == old(self)@.outputs,
    {
        let kind = GateKind::Wire { source: wire.source, label: wire.label };
        self.add_gate(id, kind);
    }

    /// A copy of whatever is bound to `id`, if any.
    pub fn gate(&self, id: &str) -> (r: Option<GateKind>)
        requires
            self.wf(),
        ensures
            match r {
                Some(g) => self@.gates.contains_key(id@) && g@ == self@.gates[id@],
                None => !self@.gates.contains_key(id@),
            },
    {
        let key: String = id.to_owned();
        match self.idx_of(&key) {
            Some(i) => {
                proof {
                    lemma_gate_map_get(self.gates@, i as int);
                }
                Some(self.gates[i].1.duplicate())
            },
            None => {
                proof {
                    lemma_gate_map_contains(self.gates@);
                }
                None
            },
        }
    }

    /// Drop the entry bound to `id`, if any. Ids are stable: no other entry
    /// moves to a new name, and gates still referencing `id` now dangle and
    /// evaluate through the degrade-to-`Low` rule.
    pub fn remove_gate(&mut self, id: &str)
        requires
            old(self).wf(),
        ensures
            final(self).wf(),
            final(self)@.gates == old(self)@.gates.remove(id@),
            final(self)@.outputs == old(self)@.outputs,
    {
        let key: String = id.to_owned();
        let ghost g0 = self.gates@;
        match self.idx_of(&key) {
            Some(i) => {
                self.gates.remove(i);
                proof {
                    assert forall|x: int, y: int|
                        0 <= x < y < self.gates@.len() implies self.gates@[x].0@
                        != self.gates@[y].0@ by {
                        let x0 = if x < i { x } else { x + 1 };
                        let y0 = if y < i { y } else { y + 1 };
                        assert(self.gates@[x] == g0[x0]);
                        assert(self.gates@[y] == g0[y0]);
                        assert(g0[x0].0@ != g0[y0].0@);
                    }
                    lemma_gate_map_remove(g0, i as int);
                }
            },
            None => {
                proof {
                    lemma_gate_map_contains(g0);
                    assert(!gate_map(g0).contains_key(id@));
                    assert(gate_map(g0).remove(id@) =~= gate_map(g0));
                }
            },
        }
    }
}


/// One evaluation step of the pure resolver, threading the memo table of the
/// current pass.
///
/// The value of gate `id` is computed from the gates it names, each resolved
/// through `gates`. Within one pass every id is resolved at most once: a
/// finished id goes into the memo and later readers take the memoized value.
/// `visiting` holds the ids currently being resolved; re-entering one of them
/// (a feedback cycle) stops the descent and yields the defined default `Low`,
/// as does an id absent from the table. Stateful gates (latches, flip-flops,
/// clocks) yield their held state: evaluation never advances state.
pub open spec fn eval_memo(
    gates: Map<Seq<char>, GateView>,
    id: Seq<char>,
    memo: Map<Seq<char>, Signal>,
    visiting: Set<Seq<char>>,
) -> (Signal, Map<Seq<char>, Signal>)
    decreases gates.dom().difference(visiting).len()
        when gates.dom().finite() && visiting.finite()
{
    if memo.contains_key(id) {
        (memo[id], memo)
    } else if !gates.contains_key(id) {
        (Signal::Low, memo)
    } else if visiting.contains(id) {
        (Signal::Low, memo)
    } else {
        let vis2 = visiting.insert(id);
        proof {
            gates.dom().lemma_set_insert_diff_decreases(visiting, id);
        }
        let res = match gates[id] {
            GateView::Const(s) => (s, memo),
            GateView::Input(s) => (s, memo),
            GateView::Clock(s) => (s, memo),
            GateView::SRLatch { q, .. } => (q, memo),
            GateView::DLatch { q, .. } => (q, memo),
            GateView::DFlipFlop { q, .. } => (q, memo),
            GateView::Not(a) => {
                let ra = eval_memo(gates, a, memo, vis2);
                (ra.0.spec_invert(), ra.1)
            },
            GateView::Buffer(a) => eval_memo(gates, a, memo, vis2),
            GateView::Wire { source, .. } => match source {
                Some(src) => eval_memo(gates, src, memo, vis2),
                None => (Signal::Low, memo),
            },
            GateView::And(a, b) => {
                let ra = eval_memo(gates, a, memo, vis2);
                let rb = eval_memo(gates, b, ra.1, vis2);
                (spec_and(ra.0, rb.0), rb.1)
            },
            GateView::Or(a, b) => {
                let ra = eval_memo(gates, a, memo, vis2);
                let rb = eval_memo(gates, b, ra.1, vis2);
                (spec_or(ra.0, rb.0), rb.1)
            },
            GateView::Xor(a, b) => {
                let ra = eval_memo(gates, a, memo, vis2);
                let rb = eval_memo(gates, b, ra.1, vis2);
                (spec_xor(ra.0, rb.0), rb.1)
            },
            GateView::Nor(a, b) => {
                let ra = eval_memo(gates, a, memo, vis2);
                let rb = eval_memo(gates, b, ra.1, vis2);
                (spec_or(ra.0, rb.0).spec_invert(), rb.1)
            },
            GateView::Nand(a, b) => {
                let ra = eval_memo(gates, a, memo, vis2);
                let rb = eval_memo(gates, b, ra.1, vis2);
                (spec_and(ra.0, rb.0).spec_invert(), rb.1)
            },
            GateView::Xnor(a, b) => {
                let ra = eval_memo(gates, a, memo, vis2);
                let rb = eval_memo(gates, b, ra.1, vis2);
                (spec_xor(ra.0, rb.0).spec_invert(), rb.1)
            },
            GateView::TriState { input, enable } => {
                let re = eval_memo(gates, enable, memo, vis2);
                if re.0 == Signal::High {
                    eval_memo(gates, input, re.1, vis2)
                } else {
                    (Signal::HiZ, re.1)
                }
            },
        };
        (res.0, res.1.insert(id, res.0))
    }
}

/// The signal of gate `id` in circuit `c`: one fresh evaluation pass.
pub open spec fn spec_eval(c: CircuitView, id: Seq<char>) -> Signal {
    eval_memo(c.gates, id, Map::empty(), Set::empty()).0
}

/// The next `q` of an SR latch: set wins over hold, reset forces low, and
/// both lines low or both lines high hold the previous state.
pub open spec fn sr_next(s: Signal, r: Signal, q: Signal) -> Signal {
    if s == Signal::High && r == Signal::Low {
        Signal::High
    } else if s == Signal::Low && r == Signal::High {
        Signal::Low
    } else {
        q
    }
}

/// The state of one gate after a propagation pass over pre-state `c`.
///
/// Latches and flip-flops read their trigger and data lines through the
/// evaluator against `c`; every other gate is unchanged. A flip-flop captures
/// `d` only on a rising edge (remembered level not `High`, current level
/// `High`) and re-remembers the current clock level on every pass.
pub open spec fn next_gate(c: CircuitView, g: GateView) -> GateView {
    match g {
        GateView::SRLatch { set, reset, q } => GateView::SRLatch {
            set,
            reset,
            q: sr_next(spec_eval(c, set), spec_eval(c, reset), q),
        },
        GateView::DLatch { d, enable, q } => GateView::DLatch {
            d,
            enable,
            q: if spec_eval(c, enable) == Signal::High {
                spec_eval(c, d)
            } else {
                q
            },
        },
        GateView::DFlipFlop { d, clk, q, last_clk } => GateView::DFlipFlop {
            d,
            clk,
            q: if last_clk != Signal::High && spec_eval(c, clk) == Signal::High {
                spec_eval(c, d)
            } else {
                q
            },
            last_clk: spec_eval(c, clk),
        },
        _ => g,
    }
}

/// One simultaneous update of every stateful gate: each candidate next state
/// is computed against the same pre-state, then all are applied at once.
pub open spec fn spec_step(c: CircuitView) -> CircuitView {
    CircuitView {
        gates: Map::new(
            |k: Seq<char>| c.gates.dom().contains(k),
            |k: Seq<char>| next_gate(c, c.gates[k]),
        ),
        outputs: c.outputs,
    }
}

/// Whether a propagation pass over `c` would change any stateful gate.
pub open spec fn step_changed(c: CircuitView) -> bool {
    exists|k: Seq<char>|
        #[trigger] c.gates.contains_key(k) && next_gate(c, c.gates[k]) != c.gates[k]
}

/// Up to `fuel` propagation passes, stopping early at a fixed point.
pub open spec fn prop_iter(c: CircuitView, fuel: nat) -> CircuitView
    decreases fuel,
{
    if fuel == 0 {
        c
    } else if !step_changed(c) {
        c
    } else {
        prop_iter(spec_step(c), (fuel - 1) as nat)
    }
}

/// The propagation fixed-point loop: at most ten passes; if the graph has
/// not stabilized by then, the last snapshot is kept.
pub open spec fn spec_propagate(c: CircuitView) -> CircuitView {
    prop_iter(c, 10)
}

/// The rendered description of gate `id`: its own name with the
/// descriptions of its dependencies nested inside. An id absent from the
/// table renders as the unconnected token `None`; re-entering an id already
/// being rendered (a feedback cycle) renders as an elision. Meant for
/// debugging and tests, not for parsing.
pub open spec fn spec_desc(
    gates: Map<Seq<char>, GateView>,
    id: Seq<char>,
    visiting: Set<Seq<char>>,
) -> Seq<char>
    decreases gates.dom().difference(visiting).len()
        when gates.dom().finite() && visiting.finite()
{
    if !gates.contains_key(id) {
        "None"@
    } else if visiting.contains(id) {
        "..."@
    } else {
        let vis2 = visiting.insert(id);
        proof {
            gates.dom().lemma_set_insert_diff_decreases(visiting, id);
        }
        match gates[id] {
            GateView::Const(s) => match s {
                Signal::High => "Const 1"@,
                Signal::Low => "Const 0"@,
                Signal::HiZ => "Const Z"@,
            },
            GateView::Input(s) => "Input "@ + s.spec_name(),
            GateView::Clock(s) => "Clock("@ + s.spec_name() + ")"@,
            GateView::SRLatch { q, .. } => "SRLatch("@ + q.spec_name() + ")"@,
            GateView::DLatch { q, .. } => "DLatch "@ + q.spec_name(),
            GateView::DFlipFlop { q, .. } => "DFlipFlop("@ + q.spec_name() + ")"@,
            GateView::Not(a) => "Not("@ + spec_desc(gates, a, vis2) + ")"@,
            GateView::Buffer(a) => "Buffer("@ + spec_desc(gates, a, vis2) + ")"@,
            GateView::And(a, b) => "And("@ + spec_desc(gates, a, vis2) + ", "@ + spec_desc(
                gates,
                b,
                vis2,
            ) + ")"@,
            GateView::Or(a, b) => "Or("@ + spec_desc(gates, a, vis2) + ", "@ + spec_desc(
                gates,
                b,
                vis2,
            ) + ")"@,
            GateView::Xor(a, b) => "Xor("@ + spec_desc(gates, a, vis2) + ","@ + spec_desc(
                gates,
                b,
                vis2,
            ) + ")"@,
            GateView::Nor(a, b) => "Nor("@ + spec_desc(gates, a, vis2) + ","@ + spec_desc(
                gates,
                b,
                vis2,
            ) + ")"@,
            GateView::Nand(a, b) => "Nand("@ + spec_desc(gates, a, vis2) + ","@ + spec_desc(
                gates,
                b,
                vis2,
            ) + ")"@,
            GateView::Xnor(a, b) => "Xnor("@ + spec_desc(gates, a, vis2) + ","@ + spec_desc(
                gates,
                b,
                vis2,
            ) + ")"@,
            GateView::TriState { input, enable } => "TriStateGate("@ + spec_desc(
                gates,
                input,
                vis2,
            ) + ","@ + spec_desc(gates, enable, vis2) + ")"@,
            GateView::Wire { source, label } => "Wire("@ + label + ", connected: "@ + (match source {
                Some(src) => spec_desc(gates, src, vis2),
                None => "None"@,
            }) + ")"@,
        }
    }
}

/// The rendered description of the first `n` declared outputs, one line per
/// output id present in the table, each `id => description`, joined by
/// newlines. Absent output ids are skipped.
pub open spec fn desc_lines(c: CircuitView, n: int) -> Seq<char>
    decreases n,
{
    if n <= 0 {
        Seq::empty()
    } else {
        let rest = desc_lines(c, n - 1);
        let id = c.outputs[n - 1];
        if c.gates.contains_key(id) {
            let line = id + " => "@ + spec_desc(c.gates, id, Set::empty());
            if rest.len() == 0 {
                line
            } else {
                rest + "\n"@ + line
            }
        } else {
            rest
        }
    }
}

/// The rendered description of the whole circuit.
pub open spec fn spec_description(c: CircuitView) -> Seq<char> {
    desc_lines(c, c.outputs.len() as int)
}

/// An id generated by the composite builders for an internal gate: an
/// underscore, the id it serves, and a short suffix.
pub open spec fn derived_id(base: Seq<char>, suffix: Seq<char>) -> Seq<char> {
    "_"@ + base + suffix
}

/// The gates a full adder adds for operand ids `a`, `b` and `cin`: a first
/// half-adder stage, a second stage feeding `sum`, and an `Or` of the two
/// stage carries feeding `carry`.
pub open spec fn fa_gates(
    g: Map<Seq<char>, GateView>,
    a: Seq<char>,
    b: Seq<char>,
    cin: Seq<char>,
    sum: Seq<char>,
    carry: Seq<char>,
) -> Map<Seq<char>, GateView> {
    g.insert(derived_id(sum, "_x1"@), GateView::Xor(a, b)).insert(
        derived_id(carry, "_c1"@),
        GateView::And(a, b),
    ).insert(derived_id(carry, "_c2"@), GateView::And(derived_id(sum, "_x1"@), cin)).insert(
        sum,
        GateView::Xor(derived_id(sum, "_x1"@), cin),
    ).insert(carry, GateView::Or(derived_id(carry, "_c1"@), derived_id(carry, "_c2"@)))
}

/// The readings of the first `n` declared outputs: each output id present in
/// the table, paired with whether its signal is `High`. Absent output ids
/// are skipped.
pub open spec fn outputs_prefix(c: CircuitView, n: int) -> Seq<(Seq<char>, bool)>
    decreases n,
{
    if n <= 0 {
        Seq::empty()
    } else {
        let rest = outputs_prefix(c, n - 1);
        let id = c.outputs[n - 1];
        if c.gates.contains_key(id) {
            rest.push((id, spec_eval(c, id) == Signal::High))
        } else {
            rest
        }
    }
}

/// The readings of all declared outputs, in declaration order.
pub open spec fn spec_outputs(c: CircuitView) -> Seq<(Seq<char>, bool)> {
    outputs_prefix(c, c.outputs.len() as int)
}

/// The value of an output vector: each id abstracted to its characters.
pub open spec fn pairs_view(s: Seq<(String, bool)>) -> Seq<(Seq<char>, bool)> {
    s.map_values(|p: (String, bool)| (p.0@, p.1))
}

/// Law: output evaluation is a function of the circuit value alone, so
/// reading outputs twice with no intervening mutation or tick gives
/// identical results ([`Circuit::eval`] takes the circuit immutably and
/// cannot advance any state).
pub proof fn lemma_eval_deterministic(c1: CircuitView, c2: CircuitView)
    requires
        c1 == c2,
    ensures
        spec_outputs(c1) == spec_outputs(c2),
{
}

/// The state of one gate after advancing every clock: `Low` clocks rise to
/// `High`, other clocks fall to `Low`, and every other gate is unchanged.
pub open spec fn tick_gate(g: GateView) -> GateView {
    match g {
        GateView::Clock(s) => GateView::Clock(crate::gate::spec_clock_tick(s)),
        _ => g,
    }
}

/// Advancing every clock of the circuit at once.
pub open spec fn spec_tick_all(c: CircuitView) -> CircuitView {
    CircuitView {
        gates: Map::new(
            |k: Seq<char>| c.gates.dom().contains(k),
            |k: Seq<char>| tick_gate(c.gates[k]),
        ),
        outputs: c.outputs,
    }
}

/// A pass that changes nothing leaves the circuit exactly as it was.
pub proof fn lemma_unchanged_step(c: CircuitView)
    requires
        !step_changed(c),
    ensures
        spec_step(c) == c,
{
    assert forall|k: Seq<char>| #[trigger] c.gates.contains_key(k) implies next_gate(c, c.gates[k])
        == c.gates[k] by {
        assert(!(c.gates.contains_key(k) && next_gate(c, c.gates[k]) != c.gates[k]));
    }
    assert(spec_step(c).gates =~= c.gates);
    assert(spec_step(c) =~= c);
}

/// Law: a two-input combinational gate whose operands are constant gates
/// reads exactly the signal operator applied to the two constants — so over
/// driven constants the `And`/`Or`/`Xor`/`Nor`/`Nand`/`Xnor` kinds realize
/// the truth tables stated in [`crate::signal`].
pub proof fn lemma_binary_gate_on_consts(
    c: CircuitView,
    g: Seq<char>,
    a: Seq<char>,
    b: Seq<char>,
    x: Signal,
    y: Signal,
)
    requires
        c.gates.dom().finite(),
        c.gates.contains_key(g),
        c.gates.contains_key(a),
        c.gates.contains_key(b),
        c.gates[a] == GateView::Const(x),
        c.gates[b] == GateView::Const(y),
        a != g,
        b != g,
    ensures
        c.gates[g] == GateView::And(a, b) ==> spec_eval(c, g) == spec_and(x, y),
        c.gates[g] == GateView::Or(a, b) ==> spec_eval(c, g) == spec_or(x, y),
        c.gates[g] == GateView::Xor(a, b) ==> spec_eval(c, g) == spec_xor(x, y),
        c.gates[g] == GateView::Nor(a, b) ==> spec_eval(c, g) == spec_or(x, y).spec_invert(),
        c.gates[g] == GateView::Nand(a, b) ==> spec_eval(c, g) == spec_and(x, y).spec_invert(),
        c.gates[g] == GateView::Xnor(a, b) ==> spec_eval(c, g) == spec_xor(x, y).spec_invert(),
{
    let vis = Set::<Seq<char>>::empty().insert(g);
    let m0 = Map::<Seq<char>, Signal>::empty();
    let ra = eval_memo(c.gates, a, m0, vis);
    assert(ra == (x, m0.insert(a, x)));
    let rb = eval_memo(c.gates, b, ra.1, vis);
    if b == a {
        assert(ra.1.contains_key(b));
        assert(rb.0 == x);
    } else {
        assert(!ra.1.contains_key(b));
        assert(rb == (y, ra.1.insert(b, y)));
    }
}

/// Law: a wire bound to a constant gate reads that constant — in
/// particular, a net bound to `Const(High)` evaluates `High`.
pub proof fn lemma_wire_reads_const_source(
    c: CircuitView,
    w: Seq<char>,
    s: Seq<char>,
    x: Signal,
)
    requires
        c.gates.dom().finite(),
        c.gates.contains_key(w),
        c.gates.contains_key(s),
        c.gates[w] matches GateView::Wire { source: Some(src), .. } && src == s,
        c.gates[s] == GateView::Const(x),
        s != w,
    ensures
        spec_eval(c, w) == x,
{
    let vis = Set::<Seq<char>>::empty().insert(w);
    let m0 = Map::<Seq<char>, Signal>::empty();
    assert(eval_memo(c.gates, s, m0, vis) == (x, m0.insert(s, x)));
}

/// Law: a gate that names itself as its own source evaluates to the defined
/// default `Low` — the cycle guard cuts the self-reference instead of
/// recursing without bound.
pub proof fn lemma_self_loop_defaults(c: CircuitView, id: Seq<char>)
    requires
        c.gates.dom().finite(),
        c.gates.contains_key(id),
        c.gates[id] matches GateView::Wire { source: Some(src), .. } && src == id,
    ensures
        spec_eval(c, id) == Signal::Low,
{
    let inner = eval_memo(c.gates, id, Map::empty(), Set::empty().insert(id));
    assert(inner == (Signal::Low, Map::<Seq<char>, Signal>::empty()));
}

/// Reconstruct a gate from its persistence tag and boolean value. Only the
/// two persistable kinds are accepted: `Const` and `Input`, with `true`
/// read as `High`. Every other tag is rejected as unsupported.
pub fn gate_from_tag(tag: &str, value: bool) -> (r: Result<GateKind, CircuitError>)
    ensures
        ({
            let level = if value {
                Signal::High
            } else {
                Signal::Low
            };
            match r {
                Ok(g) => (tag@ == "Const"@ && g@ == GateView::Const(level)) || (tag@ == "Input"@
                    && g@ == GateView::Input(level)),
                Err(CircuitError::UnsupportedGateType { tag: t }) => t@ == tag@ && tag@
                    != "Const"@ && tag@ != "Input"@,
                Err(_) => false,
            }
        }),
{
    let level = if value {
        Signal::High
    } else {
        Signal::Low
    };
    let t: String = tag.to_owned();
    if t == String::from_str("Const") {
        Ok(GateKind::Const(level))
    } else if t == String::from_str("Input") {
        Ok(GateKind::Input(level))
    } else {
        Err(CircuitError::UnsupportedGateType { tag: t })
    }
}

/// Build an internal id for a composite builder.
fn internal_id(base: &str, suffix: &str) -> (r: String)
    ensures
        r@ == derived_id(base@, suffix@),
{
    let mut s = String::from_str("_");
    s.append(base);
    s.append(suffix);
    s
}

/// The memoized value of `id` in the running pass, if any.
fn memo_get(memo: &Vec<(String, Signal)>, id: &String) -> (r: Option<Signal>)
    requires
        memo_keys_unique(memo@),
    ensures
        match r {
            Some(v) => memo_map(memo@).contains_key(id@) && v == memo_map(memo@)[id@],
            None => !memo_map(memo@).contains_key(id@),
        },
{
    let n = memo.len();
    let mut k: usize = 0;
    while k < n
        invariant
            n == memo@.len(),
            k <= n,
            memo_keys_unique(memo@),
            forall|j: int| 0 <= j < k ==> memo@[j].0@ != id@,
        decreases n - k,
    {
        if memo[k].0 == *id {
            proof {
                lemma_memo_map_get(memo@, k as int);
            }
            return Some(memo[k].1);
        }
        k += 1;
    }
    proof {
        lemma_memo_map_contains(memo@);
    }
    None
}

/// Whether the resolving stack already holds `id`.
fn stack_contains(v: &Vec<String>, id: &String) -> (r: bool)
    ensures
        r == ids_set(v@).contains(id@),
{
    let n = v.len();
    let mut k: usize = 0;
    proof {
        lemma_ids_set_contains(v@);
    }
    while k < n
        invariant
            n == v@.len(),
            k <= n,
            forall|j: int| 0 <= j < k ==> v@[j]@ != id@,
            forall|w: Seq<char>|
                #[trigger] ids_set(v@).contains(w) <==> exists|i: int| 0 <= i < v@.len() && v@[i]@
                    == w,
        decreases n - k,
    {
        if v[k] == *id {
            proof {
                assert(v@[k as int]@ == id@);
            }
            return true;
        }
        k += 1;
    }
    false
}

impl Circuit {
    /// One step of the resolver: the value of gate `id`, memoized in `memo`,
    /// with `visiting` guarding against feedback cycles.
    #[verifier::rlimit(50)]
    fn eval_rec(&self, id: &String, memo: &mut Vec<(String, Signal)>, visiting: &mut Vec<String>)
        -> (r: Signal)
        requires
            self.wf(),
            memo_keys_unique(old(memo)@),
        ensures
            memo_keys_unique(final(memo)@),
            final(visiting)@ == old(visiting)@,
            ({
                let res = eval_memo(
                    self@.gates,
                    id@,
                    memo_map(old(memo)@),
                    ids_set(old(visiting)@),
                );
                r == res.0 && memo_map(final(memo)@) == res.1
            }),
            forall|k: Seq<char>|
                #[trigger] memo_map(final(memo)@).contains_key(k) ==> memo_map(
                    old(memo)@,
                ).contains_key(k) || !ids_set(old(visiting)@).contains(k),
        decreases self@.gates.dom().difference(ids_set(visiting@)).len(),
    {
        let ghost gs = self@.gates;
        let ghost m0 = memo_map(memo@);
        let ghost v0 = ids_set(visiting@);
        proof {
            lemma_gate_map_finite(self.gates@);
            lemma_ids_set_finite(visiting@);
        }
        if let Some(v) = memo_get(memo, id) {
            return v;
        }
        let gidx = match self.idx_of(id) {
            None => {
                proof {
                    lemma_gate_map_contains(self.gates@);
                }
                return Signal::Low;
            },
            Some(i) => i,
        };
        proof {
            lemma_gate_map_get(self.gates@, gidx as int);
        }
        if stack_contains(visiting, id) {
            return Signal::Low;
        }
        let id_c = id.clone();
        visiting.push(id_c);
        proof {
            assert(visiting@ =~= old(visiting)@.push(*id));
            lemma_ids_set_push(old(visiting)@, *id);
            assert(ids_set(visiting@) == v0.insert(id@));
            gs.dom().lemma_set_insert_diff_decreases(v0, id@);
        }
        let ghost vis2 = v0.insert(id@);
        let val = match &self.gates[gidx].1 {
            GateKind::Const(s) => *s,
            GateKind::Input(s) => *s,
            GateKind::Clock(s) => *s,
            GateKind::SRLatch { q, .. } => *q,
            GateKind::DLatch { q, .. } => *q,
            GateKind::DFlipFlop { q, .. } => *q,
            GateKind::Not(a) => {
                let va = self.eval_rec(a, memo, visiting);
                va.invert()
            },
            GateKind::Buffer(a) => self.eval_rec(a, memo, visiting),
            GateKind::Wire { source, .. } => match source {
                Some(src) => self.eval_rec(src, memo, visiting),
                None => Signal::Low,
            },
            GateKind::And(a, b) => {
                let va = self.eval_rec(a, memo, visiting);
                let vb = self.eval_rec(b, memo, visiting);
                crate::signal::and(va, vb)
            },
            GateKind::Or(a, b) => {
                let va = self.eval_rec(a, memo, visiting);
                let vb = self.eval_rec(b, memo, visiting);
                crate::signal::or(va, vb)
            },
            GateKind::Xor(a, b) => {
                let va = self.eval_rec(a, memo, visiting);
                let vb = self.eval_rec(b, memo, visiting);
                crate::signal::xor(va, vb)
            },
            GateKind::Nor(a, b) => {
                let va = self.eval_rec(a, memo, visiting);
                let vb = self.eval_rec(b, memo, visiting);
                crate::signal::or(va, vb).invert()
            },
            GateKind::Nand(a, b) => {
                let va = self.eval_rec(a, memo, visiting);
                let vb = self.eval_rec(b, memo, visiting);
                crate::signal::and(va, vb).invert()
            },
            GateKind::Xnor(a, b) => {
                let va = self.eval_rec(a, memo, visiting);
                let vb = self.eval_rec(b, memo, visiting);
                crate::signal::xor(va, vb).invert()
            },
            GateKind::TriState { input, enable } => {
                let ve = self.eval_rec(enable, memo, visiting);
                if ve.is_high() {
                    self.eval_rec(input, memo, visiting)
                } else {
                    Signal::HiZ
                }
            },
        };
        visiting.pop();
        proof {
            assert(visiting@ =~= old(visiting)@);
            assert(!memo_map(memo@).contains_key(id@));
        }
        let ghost mpre = memo@;
        let id_m = id.clone();
        memo.push((id_m, val));
        proof {
            assert(memo@ =~= mpre.push((*id, val)));
            lemma_memo_map_push(mpre, (*id, val));
            lemma_memo_map_contains(mpre);
            assert forall|x: int, y: int|
                0 <= x < y < memo@.len() implies memo@[x].0@ != memo@[y].0@ by {
                if y < mpre.len() {
                    assert(mpre[x].0@ != mpre[y].0@);
                } else {
                    assert(memo@[y].0@ == id@);
                    if mpre[x].0@ == id@ {
                        assert(memo_has_key(mpre, id@));
                    }
                }
            }
        }
        val
    }

    /// As [`Circuit::eval_gate`], taking the id as an owned string.
    fn eval_id(&self, id: &String) -> (r: Signal)
        requires
            self.wf(),
        ensures
            r == spec_eval(self@, id@),
    {
        let mut memo: Vec<(String, Signal)> = Vec::new();
        let mut visiting: Vec<String> = Vec::new();
        self.eval_rec(id, &mut memo, &mut visiting)
    }

    /// The current signal of gate `id`: a fresh evaluation pass over the
    /// graph. An absent id yields the default `Low`.
    pub fn eval_gate(&self, id: &str) -> (r: Signal)
        requires
            self.wf(),
        ensures
            r == spec_eval(self@, id@),
    {
        let key: String = id.to_owned();
        self.eval_id(&key)
    }
}

/// An association list whose entries carry the same keys as `s1`, each value
/// the image of the matching entry of `s1` under `f`, reads back as the map
/// of `s1` with `f` applied to every value.
proof fn lemma_gate_map_mapped(
    s1: Seq<(String, GateKind)>,
    s2: Seq<(String, GateKind)>,
    f: spec_fn(GateView) -> GateView,
)
    requires
        gate_keys_unique(s1),
        s2.len() == s1.len(),
        forall|j: int| 0 <= j < s1.len() ==> s2[j].0 == s1[j].0 && s2[j].1@ == f(s1[j].1@),
    ensures
        gate_keys_unique(s2),
        gate_map(s2) == Map::new(
            |k: Seq<char>| gate_map(s1).contains_key(k),
            |k: Seq<char>| f(gate_map(s1)[k]),
        ),
{
    let m = Map::new(
        |k: Seq<char>| gate_map(s1).contains_key(k),
        |k: Seq<char>| f(gate_map(s1)[k]),
    );
    lemma_gate_map_contains(s1);
    lemma_gate_map_contains(s2);
    assert forall|k: Seq<char>| #[trigger] gate_map(s2).contains_key(k) implies gate_map(
        s1,
    ).contains_key(k) by {
        let i = choose|i: int| 0 <= i < s2.len() && s2[i].0@ == k;
        assert(s1[i].0@ == k);
    }
    assert forall|k: Seq<char>| #[trigger] gate_map(s1).contains_key(k) implies gate_map(
        s2,
    ).contains_key(k) by {
        let i = choose|i: int| 0 <= i < s1.len() && s1[i].0@ == k;
        assert(s2[i].0@ == k);
    }
    assert forall|k: Seq<char>| #[trigger] gate_map(s2).contains_key(k) implies gate_map(s2)[k]
        == f(gate_map(s1)[k]) by {
        let i = choose|i: int| 0 <= i < s1.len() && s1[i].0@ == k;
        assert forall|j: int| i < j < s1.len() implies s1[j].0@ != s1[i].0@ by {}
        assert forall|j: int| i < j < s2.len() implies s2[j].0@ != s2[i].0@ by {
            assert(s1[j].0@ != s1[i].0@);
        }
        lemma_gate_map_get(s1, i);
        lemma_gate_map_get(s2, i);
    }
    assert(gate_map(s2) =~= m);
}

impl Circuit {
    /// Compute the candidate next state of every stateful gate against the
    /// current snapshot, then apply all candidates at once. Reports whether
    /// anything changed.
    fn step_once(&mut self) -> (changed: bool)
        requires
            old(self).wf(),
        ensures
            final(self).wf(),
            final(self)@ == spec_step(old(self)@),
            changed == step_changed(old(self)@),
    {
        let ghost c0 = self@;
        let ghost s1 = self.gates@;
        let mut new_gates: Vec<(String, GateKind)> = Vec::new();
        let mut changed = false;
        let n = self.gates.len();
        let mut i: usize = 0;
        while i < n
            invariant
                self.wf(),
                *self == *old(self),
                c0 == self@,
                s1 == self.gates@,
                n == self.gates@.len(),
                i <= n,
                new_gates@.len() == i,
                forall|j: int|
                    0 <= j < i ==> (#[trigger] new_gates@[j]).0 == s1[j].0 && new_gates@[j].1@
                        == next_gate(c0, s1[j].1@),
                changed == exists|j: int| 0 <= j < i && s1[j].1@ != next_gate(c0, s1[j].1@),
            decreases n - i,
        {
            let key = self.gates[i].0.clone();
            let mut delta = false;
            let kind_new = match &self.gates[i].1 {
                GateKind::SRLatch { set, reset, q } => {
                    let sv = self.eval_id(set);
                    let rv = self.eval_id(reset);
                    let q2 = if sv == Signal::High && rv == Signal::Low {
                        Signal::High
                    } else if sv == Signal::Low && rv == Signal::High {
                        Signal::Low
                    } else {
                        *q
                    };
                    delta = q2 != *q;
                    GateKind::SRLatch { set: set.clone(), reset: reset.clone(), q: q2 }
                },
                GateKind::DLatch { d, enable, q } => {
                    let ev = self.eval_id(enable);
                    let q2 = if ev.is_high() {
                        self.eval_id(d)
                    } else {
                        *q
                    };
                    delta = q2 != *q;
                    GateKind::DLatch { d: d.clone(), enable: enable.clone(), q: q2 }
                },
                GateKind::DFlipFlop { d, clk, q, last_clk } => {
                    let cv = self.eval_id(clk);
                    let q2 = if !last_clk.is_high() && cv.is_high() {
                        self.eval_id(d)
                    } else {
                        *q
                    };
                    delta = q2 != *q || cv != *last_clk;
                    GateKind::DFlipFlop {
                        d: d.clone(),
                        clk: clk.clone(),
                        q: q2,
                        last_clk: cv,
                    }
                },
                g => g.duplicate(),
            };
            if delta {
                changed = true;
            }
            new_gates.push((key, kind_new));
            i += 1;
        }
        proof {
            lemma_gate_map_mapped(s1, new_gates@, |g: GateView| next_gate(c0, g));
            lemma_gate_map_contains(s1);
            if changed {
                let j = choose|j: int| 0 <= j < n && s1[j].1@ != next_gate(c0, s1[j].1@);
                assert forall|l: int| j < l < s1.len() implies s1[l].0@ != s1[j].0@ by {}
                lemma_gate_map_get(s1, j);
                assert(c0.gates.contains_key(s1[j].0@) && next_gate(c0, c0.gates[s1[j].0@])
                    != c0.gates[s1[j].0@]);
            }
            if step_changed(c0) {
                let k = choose|k: Seq<char>|
                    #[trigger] c0.gates.contains_key(k) && next_gate(c0, c0.gates[k])
                        != c0.gates[k];
                assert(gate_has_key(s1, k));
                let j = choose|j: int| 0 <= j < s1.len() && s1[j].0@ == k;
                assert forall|l: int| j < l < s1.len() implies s1[l].0@ != s1[j].0@ by {}
                lemma_gate_map_get(s1, j);
                assert(s1[j].1@ != next_gate(c0, s1[j].1@));
            }
        }
        self.gates = new_gates;
        proof {
            assert(self@.gates =~= spec_step(c0).gates);
            assert(self@ =~= spec_step(c0));
        }
        changed
    }

    /// The declared output ids, in declaration order.
    pub(crate) fn output_list(&self) -> (r: &Vec<GateId>)
        ensures
            r@.len() == self@.outputs.len(),
            forall|i: int| 0 <= i < r@.len() ==> (#[trigger] r@[i])@ == self@.outputs[i],
    {
        &self.outputs
    }

    /// Whether any gate is bound to `id`.
    fn has_gate(&self, id: &str) -> (r: bool)
        requires
            self.wf(),
        ensures
            r == self@.gates.contains_key(id@),
    {
        let key: String = id.to_owned();
        match self.idx_of(&key) {
            Some(i) => {
                proof {
                    lemma_gate_map_get(self.gates@, i as int);
                }
                true
            },
            None => {
                proof {
                    lemma_gate_map_contains(self.gates@);
                }
                false
            },
        }
    }

    /// Set the level of the `Input` gate named `gate_id`. Fails with
    /// `NotFound` when no gate holds that id, and with `TypeMismatch` when
    /// the named id holds any other kind; a failure leaves the circuit unchanged.
    pub fn set_input(&mut self, gate_id: &str, level: Signal) -> (r: Result<(), CircuitError>)
        requires
            old(self).wf(),
        ensures
            final(self).wf(),
            final(self)@.outputs == old(self)@.outputs,
            match r {
                Ok(()) => old(self)@.gates.contains_key(gate_id@) && tag_of(
                    old(self)@.gates[gate_id@],
                ) == GateTag::Input && final(self)@.gates == old(self)@.gates.insert(
                    gate_id@,
                    GateView::Input(level),
                ),
                Err(CircuitError::NotFound { id }) => id@ == gate_id@ && !old(
                    self,
                )@.gates.contains_key(gate_id@) && final(self)@ == old(self)@,
                Err(CircuitError::TypeMismatch { id, expected, actual }) => id@ == gate_id@ && old(
                    self,
                )@.gates.contains_key(gate_id@) && tag_of(old(self)@.gates[gate_id@])
                    != GateTag::Input && expected == GateTag::Input && actual == tag_of(
                    old(self)@.gates[gate_id@],
                ) && final(self)@ == old(self)@,
                Err(CircuitError::UnsupportedGateType { .. }) => false,
            },
    {
        let key: String = gate_id.to_owned();
        let ghost g0 = self.gates@;
        match self.idx_of(&key) {
            None => {
                proof {
                    lemma_gate_map_contains(g0);
                }
                Err(CircuitError::NotFound { id: key })
            },
            Some(i) => {
                proof {
                    lemma_gate_map_get(g0, i as int);
                }
                let is_input = match &self.gates[i].1 {
                    GateKind::Input(_) => true,
                    _ => false,
                };
                if is_input {
                    let ghost p = (key, GateKind::Input(level));
                    self.gates[i] = (key, GateKind::Input(level));
                    proof {
                        assert forall|x: int, y: int|
                            0 <= x < y < self.gates@.len() implies self.gates@[x].0@
                            != self.gates@[y].0@ by {
                            assert(g0[x].0@ != g0[y].0@);
                        }
                        lemma_gate_map_update(g0, i as int, p);
                    }
                    Ok(())
                } else {
                    let actual = self.gates[i].1.tag();
                    Err(CircuitError::TypeMismatch { id: key, expected: GateTag::Input, actual })
                }
            },
        }
    }

    /// As [`Circuit::set_input`], reading `true` as `High` and `false` as
    /// `Low`.
    pub fn set_input_bool(&mut self, gate_id: &str, v: bool) -> (r: Result<(), CircuitError>)
        requires
            old(self).wf(),
        ensures
            final(self).wf(),
            final(self)@.outputs == old(self)@.outputs,
            match r {
                Ok(()) => old(self)@.gates.contains_key(gate_id@) && tag_of(
                    old(self)@.gates[gate_id@],
                ) == GateTag::Input && final(self)@.gates == old(self)@.gates.insert(
                    gate_id@,
                    GateView::Input(
                        if v {
                            Signal::High
                        } else {
                            Signal::Low
                        },
                    ),
                ),
                Err(CircuitError::NotFound { id }) => id@ == gate_id@ && !old(
                    self,
                )@.gates.contains_key(gate_id@) && final(self)@ == old(self)@,
                Err(CircuitError::TypeMismatch { id, expected, actual }) => id@ == gate_id@ && old(
                    self,
                )@.gates.contains_key(gate_id@) && tag_of(old(self)@.gates[gate_id@])
                    != GateTag::Input && expected == GateTag::Input && actual == tag_of(
                    old(self)@.gates[gate_id@],
                ) && final(self)@ == old(self)@,
                Err(CircuitError::UnsupportedGateType { .. }) => false,
            },
    {
        self.set_input(
            gate_id,
            if v {
                Signal::High
            } else {
                Signal::Low
            },
        )
    }

    /// Rebind the wire named `wire_id` so that it passes through
    /// `from_gate_id`. Fails with `NotFound` when either id is absent,
    /// and with `TypeMismatch` when `wire_id` does not name a wire; a failure
    /// leaves the circuit unchanged.
    pub fn connect(&mut self, from_gate_id: &str, wire_id: &str) -> (r: Result<(), CircuitError>)
        requires
            old(self).wf(),
        ensures
            final(self).wf(),
            final(self)@.outputs == old(self)@.outputs,
            match r {
                Ok(()) => old(self)@.gates.contains_key(from_gate_id@) && old(
                    self,
                )@.gates.contains_key(wire_id@) && (old(self)@.gates[wire_id@] matches
                    GateView::Wire { source: _, label } && final(self)@.gates == old(
                    self,
                )@.gates.insert(
                    wire_id@,
                    (GateView::Wire { source: Some(from_gate_id@), label }),
                )),
                Err(CircuitError::NotFound { id }) => final(self)@ == old(self)@ && (
                (id@ == from_gate_id@ && !old(self)@.gates.contains_key(from_gate_id@)) || (id@
                    == wire_id@ && old(self)@.gates.contains_key(from_gate_id@) && !old(
                    self,
                )@.gates.contains_key(wire_id@))),
                Err(CircuitError::TypeMismatch { id, expected, actual }) => id@ == wire_id@ && old(
                    self,
                )@.gates.contains_key(from_gate_id@) && old(self)@.gates.contains_key(wire_id@)
                    && tag_of(old(self)@.gates[wire_id@]) != GateTag::Wire && expected
                    == GateTag::Wire && actual == tag_of(old(self)@.gates[wire_id@]) && final(self)@ == old(self)@,
                Err(CircuitError::UnsupportedGateType { .. }) => false,
            },
    {
        let from_key: String = from_gate_id.to_owned();
        let ghost g0 = self.gates@;
        match self.idx_of(&from_key) {
            None => {
                proof {
                    lemma_gate_map_contains(g0);
                }
                return Err(CircuitError::NotFound { id: from_key });
            },
            Some(fi) => {
                proof {
                    lemma_gate_map_get(g0, fi as int);
                }
            },
        }
        let wire_key: String = wire_id.to_owned();
        match self.idx_of(&wire_key) {
            None => {
                proof {
                    lemma_gate_map_contains(g0);
                }
                Err(CircuitError::NotFound { id: wire_key })
            },
            Some(j) => {
                proof {
                    lemma_gate_map_get(g0, j as int);
                }
                let rebind = match &self.gates[j].1 {
                    GateKind::Wire { label, .. } => Some(
                        GateKind::Wire { source: Some(from_key), label: label.clone() },
                    ),
                    _ => None,
                };
                match rebind {
                    Some(kind) => {
                        let ghost p = (wire_key, kind);
                        self.gates[j] = (wire_key, kind);
                        proof {
                            assert forall|x: int, y: int|
                                0 <= x < y < self.gates@.len() implies self.gates@[x].0@
                                != self.gates@[y].0@ by {
                                assert(g0[x].0@ != g0[y].0@);
                            }
                            lemma_gate_map_update(g0, j as int, p);
                        }
                        Ok(())
                    },
                    None => {
                        let actual = self.gates[j].1.tag();
                        Err(
                            CircuitError::TypeMismatch {
                                id: wire_key,
                                expected: GateTag::Wire,
                                actual,
                            },
                        )
                    },
                }
            },
        }
    }

    /// Allocate a half adder over the existing gates `a_id` and `b_id`:
    /// `sum_id` becomes their `Xor` and `carry_id` their `And`. Fails with
    /// `NotFound`, naming the first absent operand, and then adds nothing.
    pub fn add_halfadder(&mut self, a_id: &str, b_id: &str, sum_id: &str, carry_id: &str) -> (r:
        Result<(), CircuitError>)
        requires
            old(self).wf(),
        ensures
            final(self).wf(),
            final(self)@.outputs == old(self)@.outputs,
            match r {
                Ok(()) => old(self)@.gates.contains_key(a_id@) && old(self)@.gates.contains_key(
                    b_id@,
                ) && final(self)@.gates == old(self)@.gates.insert(
                    sum_id@,
                    GateView::Xor(a_id@, b_id@),
                ).insert(carry_id@, GateView::And(a_id@, b_id@)),
                Err(CircuitError::NotFound { id }) => final(self)@ == old(self)@ && ((id@ == a_id@
                    && !old(self)@.gates.contains_key(a_id@)) || (id@ == b_id@ && old(
                    self,
                )@.gates.contains_key(a_id@) && !old(self)@.gates.contains_key(b_id@))),
                Err(_) => false,
            },
    {
        if !self.has_gate(a_id) {
            return Err(CircuitError::NotFound { id: a_id.to_owned() });
        }
        if !self.has_gate(b_id) {
            return Err(CircuitError::NotFound { id: b_id.to_owned() });
        }
        self.add_gate(sum_id, GateKind::Xor(a_id.to_owned(), b_id.to_owned()));
        self.add_gate(carry_id, GateKind::And(a_id.to_owned(), b_id.to_owned()));
        Ok(())
    }

    /// Allocate a full adder over the existing gates `a_id`, `b_id` and
    /// `cin_id`: two half-adder stages and a carry `Or`, with the internal
    /// gates placed under generated ids derived from `sum_id` and `carry_id`.
    /// Fails with `NotFound`, naming the first absent operand, and then adds
    /// nothing.
    pub fn add_full_adder(
        &mut self,
        a_id: &str,
        b_id: &str,
        cin_id: &str,
        sum_id: &str,
        carry_id: &str,
    ) -> (r: Result<(), CircuitError>)
        requires
            old(self).wf(),
        ensures
            final(self).wf(),
            final(self)@.outputs == old(self)@.outputs,
            match r {
                Ok(()) => old(self)@.gates.contains_key(a_id@) && old(self)@.gates.contains_key(
                    b_id@,
                ) && old(self)@.gates.contains_key(cin_id@) && final(self)@.gates == fa_gates(
                    old(self)@.gates,
                    a_id@,
                    b_id@,
                    cin_id@,
                    sum_id@,
                    carry_id@,
                ),
                Err(CircuitError::NotFound { id }) => final(self)@ == old(self)@ && ((id@ == a_id@
                    && !old(self)@.gates.contains_key(a_id@)) || (id@ == b_id@ && old(
                    self,
                )@.gates.contains_key(a_id@) && !old(self)@.gates.contains_key(b_id@)) || (id@
                    == cin_id@ && old(self)@.gates.contains_key(a_id@) && old(
                    self,
                )@.gates.contains_key(b_id@) && !old(self)@.gates.contains_key(cin_id@))),
                Err(_) => false,
            },
    {
        if !self.has_gate(a_id) {
            return Err(CircuitError::NotFound { id: a_id.to_owned() });
        }
        if !self.has_gate(b_id) {
            return Err(CircuitError::NotFound { id: b_id.to_owned() });
        }
        if !self.has_gate(cin_id) {
            return Err(CircuitError::NotFound { id: cin_id.to_owned() });
        }
        let x1 = internal_id(sum_id, "_x1");
        let c1 = internal_id(carry_id, "_c1");
        let c2 = internal_id(carry_id, "_c2");
        self.add_gate(x1.as_str(), GateKind::Xor(a_id.to_owned(), b_id.to_owned()));
        self.add_gate(c1.as_str(), GateKind::And(a_id.to_owned(), b_id.to_owned()));
        self.add_gate(c2.as_str(), GateKind::And(x1.clone(), cin_id.to_owned()));
        self.add_gate(sum_id, GateKind::Xor(x1.clone(), cin_id.to_owned()));
        self.add_gate(carry_id, GateKind::Or(c1.clone(), c2.clone()));
        Ok(())
    }

    /// Chain four full adders: stage `i` adds bit `i` of each operand, and
    /// the carry out of each stage feeds the next under a generated id
    /// derived from `cout_id`; the last carry lands under `cout_id` itself.
    /// Fails with `NotFound`, naming the first absent operand, and then adds
    /// nothing.
    pub fn add_4bit_adder(
        &mut self,
        a0_id: &str,
        a1_id: &str,
        a2_id: &str,
        a3_id: &str,
        b0_id: &str,
        b1_id: &str,
        b2_id: &str,
        b3_id: &str,
        cin_id: &str,
        sum_ids: [&str; 4],
        cout_id: &str,
    ) -> (r: Result<(), CircuitError>)
        requires
            old(self).wf(),
        ensures
            final(self).wf(),
            final(self)@.outputs == old(self)@.outputs,
            match r {
                Ok(()) => ({
                    let g0 = old(self)@.gates;
                    let k0 = derived_id(cout_id@, "_s0"@);
                    let k1 = derived_id(cout_id@, "_s1"@);
                    let k2 = derived_id(cout_id@, "_s2"@);
                    &&& g0.contains_key(a0_id@) && g0.contains_key(a1_id@) && g0.contains_key(
                        a2_id@,
                    ) && g0.contains_key(a3_id@)
                    &&& g0.contains_key(b0_id@) && g0.contains_key(b1_id@) && g0.contains_key(
                        b2_id@,
                    ) && g0.contains_key(b3_id@)
                    &&& g0.contains_key(cin_id@)
                    &&& final(self)@.gates == fa_gates(
                        fa_gates(
                            fa_gates(
                                fa_gates(g0, a0_id@, b0_id@, cin_id@, sum_ids@[0]@, k0),
                                a1_id@,
                                b1_id@,
                                k0,
                                sum_ids@[1]@,
                                k1,
                            ),
                            a2_id@,
                            b2_id@,
                            k1,
                            sum_ids@[2]@,
                            k2,
                        ),
                        a3_id@,
                        b3_id@,
                        k2,
                        sum_ids@[3]@,
                        cout_id@,
                    )
                }),
                Err(CircuitError::NotFound { id }) => ({
                    let g0 = old(self)@.gates;
                    &&& final(self)@ == old(self)@
                    &&& ((id@ == a0_id@ && !g0.contains_key(a0_id@)) || (id@ == a1_id@
                        && g0.contains_key(a0_id@) && !g0.contains_key(a1_id@)) || (id@ == a2_id@
                        && g0.contains_key(a0_id@) && g0.contains_key(a1_id@)
                        && !g0.contains_key(a2_id@)) || (id@ == a3_id@ && g0.contains_key(a0_id@)
                        && g0.contains_key(a1_id@) && g0.contains_key(a2_id@)
                        && !g0.contains_key(a3_id@)) || (id@ == b0_id@ && g0.contains_key(a0_id@)
                        && g0.contains_key(a1_id@) && g0.contains_key(a2_id@) && g0.contains_key(
                        a3_id@,
                    ) && !g0.contains_key(b0_id@)) || (id@ == b1_id@ && g0.contains_key(a0_id@)
                        && g0.contains_key(a1_id@) && g0.contains_key(a2_id@) && g0.contains_key(
                        a3_id@,
                    ) && g0.contains_key(b0_id@) && !g0.contains_key(b1_id@)) || (id@ == b2_id@
                        && g0.contains_key(a0_id@) && g0.contains_key(a1_id@) && g0.contains_key(
                        a2_id@,
                    ) && g0.contains_key(a3_id@) && g0.contains_key(b0_id@) && g0.contains_key(
                        b1_id@,
                    ) && !g0.contains_key(b2_id@)) || (id@ == b3_id@ && g0.contains_key(a0_id@)
                        && g0.contains_key(a1_id@) && g0.contains_key(a2_id@) && g0.contains_key(
                        a3_id@,
                    ) && g0.contains_key(b0_id@) && g0.contains_key(b1_id@) && g0.contains_key(
                        b2_id@,
                    ) && !g0.contains_key(b3_id@)) || (id@ == cin_id@ && g0.contains_key(a0_id@)
                        && g0.contains_key(a1_id@) && g0.contains_key(a2_id@) && g0.contains_key(
                        a3_id@,
                    ) && g0.contains_key(b0_id@) && g0.contains_key(b1_id@) && g0.contains_key(
                        b2_id@,
                    ) && g0.contains_key(b3_id@) && !g0.contains_key(cin_id@)))
                }),
                Err(_) => false,
            },
    {
        if !self.has_gate(a0_id) {
            return Err(CircuitError::NotFound { id: a0_id.to_owned() });
        }
        if !self.has_gate(a1_id) {
            return Err(CircuitError::NotFound { id: a1_id.to_owned() });
        }
        if !self.has_gate(a2_id) {
            return Err(CircuitError::NotFound { id: a2_id.to_owned() });
        }
        if !self.has_gate(a3_id) {
            return Err(CircuitError::NotFound { id: a3_id.to_owned() });
        }
        if !self.has_gate(b0_id) {
            return Err(CircuitError::NotFound { id: b0_id.to_owned() });
        }
        if !self.has_gate(b1_id) {
            return Err(CircuitError::NotFound { id: b1_id.to_owned() });
        }
        if !self.has_gate(b2_id) {
            return Err(CircuitError::NotFound { id: b2_id.to_owned() });
        }
        if !self.has_gate(b3_id) {
            return Err(CircuitError::NotFound { id: b3_id.to_owned() });
        }
        if !self.has_gate(cin_id) {
            return Err(CircuitError::NotFound { id: cin_id.to_owned() });
        }
        let k0 = internal_id(cout_id, "_s0");
        let k1 = internal_id(cout_id, "_s1");
        let k2 = internal_id(cout_id, "_s2");
        match self.add_full_adder(a0_id, b0_id, cin_id, sum_ids[0], k0.as_str()) {
            Ok(()) => {},
            Err(e) => {
                return Err(e);
            },
        }
        match self.add_full_adder(a1_id, b1_id, k0.as_str(), sum_ids[1], k1.as_str()) {
            Ok(()) => {},
            Err(e) => {
                return Err(e);
            },
        }
        match self.add_full_adder(a2_id, b2_id, k1.as_str(), sum_ids[2], k2.as_str()) {
            Ok(()) => {},
            Err(e) => {
                return Err(e);
            },
        }
        match self.add_full_adder(a3_id, b3_id, k2.as_str(), sum_ids[3], cout_id) {
            Ok(()) => {},
            Err(e) => {
                return Err(e);
            },
        }
        Ok(())
    }

    /// Advance every clock gate of the circuit by one tick.
    pub fn step(&mut self)
        requires
            old(self).wf(),
        ensures
            final(self).wf(),
            final(self)@ == spec_tick_all(old(self)@),
    {
        let ghost c0 = self@;
        let ghost s1 = self.gates@;
        let mut new_gates: Vec<(String, GateKind)> = Vec::new();
        let n = self.gates.len();
        let mut i: usize = 0;
        while i < n
            invariant
                *self == *old(self),
                c0 == self@,
                s1 == self.gates@,
                n == self.gates@.len(),
                i <= n,
                new_gates@.len() == i,
                forall|j: int|
                    0 <= j < i ==> (#[trigger] new_gates@[j]).0 == s1[j].0 && new_gates@[j].1@
                        == tick_gate(s1[j].1@),
            decreases n - i,
        {
            let key = self.gates[i].0.clone();
            let kind_new = match &self.gates[i].1 {
                GateKind::Clock(s) => {
                    let s2 = if *s == Signal::Low {
                        Signal::High
                    } else {
                        Signal::Low
                    };
                    GateKind::Clock(s2)
                },
                g => g.duplicate(),
            };
            new_gates.push((key, kind_new));
            i += 1;
        }
        proof {
            lemma_gate_map_mapped(s1, new_gates@, |g: GateView| tick_gate(g));
        }
        self.gates = new_gates;
        proof {
            assert(self@.gates =~= spec_tick_all(c0).gates);
            assert(self@ =~= spec_tick_all(c0));
        }
    }

    /// Read every declared output: each output id bound in the table is
    /// paired with whether its gate reads `High`; ids that no longer resolve
    /// are skipped. Purely reads the graph: no stateful gate advances, so
    /// repeated calls with no intervening mutation return identical results.
    pub fn eval(&self) -> (r: Vec<(String, bool)>)
        requires
            self.wf(),
        ensures
            pairs_view(r@) == spec_outputs(self@),
    {
        let mut r: Vec<(String, bool)> = Vec::new();
        let n = self.outputs.len();
        let mut i: usize = 0;
        proof {
            assert(pairs_view(r@) =~= outputs_prefix(self@, 0));
        }
        while i < n
            invariant
                self.wf(),
                n == self.outputs@.len(),
                i <= n,
                self@.outputs.len() == n,
                forall|j: int| 0 <= j < n ==> self@.outputs[j] == self.outputs@[j]@,
                pairs_view(r@) == outputs_prefix(self@, i as int),
            decreases n - i,
        {
            let ghost r0 = r@;
            let id = &self.outputs[i];
            if self.has_gate(id.as_str()) {
                let v = self.eval_id(id);
                r.push((id.clone(), v == Signal::High));
                proof {
                    assert(pairs_view(r@) =~= pairs_view(r0).push((id@, spec_eval(self@, id@)
                        == Signal::High)));
                }
            }
            i += 1;
        }
        r
    }

    /// Render gate `id` with its dependency tree, `visiting` guarding
    /// against feedback cycles.
    #[verifier::rlimit(50)]
    fn desc_rec(&self, id: &String, visiting: &mut Vec<String>) -> (r: String)
        requires
            self.wf(),
        ensures
            final(visiting)@ == old(visiting)@,
            r@ == spec_desc(self@.gates, id@, ids_set(old(visiting)@)),
        decreases self@.gates.dom().difference(ids_set(visiting@)).len(),
    {
        let ghost gs = self@.gates;
        let ghost v0 = ids_set(visiting@);
        proof {
            lemma_gate_map_finite(self.gates@);
            lemma_ids_set_finite(visiting@);
        }
        let gidx = match self.idx_of(id) {
            None => {
                proof {
                    lemma_gate_map_contains(self.gates@);
                }
                return String::from_str("None");
            },
            Some(i) => i,
        };
        proof {
            lemma_gate_map_get(self.gates@, gidx as int);
        }
        if stack_contains(visiting, id) {
            return String::from_str("...");
        }
        let id_c = id.clone();
        visiting.push(id_c);
        proof {
            assert(visiting@ =~= old(visiting)@.push(*id));
            lemma_ids_set_push(old(visiting)@, *id);
            assert(ids_set(visiting@) == v0.insert(id@));
            gs.dom().lemma_set_insert_diff_decreases(v0, id@);
        }
        let out = match &self.gates[gidx].1 {
            GateKind::Const(s) => match s {
                Signal::High => String::from_str("Const 1"),
                Signal::Low => String::from_str("Const 0"),
                Signal::HiZ => String::from_str("Const Z"),
            },
            GateKind::Input(s) => {
                let mut t = String::from_str("Input ");
                t.append(s.name());
                t
            },
            GateKind::Clock(s) => {
                let mut t = String::from_str("Clock(");
                t.append(s.name());
                t.append(")");
                t
            },
            GateKind::SRLatch { q, .. } => {
                let mut t = String::from_str("SRLatch(");
                t.append(q.name());
                t.append(")");
                t
            },
            GateKind::DLatch { q, .. } => {
                let mut t = String::from_str("DLatch ");
                t.append(q.name());
                t
            },
            GateKind::DFlipFlop { q, .. } => {
                let mut t = String::from_str("DFlipFlop(");
                t.append(q.name());
                t.append(")");
                t
            },
            GateKind::Not(a) => {
                let da = self.desc_rec(a, visiting);
                let mut t = String::from_str("Not(");
                t.append(da.as_str());
                t.append(")");
                t
            },
            GateKind::Buffer(a) => {
                let da = self.desc_rec(a, visiting);
                let mut t = String::from_str("Buffer(");
                t.append(da.as_str());
                t.append(")");
                t
            },
            GateKind::And(a, b) => {
                let da = self.desc_rec(a, visiting);
                let db = self.desc_rec(b, visiting);
                let mut t = String::from_str("And(");
                t.append(da.as_str());
                t.append(", ");
                t.append(db.as_str());
                t.append(")");
                t
            },
            GateKind::Or(a, b) => {
                let da = self.desc_rec(a, visiting);
                let db = self.desc_rec(b, visiting);
                let mut t = String::from_str("Or(");
                t.append(da.as_str());
                t.append(", ");
                t.append(db.as_str());
                t.append(")");
                t
            },
            GateKind::Xor(a, b) => {
                let da = self.desc_rec(a, visiting);
                let db = self.desc_rec(b, visiting);
                let mut t = String::from_str("Xor(");
                t.append(da.as_str());
                t.append(",");
                t.append(db.as_str());
                t.append(")");
                t
            },
            GateKind::Nor(a, b) => {
                let da = self.desc_rec(a, visiting);
                let db = self.desc_rec(b, visiting);
                let mut t = String::from_str("Nor(");
                t.append(da.as_str());
                t.append(",");
                t.append(db.as_str());
                t.append(")");
                t
            },
            GateKind::Nand(a, b) => {
                let da = self.desc_rec(a, visiting);
                let db = self.desc_rec(b, visiting);
                let mut t = String::from_str("Nand(");
                t.append(da.as_str());
                t.append(",");
                t.append(db.as_str());
                t.append(")");
                t
            },
            GateKind::Xnor(a, b) => {
                let da = self.desc_rec(a, visiting);
                let db = self.desc_rec(b, visiting);
                let mut t = String::from_str("Xnor(");
                t.append(da.as_str());
                t.append(",");
                t.append(db.as_str());
                t.append(")");
                t
            },
            GateKind::TriState { input, enable } => {
                let di = self.desc_rec(input, visiting);
                let de = self.desc_rec(enable, visiting);
                let mut t = String::from_str("TriStateGate(");
                t.append(di.as_str());
                t.append(",");
                t.append(de.as_str());
                t.append(")");
                t
            },
            GateKind::Wire { source, label } => {
                let mut t = String::from_str("Wire(");
                t.append(label.as_str());
                t.append(", connected: ");
                match source {
                    Some(src) => {
                        let ds = self.desc_rec(src, visiting);
                        t.append(ds.as_str());
                    },
                    None => {
                        t.append("None");
                    },
                }
                t.append(")");
                t
            },
        };
        visiting.pop();
        proof {
            assert(visiting@ =~= old(visiting)@);
        }
        out
    }

    /// Render the single gate named `id` with its dependency tree, without
    /// the `id =>` prefix of [`Circuit::description`].
    pub fn gate_description(&self, id: &str) -> (r: String)
        requires
            self.wf(),
        ensures
            r@ == spec_desc(self@.gates, id@, Set::empty()),
    {
        let key: String = id.to_owned();
        let mut visiting: Vec<String> = Vec::new();
        proof {
            assert(ids_set(visiting@) =~= Set::<Seq<char>>::empty());
        }
        self.desc_rec(&key, &mut visiting)
    }

    /// Render every declared output that is bound in the table, one line
    /// per output, each `id => nested description`, joined by newlines.
    pub fn description(&self) -> (r: String)
        requires
            self.wf(),
        ensures
            r@ == spec_description(self@),
    {
        let mut s = String::new();
        let mut first = true;
        let n = self.outputs.len();
        let mut i: usize = 0;
        while i < n
            invariant
                self.wf(),
                n == self.outputs@.len(),
                self@.outputs.len() == n,
                i <= n,
                forall|j: int| 0 <= j < n ==> self@.outputs[j] == self.outputs@[j]@,
                s@ == desc_lines(self@, i as int),
                first == (desc_lines(self@, i as int).len() == 0),
            decreases n - i,
        {
            let ghost s0 = s@;
            let id = &self.outputs[i];
            if self.has_gate(id.as_str()) {
                let mut visiting: Vec<String> = Vec::new();
                proof {
                    assert(ids_set(visiting@) =~= Set::<Seq<char>>::empty());
                }
                let d = self.desc_rec(id, &mut visiting);
                if !first {
                    s.append("\n");
                }
                s.append(id.as_str());
                s.append(" => ");
                s.append(d.as_str());
                first = false;
                proof {
                    reveal_strlit(" => ");
                    let line = id@ + " => "@ + spec_desc(self@.gates, id@, Set::empty());
                    assert(line.len() >= 4);
                    if s0.len() == 0 {
                        assert(s@ =~= line);
                    } else {
                        assert(s@ =~= s0 + "\n"@ + line);
                    }
                }
            }
            i += 1;
        }
        s
    }

    /// Re-derive a consistent snapshot of every stateful gate: repeat the
    /// simultaneous update until a pass changes nothing, up to ten passes.
    /// If the graph has not stabilized by then, the last snapshot is kept.
    pub fn propagate(&mut self)
        requires
            old(self).wf(),
        ensures
            final(self).wf(),
            final(self)@ == spec_propagate(old(self)@),
    {
        let ghost c0 = self@;
        let mut i: usize = 0;
        while i < 10
            invariant
                self.wf(),
                i <= 10,
                c0 == old(self)@,
                prop_iter(c0, 10) == prop_iter(self@, (10 - i) as nat),
            decreases 10 - i,
        {
            let ghost cpre = self@;
            let changed = self.step_once();
            if !changed {
                proof {
                    lemma_unchanged_step(cpre);
                    assert(prop_iter(cpre, (10 - i) as nat) == cpre);
                    assert(self@ == cpre);
                }
                return ;
            }
            proof {
                assert(prop_iter(cpre, (10 - i) as nat) == prop_iter(
                    spec_step(cpre),
                    (10 - i - 1) as nat,
                ));
            }
            i += 1;
        }
    }
}

} // verus!

