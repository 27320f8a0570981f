use logic::circuit::{gate_from_tag, Circuit, CircuitError};
use logic::gate::{ButtonGate, ClockGate, ConstGate, GateKind, GateTag, SwitchGate};
use logic::netlist::NetList;
use logic::signal::{and, or, xor, Signal};
use logic::wire::Wire;

fn reading(outputs: &[(String, bool)], id: &str) -> Option<bool> {
    for (k, v) in outputs {
        if k == id {
            return Some(*v);
        }
    }
    None
}

fn two_input(kind: fn(String, String) -> GateKind, a: Signal, b: Signal) -> Signal {
    let mut c = Circuit::new();
    c.add_gate("a", GateKind::Const(a));
    c.add_gate("b", GateKind::Const(b));
    c.add_gate("g", kind("a".to_string(), "b".to_string()));
    c.eval_gate("g")
}

#[test]
fn driven_truth_tables() {
    let t = Signal::High;
    let f = Signal::Low;
    for &a in &[f, t] {
        for &b in &[f, t] {
            let both = a == t && b == t;
            let either = a == t || b == t;
            let differ = (a == t) != (b == t);
            assert_eq!(and(a, b) == t, both);
            assert_eq!(or(a, b) == t, either);
            assert_eq!(xor(a, b) == t, differ);
            assert_eq!(two_input(GateKind::And, a, b) == t, both);
            assert_eq!(two_input(GateKind::Or, a, b) == t, either);
            assert_eq!(two_input(GateKind::Xor, a, b) == t, differ);
            assert_eq!(two_input(GateKind::Nand, a, b) == t, !both);
            assert_eq!(two_input(GateKind::Nor, a, b) == t, !either);
            assert_eq!(two_input(GateKind::Xnor, a, b) == t, !differ);
        }
    }
}

#[test]
fn hiz_dominates_operators() {
    let z = Signal::HiZ;
    for &s in &[Signal::Low, Signal::High, Signal::HiZ] {
        assert_eq!(and(s, z), z);
        assert_eq!(and(z, s), z);
        assert_eq!(or(s, z), z);
        assert_eq!(or(z, s), z);
        assert_eq!(xor(s, z), z);
        assert_eq!(xor(z, s), z);
        assert_eq!(two_input(GateKind::Xnor, s, z), z);
        assert_eq!(two_input(GateKind::Nand, z, s), z);
        assert_eq!(two_input(GateKind::Nor, s, z), z);
    }
    assert_eq!(Signal::HiZ.invert(), Signal::HiZ);
    assert_eq!(Signal::High.invert(), Signal::Low);
    assert_eq!(Signal::Low.invert(), Signal::High);
}

#[test]
fn half_adder_truth_table() {
    let t = Signal::High;
    let f = Signal::Low;
    for &a in &[f, t] {
        for &b in &[f, t] {
            let mut c = Circuit::new();
            c.add_gate("a", GateKind::Const(a));
            c.add_gate("b", GateKind::Const(b));
            c.add_halfadder("a", "b", "sum", "carry").unwrap();
            assert_eq!(c.eval_gate("sum") == t, (a == t) != (b == t));
            assert_eq!(c.eval_gate("carry") == t, a == t && b == t);
        }
    }
}

#[test]
fn full_adder_truth_table() {
    let t = Signal::High;
    let f = Signal::Low;
    for &a in &[f, t] {
        for &b in &[f, t] {
            for &cin in &[f, t] {
                let mut c = Circuit::new();
                c.add_gate("a", GateKind::Const(a));
                c.add_gate("b", GateKind::Const(b));
                c.add_gate("cin", GateKind::Const(cin));
                c.add_full_adder("a", "b", "cin", "sum", "carry").unwrap();
                let ones =
                    (a == t) as u32 + (b == t) as u32 + (cin == t) as u32;
                assert_eq!(c.eval_gate("sum") == t, ones % 2 == 1);
                assert_eq!(c.eval_gate("carry") == t, ones >= 2);
            }
        }
    }
}

#[test]
fn set_input_error_kinds() {
    let mut c = Circuit::new();
    c.add_gate("k", GateKind::Const(Signal::High));

    let missing = c.set_input("nope", Signal::High);
    assert!(matches!(missing, Err(CircuitError::NotFound { id }) if id == "nope"));

    let wrong = c.set_input("k", Signal::High);
    match wrong {
        Err(CircuitError::TypeMismatch { id, expected, actual }) => {
            assert_eq!(id, "k");
            assert_eq!(expected, GateTag::Input);
            assert_eq!(actual, GateTag::Const);
        }
        other => panic!("expected a kind mismatch, got {:?}", other),
    }
}

#[test]
fn connect_error_kinds() {
    let mut c = Circuit::new();
    c.add_gate("src", GateKind::Const(Signal::High));
    c.add_gate("plain", GateKind::Const(Signal::Low));
    c.add_wire("w", Wire::new("w"));

    assert!(matches!(
        c.connect("ghostly", "w"),
        Err(CircuitError::NotFound { id }) if id == "ghostly"
    ));
    assert!(matches!(
        c.connect("src", "ghostly"),
        Err(CircuitError::NotFound { id }) if id == "ghostly"
    ));
    assert!(matches!(
        c.connect("src", "plain"),
        Err(CircuitError::TypeMismatch { expected: GateTag::Wire, .. })
    ));
    assert!(c.connect("src", "w").is_ok());
    assert_eq!(c.eval_gate("w"), Signal::High);
}

#[test]
fn builder_error_kinds() {
    let mut c = Circuit::new();
    c.add_gate("a", GateKind::Const(Signal::High));
    assert!(matches!(
        c.add_halfadder("a", "missing", "s", "cy"),
        Err(CircuitError::NotFound { id }) if id == "missing"
    ));
    assert!(matches!(
        c.add_full_adder("missing", "a", "a", "s", "cy"),
        Err(CircuitError::NotFound { id }) if id == "missing"
    ));
    assert!(matches!(
        c.add_4bit_adder(
            "a", "a", "a", "a", "a", "a", "a", "missing", "a",
            ["s0", "s1", "s2", "s3"], "cout"
        ),
        Err(CircuitError::NotFound { id }) if id == "missing"
    ));
}

#[test]
fn unsupported_tag_is_rejected() {
    assert!(matches!(
        gate_from_tag("Const", true),
        Ok(GateKind::Const(Signal::High))
    ));
    assert!(matches!(
        gate_from_tag("Input", false),
        Ok(GateKind::Input(Signal::Low))
    ));
    assert!(matches!(
        gate_from_tag("SRLatch", true),
        Err(CircuitError::UnsupportedGateType { tag }) if tag == "SRLatch"
    ));
}

#[test]
fn tag_and_value_round_trip() {
    let g = GateKind::Input(Signal::High);
    assert_eq!(g.tag(), GateTag::Input);
    assert_eq!(g.tag().name(), "Input");
    assert_eq!(g.value_bool(), Some(true));
    let back = gate_from_tag(g.tag().name(), g.value_bool().unwrap()).unwrap();
    assert!(matches!(back, GateKind::Input(Signal::High)));

    let latch = GateKind::SRLatch {
        set: "s".to_string(),
        reset: "r".to_string(),
        q: Signal::Low,
    };
    assert_eq!(latch.tag(), GateTag::SRLatch);
    assert_eq!(latch.value_bool(), None);
}

#[test]
fn cyclic_graph_terminates_with_default() {
    // A wire bound to itself: the cycle guard yields the default Low.
    let mut c = Circuit::new();
    let mut w = Wire::new("w");
    w.connect("w");
    c.add_wire("w", w);
    assert_eq!(c.eval_gate("w"), Signal::Low);

    // An inverter fed by its own output through a wire: evaluation cuts the
    // cycle at the re-entry, reads Low there, and settles on High.
    let mut c2 = Circuit::new();
    c2.add_gate("n", GateKind::Not("w".to_string()));
    let mut loop_wire = Wire::new("w");
    loop_wire.connect("n");
    c2.add_wire("w", loop_wire);
    let first = c2.eval_gate("n");
    assert_eq!(first, Signal::High);
    // Repeated evaluation and propagation stay defined and deterministic.
    c2.propagate();
    assert_eq!(c2.eval_gate("n"), first);
}

#[test]
fn eval_is_idempotent() {
    let mut c = Circuit::new();
    c.add_gate("i", GateKind::Input(Signal::High));
    c.add_gate("k", GateKind::Const(Signal::Low));
    c.add_gate("g", GateKind::Or("i".to_string(), "k".to_string()));
    c.add_gate(
        "latch",
        GateKind::DLatch { d: "g".to_string(), enable: "i".to_string(), q: Signal::Low },
    );
    c.add_output("g");
    c.add_output("latch");

    let once = c.eval();
    let twice = c.eval();
    assert_eq!(once, twice);
    assert_eq!(c.description(), c.description());
}

#[test]
fn tri_state_gate_levels() {
    let mut c = Circuit::new();
    c.add_gate("data", GateKind::Const(Signal::High));
    c.add_gate("en", GateKind::Input(Signal::Low));
    c.add_gate(
        "t",
        GateKind::TriState { input: "data".to_string(), enable: "en".to_string() },
    );
    assert_eq!(c.eval_gate("t"), Signal::HiZ);
    c.set_input("en", Signal::High).unwrap();
    assert_eq!(c.eval_gate("t"), Signal::High);
}

#[test]
fn dangling_reference_degrades_to_low() {
    let mut c = Circuit::new();
    c.add_gate("a", GateKind::Const(Signal::High));
    c.add_gate("g", GateKind::Or("a".to_string(), "gone".to_string()));
    assert_eq!(c.eval_gate("g"), Signal::High);

    c.remove_gate("a");
    assert_eq!(c.eval_gate("g"), Signal::Low);
    assert_eq!(c.eval_gate("a"), Signal::Low);

    // A removed output id is skipped by eval and description.
    c.add_output("a");
    assert_eq!(c.eval(), vec![]);
    assert_eq!(c.description(), "");
}

#[test]
fn step_ticks_every_clock() {
    let mut c = Circuit::new();
    c.add_gate("c1", GateKind::Clock(Signal::Low));
    c.add_gate("c2", GateKind::Clock(Signal::High));
    c.add_gate("k", GateKind::Const(Signal::Low));
    c.step();
    assert_eq!(c.eval_gate("c1"), Signal::High);
    assert_eq!(c.eval_gate("c2"), Signal::Low);
    assert_eq!(c.eval_gate("k"), Signal::Low);
}

#[test]
fn descriptions_of_gate_kinds() {
    let mut c = Circuit::new();
    c.add_gate("a", GateKind::Const(Signal::High));
    c.add_gate("b", GateKind::Const(Signal::Low));
    c.add_gate("z", GateKind::Const(Signal::HiZ));
    c.add_gate("i", GateKind::Input(Signal::High));
    c.add_gate("x", GateKind::Xor("a".to_string(), "b".to_string()));
    c.add_gate("buf", GateKind::Buffer("a".to_string()));
    c.add_gate(
        "t",
        GateKind::TriState { input: "a".to_string(), enable: "b".to_string() },
    );
    c.add_gate(
        "latch",
        GateKind::SRLatch { set: "a".to_string(), reset: "b".to_string(), q: Signal::Low },
    );
    c.add_gate(
        "dl",
        GateKind::DLatch { d: "a".to_string(), enable: "b".to_string(), q: Signal::High },
    );
    c.add_gate(
        "ff",
        GateKind::DFlipFlop {
            d: "a".to_string(),
            clk: "b".to_string(),
            q: Signal::Low,
            last_clk: Signal::Low,
        },
    );
    c.add_gate("clk", GateKind::Clock(Signal::Low));
    c.add_wire("w", Wire::new("w"));

    assert_eq!(c.gate_description("z"), "Const Z");
    assert_eq!(c.gate_description("i"), "Input High");
    assert_eq!(c.gate_description("x"), "Xor(Const 1,Const 0)");
    assert_eq!(c.gate_description("buf"), "Buffer(Const 1)");
    assert_eq!(c.gate_description("t"), "TriStateGate(Const 1,Const 0)");
    assert_eq!(c.gate_description("latch"), "SRLatch(Low)");
    assert_eq!(c.gate_description("dl"), "DLatch High");
    assert_eq!(c.gate_description("ff"), "DFlipFlop(Low)");
    assert_eq!(c.gate_description("clk"), "Clock(Low)");
    assert_eq!(c.gate_description("w"), "Wire(w, connected: None)");
    assert_eq!(c.gate_description("gone"), "None");
}

#[test]
fn leaf_gates_hold_their_level() {
    let mut k = ConstGate::new(Signal::Low);
    assert_eq!(k.eval(), Signal::Low);
    assert_eq!(k.description(), "Const 0");
    k.set_level(Signal::High);
    assert_eq!(k.eval(), Signal::High);
    assert_eq!(k.description(), "Const 1");
    assert!(matches!(k.kind(), GateKind::Const(Signal::High)));

    let mut sw = SwitchGate::new(false);
    assert_eq!(sw.eval(), Signal::Low);
    assert_eq!(sw.description(), "Switch false");
    sw.toggle();
    assert_eq!(sw.eval(), Signal::High);
    assert!(matches!(sw.kind(), GateKind::Input(Signal::High)));

    let mut btn = ButtonGate::new();
    assert_eq!(btn.eval(), Signal::Low);
    assert_eq!(btn.description(), "Button");
    btn.press();
    assert_eq!(btn.eval(), Signal::High);
    btn.release();
    assert_eq!(btn.eval(), Signal::Low);

    let mut clk = ClockGate::new();
    assert_eq!(clk.description(), "Clock(Low)");
    clk.tick();
    assert_eq!(clk.description(), "Clock(High)");
    assert!(matches!(clk.kind(), GateKind::Clock(Signal::High)));
}

#[test]
fn netlist_absent_output_reads_false() {
    // An output id that resolves to nothing reads the default Low, which
    // the boolean surface reports as false.
    let mut nl = NetList::default();
    nl.add_output("nothing_here");
    assert_eq!(reading(&nl.read_outputs(), "nothing_here"), Some(false));
}

#[test]
fn netlist_set_input_skips_propagation_when_unchanged() {
    let mut nl = NetList::default();
    nl.add_input("A", false);
    nl.add_clock("clk", false);
    nl.add_dflipflop("q", "clk", false);
    nl.add_output("q");

    // Writing the level the input already holds leaves all state alone.
    nl.set_input("A", false).unwrap();
    assert_eq!(reading(&nl.outputs(), "q"), Some(false));

    // A toggle flip-flop advances once per rising edge.
    nl.tick("clk");
    nl.propagate();
    assert_eq!(reading(&nl.outputs(), "q"), Some(true));
    nl.tick("clk");
    nl.propagate();
    assert_eq!(reading(&nl.outputs(), "q"), Some(true));
    nl.tick("clk");
    nl.propagate();
    assert_eq!(reading(&nl.outputs(), "q"), Some(false));
}
