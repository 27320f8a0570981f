use logic::circuit::Circuit;
use logic::gate::{ClockGate, GateKind, InputGate};
use logic::signal::Signal;

#[test]
fn test_and_gate() {
    let mut c = Circuit::new();
    c.add_gate("a", GateKind::Const(Signal::High));
    c.add_gate("b", GateKind::Const(Signal::Low));
    c.add_gate("g", GateKind::And("a".to_string(), "b".to_string()));
    assert_eq!(c.eval_gate("g"), Signal::Low);
}

#[test]
fn test_or_gate() {
    let mut c = Circuit::new();
    c.add_gate("a", GateKind::Const(Signal::High));
    c.add_gate("b", GateKind::Const(Signal::Low));
    c.add_gate("g", GateKind::Or("a".to_string(), "b".to_string()));
    assert_eq!(c.eval_gate("g"), Signal::High);
}

#[test]
fn test_not_gate() {
    let mut c = Circuit::new();
    c.add_gate("a", GateKind::Const(Signal::High));
    c.add_gate("g", GateKind::Not("a".to_string()));
    assert_eq!(c.eval_gate("g"), Signal::Low);
}

#[test]
fn test_nesting_gate() {
    let mut c = Circuit::new();
    c.add_gate("a", GateKind::Const(Signal::Low));
    c.add_gate("k", GateKind::Const(Signal::Low));
    c.add_gate("n", GateKind::Not("k".to_string()));
    c.add_gate("g", GateKind::Or("a".to_string(), "n".to_string()));
    assert_eq!(c.eval_gate("g"), Signal::High);
}

#[test]
fn test_nesting_xor_gate() {
    let mut c = Circuit::new();
    c.add_gate("a", GateKind::Const(Signal::Low));
    c.add_gate("k", GateKind::Const(Signal::Low));
    c.add_gate("n", GateKind::Not("k".to_string()));
    c.add_gate("g", GateKind::Xor("a".to_string(), "n".to_string()));
    assert_eq!(c.eval_gate("g"), Signal::High);
}

#[test]
fn test_nesting_nor_gate() {
    let mut c = Circuit::new();
    c.add_gate("a", GateKind::Const(Signal::Low));
    c.add_gate("k", GateKind::Const(Signal::High));
    c.add_gate("n", GateKind::Not("k".to_string()));
    c.add_gate("g", GateKind::Nor("a".to_string(), "n".to_string()));
    assert_eq!(c.eval_gate("g"), Signal::High);
}

#[test]
fn test_nesting_nand_gate() {
    let mut c = Circuit::new();
    c.add_gate("t", GateKind::Const(Signal::High));
    c.add_gate("f", GateKind::Const(Signal::Low));
    c.add_gate("ff", GateKind::Nand("f".to_string(), "f".to_string()));
    c.add_gate("ft", GateKind::Nand("f".to_string(), "t".to_string()));
    c.add_gate("tf", GateKind::Nand("t".to_string(), "f".to_string()));
    c.add_gate("tt", GateKind::Nand("t".to_string(), "t".to_string()));
    assert_eq!(c.eval_gate("ff"), Signal::High);
    assert_eq!(c.eval_gate("ft"), Signal::High);
    assert_eq!(c.eval_gate("tf"), Signal::High);
    assert_eq!(c.eval_gate("tt"), Signal::Low);
}

#[test]
fn test_gate_description() {
    let mut c = Circuit::new();
    c.add_gate("a", GateKind::Const(Signal::High));
    c.add_gate("b", GateKind::Const(Signal::Low));
    c.add_gate("g", GateKind::And("a".to_string(), "b".to_string()));
    assert_eq!(c.gate_description("g"), "And(Const 1, Const 0)");
}

#[test]
fn test_halfadder() {
    let mut c = Circuit::new();
    c.add_gate("a", GateKind::Const(Signal::High));
    c.add_gate("b", GateKind::Const(Signal::High));
    c.add_halfadder("a", "b", "sum", "carry").unwrap();
    assert_eq!(c.eval_gate("sum"), Signal::Low);
    assert_eq!(c.eval_gate("carry"), Signal::High);
}

#[test]
fn test_fulladder() {
    let mut c = Circuit::new();
    c.add_gate("a", GateKind::Const(Signal::High));
    c.add_gate("b", GateKind::Const(Signal::High));
    c.add_gate("cin", GateKind::Const(Signal::High));
    c.add_full_adder("a", "b", "cin", "sum", "carry").unwrap();
    assert_eq!(c.eval_gate("sum"), Signal::High);
    assert_eq!(c.eval_gate("carry"), Signal::High);
}

#[test]
fn test_input_gate() {
    let mut input_gate = InputGate::new(false);
    assert_eq!(input_gate.eval(), Signal::Low);

    input_gate.set_signal(true);
    assert_eq!(input_gate.eval(), Signal::High);
}

#[test]
fn test_srlatch() {
    let mut c = Circuit::new();
    c.add_gate("set", GateKind::Input(Signal::Low));
    c.add_gate("reset", GateKind::Input(Signal::Low));
    c.add_gate(
        "latch",
        GateKind::SRLatch { set: "set".to_string(), reset: "reset".to_string(), q: Signal::Low },
    );

    c.propagate();
    assert_eq!(c.eval_gate("latch"), Signal::Low);

    c.set_input("set", Signal::High).unwrap();
    c.set_input("reset", Signal::Low).unwrap();
    c.propagate();
    assert_eq!(c.eval_gate("latch"), Signal::High);

    c.set_input("set", Signal::Low).unwrap();
    c.propagate();
    assert_eq!(c.eval_gate("latch"), Signal::High);

    c.set_input("reset", Signal::High).unwrap();
    c.propagate();
    assert_eq!(c.eval_gate("latch"), Signal::Low);

    c.set_input("set", Signal::High).unwrap();
    c.propagate();
    assert_eq!(c.eval_gate("latch"), Signal::Low);
}

#[test]
fn test_dlatch() {
    let mut c = Circuit::new();
    c.add_gate("d", GateKind::Input(Signal::Low));
    c.add_gate("enable", GateKind::Input(Signal::Low));
    c.add_gate(
        "latch",
        GateKind::DLatch { d: "d".to_string(), enable: "enable".to_string(), q: Signal::Low },
    );

    c.propagate();
    assert_eq!(c.eval_gate("latch"), Signal::Low);

    c.set_input("d", Signal::High).unwrap();
    c.set_input("enable", Signal::High).unwrap();
    c.propagate();
    assert_eq!(c.eval_gate("latch"), Signal::High);

    c.set_input("d", Signal::Low).unwrap();
    c.set_input("enable", Signal::Low).unwrap();
    c.propagate();
    assert_eq!(c.eval_gate("latch"), Signal::High);

    c.set_input("enable", Signal::High).unwrap();
    c.propagate();
    assert_eq!(c.eval_gate("latch"), Signal::Low);
}

#[test]
fn test_d_flip_flop() {
    let mut c = Circuit::new();
    c.add_gate("d", GateKind::Input(Signal::Low));
    c.add_gate("clk", GateKind::Input(Signal::Low));
    c.add_gate(
        "ff",
        GateKind::DFlipFlop {
            d: "d".to_string(),
            clk: "clk".to_string(),
            q: Signal::Low,
            last_clk: Signal::Low,
        },
    );

    c.propagate();
    assert_eq!(c.eval_gate("ff"), Signal::Low);

    c.set_input("d", Signal::High).unwrap();
    c.set_input("clk", Signal::High).unwrap();
    c.propagate();
    assert_eq!(c.eval_gate("ff"), Signal::High);

    c.set_input("d", Signal::Low).unwrap();
    c.set_input("clk", Signal::Low).unwrap();
    c.propagate();

    c.set_input("clk", Signal::High).unwrap();
    c.propagate();
    assert_eq!(c.eval_gate("ff"), Signal::Low);
}

#[test]
fn test_clock() {
    let mut clk = ClockGate::new();
    assert_eq!(clk.eval(), Signal::Low);

    clk.tick();
    assert_eq!(clk.eval(), Signal::High);

    clk.tick();
    assert_eq!(clk.eval(), Signal::Low);
}
