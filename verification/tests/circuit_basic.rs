use logic::circuit::Circuit;
use logic::gate::{GateKind, InputGate};
use logic::signal::Signal;
use logic::wire::Wire;

fn reading(outputs: &[(String, bool)], id: &str) -> Option<bool> {
    for (k, v) in outputs {
        if k == id {
            return Some(*v);
        }
    }
    None
}

#[test]
fn test_circuit() {
    let mut circuit = Circuit::new();

    circuit.add_gate("A", GateKind::Const(Signal::High));
    circuit.add_output("A");

    let result = circuit.eval();
    assert_eq!(reading(&result, "A"), Some(true));

    let desc = circuit.description();
    assert_eq!(desc, "A => Const 1")
}

#[test]
fn test_set_input_signal() {
    let mut circuit = Circuit::new();

    let input_gate = InputGate::new(false);
    circuit.add_gate("i1", input_gate.kind());
    circuit.add_output("i1");

    assert_eq!(reading(&circuit.eval(), "i1"), Some(false));

    circuit.set_input_bool("i1", true).unwrap();
    assert_eq!(reading(&circuit.eval(), "i1"), Some(true));

    let err = circuit.set_input_bool("i2", true);
    assert!(err.is_err());
}

#[test]
fn test_circuit_with_wire() {
    let mut circuit = Circuit::new();

    circuit.add_gate("c1", GateKind::Const(Signal::High));

    let wire = Wire::new("w1");
    circuit.add_wire("w1", wire);

    circuit.connect("c1", "w1").unwrap();

    circuit.add_output("w1");

    let result = circuit.eval();
    assert_eq!(reading(&result, "w1"), Some(true));

    let desc = circuit.description();
    assert_eq!(desc, "w1 => Wire(w1, connected: Const 1)")
}

#[test]
fn test_fa() {
    let mut circuit = Circuit::new();

    circuit.add_gate("a", GateKind::Const(Signal::High));
    circuit.add_gate("b", GateKind::Const(Signal::High));
    circuit.add_gate("cin", GateKind::Const(Signal::High));

    circuit
        .add_full_adder("a", "b", "cin", "sum", "carry")
        .unwrap();
    circuit.add_output("sum");
    circuit.add_output("carry");

    let result = circuit.eval();
    assert_eq!(reading(&result, "sum"), Some(true));
    assert_eq!(reading(&result, "carry"), Some(true));
}

#[test]
fn test_4bit_adder() {
    let mut circuit = Circuit::new();

    circuit.add_gate("a0", GateKind::Const(Signal::High));
    circuit.add_gate("a1", GateKind::Const(Signal::High));
    circuit.add_gate("a2", GateKind::Const(Signal::Low));
    circuit.add_gate("a3", GateKind::Const(Signal::Low));

    circuit.add_gate("b0", GateKind::Const(Signal::High));
    circuit.add_gate("b1", GateKind::Const(Signal::Low));
    circuit.add_gate("b2", GateKind::Const(Signal::High));
    circuit.add_gate("b3", GateKind::Const(Signal::Low));

    circuit.add_gate("cin", GateKind::Const(Signal::Low));

    circuit
        .add_4bit_adder(
            "a0",
            "a1",
            "a2",
            "a3",
            "b0",
            "b1",
            "b2",
            "b3",
            "cin",
            ["sum0", "sum1", "sum2", "sum3"],
            "cout",
        )
        .unwrap();

    circuit.add_output("sum0");
    circuit.add_output("sum1");
    circuit.add_output("sum2");
    circuit.add_output("sum3");
    circuit.add_output("cout");

    let out = circuit.eval();

    assert_eq!(reading(&out, "sum0"), Some(false));
    assert_eq!(reading(&out, "sum1"), Some(false));
    assert_eq!(reading(&out, "sum2"), Some(false));
    assert_eq!(reading(&out, "sum3"), Some(true));
    assert_eq!(reading(&out, "cout"), Some(false));
}
