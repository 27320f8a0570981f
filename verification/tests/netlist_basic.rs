use logic::netlist::NetList;

fn reading(outputs: &[(String, bool)], id: &str) -> Option<bool> {
    for (k, v) in outputs {
        if k == id {
            return Some(*v);
        }
    }
    None
}

#[test]
fn const_and_not() {
    let mut nl = NetList::default();

    nl.add_const("a", true);
    nl.add_not("b", "a");
    nl.add_output("b");

    nl.propagate();
    let out = nl.outputs();
    assert_eq!(reading(&out, "b"), Some(false))
}

#[test]
fn ha_netlist() {
    let mut nl = NetList::default();

    nl.add_const("a", true);
    nl.add_const("b", true);

    nl.add_halfadder("a", "b", "sum", "carry");
    nl.add_output("sum");
    nl.add_output("carry");

    nl.propagate();
    let o = nl.outputs();

    assert_eq!(reading(&o, "sum"), Some(false));
    assert_eq!(reading(&o, "carry"), Some(true));
}

#[test]
fn dff_counter_stable() {
    let mut n = NetList::default();
    n.add_const("clk_low", false);
    n.add_clock("clk", false);
    n.add_dflipflop("q", "clk", false);

    n.add_output("q");

    for _ in 0..32 {
        n.tick("clk");
        n.propagate();
        println!("q = {}", reading(&n.outputs(), "q").unwrap());
    }
}

#[test]
fn interactive_io() {
    let mut nl = NetList::default();
    nl.add_input("A", false);
    nl.add_input("B", false);
    nl.add_and("R", "A", "B");
    nl.add_output("R");

    assert_eq!(reading(&nl.read_outputs(), "R"), Some(false));

    nl.set_input("A", true).unwrap();
    assert_eq!(reading(&nl.read_outputs(), "R"), Some(false));

    nl.set_input("B", true).unwrap();
    assert_eq!(reading(&nl.read_outputs(), "R"), Some(true));

    assert!(nl.set_input("R", false).is_err());
    assert!(matches!(nl.set_input("R", false), Err(_)));
}
