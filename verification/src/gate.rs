//! Gate kinds: the closed set of node variants a circuit graph is built from,
//! together with a few self-contained leaf gates that hold their own level.
//!
//! Gates never hold references to each other: a gate names its dependencies by
//! id, and the owning [`crate::circuit::Circuit`] resolves ids at evaluation
//! time.

use vstd::prelude::*;
use vstd::string::*;

use crate::signal::Signal;

verus! {

/// The id of a gate: an opaque string, unique within a circuit.
pub type GateId = String;

/// One node of the circuit graph.
///
/// `Const`, `Input` and `Clock` hold a level of their own; the combinational
/// variants name the gates they read; `Wire` is a labelled pass-through with
/// an optional source; the latch and flip-flop variants hold their `q` state,
/// which only the propagation step advances.
#[derive(Debug, Clone)]
pub enum GateKind {
    Const(Signal),
    Input(Signal),
    And(GateId, GateId),
    Or(GateId, GateId),
    Xor(GateId, GateId),
    Nor(GateId, GateId),
    Nand(GateId, GateId),
    Xnor(GateId, GateId),
    Not(GateId),
    Buffer(GateId),
    TriState { input: GateId, enable: GateId },
    Wire { source: Option<GateId>, label: String },
    SRLatch { set: GateId, reset: GateId, q: Signal },
    DLatch { d: GateId, enable: GateId, q: Signal },
    DFlipFlop { d: GateId, clk: GateId, q: Signal, last_clk: Signal },
    Clock(Signal),
}

/// The mathematical value of a [`GateKind`]: the same shape with every id
/// abstracted to its character sequence.
pub enum GateView {
    Const(Signal),
    Input(Signal),
    And(Seq<char>, Seq<char>),
    Or(Seq<char>, Seq<char>),
    Xor(Seq<char>, Seq<char>),
    Nor(Seq<char>, Seq<char>),
    Nand(Seq<char>, Seq<char>),
    Xnor(Seq<char>, Seq<char>),
    Not(Seq<char>),
    Buffer(Seq<char>),
    TriState { input: Seq<char>, enable: Seq<char> },
    Wire { source: Option<Seq<char>>, label: Seq<char> },
    SRLatch { set: Seq<char>, reset: Seq<char>, q: Signal },
    DLatch { d: Seq<char>, enable: Seq<char>, q: Signal },
    DFlipFlop { d: Seq<char>, clk: Seq<char>, q: Signal, last_clk: Signal },
    Clock(Signal),
}

impl View for GateKind {
    type V = GateView;

    open spec fn view(&self) -> GateView {
        match self {
            GateKind::Const(s) => GateView::Const(*s),
            GateKind::Input(s) => GateView::Input(*s),
            GateKind::And(a, b) => GateView::And(a@, b@),
            GateKind::Or(a, b) => GateView::Or(a@, b@),
            GateKind::Xor(a, b) => GateView::Xor(a@, b@),
            GateKind::Nor(a, b) => GateView::Nor(a@, b@),
            GateKind::Nand(a, b) => GateView::Nand(a@, b@),
            GateKind::Xnor(a, b) => GateView::Xnor(a@, b@),
            GateKind::Not(a) => GateView::Not(a@),
            GateKind::Buffer(a) => GateView::Buffer(a@),
            GateKind::TriState { input, enable } => GateView::TriState {
                input: input@,
                enable: enable@,
            },
            GateKind::Wire { source, label } => GateView::Wire {
                source: match source {
                    Some(s) => Some(s@),
                    None => None,
                },
                label: label@,
            },
            GateKind::SRLatch { set, reset, q } => GateView::SRLatch {
                set: set@,
                reset: reset@,
                q: *q,
            },
            GateKind::DLatch { d, enable, q } => GateView::DLatch {
                d: d@,
                enable: enable@,
                q: *q,
            },
            GateKind::DFlipFlop { d, clk, q, last_clk } => GateView::DFlipFlop {
                d: d@,
                clk: clk@,
                q: *q,
                last_clk: *last_clk,
            },
            GateKind::Clock(s) => GateView::Clock(*s),
        }
    }
}

/// The discriminant of a gate kind, used in typed errors and as the stable
/// per-kind tag of the persistence interface.
#[derive(Clone, Copy, Debug, PartialEq, Eq, Structural)]
pub enum GateTag {
    Const,
    Input,
    And,
    Or,
    Xor,
    Nor,
    Nand,
    Xnor,
    Not,
    Buffer,
    TriState,
    Wire,
    SRLatch,
    DLatch,
    DFlipFlop,
    Clock,
}

/// The tag of a gate value.
pub open spec fn tag_of(g: GateView) -> GateTag {
    match g {
        GateView::Const(..) => GateTag::Const,
        GateView::Input(..) => GateTag::Input,
        GateView::And(..) => GateTag::And,
        GateView::Or(..) => GateTag::Or,
        GateView::Xor(..) => GateTag::Xor,
        GateView::Nor(..) => GateTag::Nor,
        GateView::Nand(..) => GateTag::Nand,
        GateView::Xnor(..) => GateTag::Xnor,
        GateView::Not(..) => GateTag::Not,
        GateView::Buffer(..) => GateTag::Buffer,
        GateView::TriState { .. } => GateTag::TriState,
        GateView::Wire { .. } => GateTag::Wire,
        GateView::SRLatch { .. } => GateTag::SRLatch,
        GateView::DLatch { .. } => GateTag::DLatch,
        GateView::DFlipFlop { .. } => GateTag::DFlipFlop,
        GateView::Clock(..) => GateTag::Clock,
    }
}

impl GateTag {
    /// The stable name of the tag, as the persistence interface writes it.
    pub open spec fn spec_name(self) -> Seq<char> {
        match self {
            GateTag::Const => "Const"@,
            GateTag::Input => "Input"@,
            GateTag::And => "And"@,
            GateTag::Or => "Or"@,
            GateTag::Xor => "Xor"@,
            GateTag::Nor => "Nor"@,
            GateTag::Nand => "Nand"@,
            GateTag::Xnor => "Xnor"@,
            GateTag::Not => "Not"@,
            GateTag::Buffer => "Buffer"@,
            GateTag::TriState => "TriState"@,
            GateTag::Wire => "Wire"@,
            GateTag::SRLatch => "SRLatch"@,
            GateTag::DLatch => "DLatch"@,
            GateTag::DFlipFlop => "DFlipFlop"@,
            GateTag::Clock => "Clock"@,
        }
    }

    pub fn name(self) -> (r: &'static str)
        ensures
            r@ == self.spec_name(),
    {
        match self {
            GateTag::Const => "Const",
            GateTag::Input => "Input",
            GateTag::And => "And",
            GateTag::Or => "Or",
            GateTag::Xor => "Xor",
            GateTag::Nor => "Nor",
            GateTag::Nand => "Nand",
            GateTag::Xnor => "Xnor",
            GateTag::Not => "Not",
            GateTag::Buffer => "Buffer",
            GateTag::TriState => "TriState",
            GateTag::Wire => "Wire",
            GateTag::SRLatch => "SRLatch",
            GateTag::DLatch => "DLatch",
            GateTag::DFlipFlop => "DFlipFlop",
            GateTag::Clock => "Clock",
        }
    }
}

impl GateKind {
    /// The discriminant of this gate.
    pub fn tag(&self) -> (r: GateTag)
        ensures
            r == tag_of(self@),
    {
        match self {
            GateKind::Const(..) => GateTag::Const,
            GateKind::Input(..) => GateTag::Input,
            GateKind::And(..) => GateTag::And,
            GateKind::Or(..) => GateTag::Or,
            GateKind::Xor(..) => GateTag::Xor,
            GateKind::Nor(..) => GateTag::Nor,
            GateKind::Nand(..) => GateTag::Nand,
            GateKind::Xnor(..) => GateTag::Xnor,
            GateKind::Not(..) => GateTag::Not,
            GateKind::Buffer(..) => GateTag::Buffer,
            GateKind::TriState { .. } => GateTag::TriState,
            GateKind::Wire { .. } => GateTag::Wire,
            GateKind::SRLatch { .. } => GateTag::SRLatch,
            GateKind::DLatch { .. } => GateTag::DLatch,
            GateKind::DFlipFlop { .. } => GateTag::DFlipFlop,
            GateKind::Clock(..) => GateTag::Clock,
        }
    }

    /// The held boolean value of a persistable gate: `Some` for `Const` and
    /// `Input` (whether the level is `High`), `None` for every other kind.
    /// Together with [`GateKind::tag`] this is the persistence interface's
    /// view of a gate.
    pub fn value_bool(&self) -> (r: Option<bool>)
        ensures
            match self@ {
                GateView::Const(s) => r == Some(s == Signal::High),
                GateView::Input(s) => r == Some(s == Signal::High),
                _ => r is None,
            },
    {
        match self {
            GateKind::Const(s) => Some(*s == Signal::High),
            GateKind::Input(s) => Some(*s == Signal::High),
            _ => None,
        }
    }

    /// A deep copy with a known value, since the derived `Clone` carries no
    /// specification.
    pub fn duplicate(&self) -> (r: GateKind)
        ensures
            r@ == self@,
    {
        match self {
            GateKind::Const(s) => GateKind::Const(*s),
            GateKind::Input(s) => GateKind::Input(*s),
            GateKind::And(a, b) => GateKind::And(a.clone(), b.clone()),
            GateKind::Or(a, b) => GateKind::Or(a.clone(), b.clone()),
            GateKind::Xor(a, b) => GateKind::Xor(a.clone(), b.clone()),
            GateKind::Nor(a, b) => GateKind::Nor(a.clone(), b.clone()),
            GateKind::Nand(a, b) => GateKind::Nand(a.clone(), b.clone()),
            GateKind::Xnor(a, b) => GateKind::Xnor(a.clone(), b.clone()),
            GateKind::Not(a) => GateKind::Not(a.clone()),
            GateKind::Buffer(a) => GateKind::Buffer(a.clone()),
            GateKind::TriState { input, enable } => GateKind::TriState {
                input: input.clone(),
                enable: enable.clone(),
            },
            GateKind::Wire { source, label } => GateKind::Wire {
                source: match source {
                    Some(s) => Some(s.clone()),
                    None => None,
                },
                label: label.clone(),
            },
            GateKind::SRLatch { set, reset, q } => GateKind::SRLatch {
                set: set.clone(),
                reset: reset.clone(),
                q: *q,
            },
            GateKind::DLatch { d, enable, q } => GateKind::DLatch {
                d: d.clone(),
                enable: enable.clone(),
                q: *q,
            },
            GateKind::DFlipFlop { d, clk, q, last_clk } => GateKind::DFlipFlop {
                d: d.clone(),
                clk: clk.clone(),
                q: *q,
                last_clk: *last_clk,
            },
            GateKind::Clock(s) => GateKind::Clock(*s),
        }
    }
}

/// A fixed level, usable on its own or as the state of a `Const` graph node.
#[derive(Clone, Copy, Debug, PartialEq, Eq, Structural)]
pub struct ConstGate {
    pub level: Signal,
}

impl ConstGate {
    pub fn new(level: Signal) -> (r: ConstGate)
        ensures
            r.level == level,
    {
        ConstGate { level }
    }

    pub fn set_level(&mut self, s: Signal)
        ensures
            final(self).level == s,
    {
        self.level = s;
    }

    pub fn eval(&self) -> (r: Signal)
        ensures
            r == self.level,
    {
        self.level
    }

    /// The graph node this gate stands for.
    pub fn kind(&self) -> (r: GateKind)
        ensures
            r@ == GateView::Const(self.level),
    {
        GateKind::Const(self.level)
    }

    pub open spec fn spec_description(&self) -> Seq<char> {
        match self.level {
            Signal::High => "Const 1"@,
            Signal::Low => "Const 0"@,
            Signal::HiZ => "Const Z"@,
        }
    }

    pub fn description(&self) -> (r: String)
        ensures
            r@ == self.spec_description(),
    {
        match self.level {
            Signal::High => String::from_str("Const 1"),
            Signal::Low => String::from_str("Const 0"),
            Signal::HiZ => String::from_str("Const Z"),
        }
    }
}

/// A two-position switch: a boolean source toggled by the caller.
#[derive(Clone, Copy, Debug, PartialEq, Eq, Structural)]
pub struct SwitchGate {
    pub level: bool,
}

impl SwitchGate {
    pub fn new(init: bool) -> (r: SwitchGate)
        ensures
            r.level == init,
    {
        SwitchGate { level: init }
    }

    pub fn toggle(&mut self)
        ensures
            final(self).level == !old(self).level,
    {
        self.level = !self.level;
    }

    pub fn eval(&self) -> (r: Signal)
        ensures
            r == (if self.level {
                Signal::High
            } else {
                Signal::Low
            }),
    {
        if self.level {
            Signal::High
        } else {
            Signal::Low
        }
    }

    /// The graph node this gate stands for: an externally settable input.
    pub fn kind(&self) -> (r: GateKind)
        ensures
            r@ == GateView::Input(
                if self.level {
                    Signal::High
                } else {
                    Signal::Low
                },
            ),
    {
        GateKind::Input(self.eval())
    }

    pub fn description(&self) -> (r: String)
        ensures
            r@ == (if self.level {
                "Switch true"@
            } else {
                "Switch false"@
            }),
    {
        if self.level {
            String::from_str("Switch true")
        } else {
            String::from_str("Switch false")
        }
    }
}

/// A momentary push button: high while pressed, low once released.
#[derive(Clone, Copy, Debug, PartialEq, Eq, Structural)]
pub struct ButtonGate {
    pub input: bool,
}

impl ButtonGate {
    pub fn new() -> (r: ButtonGate)
        ensures
            !r.input,
    {
        ButtonGate { input: false }
    }

    pub fn press(&mut self)
        ensures
            final(self).input,
    {
        self.input = true;
    }

    pub fn release(&mut self)
        ensures
            !final(self).input,
    {
        self.input = false;
    }

    pub fn eval(&self) -> (r: Signal)
        ensures
            r == (if self.input {
                Signal::High
            } else {
                Signal::Low
            }),
    {
        if self.input {
            Signal::High
        } else {
            Signal::Low
        }
    }

    /// The graph node this gate stands for: an externally settable input.
    pub fn kind(&self) -> (r: GateKind)
        ensures
            r@ == GateView::Input(
                if self.input {
                    Signal::High
                } else {
                    Signal::Low
                },
            ),
    {
        GateKind::Input(self.eval())
    }

    pub fn description(&self) -> (r: String)
        ensures
            r@ == "Button"@,
    {
        String::from_str("Button")
    }
}

/// A boolean source set directly by the caller.
#[derive(Clone, Copy, Debug, PartialEq, Eq, Structural)]
pub struct InputGate {
    pub signal: bool,
}

impl InputGate {
    pub fn new(s: bool) -> (r: InputGate)
        ensures
            r.signal == s,
    {
        InputGate { signal: s }
    }

    pub fn set_signal(&mut self, new_signal: bool)
        ensures
            final(self).signal == new_signal,
    {
        self.signal = new_signal;
    }

    pub fn eval(&self) -> (r: Signal)
        ensures
            r == (if self.signal {
                Signal::High
            } else {
                Signal::Low
            }),
    {
        if self.signal {
            Signal::High
        } else {
            Signal::Low
        }
    }

    /// The graph node this gate stands for.
    pub fn kind(&self) -> (r: GateKind)
        ensures
            r@ == GateView::Input(
                if self.signal {
                    Signal::High
                } else {
                    Signal::Low
                },
            ),
    {
        GateKind::Input(self.eval())
    }

    pub fn description(&self) -> (r: String)
        ensures
            r@ == (if self.signal {
                "Input true"@
            } else {
                "Input false"@
            }),
    {
        if self.signal {
            String::from_str("Input true")
        } else {
            String::from_str("Input false")
        }
    }
}

/// A clock line: holds its level and inverts it only on an explicit tick,
/// never as a side effect of evaluation.
#[derive(Clone, Copy, Debug, PartialEq, Eq, Structural)]
pub struct ClockGate {
    pub state: Signal,
}

impl ClockGate {
    pub fn new() -> (r: ClockGate)
        ensures
            r.state == Signal::Low,
    {
        ClockGate { state: Signal::Low }
    }

    /// Advance the clock: `Low` rises to `High`, any other level falls to
    /// `Low`.
    pub fn tick(&mut self)
        ensures
            final(self).state == spec_clock_tick(old(self).state),
    {
        self.state = if self.state == Signal::Low {
            Signal::High
        } else {
            Signal::Low
        };
    }

    pub fn eval(&self) -> (r: Signal)
        ensures
            r == self.state,
    {
        self.state
    }

    /// The graph node this gate stands for.
    pub fn kind(&self) -> (r: GateKind)
        ensures
            r@ == GateView::Clock(self.state),
    {
        GateKind::Clock(self.state)
    }

    pub fn description(&self) -> (r: String)
        ensures
            r@ == "Clock("@ + self.state.spec_name() + ")"@,
    {
        let mut s = String::from_str("Clock(");
        s.append(self.state.name());
        s.append(")");
        s
    }
}

/// The level of a clock after a tick: `Low` rises to `High`, any other level
/// falls to `Low`.
pub open spec fn spec_clock_tick(s: Signal) -> Signal {
    if s == Signal::Low {
        Signal::High
    } else {
        Signal::Low
    }
}

} // verus!
