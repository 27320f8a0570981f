//! A named pass-through: a labelled wire with an optional bound source id.

use vstd::prelude::*;
use vstd::string::*;

use crate::gate::{GateId, GateView};

verus! {

/// A labelled wire. Unbound until [`Wire::connect`] names a source gate; an
/// unbound wire evaluates to `Low` once placed in a circuit.
#[derive(Debug, Clone)]
pub struct Wire {
    pub source: Option<GateId>,
    pub label: String,
}

impl View for Wire {
    type V = GateView;

    open spec fn view(&self) -> GateView {
        GateView::Wire {
            source: match self.source {
                Some(s) => Some(s@),
                None => None,
            },
            label: self.label@,
        }
    }
}

impl Wire {
    pub fn new(label: &str) -> (r: Wire)
        ensures
            r@ == (GateView::Wire { source: None, label: label@ }),
    {
        Wire { source: None, label: label.to_owned() }
    }

    /// Bind (or rebind) the wire to source gate `source_id`.
    pub fn connect(&mut self, source_id: &str)
        ensures
            final(self)@ == (GateView::Wire {
                source: Some(source_id@),
                label: old(self).label@,
            }),
    {
        self.source = Some(source_id.to_owned());
    }
}

} // verus!
