//! Digital circuits: combinational circuits, which have no memory, and
//! sequential circuits, which have.

pub mod combinational;
pub mod sequential;

use vstd::prelude::*;
use crate::circuits::combinational::Combinational;
use crate::circuits::sequential::Sequential;

verus! {

/// A circuit of either kind, behind one interface.
pub enum Circuit {
    Sequential(Box<dyn Sequential>),
    Combinational(Box<dyn Combinational>),
}

impl Circuit {
    /// The input lines of the circuit.
    pub open spec fn inputs(&self) -> Seq<bool> {
        match self {
            Circuit::Sequential(circuit) => circuit.inputs(),
            Circuit::Combinational(circuit) => circuit.inputs(),
        }
    }

    /// The output line of the circuit.
    pub open spec fn output(&self) -> bool {
        match self {
            Circuit::Sequential(circuit) => circuit.output(),
            Circuit::Combinational(circuit) => circuit.output(),
        }
    }

    /// Whether the circuit can be fed the input line `line`.
    pub open spec fn accepts(&self, line: Seq<bool>) -> bool {
        match self {
            Circuit::Sequential(circuit) => circuit.accepts(line),
            Circuit::Combinational(circuit) => circuit.accepts(line),
        }
    }

    /// The output that the circuit computes from the input lines `line`.
    pub open spec fn response(&self, line: Seq<bool>) -> bool {
        match self {
            Circuit::Sequential(circuit) => circuit.response(line),
            Circuit::Combinational(circuit) => circuit.response(line),
        }
    }

    /// Wraps a combinational circuit: the result is the circuit given,
    /// behind the interface of all combinational circuits.
    pub fn new<T>(circuit: T) -> (wrapped: Circuit) where T: Combinational + 'static
        ensures
            wrapped == Circuit::Combinational(Box::new(circuit)),
    {
        Circuit::Combinational(Box::new(circuit))
    }

    /// Wraps a sequential circuit: the result is the circuit given, behind
    /// the interface of all sequential circuits.
    pub fn new_sequential<T>(circuit: T) -> (wrapped: Circuit) where T: Sequential + 'static
        ensures
            wrapped == Circuit::Sequential(Box::new(circuit)),
    {
        Circuit::Sequential(Box::new(circuit))
    }

    /// Lets the circuit compute its output from its input lines, which
    /// stay as they are: the output becomes the response of the circuit to
    /// its input lines.
    pub fn calculate(&mut self)
        ensures
            final(self).inputs() == old(self).inputs(),
            final(self).output() == old(self).response(old(self).inputs()),
            (*old(self) is Combinational) == (*final(self) is Combinational),
    {
        match self {
            Circuit::Sequential(circuit) => circuit.calculate(),
            Circuit::Combinational(circuit) => circuit.calculate(),
        }
    }

    /// The input lines of the circuit.
    pub fn get_input(&self) -> (line: Vec<bool>)
        ensures
            line@ == self.inputs(),
    {
        match self {
            Circuit::Sequential(circuit) => circuit.get_input(),
            Circuit::Combinational(circuit) => circuit.get_input(),
        }
    }

    /// Feeds the circuit a new input line.
    pub fn set_input(&mut self, input_line: Vec<bool>)
        requires
            old(self).accepts(input_line@),
        ensures
            final(self).inputs().len() == old(self).inputs().len(),
            forall|k: int|
                0 <= k < final(self).inputs().len() ==> final(self).inputs()[k] == input_line@[k],
            (*old(self) is Combinational) == (*final(self) is Combinational),
    {
        match self {
            Circuit::Sequential(circuit) => circuit.set_input(input_line),
            Circuit::Combinational(circuit) => circuit.set_input(input_line),
        }
    }

    /// The output line of the circuit.
    pub fn get_output(&self) -> (value: bool)
        ensures
            value == self.output(),
    {
        match self {
            Circuit::Sequential(circuit) => circuit.get_output(),
            Circuit::Combinational(circuit) => circuit.get_output(),
        }
    }
}

} // verus!
