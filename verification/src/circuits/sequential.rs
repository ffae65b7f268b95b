//! Sequential circuits: circuits with memory.

use vstd::prelude::*;

verus! {

/// A sequential circuit.
pub trait Sequential {
    /// The input lines.
    spec fn inputs(&self) -> Seq<bool>;

    /// The output line.
    spec fn output(&self) -> bool;

    /// Whether the circuit can be fed `line`: it must hold a value for
    /// every input line.
    spec fn accepts(&self, line: Seq<bool>) -> bool;

    /// The output that the circuit computes, in the state it is in, from
    /// the input lines `line`.
    spec fn response(&self, line: Seq<bool>) -> bool;

    /// Computes the next state from the input lines, which stay as they
    /// are: the output becomes the response of the circuit to its input
    /// lines.
    fn calculate(&mut self)
        ensures
            final(self).inputs() == old(self).inputs(),
            final(self).output() == old(self).response(old(self).inputs()),
    ;


    /// The input lines.
    fn get_input(&self) -> (line: Vec<bool>)
        ensures
            line@ == self.inputs(),
    ;

    /// Feeds the circuit a new input line: its first values become the
    /// input lines.
    fn set_input(&mut self, input_line: Vec<bool>)
        requires
            old(self).accepts(input_line@),
        ensures
            final(self).inputs().len() == old(self).inputs().len(),
            forall|k: int|
                0 <= k < final(self).inputs().len() ==> final(self).inputs()[k] == input_line@[k],
    ;

    /// The output line.
    fn get_output(&self) -> (value: bool)
        ensures
            value == self.output(),
    ;
}

/// A D flip-flop: a data input, a clock input, and the two outputs Q and
/// not-Q, of which exactly one is set.
#[derive(Debug, Clone, Copy)]
pub struct FlipFlop {
    d: bool,
    clk: bool,
    q: bool,
    not_q: bool,
}

impl FlipFlop {
    /// The data input.
    pub closed spec fn d(&self) -> bool {
        self.d
    }

    /// The clock input.
    pub closed spec fn clk(&self) -> bool {
        self.clk
    }

    /// The output Q.
    pub closed spec fn q(&self) -> bool {
        self.q
    }

    /// The output not-Q.
    pub closed spec fn not_q(&self) -> bool {
        self.not_q
    }

    /// A flip-flop in the reset state with both inputs low.
    pub fn new() -> (flip_flop: FlipFlop)
        ensures
            !flip_flop.d(),
            !flip_flop.clk(),
            !flip_flop.q(),
            flip_flop.not_q(),
    {
        FlipFlop { d: false, clk: false, q: false, not_q: true }
    }

    /// A flip-flop in the reset state with the given inputs.
    pub fn new_with_input(d: bool, clk: bool) -> (flip_flop: FlipFlop)
        ensures
            flip_flop.d() == d,
            flip_flop.clk() == clk,
            !flip_flop.q(),
            flip_flop.not_q(),
    {
        FlipFlop { d, clk, q: false, not_q: true }
    }

    /// The data input.
    pub fn get_d(&self) -> (value: bool)
        ensures
            value == self.d(),
    {
        self.d
    }

    /// The clock input.
    pub fn get_clk(&self) -> (value: bool)
        ensures
            value == self.clk(),
    {
        self.clk
    }

    /// The output Q.
    pub fn get_q(&self) -> (value: bool)
        ensures
            value == self.q(),
    {
        self.q
    }

    /// The output not-Q.
    pub fn get_not_q(&self) -> (value: bool)
        ensures
            value == self.not_q(),
    {
        self.not_q
    }
}

impl Default for FlipFlop {
    fn default() -> (flip_flop: FlipFlop)
        ensures
            !flip_flop.d(),
            !flip_flop.clk(),
            !flip_flop.q(),
            flip_flop.not_q(),
    {
        FlipFlop { d: false, clk: false, q: false, not_q: true }
    }
}

} // verus!
