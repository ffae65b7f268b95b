//! Combinational circuits: circuits without memory, whose output is a
//! function of their input lines.

use vstd::prelude::*;

verus! {

/// A combinational circuit.
pub trait Combinational {
    /// The input lines.
    spec fn inputs(&self) -> Seq<bool>;

    /// The output line.
    spec fn output(&self) -> bool;

    /// Whether the circuit can be fed `line`: it must hold a value for
    /// every input line.
    spec fn accepts(&self, line: Seq<bool>) -> bool;

    /// The output that the circuit computes from the input lines `line`.
    spec fn response(&self, line: Seq<bool>) -> bool;

    /// Computes the output from the input lines, which stay as they are:
    /// the output becomes the response of the circuit to its input lines.
    fn calculate(&mut self)
        ensures
            final(self).inputs() == old(self).inputs(),
            final(self).output() == old(self).response(old(self).inputs()),
    ;


    /// The input lines.
    fn get_input(&self) -> (line: Vec<bool>)
        ensures
            line@ == self.inputs(),
    ;

    /// Feeds the circuit a new input line: its first values become the
    /// input lines.
    fn set_input(&mut self, input_line: Vec<bool>)
        requires
            old(self).accepts(input_line@),
        ensures
            final(self).inputs().len() == old(self).inputs().len(),
            forall|k: int|
                0 <= k < final(self).inputs().len() ==> final(self).inputs()[k] == input_line@[k],
    ;

    /// The output line.
    fn get_output(&self) -> (value: bool)
        ensures
            value == self.output(),
    ;
}

/// A half adder: it adds two bits to a sum bit and a carry bit.
#[derive(Debug, Clone, Copy)]
pub struct HalfAdder {
    a: bool,
    b: bool,
    sum: bool,
    carry: bool,
}

impl HalfAdder {
    /// The first addend.
    pub closed spec fn a(&self) -> bool {
        self.a
    }

    /// The second addend.
    pub closed spec fn b(&self) -> bool {
        self.b
    }

    /// The sum bit as last computed.
    pub closed spec fn sum(&self) -> bool {
        self.sum
    }

    /// The carry bit as last computed.
    pub closed spec fn carry(&self) -> bool {
        self.carry
    }

    /// A half adder with the given addends, its sum and carry computed.
    pub fn new_with_input(a: bool, b: bool) -> (adder: HalfAdder)
        ensures
            adder.a() == a,
            adder.b() == b,
            adder.sum() == (a != b),
            adder.carry() == (a && b),
    {
        HalfAdder { a, b, sum: a ^ b, carry: a && b }
    }

    /// The carry bit as last computed.
    pub fn get_carry(&self) -> (value: bool)
        ensures
            value == self.carry(),
    {
        self.carry
    }
}

impl Combinational for HalfAdder {
    open spec fn inputs(&self) -> Seq<bool> {
        seq![self.a(), self.b()]
    }

    open spec fn output(&self) -> bool {
        self.sum()
    }

    open spec fn accepts(&self, line: Seq<bool>) -> bool {
        line.len() >= 2
    }

    /// The sum bit of the first two lines: set where exactly one of them
    /// is set.
    open spec fn response(&self, line: Seq<bool>) -> bool {
        line[0] != line[1]
    }

    fn calculate(&mut self)
        ensures
            final(self).sum() == (old(self).a() != old(self).b()),
            final(self).carry() == (old(self).a() && old(self).b()),
    {
        self.sum = self.a ^ self.b;
        self.carry = self.a && self.b;
    }

    fn get_input(&self) -> (line: Vec<bool>) {
        let mut line: Vec<bool> = Vec::new();
        line.push(self.a);
        line.push(self.b);
        assert(line@ =~= self.inputs());
        line
    }

    fn set_input(&mut self, input_line: Vec<bool>)
        ensures
            final(self).a() == input_line@[0],
            final(self).b() == input_line@[1],
            final(self).sum() == old(self).sum(),
            final(self).carry() == old(self).carry(),
    {
        self.a = input_line[0];
        self.b = input_line[1];
    }

    fn get_output(&self) -> (value: bool) {
        self.sum
    }
}

} // verus!
