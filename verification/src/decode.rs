//! The part of the processor that reads the kind of an instruction and its
//! destination bits.
use vstd::prelude::*;
use crate::and::{And, lemma_and_ports};
use crate::bit::{bit_and, bit_not, bit_or};
use crate::bus::{SharedBus, group_build, group_run};
use crate::gate::Gate;
use crate::not::{Not, lemma_not_ports};
use crate::or::{Or, lemma_or_ports};
use crate::wires::{Span, Wires, grown};

verus! {

/// Decoder of the instruction kind and of the three destination bits.
///
/// `kind` is bit 15 of the instruction: `O` for an address instruction,
/// `I` for a compute instruction. `to_a`, `to_d` and `to_m` are the
/// destination bits 5, 4 and 3.
pub struct Decode {
    not1: Not<1>,
    not2: Not<1>,
    and1: And<1>,
    or1: Or<1>,
    and2: And<1>,
    and3: And<1>,
}

impl Decode {
    #[verifier::spinoff_prover]
    pub fn new(
        kind: SharedBus<1>,
        to_a: SharedBus<1>,
        to_d: SharedBus<1>,
        to_m: SharedBus<1>,
        wires: &mut Wires,
    ) -> (r: Decode)
        requires
            kind.below(old(wires)@.len()),
            to_a.below(old(wires)@.len()),
            to_d.below(old(wires)@.len()),
            to_m.below(old(wires)@.len()),
        ensures
            r.wired(),
            r.kind() == kind,
            r.to_a() == to_a,
            r.to_d() == to_d,
            r.to_m() == to_m,
            r.span() == Span::added(*old(wires), *final(wires)),
            grown(*old(wires), *final(wires)),
    {
        broadcast use {group_build, lemma_not_ports, lemma_and_ports, lemma_or_ports};

        let not1 = Not::new(kind, wires);
        let not2 = Not::new(not1.get_out(), wires);
        let and1 = And::new(not2.get_out(), to_a, wires);
        let or1 = Or::new(not1.get_out(), and1.get_out(), wires);
        let and2 = And::new(not2.get_out(), to_d, wires);
        let and3 = And::new(not2.get_out(), to_m, wires);
        Decode { not1, not2, and1, or1, and2, and3 }
    }

    /// The parts are connected as the decoder.
    pub closed spec fn wiring(&self) -> bool {
        &&& self.not1.wired()
        &&& self.not2.wired()
        &&& self.and1.wired()
        &&& self.or1.wired()
        &&& self.and2.wired()
        &&& self.and3.wired()
        &&& self.not1.span().before(self.not2.span())
        &&& self.not2.span().before(self.and1.span())
        &&& self.and1.span().before(self.or1.span())
        &&& self.or1.span().before(self.and2.span())
        &&& self.and2.span().before(self.and3.span())
        &&& self.to_a().below(self.not1.span().lo)
        &&& self.to_d().below(self.not1.span().lo)
        &&& self.to_m().below(self.not1.span().lo)
        &&& self.not2.input() == self.not1.out()
        &&& self.and1.a() == self.not2.out()
        &&& self.or1.a() == self.not1.out()
        &&& self.or1.b() == self.and1.out()
        &&& self.and2.a() == self.not2.out()
        &&& self.and3.a() == self.not2.out()
    }

    /// Input: bit 15 of the instruction.
    pub closed spec fn kind(&self) -> SharedBus<1> {
        self.not1.input()
    }

    /// Input: destination bit for the A register.
    pub closed spec fn to_a(&self) -> SharedBus<1> {
        self.and1.b()
    }

    /// Input: destination bit for the D register.
    pub closed spec fn to_d(&self) -> SharedBus<1> {
        self.and2.b()
    }

    /// Input: destination bit for the memory.
    pub closed spec fn to_m(&self) -> SharedBus<1> {
        self.and3.b()
    }

    /// Output: `I` for a compute instruction.
    pub closed spec fn computes(&self) -> SharedBus<1> {
        self.not2.out()
    }

    /// Output: `I` where the A register takes the result of the
    /// computation, `O` where it takes the instruction itself.
    pub closed spec fn a_from_alu(&self) -> SharedBus<1> {
        self.and1.out()
    }

    /// Output: `I` where the A register is written.
    pub closed spec fn load_a(&self) -> SharedBus<1> {
        self.or1.out()
    }

    /// Output: `I` where the D register is written.
    pub closed spec fn load_d(&self) -> SharedBus<1> {
        self.and2.out()
    }

    /// Output: `I` where the memory is written.
    pub closed spec fn write_m(&self) -> SharedBus<1> {
        self.and3.out()
    }

    /// The bus `computes`, to wire it on.
    pub fn get_computes(&self) -> (r: SharedBus<1>)
        ensures
            r == self.computes(),
    {
        self.not2.get_out()
    }

    /// The bus `a_from_alu`, to wire it on.
    pub fn get_a_from_alu(&self) -> (r: SharedBus<1>)
        ensures
            r == self.a_from_alu(),
    {
        self.and1.get_out()
    }

    /// The bus `load_a`, to wire it on.
    pub fn get_load_a(&self) -> (r: SharedBus<1>)
        ensures
            r == self.load_a(),
    {
        self.or1.get_out()
    }

    /// The bus `load_d`, to wire it on.
    pub fn get_load_d(&self) -> (r: SharedBus<1>)
        ensures
            r == self.load_d(),
    {
        self.and2.get_out()
    }

    /// The bus `write_m`, to wire it on.
    pub fn get_write_m(&self) -> (r: SharedBus<1>)
        ensures
            r == self.write_m(),
    {
        self.and3.get_out()
    }
}

impl Gate for Decode {
    closed spec fn wired(&self) -> bool {
        self.wiring()
    }

    closed spec fn span(&self) -> Span {
        self.not1.span().through(self.and3.span())
    }

    open spec fn clocked(&self) -> bool {
        false
    }

    #[verifier::spinoff_prover]
    fn re_compute(&self, wires: &mut Wires)
        ensures
            self.computes().value(final(wires)@)[0] == self.kind().value(old(wires)@)[0],
            self.a_from_alu().value(final(wires)@)[0] == bit_and(
                self.kind().value(old(wires)@)[0],
                self.to_a().value(old(wires)@)[0],
            ),
            self.load_a().value(final(wires)@)[0] == bit_or(
                bit_not(self.kind().value(old(wires)@)[0]),
                self.to_a().value(old(wires)@)[0],
            ),
            self.load_d().value(final(wires)@)[0] == bit_and(
                self.kind().value(old(wires)@)[0],
                self.to_d().value(old(wires)@)[0],
            ),
            self.write_m().value(final(wires)@)[0] == bit_and(
                self.kind().value(old(wires)@)[0],
                self.to_m().value(old(wires)@)[0],
            ),
    {
        broadcast use {group_run, lemma_not_ports, lemma_and_ports, lemma_or_ports};

        self.not1.re_compute(wires);
        self.not2.re_compute(wires);
        self.and1.re_compute(wires);
        self.or1.re_compute(wires);
        self.and2.re_compute(wires);
        self.and3.re_compute(wires);
    }
}

/// What a caller may rely on of a wired decoder.
pub broadcast proof fn lemma_decode_ports(g: Decode)
    requires
        #[trigger] g.wired(),
    ensures
        g.span().lo <= g.span().hi,
        g.span().wlo <= g.span().whi,
        g.computes().within(g.span().lo, g.span().hi),
        g.a_from_alu().within(g.span().lo, g.span().hi),
        g.load_a().within(g.span().lo, g.span().hi),
        g.load_d().within(g.span().lo, g.span().hi),
        g.write_m().within(g.span().lo, g.span().hi),
        g.kind().below(g.span().lo),
        g.to_a().below(g.span().lo),
        g.to_d().below(g.span().lo),
        g.to_m().below(g.span().lo),
{
    broadcast use {lemma_not_ports, lemma_and_ports, lemma_or_ports};

}

} // verus!
