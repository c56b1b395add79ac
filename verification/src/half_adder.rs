//! The half adder.
use vstd::prelude::*;
use crate::bit::{Bit, bit_nat, fill, and_bits, xor_bits};
use crate::bus::{SharedBus, group_build, group_run};
use crate::gate::Gate;
use crate::and::{And, lemma_and_ports};
use crate::xor::{Xor, lemma_xor_ports};
use crate::wires::{Span, Wires, grown};

verus! {

/// Adds two bits: `sum + 2 carry = a + b`.
pub struct HalfAdder {
    pub sum: SharedBus<1>,
    pub carry: SharedBus<1>,
    and: And<1>,
    xor: Xor<1>,
}

impl HalfAdder {
    pub fn new(a: SharedBus<1>, b: SharedBus<1>, wires: &mut Wires) -> (r: HalfAdder)
        requires
            a.below(old(wires)@.len()),
            b.below(old(wires)@.len()),
        ensures
            r.wired(),
            r.a() == a,
            r.b() == b,
            r.span() == Span::added(*old(wires), *final(wires)),
            grown(*old(wires), *final(wires)),
            r.sum().value(final(wires)@) == fill(1, Bit::O),
            r.carry().value(final(wires)@) == fill(1, Bit::O),
    {
        broadcast use {group_build, lemma_and_ports, lemma_xor_ports};

        let and = And::new(a, b, wires);
        let xor = Xor::new(a, b, wires);
        let r = HalfAdder { sum: xor.get_out(), carry: and.get_out(), and, xor };
        proof {
            reveal(HalfAdder::wiring);
        }
        r
    }

    /// The parts are connected as a half adder.
    #[verifier::opaque]
    pub closed spec fn wiring(&self) -> bool {
        &&& self.and.wired()
        &&& self.xor.wired()
        &&& self.and.span().before(self.xor.span())
        &&& self.xor.a() == self.and.a()
        &&& self.xor.b() == self.and.b()
        &&& self.sum() == self.xor.out()
        &&& self.carry() == self.and.out()
    }

    /// The input bus `a`.
    pub closed spec fn a(&self) -> SharedBus<1> {
        self.and.a()
    }

    /// The input bus `b`.
    pub closed spec fn b(&self) -> SharedBus<1> {
        self.and.b()
    }
}

impl Gate for HalfAdder {
    closed spec fn wired(&self) -> bool {
        self.wiring()
    }

    closed spec fn span(&self) -> Span {
        self.and.span().through(self.xor.span())
    }

    open spec fn clocked(&self) -> bool {
        false
    }

    fn re_compute(&self, wires: &mut Wires)
        ensures
            self.sum().value(final(wires)@) == xor_bits(
                self.a().value(old(wires)@),
                self.b().value(old(wires)@),
            ),
            self.carry().value(final(wires)@) == and_bits(
                self.a().value(old(wires)@),
                self.b().value(old(wires)@),
            ),
            bit_nat(self.sum().value(final(wires)@)[0]) + 2 * bit_nat(self.carry().value(final(wires)@)[0])
                == bit_nat(self.a().value(old(wires)@)[0]) + bit_nat(self.b().value(old(wires)@)[0]),
    {
        broadcast use {group_run, lemma_and_ports, lemma_xor_ports};

        proof {
            reveal(HalfAdder::wiring);
        }
        self.and.re_compute(wires);
        self.xor.re_compute(wires);
    }
}

/// What a caller may rely on of a wired half adder.
pub broadcast proof fn lemma_half_adder_ports(g: HalfAdder)
    requires
        #[trigger] g.wired(),
    ensures
        g.span().lo <= g.span().hi,
        g.span().wlo <= g.span().whi,
        g.sum().within(g.span().lo, g.span().hi),
        g.carry().within(g.span().lo, g.span().hi),
        g.a().below(g.span().lo),
        g.b().below(g.span().lo),
{
    broadcast use {lemma_and_ports, lemma_xor_ports};

    reveal(HalfAdder::wiring);
}

impl HalfAdder {
    /// The output bus `sum`.
    pub closed spec fn sum(&self) -> SharedBus<1> {
        self.sum
    }

    /// The output bus `carry`.
    pub closed spec fn carry(&self) -> SharedBus<1> {
        self.carry
    }

    /// The bus `sum`, to wire it on.
    pub fn get_sum(&self) -> (r: SharedBus<1>)
        ensures
            r == self.sum(),
    {
        self.sum
    }

    /// The bus `carry`, to wire it on.
    pub fn get_carry(&self) -> (r: SharedBus<1>)
        ensures
            r == self.carry(),
    {
        self.carry
    }
}

} // verus!
