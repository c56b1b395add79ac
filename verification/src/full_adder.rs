//! The full adder.
use vstd::prelude::*;
use crate::bit::{Bit, bit_nat, fill};
use crate::bus::{SharedBus, group_build, group_run};
use crate::gate::Gate;
use crate::or::{Or, lemma_or_ports};
use crate::half_adder::{HalfAdder, lemma_half_adder_ports};
use crate::wires::{Span, Wires, grown};

verus! {

/// Adds three bits: `sum + 2 carry = a + b + c`.
pub struct FullAdder {
    pub sum: SharedBus<1>,
    pub carry: SharedBus<1>,
    half_adder1: HalfAdder,
    half_adder2: HalfAdder,
    or: Or<1>,
}

impl FullAdder {
    #[verifier::spinoff_prover]
    pub fn new(a: SharedBus<1>, b: SharedBus<1>, c: SharedBus<1>, wires: &mut Wires) -> (r: FullAdder)
        requires
            a.below(old(wires)@.len()),
            b.below(old(wires)@.len()),
            c.below(old(wires)@.len()),
        ensures
            r.wired(),
            r.a() == a,
            r.b() == b,
            r.c() == c,
            r.span() == Span::added(*old(wires), *final(wires)),
            grown(*old(wires), *final(wires)),
            r.sum().value(final(wires)@) == fill(1, Bit::O),
            r.carry().value(final(wires)@) == fill(1, Bit::O),
    {
        broadcast use {group_build, lemma_or_ports, lemma_half_adder_ports};

        let half_adder1 = HalfAdder::new(a, b, wires);
        let half_adder2 = HalfAdder::new(half_adder1.get_sum(), c, wires);
        let or = Or::new(half_adder1.get_carry(), half_adder2.get_carry(), wires);
        let r = FullAdder { sum: half_adder2.get_sum(), carry: or.get_out(), half_adder1, half_adder2, or };
        proof {
            reveal(FullAdder::wiring);
        }
        r
    }

    /// The parts are connected as a full adder.
    #[verifier::opaque]
    pub closed spec fn wiring(&self) -> bool {
        &&& self.half_adder1.wired()
        &&& self.half_adder2.wired()
        &&& self.or.wired()
        &&& self.half_adder1.span().before(self.half_adder2.span())
        &&& self.half_adder2.span().before(self.or.span())
        &&& self.c().below(self.half_adder1.span().lo)
        &&& self.half_adder2.a() == self.half_adder1.sum()
        &&& self.or.a() == self.half_adder1.carry()
        &&& self.or.b() == self.half_adder2.carry()
        &&& self.sum() == self.half_adder2.sum()
        &&& self.carry() == self.or.out()
    }

    /// The input bus `a`.
    pub closed spec fn a(&self) -> SharedBus<1> {
        self.half_adder1.a()
    }

    /// The input bus `b`.
    pub closed spec fn b(&self) -> SharedBus<1> {
        self.half_adder1.b()
    }

    /// The input bus `c`.
    pub closed spec fn c(&self) -> SharedBus<1> {
        self.half_adder2.b()
    }
}

impl Gate for FullAdder {
    closed spec fn wired(&self) -> bool {
        self.wiring()
    }

    closed spec fn span(&self) -> Span {
        self.half_adder1.span().through(self.or.span())
    }

    open spec fn clocked(&self) -> bool {
        false
    }

    fn re_compute(&self, wires: &mut Wires)
        ensures
            bit_nat(self.sum().value(final(wires)@)[0]) + 2 * bit_nat(self.carry().value(final(wires)@)[0])
                == bit_nat(self.a().value(old(wires)@)[0]) + bit_nat(self.b().value(old(wires)@)[0])
                + bit_nat(self.c().value(old(wires)@)[0]),
    {
        broadcast use {group_run, lemma_or_ports, lemma_half_adder_ports};

        proof {
            reveal(FullAdder::wiring);
        }
        self.half_adder1.re_compute(wires);
        self.half_adder2.re_compute(wires);
        self.or.re_compute(wires);
    }
}

/// What a caller may rely on of a wired full adder.
pub broadcast proof fn lemma_full_adder_ports(g: FullAdder)
    requires
        #[trigger] g.wired(),
    ensures
        g.span().lo <= g.span().hi,
        g.span().wlo <= g.span().whi,
        g.sum().within(g.span().lo, g.span().hi),
        g.carry().within(g.span().lo, g.span().hi),
        g.a().below(g.span().lo),
        g.b().below(g.span().lo),
        g.c().below(g.span().lo),
{
    broadcast use {lemma_or_ports, lemma_half_adder_ports};

    reveal(FullAdder::wiring);
}

impl FullAdder {
    /// The output bus `sum`.
    pub closed spec fn sum(&self) -> SharedBus<1> {
        self.sum
    }

    /// The output bus `carry`.
    pub closed spec fn carry(&self) -> SharedBus<1> {
        self.carry
    }

    /// The bus `sum`, to wire it on.
    pub fn get_sum(&self) -> (r: SharedBus<1>)
        ensures
            r == self.sum(),
    {
        self.sum
    }

    /// The bus `carry`, to wire it on.
    pub fn get_carry(&self) -> (r: SharedBus<1>)
        ensures
            r == self.carry(),
    {
        self.carry
    }
}

} // verus!
