//! The part of the processor that decides whether the program jumps.
use vstd::prelude::*;
use crate::and::{And, lemma_and_ports};
use crate::bit::{Bit, bit_and, bit_not, bit_or};
use crate::bus::{SharedBus, group_build, group_run};
use crate::gate::Gate;
use crate::not::{Not, lemma_not_ports};
use crate::or::{Or, lemma_or_ports};
use crate::wires::{Span, Wires, grown};

verus! {

/// Whether a compute instruction jumps: its three jump bits ask for a
/// negative, a zero and a positive result, and any of them that the flags
/// of the result meet makes the jump.
pub open spec fn jump_bit(zr: Bit, ng: Bit, negative: Bit, zero: Bit, positive: Bit, computes: Bit) -> Bit {
    bit_and(
        computes,
        bit_or(
            bit_or(bit_and(zr, zero), bit_and(ng, negative)),
            bit_and(bit_not(bit_or(zr, ng)), positive),
        ),
    )
}

/// The jump logic: `load` tells the counter to take the A register, `inc`
/// tells it to go on to the next instruction.
pub struct Jump {
    and4: And<1>,
    and5: And<1>,
    or4: Or<1>,
    not3: Not<1>,
    and6: And<1>,
    or5: Or<1>,
    or6: Or<1>,
    and7: And<1>,
    not4: Not<1>,
}

impl Jump {
    #[verifier::spinoff_prover]
    pub fn new(
        zr: SharedBus<1>,
        ng: SharedBus<1>,
        negative: SharedBus<1>,
        zero: SharedBus<1>,
        positive: SharedBus<1>,
        computes: SharedBus<1>,
        wires: &mut Wires,
    ) -> (r: Jump)
        requires
            zr.below(old(wires)@.len()),
            ng.below(old(wires)@.len()),
            negative.below(old(wires)@.len()),
            zero.below(old(wires)@.len()),
            positive.below(old(wires)@.len()),
            computes.below(old(wires)@.len()),
        ensures
            r.wired(),
            r.zr() == zr,
            r.ng() == ng,
            r.negative() == negative,
            r.zero() == zero,
            r.positive() == positive,
            r.computes() == computes,
            r.span() == Span::added(*old(wires), *final(wires)),
            grown(*old(wires), *final(wires)),
    {
        broadcast use {group_build, lemma_not_ports, lemma_and_ports, lemma_or_ports};

        let and4 = And::new(zr, zero, wires);
        let and5 = And::new(ng, negative, wires);
        let or4 = Or::new(zr, ng, wires);
        let not3 = Not::new(or4.get_out(), wires);
        let and6 = And::new(not3.get_out(), positive, wires);
        let or5 = Or::new(and4.get_out(), and5.get_out(), wires);
        let or6 = Or::new(or5.get_out(), and6.get_out(), wires);
        let and7 = And::new(computes, or6.get_out(), wires);
        let not4 = Not::new(and7.get_out(), wires);
        Jump { and4, and5, or4, not3, and6, or5, or6, and7, not4 }
    }

    /// The parts are connected as the jump logic.
    pub closed spec fn wiring(&self) -> bool {
        &&& self.and4.wired()
        &&& self.and5.wired()
        &&& self.or4.wired()
        &&& self.not3.wired()
        &&& self.and6.wired()
        &&& self.or5.wired()
        &&& self.or6.wired()
        &&& self.and7.wired()
        &&& self.not4.wired()
        &&& self.and4.span().before(self.and5.span())
        &&& self.and5.span().before(self.or4.span())
        &&& self.or4.span().before(self.not3.span())
        &&& self.not3.span().before(self.and6.span())
        &&& self.and6.span().before(self.or5.span())
        &&& self.or5.span().before(self.or6.span())
        &&& self.or6.span().before(self.and7.span())
        &&& self.and7.span().before(self.not4.span())
        &&& self.ng().below(self.and4.span().lo)
        &&& self.negative().below(self.and4.span().lo)
        &&& self.positive().below(self.and4.span().lo)
        &&& self.computes().below(self.and4.span().lo)
        &&& self.and5.a() == self.or4.b()
        &&& self.or4.a() == self.and4.a()
        &&& self.not3.input() == self.or4.out()
        &&& self.and6.a() == self.not3.out()
        &&& self.or5.a() == self.and4.out()
        &&& self.or5.b() == self.and5.out()
        &&& self.or6.a() == self.or5.out()
        &&& self.or6.b() == self.and6.out()
        &&& self.and7.b() == self.or6.out()
        &&& self.not4.input() == self.and7.out()
    }

    /// Input: the zero flag of the result.
    pub closed spec fn zr(&self) -> SharedBus<1> {
        self.and4.a()
    }

    /// Input: the sign flag of the result.
    pub closed spec fn ng(&self) -> SharedBus<1> {
        self.or4.b()
    }

    /// Input: the jump bit that asks for a negative result.
    pub closed spec fn negative(&self) -> SharedBus<1> {
        self.and5.b()
    }

    /// Input: the jump bit that asks for a zero result.
    pub closed spec fn zero(&self) -> SharedBus<1> {
        self.and4.b()
    }

    /// Input: the jump bit that asks for a positive result.
    pub closed spec fn positive(&self) -> SharedBus<1> {
        self.and6.b()
    }

    /// Input: `I` for a compute instruction.
    pub closed spec fn computes(&self) -> SharedBus<1> {
        self.and7.a()
    }

    /// Output: `I` where the program jumps.
    pub closed spec fn load(&self) -> SharedBus<1> {
        self.and7.out()
    }

    /// Output: `I` where the program goes on.
    pub closed spec fn inc(&self) -> SharedBus<1> {
        self.not4.out()
    }

    /// The bus `load`, to wire it on.
    pub fn get_load(&self) -> (r: SharedBus<1>)
        ensures
            r == self.load(),
    {
        self.and7.get_out()
    }

    /// The bus `inc`, to wire it on.
    pub fn get_inc(&self) -> (r: SharedBus<1>)
        ensures
            r == self.inc(),
    {
        self.not4.get_out()
    }
}

impl Gate for Jump {
    closed spec fn wired(&self) -> bool {
        self.wiring()
    }

    closed spec fn span(&self) -> Span {
        self.and4.span().through(self.not4.span())
    }

    open spec fn clocked(&self) -> bool {
        false
    }

    #[verifier::spinoff_prover]
    fn re_compute(&self, wires: &mut Wires)
        ensures
            self.load().value(final(wires)@)[0] == jump_bit(
                self.zr().value(old(wires)@)[0],
                self.ng().value(old(wires)@)[0],
                self.negative().value(old(wires)@)[0],
                self.zero().value(old(wires)@)[0],
                self.positive().value(old(wires)@)[0],
                self.computes().value(old(wires)@)[0],
            ),
            self.inc().value(final(wires)@)[0] == bit_not(self.load().value(final(wires)@)[0]),
    {
        broadcast use {group_run, lemma_not_ports, lemma_and_ports, lemma_or_ports};

        self.and4.re_compute(wires);
        self.and5.re_compute(wires);
        self.or4.re_compute(wires);
        self.not3.re_compute(wires);
        self.and6.re_compute(wires);
        self.or5.re_compute(wires);
        self.or6.re_compute(wires);
        self.and7.re_compute(wires);
        self.not4.re_compute(wires);
    }
}

/// What a caller may rely on of wired jump logic.
pub broadcast proof fn lemma_jump_ports(g: Jump)
    requires
        #[trigger] g.wired(),
    ensures
        g.span().lo <= g.span().hi,
        g.span().wlo <= g.span().whi,
        g.load().within(g.span().lo, g.span().hi),
        g.inc().within(g.span().lo, g.span().hi),
        g.zr().below(g.span().lo),
        g.ng().below(g.span().lo),
        g.negative().below(g.span().lo),
        g.zero().below(g.span().lo),
        g.positive().below(g.span().lo),
        g.computes().below(g.span().lo),
{
    broadcast use {lemma_not_ports, lemma_and_ports, lemma_or_ports};

}

} // verus!
