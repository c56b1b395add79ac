//! The demultiplexer.
use vstd::prelude::*;
use crate::bit::{Bit, fill, route, lemma_bits_to_nat_1};
use crate::bus::{SharedBus, group_build, group_run};
use crate::gate::Gate;
use crate::not::{Not, lemma_not_ports};
use crate::and::{And, lemma_and_ports};
use crate::wires::{Span, Wires, grown};

verus! {

/// Sends `input` to `out1` where `sel` is `O` and to `out2` where it is `I`;
/// the other output carries `O`.
pub struct DMux {
    pub out1: SharedBus<1>,
    pub out2: SharedBus<1>,
    not: Not<1>,
    and1: And<1>,
    and2: And<1>,
}

impl DMux {
    #[verifier::spinoff_prover]
    pub fn new(input: SharedBus<1>, sel: SharedBus<1>, wires: &mut Wires) -> (r: DMux)
        requires
            input.below(old(wires)@.len()),
            sel.below(old(wires)@.len()),
        ensures
            r.wired(),
            r.input() == input,
            r.sel() == sel,
            r.span() == Span::added(*old(wires), *final(wires)),
            grown(*old(wires), *final(wires)),
            r.out1().value(final(wires)@) == fill(1, Bit::O),
            r.out2().value(final(wires)@) == fill(1, Bit::O),
    {
        broadcast use {group_build, lemma_not_ports, lemma_and_ports};

        let not = Not::new(sel, wires);
        let and1 = And::new(not.get_out(), input, wires);
        let and2 = And::new(sel, input, wires);
        let r = DMux { out1: and1.get_out(), out2: and2.get_out(), not, and1, and2 };
        proof {
            reveal(DMux::wiring);
        }
        r
    }

    /// The parts are connected as a demultiplexer.
    #[verifier::opaque]
    pub closed spec fn wiring(&self) -> bool {
        &&& self.not.wired()
        &&& self.and1.wired()
        &&& self.and2.wired()
        &&& self.not.span().before(self.and1.span())
        &&& self.and1.span().before(self.and2.span())
        &&& self.input().below(self.not.span().lo)
        &&& self.and1.a() == self.not.out()
        &&& self.and2.a() == self.sel()
        &&& self.and2.b() == self.input()
        &&& self.out1() == self.and1.out()
        &&& self.out2() == self.and2.out()
    }

    /// The input bus `input`.
    pub closed spec fn input(&self) -> SharedBus<1> {
        self.and1.b()
    }

    /// The input bus `sel`.
    pub closed spec fn sel(&self) -> SharedBus<1> {
        self.not.input()
    }
}

impl Gate for DMux {
    closed spec fn wired(&self) -> bool {
        self.wiring()
    }

    closed spec fn span(&self) -> Span {
        self.not.span().through(self.and2.span())
    }

    open spec fn clocked(&self) -> bool {
        false
    }

    #[verifier::spinoff_prover]
    fn re_compute(&self, wires: &mut Wires)
        ensures
            self.out1().value(final(wires)@) == route(
                self.input().value(old(wires)@),
                self.sel().word(old(wires)@),
                0,
            ),
            self.out2().value(final(wires)@) == route(
                self.input().value(old(wires)@),
                self.sel().word(old(wires)@),
                1,
            ),
    {
        broadcast use {group_run, lemma_not_ports, lemma_and_ports};

        proof {
            reveal(DMux::wiring);
            lemma_bits_to_nat_1(self.sel().value(old(wires)@));
        }
        self.not.re_compute(wires);
        self.and1.re_compute(wires);
        self.and2.re_compute(wires);
        assert(self.out1().value(wires@) =~= route(
            self.input().value(old(wires)@),
            self.sel().word(old(wires)@),
            0,
        ));
        assert(self.out2().value(wires@) =~= route(
            self.input().value(old(wires)@),
            self.sel().word(old(wires)@),
            1,
        ));
    }
}

/// What a caller may rely on of a wired demultiplexer.
pub broadcast proof fn lemma_dmux_ports(g: DMux)
    requires
        #[trigger] g.wired(),
    ensures
        g.span().lo <= g.span().hi,
        g.span().wlo <= g.span().whi,
        g.out1().within(g.span().lo, g.span().hi),
        g.out2().within(g.span().lo, g.span().hi),
        g.input().below(g.span().lo),
        g.sel().below(g.span().lo),
{
    broadcast use {lemma_not_ports, lemma_and_ports};

    reveal(DMux::wiring);
}

impl DMux {
    /// The output bus `out1`.
    pub closed spec fn out1(&self) -> SharedBus<1> {
        self.out1
    }

    /// The output bus `out2`.
    pub closed spec fn out2(&self) -> SharedBus<1> {
        self.out2
    }

    /// The bus `out1`, to wire it on.
    pub fn get_out1(&self) -> (r: SharedBus<1>)
        ensures
            r == self.out1(),
    {
        self.out1
    }

    /// The bus `out2`, to wire it on.
    pub fn get_out2(&self) -> (r: SharedBus<1>)
        ensures
            r == self.out2(),
    {
        self.out2
    }
}

} // verus!
