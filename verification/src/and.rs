//! The AND gate.
use vstd::prelude::*;
use crate::bit::{Bit, fill, and_bits};
use crate::bus::{SharedBus, group_build, group_run};
use crate::gate::Gate;
use crate::nand::{Nand, lemma_nand_ports};
use crate::not::{Not, lemma_not_ports};
use crate::wires::{Span, Wires, grown};

verus! {

/// `out[i] = a[i] AND b[i]`.
pub struct And<const N: usize> {
    pub out: SharedBus<N>,
    nand: Nand<N>,
    not: Not<N>,
}

impl<const N: usize> And<N> {
    pub fn new(a: SharedBus<N>, b: SharedBus<N>, wires: &mut Wires) -> (r: And<N>)
        requires
            a.below(old(wires)@.len()),
            b.below(old(wires)@.len()),
        ensures
            r.wired(),
            r.a() == a,
            r.b() == b,
            r.span() == Span::added(*old(wires), *final(wires)),
            grown(*old(wires), *final(wires)),
            r.out().value(final(wires)@) == fill(N as nat, Bit::O),
    {
        broadcast use {group_build, lemma_nand_ports, lemma_not_ports};

        let nand = Nand::new(a, b, wires);
        let not = Not::new(nand.get_out(), wires);
        And { out: not.get_out(), nand, not }
    }

    /// The input bus `a`.
    pub closed spec fn a(&self) -> SharedBus<N> {
        self.nand.a()
    }

    /// The input bus `b`.
    pub closed spec fn b(&self) -> SharedBus<N> {
        self.nand.b()
    }
}

impl<const N: usize> Gate for And<N> {
    closed spec fn wired(&self) -> bool {
        &&& self.nand.wired()
        &&& self.not.wired()
        &&& self.nand.span().before(self.not.span())
        &&& self.not.input() == self.nand.out()
        &&& self.out() == self.not.out()
    }

    closed spec fn span(&self) -> Span {
        self.nand.span().through(self.not.span())
    }

    open spec fn clocked(&self) -> bool {
        false
    }

    fn re_compute(&self, wires: &mut Wires)
        ensures
            self.out().value(final(wires)@) == and_bits(
                self.a().value(old(wires)@),
                self.b().value(old(wires)@),
            ),
    {
        broadcast use {group_run, lemma_nand_ports, lemma_not_ports};

        self.nand.re_compute(wires);
        self.not.re_compute(wires);
        assert(self.out().value(wires@) =~= and_bits(
            self.a().value(old(wires)@),
            self.b().value(old(wires)@),
        ));
    }
}

impl<const N: usize> And<N> {
    /// The output bus `out`.
    pub closed spec fn out(&self) -> SharedBus<N> {
        self.out
    }

    /// The bus `out`, to wire it on.
    pub fn get_out(&self) -> (r: SharedBus<N>)
        ensures
            r == self.out(),
    {
        self.out
    }
}

/// What a caller may rely on of a wired gate of this kind.
pub broadcast proof fn lemma_and_ports<const N: usize>(g: And<N>)
    requires
        #[trigger] g.wired(),
    ensures
        g.span().lo <= g.span().hi,
        g.span().wlo <= g.span().whi,
        g.out().within(g.span().lo, g.span().hi),
        g.a().below(g.span().lo),
        g.b().below(g.span().lo),
{
    broadcast use {lemma_nand_ports, lemma_not_ports};

}

} // verus!
