//! The OR gate.
use vstd::prelude::*;
use crate::bit::{Bit, fill, or_bits};
use crate::bus::{SharedBus, group_build, group_run};
use crate::gate::Gate;
use crate::nand::{Nand, lemma_nand_ports};
use crate::wires::{Span, Wires, grown};

verus! {

/// `out[i] = a[i] OR b[i]`.
pub struct Or<const N: usize> {
    pub out: SharedBus<N>,
    nand1: Nand<N>,
    nand2: Nand<N>,
    nand3: Nand<N>,
}

impl<const N: usize> Or<N> {
    pub fn new(a: SharedBus<N>, b: SharedBus<N>, wires: &mut Wires) -> (r: Or<N>)
        requires
            a.below(old(wires)@.len()),
            b.below(old(wires)@.len()),
        ensures
            r.wired(),
            r.a() == a,
            r.b() == b,
            r.span() == Span::added(*old(wires), *final(wires)),
            grown(*old(wires), *final(wires)),
            r.out().value(final(wires)@) == fill(N as nat, Bit::O),
    {
        broadcast use {group_build, lemma_nand_ports};

        let nand1 = Nand::new(a, a, wires);
        let nand2 = Nand::new(b, b, wires);
        let nand3 = Nand::new(nand1.get_out(), nand2.get_out(), wires);
        assert(nand3.out().value(wires@) =~= fill(N as nat, Bit::O));
        Or { out: nand3.get_out(), nand1, nand2, nand3 }
    }

    /// The input bus `a`.
    pub closed spec fn a(&self) -> SharedBus<N> {
        self.nand1.a()
    }

    /// The input bus `b`.
    pub closed spec fn b(&self) -> SharedBus<N> {
        self.nand2.a()
    }
}

impl<const N: usize> Gate for Or<N> {
    closed spec fn wired(&self) -> bool {
        &&& self.nand1.wired()
        &&& self.nand2.wired()
        &&& self.nand3.wired()
        &&& self.nand1.span().before(self.nand2.span())
        &&& self.nand2.span().before(self.nand3.span())
        &&& self.nand1.b() == self.nand1.a()
        &&& self.nand2.b() == self.nand2.a()
        &&& self.nand2.a().below(self.nand1.span().lo)
        &&& self.nand3.a() == self.nand1.out()
        &&& self.nand3.b() == self.nand2.out()
        &&& self.out() == self.nand3.out()
    }

    closed spec fn span(&self) -> Span {
        self.nand1.span().through(self.nand3.span())
    }

    open spec fn clocked(&self) -> bool {
        false
    }

    fn re_compute(&self, wires: &mut Wires)
        ensures
            self.out().value(final(wires)@) == or_bits(
                self.a().value(old(wires)@),
                self.b().value(old(wires)@),
            ),
    {
        broadcast use {group_run, lemma_nand_ports};

        self.nand1.re_compute(wires);
        self.nand2.re_compute(wires);
        self.nand3.re_compute(wires);
        assert(self.out().value(wires@) =~= or_bits(
            self.a().value(old(wires)@),
            self.b().value(old(wires)@),
        ));
    }
}

impl<const N: usize> Or<N> {
    /// The output bus `out`.
    pub closed spec fn out(&self) -> SharedBus<N> {
        self.out
    }

    /// The bus `out`, to wire it on.
    pub fn get_out(&self) -> (r: SharedBus<N>)
        ensures
            r == self.out(),
    {
        self.out
    }
}

/// What a caller may rely on of a wired gate of this kind.
pub broadcast proof fn lemma_or_ports<const N: usize>(g: Or<N>)
    requires
        #[trigger] g.wired(),
    ensures
        g.span().lo <= g.span().hi,
        g.span().wlo <= g.span().whi,
        g.out().within(g.span().lo, g.span().hi),
        g.a().below(g.span().lo),
        g.b().below(g.span().lo),
{
    broadcast use {lemma_nand_ports};

}

} // verus!
