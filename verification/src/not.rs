//! The NOT gate.
use vstd::prelude::*;
use crate::bit::{Bit, fill, not_bits};
use crate::bus::{SharedBus, group_build, group_run};
use crate::gate::Gate;
use crate::nand::{Nand, lemma_nand_ports};
use crate::wires::{Span, Wires, grown};

verus! {

/// `out[i] = NOT(input[i])`.
pub struct Not<const N: usize> {
    pub out: SharedBus<N>,
    nand: Nand<N>,
}

impl<const N: usize> Not<N> {
    pub fn new(input: SharedBus<N>, wires: &mut Wires) -> (r: Not<N>)
        requires
            input.below(old(wires)@.len()),
        ensures
            r.wired(),
            r.input() == input,
            r.span() == Span::added(*old(wires), *final(wires)),
            grown(*old(wires), *final(wires)),
            r.out().value(final(wires)@) == fill(N as nat, Bit::O),
    {
        broadcast use {group_build, lemma_nand_ports};

        let nand = Nand::new(input, input, wires);
        assert(nand.out().value(wires@) =~= fill(N as nat, Bit::O));
        Not { out: nand.get_out(), nand }
    }

    /// The input bus `input`.
    pub closed spec fn input(&self) -> SharedBus<N> {
        self.nand.a()
    }
}

impl<const N: usize> Gate for Not<N> {
    closed spec fn wired(&self) -> bool {
        &&& self.nand.wired()
        &&& self.nand.b() == self.nand.a()
        &&& self.out() == self.nand.out()
    }

    closed spec fn span(&self) -> Span {
        self.nand.span()
    }

    open spec fn clocked(&self) -> bool {
        false
    }

    fn re_compute(&self, wires: &mut Wires)
        ensures
            self.out().value(final(wires)@) == not_bits(self.input().value(old(wires)@)),
    {
        broadcast use {group_run, lemma_nand_ports};

        self.nand.re_compute(wires);
        assert(self.out().value(wires@) =~= not_bits(self.input().value(old(wires)@)));
    }
}

impl<const N: usize> Not<N> {
    /// The output bus `out`.
    pub closed spec fn out(&self) -> SharedBus<N> {
        self.out
    }

    /// The bus `out`, to wire it on.
    pub fn get_out(&self) -> (r: SharedBus<N>)
        ensures
            r == self.out(),
    {
        self.out
    }
}

/// What a caller may rely on of a wired gate of this kind.
pub broadcast proof fn lemma_not_ports<const N: usize>(g: Not<N>)
    requires
        #[trigger] g.wired(),
    ensures
        g.span().lo <= g.span().hi,
        g.span().wlo <= g.span().whi,
        g.out().within(g.span().lo, g.span().hi),
        g.input().below(g.span().lo),
{
    broadcast use {lemma_nand_ports};

}

} // verus!
