//! The multiplexer.
use vstd::prelude::*;
use crate::bit::{Bit, fill};
use crate::bus::{SharedBus, group_build, group_run};
use crate::gate::Gate;
use crate::not::{Not, lemma_not_ports};
use crate::and::{And, lemma_and_ports};
use crate::or::{Or, lemma_or_ports};
use crate::wires::{Span, Wires, grown};

verus! {

/// `out = b` where `sel` is `I`, else `out = a`.
pub struct Mux<const N: usize> {
    pub out: SharedBus<N>,
    sel: SharedBus<1>,
    not: Not<N>,
    and1: And<N>,
    and2: And<N>,
    or: Or<N>,
}

impl<const N: usize> Mux<N> {
    #[verifier::spinoff_prover]
    pub fn new(a: SharedBus<N>, b: SharedBus<N>, sel: SharedBus<1>, wires: &mut Wires) -> (r: Mux<N>)
        requires
            a.below(old(wires)@.len()),
            b.below(old(wires)@.len()),
            sel.below(old(wires)@.len()),
        ensures
            r.wired(),
            r.a() == a,
            r.b() == b,
            r.sel() == sel,
            r.span() == Span::added(*old(wires), *final(wires)),
            grown(*old(wires), *final(wires)),
            r.out().value(final(wires)@) == fill(N as nat, Bit::O),
    {
        broadcast use {group_build, lemma_not_ports, lemma_and_ports, lemma_or_ports};

        let sel_n: SharedBus<N> = sel.widen();
        let not = Not::new(sel_n, wires);
        let and1 = And::new(not.get_out(), a, wires);
        let and2 = And::new(sel_n, b, wires);
        let or = Or::new(and1.get_out(), and2.get_out(), wires);
        let r = Mux { out: or.get_out(), sel, not, and1, and2, or };
        proof {
            reveal(Mux::wiring);
        }
        r
    }

    /// The parts are connected as a multiplexer.
    #[verifier::opaque]
    pub closed spec fn wiring(&self) -> bool {
        &&& self.not.wired()
        &&& self.and1.wired()
        &&& self.and2.wired()
        &&& self.or.wired()
        &&& self.not.span().before(self.and1.span())
        &&& self.and1.span().before(self.and2.span())
        &&& self.and2.span().before(self.or.span())
        &&& forall|i: int| 0 <= i < N ==> (#[trigger] self.not.input().0.bits[i]) == self.sel().0.bits[0]
        &&& self.sel().below(self.not.span().lo)
        &&& self.a().below(self.not.span().lo)
        &&& self.b().below(self.not.span().lo)
        &&& self.and1.a() == self.not.out()
        &&& self.and2.a() == self.not.input()
        &&& self.or.a() == self.and1.out()
        &&& self.or.b() == self.and2.out()
        &&& self.out() == self.or.out()
    }

    /// The input bus `a`.
    pub closed spec fn a(&self) -> SharedBus<N> {
        self.and1.b()
    }

    /// The input bus `b`.
    pub closed spec fn b(&self) -> SharedBus<N> {
        self.and2.b()
    }
}

impl<const N: usize> Gate for Mux<N> {
    closed spec fn wired(&self) -> bool {
        self.wiring()
    }

    closed spec fn span(&self) -> Span {
        self.not.span().through(self.or.span())
    }

    open spec fn clocked(&self) -> bool {
        false
    }

    #[verifier::spinoff_prover]
    fn re_compute(&self, wires: &mut Wires)
        ensures
            self.out().value(final(wires)@) == (if self.sel().value(old(wires)@)[0] == Bit::I {
                self.b().value(old(wires)@)
            } else {
                self.a().value(old(wires)@)
            }),
    {
        broadcast use {group_run, lemma_not_ports, lemma_and_ports, lemma_or_ports};

        proof {
            reveal(Mux::wiring);
        }
        self.not.re_compute(wires);
        self.and1.re_compute(wires);
        self.and2.re_compute(wires);
        self.or.re_compute(wires);
        assert(self.out().value(wires@) =~= (if self.sel().value(old(wires)@)[0] == Bit::I {
            self.b().value(old(wires)@)
        } else {
            self.a().value(old(wires)@)
        }));
    }
}

/// What a caller may rely on of a wired multiplexer.
pub broadcast proof fn lemma_mux_ports<const N: usize>(g: Mux<N>)
    requires
        #[trigger] g.wired(),
    ensures
        g.span().lo <= g.span().hi,
        g.span().wlo <= g.span().whi,
        g.out().within(g.span().lo, g.span().hi),
        g.a().below(g.span().lo),
        g.b().below(g.span().lo),
        g.sel().below(g.span().lo),
{
    broadcast use {lemma_not_ports, lemma_and_ports, lemma_or_ports};

    reveal(Mux::wiring);
}

impl<const N: usize> Mux<N> {
    /// The input bus `sel`.
    pub closed spec fn sel(&self) -> SharedBus<1> {
        self.sel
    }

    /// The output bus `out`.
    pub closed spec fn out(&self) -> SharedBus<N> {
        self.out
    }

    /// The bus `out`, to wire it on.
    pub fn get_out(&self) -> (r: SharedBus<N>)
        ensures
            r == self.out(),
    {
        self.out
    }
}

} // verus!
