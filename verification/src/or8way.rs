//! The 8-way OR.
use vstd::prelude::*;
use crate::bit::{Bit, fill, or_way};
use crate::bus::{Bus, SharedBus, group_build, group_run};
use crate::gate::Gate;
use crate::or::{Or, lemma_or_ports};
use crate::wires::{Span, Wires, grown};

verus! {

/// `out` is `I` where any of the eight input bits is `I`.
pub struct Or8Way {
    pub out: SharedBus<1>,
    input: SharedBus<8>,
    or1: Or<1>,
    or2: Or<1>,
    or3: Or<1>,
    or4: Or<1>,
    or5: Or<1>,
    or6: Or<1>,
    or7: Or<1>,
}

impl Or8Way {
    #[verifier::spinoff_prover]
    pub fn new(input: SharedBus<8>, wires: &mut Wires) -> (r: Or8Way)
        requires
            input.below(old(wires)@.len()),
        ensures
            r.wired(),
            r.input() == input,
            r.span() == Span::added(*old(wires), *final(wires)),
            grown(*old(wires), *final(wires)),
            r.out().value(final(wires)@) == fill(1, Bit::O),
    {
        broadcast use {group_build, lemma_or_ports};

        let i0 = Bus::new([input.get_shared_bit(0)]).to_shared_bus();
        let i1 = Bus::new([input.get_shared_bit(1)]).to_shared_bus();
        let i2 = Bus::new([input.get_shared_bit(2)]).to_shared_bus();
        let i3 = Bus::new([input.get_shared_bit(3)]).to_shared_bus();
        let i4 = Bus::new([input.get_shared_bit(4)]).to_shared_bus();
        let i5 = Bus::new([input.get_shared_bit(5)]).to_shared_bus();
        let i6 = Bus::new([input.get_shared_bit(6)]).to_shared_bus();
        let i7 = Bus::new([input.get_shared_bit(7)]).to_shared_bus();

        let or1 = Or::new(i0, i1, wires);
        let or2 = Or::new(i2, i3, wires);
        let or3 = Or::new(i4, i5, wires);
        let or4 = Or::new(i6, i7, wires);
        let or5 = Or::new(or1.get_out(), or2.get_out(), wires);
        let or6 = Or::new(or3.get_out(), or4.get_out(), wires);
        let or7 = Or::new(or5.get_out(), or6.get_out(), wires);
        let r = Or8Way { out: or7.get_out(), input, or1, or2, or3, or4, or5, or6, or7 };
        proof {
            reveal(Or8Way::wiring);
        }
        r
    }

    /// The parts are connected as a balanced tree of OR gates.
    #[verifier::opaque]
    pub closed spec fn wiring(&self) -> bool {
        &&& self.or1.wired()
        &&& self.or2.wired()
        &&& self.or3.wired()
        &&& self.or4.wired()
        &&& self.or5.wired()
        &&& self.or6.wired()
        &&& self.or7.wired()
        &&& self.or1.span().before(self.or2.span())
        &&& self.or2.span().before(self.or3.span())
        &&& self.or3.span().before(self.or4.span())
        &&& self.or4.span().before(self.or5.span())
        &&& self.or5.span().before(self.or6.span())
        &&& self.or6.span().before(self.or7.span())
        &&& self.input().below(self.or1.span().lo)
        &&& self.or2.a().below(self.or1.span().lo)
        &&& self.or2.b().below(self.or1.span().lo)
        &&& self.or3.a().below(self.or1.span().lo)
        &&& self.or3.b().below(self.or1.span().lo)
        &&& self.or4.a().below(self.or1.span().lo)
        &&& self.or4.b().below(self.or1.span().lo)
        &&& self.or1.a().0.bits[0] == self.input().0.bits[0]
        &&& self.or1.b().0.bits[0] == self.input().0.bits[1]
        &&& self.or2.a().0.bits[0] == self.input().0.bits[2]
        &&& self.or2.b().0.bits[0] == self.input().0.bits[3]
        &&& self.or3.a().0.bits[0] == self.input().0.bits[4]
        &&& self.or3.b().0.bits[0] == self.input().0.bits[5]
        &&& self.or4.a().0.bits[0] == self.input().0.bits[6]
        &&& self.or4.b().0.bits[0] == self.input().0.bits[7]
        &&& self.or5.a() == self.or1.out()
        &&& self.or5.b() == self.or2.out()
        &&& self.or6.a() == self.or3.out()
        &&& self.or6.b() == self.or4.out()
        &&& self.or7.a() == self.or5.out()
        &&& self.or7.b() == self.or6.out()
        &&& self.out() == self.or7.out()
    }
}

impl Gate for Or8Way {
    closed spec fn wired(&self) -> bool {
        self.wiring()
    }

    closed spec fn span(&self) -> Span {
        self.or1.span().through(self.or7.span())
    }

    open spec fn clocked(&self) -> bool {
        false
    }

    #[verifier::spinoff_prover]
    fn re_compute(&self, wires: &mut Wires)
        ensures
            self.out().value(final(wires)@) == fill(1, or_way(self.input().value(old(wires)@))),
    {
        broadcast use {group_run, lemma_or_ports};

        proof {
            reveal(Or8Way::wiring);
        }
        let ghost v = self.input().value(wires@);
        self.or1.re_compute(wires);
        self.or2.re_compute(wires);
        self.or3.re_compute(wires);
        self.or4.re_compute(wires);
        self.or5.re_compute(wires);
        self.or6.re_compute(wires);
        self.or7.re_compute(wires);
        proof {
            assert(self.or1.a().value(old(wires)@)[0] == v[0]);
            assert(self.or1.b().value(old(wires)@)[0] == v[1]);
            assert(self.or2.a().value(old(wires)@)[0] == v[2]);
            assert(self.or2.b().value(old(wires)@)[0] == v[3]);
            assert(self.or3.a().value(old(wires)@)[0] == v[4]);
            assert(self.or3.b().value(old(wires)@)[0] == v[5]);
            assert(self.or4.a().value(old(wires)@)[0] == v[6]);
            assert(self.or4.b().value(old(wires)@)[0] == v[7]);
            if or_way(v) == Bit::I {
                let i = choose|i: int| 0 <= i < v.len() && v[i] == Bit::I;
                assert(self.out().value(wires@)[0] == Bit::I);
            }
            assert(self.out().value(wires@) =~= fill(1, or_way(v)));
        }
    }
}

/// What a caller may rely on of a wired 8-way OR.
pub broadcast proof fn lemma_or8way_ports(g: Or8Way)
    requires
        #[trigger] g.wired(),
    ensures
        g.span().lo <= g.span().hi,
        g.span().wlo <= g.span().whi,
        g.out().within(g.span().lo, g.span().hi),
        g.input().below(g.span().lo),
{
    broadcast use {lemma_or_ports};

    reveal(Or8Way::wiring);
}

impl Or8Way {
    /// The input bus `input`.
    pub closed spec fn input(&self) -> SharedBus<8> {
        self.input
    }

    /// The output bus `out`.
    pub closed spec fn out(&self) -> SharedBus<1> {
        self.out
    }

    /// The bus `out`, to wire it on.
    pub fn get_out(&self) -> (r: SharedBus<1>)
        ensures
            r == self.out(),
    {
        self.out
    }
}

} // verus!
