//! The 16-bit incrementer.
use vstd::prelude::*;
use crate::bit::{Bit, fill, lemma_low_bit_value};
use crate::bus::{Bus, SharedBus, group_build, group_run, lemma_extent_bounds};
use crate::gate::Gate;
use crate::add16::{Add16, sum16, lemma_add16_ports};
use crate::wires::{Span, Wires, framed, grown};

verus! {

/// The successor of a number modulo 2^16.
pub open spec fn next16(x: nat) -> nat {
    (x + 1) % 65536
}

/// To increment is to add 1 with the 16-bit adder.
pub proof fn lemma_inc_is_add_one(x: nat)
    ensures
        next16(x) == sum16(x, 1),
{
}

/// 16-bit incrementer: `out = (input + 1) mod 2^16`.
///
/// The constant 1 is a bus of its own: one wire that carries `I` and one
/// that carries `O`, which `re_compute` drives anew.
pub struct Inc16 {
    pub out: SharedBus<16>,
    zero: SharedBus<1>,
    one: SharedBus<1>,
    add16: Add16,
}

impl Inc16 {
    #[verifier::spinoff_prover]
    pub fn new(input: SharedBus<16>, wires: &mut Wires) -> (r: Inc16)
        requires
            input.below(old(wires)@.len()),
        ensures
            r.wired(),
            r.input() == input,
            r.span() == Span::added(*old(wires), *final(wires)),
            grown(*old(wires), *final(wires)),
            r.out().value(final(wires)@) == fill(16, Bit::O),
    {
        broadcast use {group_build, lemma_add16_ports};

        let all0 = Bus::<1>::all0(wires).to_shared_bus();
        let all1 = Bus::<1>::all1(wires).to_shared_bus();
        let one = Bus::new(
            [
                all1.get_shared_bit(0),
                all0.get_shared_bit(0),
                all0.get_shared_bit(0),
                all0.get_shared_bit(0),
                all0.get_shared_bit(0),
                all0.get_shared_bit(0),
                all0.get_shared_bit(0),
                all0.get_shared_bit(0),
                all0.get_shared_bit(0),
                all0.get_shared_bit(0),
                all0.get_shared_bit(0),
                all0.get_shared_bit(0),
                all0.get_shared_bit(0),
                all0.get_shared_bit(0),
                all0.get_shared_bit(0),
                all0.get_shared_bit(0),
            ],
        ).to_shared_bus();

        proof {
            lemma_extent_bounds(one, 0, wires@.len());
        }
        let add16 = Add16::new(input, one, wires);
        let r = Inc16 { out: add16.get_out(), zero: all0, one: all1, add16 };
        proof {
            reveal(Inc16::wiring);
        }
        r
    }

    /// The parts are connected as an adder of the constant 1.
    #[verifier::opaque]
    pub closed spec fn wiring(&self) -> bool {
        &&& self.add16.wired()
        &&& self.one.0.bits[0] == self.zero.0.bits[0] + 1
        &&& self.one.0.bits[0] < self.add16.span().lo
        &&& self.input().below(self.zero.0.bits[0] as nat)
        &&& self.add16.b().0.bits[0] == self.one.0.bits[0]
        &&& forall|k: int| 1 <= k < 16 ==> #[trigger] self.add16.b().0.bits[k] == self.zero.0.bits[0]
        &&& self.out() == self.add16.out()
    }

    /// The input bus `input`.
    pub closed spec fn input(&self) -> SharedBus<16> {
        self.add16.a()
    }
}

impl Gate for Inc16 {
    closed spec fn wired(&self) -> bool {
        self.wiring()
    }

    closed spec fn span(&self) -> Span {
        Span {
            lo: self.zero.0.bits[0] as nat,
            hi: self.add16.span().hi,
            wlo: self.add16.span().wlo,
            whi: self.add16.span().whi,
        }
    }

    open spec fn clocked(&self) -> bool {
        false
    }

    fn re_compute(&self, wires: &mut Wires)
        ensures
            self.out().word(final(wires)@) == next16(self.input().word(old(wires)@)),
    {
        broadcast use {group_run, lemma_add16_ports};

        proof {
            reveal(Inc16::wiring);
        }
        let ghost lo = self.span().lo;
        let ghost w0 = *wires;
        self.zero.drive(Bit::O, wires);
        let ghost w1 = *wires;
        self.one.drive(Bit::I, wires);
        let ghost w2 = *wires;
        proof {
            assert(framed(w0, w1, Span { lo, hi: lo + 1, wlo: 0, whi: 0 }));
            assert(framed(w1, w2, Span { lo: lo + 1, hi: lo + 2, wlo: 0, whi: 0 }));
            assert(self.zero.value(w2@)[0] == Bit::O);
            assert(self.one.value(w2@)[0] == Bit::I);
            let one = self.add16.b().value(w2@);
            assert(one[0] == Bit::I);
            assert forall|i: int| 1 <= i < 16 implies one[i] == Bit::O by {
                assert(self.add16.b().0.bits[i] == self.zero.0.bits[0]);
            }
            lemma_low_bit_value(one);
        }
        self.add16.re_compute(wires);
    }
}

/// What a caller may rely on of a wired incrementer.
pub broadcast proof fn lemma_inc16_ports(g: Inc16)
    requires
        #[trigger] g.wired(),
    ensures
        g.span().lo <= g.span().hi,
        g.span().wlo <= g.span().whi,
        g.out().within(g.span().lo, g.span().hi),
        g.input().below(g.span().lo),
{
    broadcast use {lemma_add16_ports};

    reveal(Inc16::wiring);
}

impl Inc16 {
    /// The output bus `out`.
    pub closed spec fn out(&self) -> SharedBus<16> {
        self.out
    }

    /// The bus `out`, to wire it on.
    pub fn get_out(&self) -> (r: SharedBus<16>)
        ensures
            r == self.out(),
    {
        self.out
    }
}

} // verus!
