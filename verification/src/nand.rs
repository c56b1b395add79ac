//! The NAND primitive.
use vstd::prelude::*;
use crate::bit::{Bit, bit_nand, fill, nand_bits};
use crate::bus::{Bus, SharedBus, group_build, group_run};
use crate::gate::Gate;
use crate::wires::{Span, Wires, framed, grown};

verus! {

/// The primitive: `out[i] = NAND(a[i], b[i])`.
pub struct Nand<const N: usize> {
    a: SharedBus<N>,
    b: SharedBus<N>,
    pub out: SharedBus<N>,
    span: Ghost<Span>,
}

impl<const N: usize> Nand<N> {
    pub fn new(a: SharedBus<N>, b: SharedBus<N>, wires: &mut Wires) -> (r: Nand<N>)
        requires
            a.below(old(wires)@.len()),
            b.below(old(wires)@.len()),
        ensures
            r.wired(),
            r.a() == a,
            r.b() == b,
            r.span() == Span::added(*old(wires), *final(wires)),
            final(wires)@ == old(wires)@ + fill(N as nat, Bit::O),
            final(wires).mem() == old(wires).mem(),
            grown(*old(wires), *final(wires)),
            r.out().value(final(wires)@) == fill(N as nat, Bit::O),
    {
        broadcast use {group_build};

        let ghost pre = *wires;
        let out = Bus::<N>::all0(wires).to_shared_bus();
        assert(out.value(wires@) =~= fill(N as nat, Bit::O));
        Nand { a, b, out, span: Ghost(Span::added(pre, *wires)) }
    }
}

impl<const N: usize> Gate for Nand<N> {
    closed spec fn wired(&self) -> bool {
        &&& self.span@.hi == self.span@.lo + N
        &&& self.span@.wlo == self.span@.whi
        &&& self.a().below(self.span@.lo)
        &&& self.b().below(self.span@.lo)
        &&& self.out().row(self.span@.lo)
        &&& self.out().within(self.span@.lo, self.span@.hi)
    }

    closed spec fn span(&self) -> Span {
        self.span@
    }

    open spec fn clocked(&self) -> bool {
        false
    }

    fn re_compute(&self, wires: &mut Wires)
        ensures
            self.out().value(final(wires)@) == nand_bits(
                self.a().value(old(wires)@),
                self.b().value(old(wires)@),
            ),
    {
        broadcast use {group_run};

        let mut i: usize = 0;
        while i < N
            invariant
                i <= N,
                self.wired(),
                self.span().fits(*wires),
                framed(*old(wires), *wires, self.span()),
                wires.mem() == old(wires).mem(),
                forall|j: int|
                    0 <= j < i ==> wires@[self.out().0.bits[j] as int] == bit_nand(
                        old(wires)@[self.a().0.bits[j] as int],
                        old(wires)@[self.b().0.bits[j] as int],
                    ),
            decreases N - i,
        {
            let bit = match (wires.get(self.a.get_shared_bit(i)), wires.get(self.b.get_shared_bit(i))) {
                (Bit::O, Bit::O) => Bit::I,
                (Bit::O, Bit::I) => Bit::I,
                (Bit::I, Bit::O) => Bit::I,
                (Bit::I, Bit::I) => Bit::O,
            };
            wires.set(self.out.get_shared_bit(i), bit);
            i += 1;
        }
        assert(self.out().value(wires@) =~= nand_bits(
            self.a().value(old(wires)@),
            self.b().value(old(wires)@),
        ));
    }
}

impl<const N: usize> Nand<N> {
    /// The input bus `a`.
    pub closed spec fn a(&self) -> SharedBus<N> {
        self.a
    }

    /// The input bus `b`.
    pub closed spec fn b(&self) -> SharedBus<N> {
        self.b
    }

    /// The output bus `out`.
    pub closed spec fn out(&self) -> SharedBus<N> {
        self.out
    }

    /// The bus `out`, to wire it on.
    pub fn get_out(&self) -> (r: SharedBus<N>)
        ensures
            r == self.out(),
    {
        self.out
    }
}

/// What a caller may rely on of a wired gate of this kind.
pub broadcast proof fn lemma_nand_ports<const N: usize>(g: Nand<N>)
    requires
        #[trigger] g.wired(),
    ensures
        g.span().lo <= g.span().hi,
        g.span().wlo <= g.span().whi,
        g.out().within(g.span().lo, g.span().hi),
        g.a().below(g.span().lo),
        g.b().below(g.span().lo),
{
}

} // verus!
