//! The 16-bit adder.
use vstd::prelude::*;
use vstd::arithmetic::power2::{pow2, lemma_pow2_unfold, lemma2_to64};
use crate::bit::{Bit, bits_to_nat, fill, lemma_bits_to_nat_bound, lemma_bits_to_nat_step};
use crate::bus::{Bus, SharedBus, group_build, group_run, lemma_extent_bounds};
use crate::gate::Gate;
use crate::half_adder::{HalfAdder, lemma_half_adder_ports};
use crate::full_adder::{FullAdder, lemma_full_adder_ports};
use crate::wires::{Span, Wires, framed, grown};

verus! {

/// The sum of two numbers modulo 2^16.
pub open spec fn sum16(x: nat, y: nat) -> nat {
    (x + y) % 65536
}

/// The carry that goes into full adder `j` of a ripple-carry chain.
pub open spec fn carry_before(half: HalfAdder, adders: Seq<FullAdder>, j: int) -> SharedBus<1> {
    if j == 0 {
        half.carry()
    } else {
        adders[j - 1].carry()
    }
}

/// The cells of the stage that comes before full adder `j`.
pub open spec fn span_before(half: HalfAdder, adders: Seq<FullAdder>, j: int) -> Span {
    if j == 0 {
        half.span()
    } else {
        adders[j - 1].span()
    }
}

/// Full adder `j` of a chain adds bit `j + 1` of `a` and `b` and the carry of
/// the stage before it.
pub open spec fn chained(
    half: HalfAdder,
    adders: Seq<FullAdder>,
    a: SharedBus<16>,
    b: SharedBus<16>,
    j: int,
) -> bool {
    let fa = adders[j];
    &&& fa.wired()
    &&& fa.a().0.bits[0] == a.0.bits[j + 1]
    &&& fa.b().0.bits[0] == b.0.bits[j + 1]
    &&& fa.c() == carry_before(half, adders, j)
    &&& fa.a().below(half.span().lo)
    &&& fa.b().below(half.span().lo)
    &&& span_before(half, adders, j).before(fa.span())
}

/// 16-bit ripple-carry adder: `out = (a + b) mod 2^16`.
pub struct Add16 {
    pub out: SharedBus<16>,
    a: SharedBus<16>,
    b: SharedBus<16>,
    half_adder: HalfAdder,
    full_adders: Vec<FullAdder>,
}

impl Add16 {
    #[verifier::loop_isolation(false)]
    #[verifier::spinoff_prover]
    pub fn new(a: SharedBus<16>, b: SharedBus<16>, wires: &mut Wires) -> (r: Add16)
        requires
            a.below(old(wires)@.len()),
            b.below(old(wires)@.len()),
        ensures
            r.wired(),
            r.a() == a,
            r.b() == b,
            r.span() == Span::added(*old(wires), *final(wires)),
            grown(*old(wires), *final(wires)),
            r.out().value(final(wires)@) == fill(16, Bit::O),
    {
        broadcast use {group_build, lemma_half_adder_ports, lemma_full_adder_ports};

        proof {
            reveal(grown);
        }
        let ghost w0 = *wires;
        let half_adder = HalfAdder::new(a.reconnect([0]), b.reconnect([0]), wires);
        let mut sums = [0usize;16];
        sums[0] = half_adder.get_sum().get_shared_bit(0);
        let mut carry = half_adder.get_carry();
        let mut full_adders: Vec<FullAdder> = Vec::new();
        let mut j: usize = 0;
        assert(half_adder.sum().value(wires@)[0] == Bit::O);
        while j < 15
            invariant
                j <= 15,
                full_adders@.len() == j,
                grown(w0, *wires),
                carry == carry_before(half_adder, full_adders@, j as int),
                carry.below(wires@.len()),
                span_before(half_adder, full_adders@, j as int).hi == wires@.len(),
                span_before(half_adder, full_adders@, j as int).whi == wires.mem().len(),
                forall|i: int| 0 <= i < j ==> chained(half_adder, full_adders@, a, b, i),
                sums[0] == half_adder.sum().0.bits[0],
                forall|i: int| 0 <= i < j ==> sums[i + 1] == (#[trigger] full_adders@[i]).sum().0.bits[0],
                forall|i: int| 0 <= i <= j ==> sums[i] < wires@.len() && wires@[sums[i] as int] == Bit::O,
            decreases 15 - j,
        {
            let ghost w1 = *wires;
            let ghost before = full_adders@;
            let fa = FullAdder::new(a.reconnect([j + 1]), b.reconnect([j + 1]), carry, wires);
            sums[j + 1] = fa.get_sum().get_shared_bit(0);
            carry = fa.get_carry();
            proof {
                assert(fa.sum().value(wires@)[0] == Bit::O);
                assert forall|i: int| 0 <= i < j + 1 implies chained(
                    half_adder,
                    before.push(fa),
                    a,
                    b,
                    i,
                ) by {
                    if i < j {
                        assert(chained(half_adder, before, a, b, i));
                    }
                }
            }
            full_adders.push(fa);
            j += 1;
        }
        let out = Bus::new(sums).to_shared_bus();
        let r = Add16 { out, a, b, half_adder, full_adders };
        proof {
            reveal(Add16::wiring);
            assert(r.out().value(wires@) =~= fill(16, Bit::O));
        }
        r
    }

    /// The sum bit of stage `k`: stage 0 is the half adder, stage `k` full
    /// adder `k - 1`.
    pub closed spec fn stage_sum(&self, k: int) -> SharedBus<1> {
        if k == 0 {
            self.half_adder.sum()
        } else {
            self.full_adders@[k - 1].sum()
        }
    }

    /// The parts are connected as a ripple-carry chain.
    #[verifier::opaque]
    pub closed spec fn wiring(&self) -> bool {
        &&& self.full_adders@.len() == 15
        &&& self.half_adder.wired()
        &&& self.a().below(self.half_adder.span().lo)
        &&& self.b().below(self.half_adder.span().lo)
        &&& self.half_adder.a().0.bits[0] == self.a().0.bits[0]
        &&& self.half_adder.b().0.bits[0] == self.b().0.bits[0]
        &&& forall|j: int|
            0 <= j < 15 ==> #[trigger] chained(self.half_adder, self.full_adders@, self.a(), self.b(), j)
        &&& forall|k: int| 0 <= k < 16 ==> self.out().0.bits[k] == (#[trigger] self.stage_sum(k)).0.bits[0]
    }
}

impl Gate for Add16 {
    closed spec fn wired(&self) -> bool {
        self.wiring()
    }

    closed spec fn span(&self) -> Span {
        self.half_adder.span().through(span_before(self.half_adder, self.full_adders@, 15))
    }

    open spec fn clocked(&self) -> bool {
        false
    }

    #[verifier::spinoff_prover]
    #[verifier::loop_isolation(false)]
    fn re_compute(&self, wires: &mut Wires)
        ensures
            self.out().word(final(wires)@) == sum16(self.a().word(old(wires)@), self.b().word(old(wires)@)),
    {
        broadcast use {group_run, lemma_half_adder_ports, lemma_full_adder_ports};

        proof {
            reveal(Add16::wiring);
            lemma2_to64();
        }
        let ghost w0 = *wires;
        let ghost va = self.a().value(w0@);
        let ghost vb = self.b().value(w0@);
        let ghost half = self.half_adder;
        let ghost adders = self.full_adders@;
        proof {
            lemma_chain_ordered_from(half, adders, self.a(), self.b(), 0, 15);
        }
        self.half_adder.re_compute(wires);
        proof {
            let v = self.out().value(wires@);
            lemma_bits_to_nat_step(v, 0);
            lemma_bits_to_nat_step(va, 0);
            lemma_bits_to_nat_step(vb, 0);
            assert(self.stage_sum(0) == half.sum());
            assert(v[0] == half.sum().value(wires@)[0]);
            assert(half.a().value(w0@)[0] == va[0]);
            assert(half.b().value(w0@)[0] == vb[0]);
        }
        let mut j: usize = 0;
        while j < 15
            invariant
                j <= 15,
                half.span().lo <= span_before(half, adders, j as int).hi,
                half.span().wlo <= span_before(half, adders, j as int).whi,
                framed(w0, *wires, half.span().through(span_before(half, adders, j as int))),
                wires.mem() == w0.mem(),
                forall|i: int| 0 <= i <= j ==> self.out().0.bits[i] < span_before(half, adders, j as int).hi,
                carry_before(half, adders, j as int).below(span_before(half, adders, j as int).hi),
                bits_to_nat(self.out().value(wires@).take(j + 1)) + (if wires@[carry_before(
                    half,
                    adders,
                    j as int,
                ).0.bits[0] as int] == Bit::I {
                    pow2((j + 1) as nat)
                } else {
                    0
                }) == bits_to_nat(va.take(j + 1)) + bits_to_nat(vb.take(j + 1)),
            decreases 15 - j,
        {
            let ghost w1 = *wires;
            let ghost fa = adders[j as int];
            proof {
                assert(chained(half, adders, self.a(), self.b(), j as int));
                lemma_chain_ordered_from(half, adders, self.a(), self.b(), j + 1, 15);
            }
            self.full_adders[j].re_compute(wires);
            proof {
                let v1 = self.out().value(w1@);
                let v2 = self.out().value(wires@);
                assert(v2.take(j + 1) =~= v1.take(j + 1));
                lemma_bits_to_nat_step(v2, j + 1);
                lemma_bits_to_nat_step(va, j + 1);
                lemma_bits_to_nat_step(vb, j + 1);
                lemma_pow2_unfold((j + 2) as nat);
                assert(self.stage_sum(j + 1) == fa.sum());
                assert(v2[j + 1] == fa.sum().value(wires@)[0]);
                assert(self.a().value(w1@) == va);
                assert(self.b().value(w1@) == vb);
                assert(fa.a().value(w1@)[0] == va[j + 1]);
                assert(fa.b().value(w1@)[0] == vb[j + 1]);
                assert(fa.c().value(w1@)[0] == w1@[carry_before(half, adders, j as int).0.bits[0] as int]);
                assert(carry_before(half, adders, j + 1) == fa.carry());
                assert(fa.carry().value(wires@)[0] == wires@[fa.carry().0.bits[0] as int]);
            }
            j += 1;
        }
        proof {
            let v = self.out().value(wires@);
            assert(v.take(16) =~= v);
            assert(va.take(16) =~= va);
            assert(vb.take(16) =~= vb);
            lemma_bits_to_nat_bound(v);
        }
    }
}

/// What a caller may rely on of a wired adder.
pub broadcast proof fn lemma_add16_ports(g: Add16)
    requires
        #[trigger] g.wired(),
    ensures
        g.span().lo <= g.span().hi,
        g.span().wlo <= g.span().whi,
        g.out().within(g.span().lo, g.span().hi),
        g.a().below(g.span().lo),
        g.b().below(g.span().lo),
{
    broadcast use {lemma_half_adder_ports, lemma_full_adder_ports, crate::bus::lemma_extent_single};

    reveal(Add16::wiring);
    lemma_chain_ordered(g.half_adder, g.full_adders@, g.a(), g.b(), 15);
    assert forall|k: int| 0 <= k < 16 implies g.span().lo <= (#[trigger] g.out().0.bits[k]) < g.span().hi by {
        assert(g.out().0.bits[k] == g.stage_sum(k).0.bits[0]);
        lemma_chain_ordered(g.half_adder, g.full_adders@, g.a(), g.b(), k);
        lemma_chain_ordered_from(g.half_adder, g.full_adders@, g.a(), g.b(), k, 15);
        if k > 0 {
            assert(chained(g.half_adder, g.full_adders@, g.a(), g.b(), k - 1));
        }
    }
    lemma_extent_bounds(g.out(), g.span().lo, g.span().hi);
}

/// The stages of a chain lie one after another, from the half adder on.
proof fn lemma_chain_ordered(
    half: HalfAdder,
    adders: Seq<FullAdder>,
    a: SharedBus<16>,
    b: SharedBus<16>,
    k: int,
)
    requires
        half.wired(),
        0 <= k <= adders.len(),
        forall|j: int| 0 <= j < adders.len() ==> #[trigger] chained(half, adders, a, b, j),
    ensures
        half.span().lo <= span_before(half, adders, k).lo <= span_before(half, adders, k).hi,
        half.span().wlo <= span_before(half, adders, k).wlo <= span_before(half, adders, k).whi,
    decreases k,
{
    broadcast use {lemma_half_adder_ports, lemma_full_adder_ports};

    if k > 0 {
        lemma_chain_ordered(half, adders, a, b, k - 1);
        assert(chained(half, adders, a, b, k - 1));
    }
}

/// A later stage of a chain ends after an earlier one.
proof fn lemma_chain_ordered_from(
    half: HalfAdder,
    adders: Seq<FullAdder>,
    a: SharedBus<16>,
    b: SharedBus<16>,
    k: int,
    m: int,
)
    requires
        half.wired(),
        0 <= k <= m <= adders.len(),
        forall|j: int| 0 <= j < adders.len() ==> #[trigger] chained(half, adders, a, b, j),
    ensures
        span_before(half, adders, k).hi <= span_before(half, adders, m).hi,
        span_before(half, adders, k).whi <= span_before(half, adders, m).whi,
    decreases m - k,
{
    broadcast use {lemma_half_adder_ports, lemma_full_adder_ports};

    if k < m {
        lemma_chain_ordered_from(half, adders, a, b, k, m - 1);
        assert(chained(half, adders, a, b, m - 1));
    }
}

impl Add16 {
    /// The input bus `a`.
    pub closed spec fn a(&self) -> SharedBus<16> {
        self.a
    }

    /// The input bus `b`.
    pub closed spec fn b(&self) -> SharedBus<16> {
        self.b
    }

    /// The output bus `out`.
    pub closed spec fn out(&self) -> SharedBus<16> {
        self.out
    }

    /// The bus `out`, to wire it on.
    pub fn get_out(&self) -> (r: SharedBus<16>)
        ensures
            r == self.out(),
    {
        self.out
    }
}

} // verus!
