//! The register of sixteen bits.
use vstd::prelude::*;
use crate::bit::{Bit, fill};
use crate::bus::{Bus, SharedBus, group_build, group_run, lemma_extent, lemma_extent_bounds};
use crate::gate::Gate;
use crate::one_bit_register::{OneBitRegister, lemma_one_bit_register_ports};
use crate::wires::{Span, Wires, framed, grown};

verus! {

/// Bit `k` of a register is wired to position `k` of each bus of the register.
pub open spec fn bit_fitted(
    bits: Seq<OneBitRegister>,
    input: SharedBus<16>,
    load: SharedBus<1>,
    out: SharedBus<16>,
    state: SharedBus<16>,
    next: SharedBus<16>,
    k: int,
) -> bool {
    let bit = bits[k];
    &&& bit.wired()
    &&& bit.input().0.bits[0] == input.0.bits[k]
    &&& bit.input().below(bits[0].span().lo)
    &&& bit.load() == load
    &&& out.0.bits[k] == bit.out().0.bits[0]
    &&& state.0.bits[k] == bit.state().0.bits[0]
    &&& next.0.bits[k] == bit.next().0.bits[0]
    &&& bits[0].span().lo <= bit.span().lo
    &&& bits[0].span().wlo <= bit.span().wlo
    &&& bit.span().hi <= bits[15].span().hi
    &&& bit.span().whi <= bits[15].span().whi
}

/// 16-bit register: sixteen one-bit registers under one `load`.
///
/// `next` bundles what the sixteen flip-flops will sample at the rising
/// edge, `state` what they sampled last, and `out` what they publish.
pub struct Register {
    pub out: SharedBus<16>,
    input: SharedBus<16>,
    load: SharedBus<1>,
    state: SharedBus<16>,
    next: SharedBus<16>,
    bits: Vec<OneBitRegister>,
}

impl Register {
    #[verifier::spinoff_prover]
    #[verifier::loop_isolation(false)]
    pub fn new(input: SharedBus<16>, load: SharedBus<1>, wires: &mut Wires) -> (r: Register)
        requires
            input.below(old(wires)@.len()),
            load.below(old(wires)@.len()),
        ensures
            r.wired(),
            r.input() == input,
            r.load() == load,
            r.span() == Span::added(*old(wires), *final(wires)),
            grown(*old(wires), *final(wires)),
            r.out().value(final(wires)@) == fill(16, Bit::O),
            r.state().value(final(wires)@) == fill(16, Bit::O),
    {
        broadcast use {group_build, lemma_one_bit_register_ports};

        let ghost w0 = *wires;
        let mut outs = [0usize;16];
        let mut states = [0usize;16];
        let mut nexts = [0usize;16];
        let mut bits: Vec<OneBitRegister> = Vec::new();
        let mut k: usize = 0;
        while k < 16
            invariant
                k <= 16,
                bits@.len() == k,
                grown(w0, *wires),
                k > 0 ==> bits@[0].span().lo == w0@.len() && bits@[0].span().wlo == w0.mem().len(),
                k > 0 ==> bits@[k - 1].span().hi == wires@.len() && bits@[k - 1].span().whi
                    == wires.mem().len(),
                k == 0 ==> *wires == w0,
                forall|j: int|
                    0 <= j < k ==> {
                        let bit = #[trigger] bits@[j];
                        &&& bit.wired()
                        &&& bit.input().0.bits[0] == input.0.bits[j]
                        &&& bit.load() == load
                        &&& outs[j] == bit.out().0.bits[0]
                        &&& states[j] == bit.state().0.bits[0]
                        &&& nexts[j] == bit.next().0.bits[0]
                        &&& w0@.len() <= bit.span().lo <= bit.span().hi <= wires@.len()
                        &&& w0.mem().len() <= bit.span().wlo <= bit.span().whi <= wires.mem().len()
                        &&& bit.out().value(wires@) == fill(1, Bit::O)
                        &&& bit.state().value(wires@) == fill(1, Bit::O)
                    },
                forall|i: int, j: int|
                    0 <= i < j < k ==> (#[trigger] bits@[i]).span().before((#[trigger] bits@[j]).span()),
            decreases 16 - k,
        {
            let ghost before = bits@;
            let bit = OneBitRegister::new(input.reconnect([k]), load, wires);
            outs[k] = bit.get_out().get_shared_bit(0);
            states[k] = bit.get_state().get_shared_bit(0);
            nexts[k] = bit.get_next().get_shared_bit(0);
            bits.push(bit);
            proof {
                assert forall|j: int| 0 <= j < k implies (#[trigger] bits@[j]) == before[j] by {}
            }
            k += 1;
        }
        let r = Register {
            out: Bus::new(outs).to_shared_bus(),
            input,
            load,
            state: Bus::new(states).to_shared_bus(),
            next: Bus::new(nexts).to_shared_bus(),
            bits,
        };
        proof {
            reveal(Register::wiring);
            assert forall|j: int| 0 <= j < 16 implies r.bits@[0].span().lo <= (#[trigger] r.bits@[j]).span().lo
                && r.bits@[j].span().hi <= r.bits@[15].span().hi by {}
            assert forall|j: int| 0 <= j < 16 implies r.span().lo <= (#[trigger] r.out().0.bits[j])
                < r.span().hi by {
                assert(r.out().0.bits[j] == r.bits@[j].out().0.bits[0]);
            }
            assert forall|j: int| 0 <= j < 16 implies r.span().lo <= (#[trigger] r.state().0.bits[j])
                < r.span().hi by {
                assert(r.state().0.bits[j] == r.bits@[j].state().0.bits[0]);
            }
            assert forall|j: int| 0 <= j < 16 implies r.span().lo <= (#[trigger] r.next().0.bits[j])
                < r.span().hi by {
                assert(r.next().0.bits[j] == r.bits@[j].next().0.bits[0]);
            }
            lemma_extent_bounds(r.out(), r.span().lo, r.span().hi);
            lemma_extent_bounds(r.state(), r.span().lo, r.span().hi);
            lemma_extent_bounds(r.next(), r.span().lo, r.span().hi);
            assert forall|j: int| 0 <= j < 16 implies #[trigger] bit_fitted(
                r.bits@,
                r.input(),
                r.load(),
                r.out(),
                r.state(),
                r.next(),
                j,
            ) by {
                lemma_extent(input, j);
            }
            assert(r.out().value(wires@) =~= fill(16, Bit::O)) by {
                assert forall|j: int| 0 <= j < 16 implies r.out().value(wires@)[j] == Bit::O by {
                    assert(r.bits@[j].out().value(wires@)[0] == Bit::O);
                }
            }
            assert(r.state().value(wires@) =~= fill(16, Bit::O)) by {
                assert forall|j: int| 0 <= j < 16 implies r.state().value(wires@)[j] == Bit::O by {
                    assert(r.bits@[j].state().value(wires@)[0] == Bit::O);
                }
            }
        }
        r
    }

    /// The parts are connected as a register of sixteen bits.
    #[verifier::opaque]
    pub closed spec fn wiring(&self) -> bool {
        &&& self.bits@.len() == 16
        &&& self.input().below(self.bits@[0].span().lo)
        &&& self.load().below(self.bits@[0].span().lo)
        &&& self.out().within(self.span().lo, self.span().hi)
        &&& self.state().within(self.span().lo, self.span().hi)
        &&& self.next().within(self.span().lo, self.span().hi)
        &&& forall|k: int|
            0 <= k < 16 ==> #[trigger] bit_fitted(
                self.bits@,
                self.input(),
                self.load(),
                self.out(),
                self.state(),
                self.next(),
                k,
            )
        &&& forall|i: int, j: int|
            0 <= i < j < 16 ==> (#[trigger] self.bits@[i]).span().before((#[trigger] self.bits@[j]).span())
    }

    /// What `re_compute` does: `next` is `input` where `load` is `I`, else
    /// the value kept; `out` and `state` stay.
    pub open spec fn settled(&self, pre: Wires, post: Wires) -> bool {
        &&& framed(pre, post, self.span())
        &&& post.mem() == pre.mem()
        &&& self.next().value(post@) == (if self.load().value(pre@)[0] == Bit::I {
            self.input().value(pre@)
        } else {
            self.out().value(pre@)
        })
        &&& self.out().value(post@) == self.out().value(pre@)
        &&& self.state().value(post@) == self.state().value(pre@)
    }

    /// What a rising edge does: `state` takes `next`; `out` and `next` stay.
    pub open spec fn sampled(&self, pre: Wires, post: Wires) -> bool {
        &&& framed(pre, post, self.span())
        &&& post.mem() == pre.mem()
        &&& self.state().value(post@) == self.next().value(pre@)
        &&& self.out().value(post@) == self.out().value(pre@)
        &&& self.next().value(post@) == self.next().value(pre@)
    }

    /// What a falling edge does: `out` takes `state`; `state` and `next` stay.
    pub open spec fn published(&self, pre: Wires, post: Wires) -> bool {
        &&& framed(pre, post, self.span())
        &&& post.mem() == pre.mem()
        &&& self.out().value(post@) == self.state().value(pre@)
        &&& self.state().value(post@) == self.state().value(pre@)
        &&& self.next().value(post@) == self.next().value(pre@)
    }

    /// The bundles of the register read the cells of its sixteen bits.
    proof fn lemma_bundles(&self, w: Seq<Bit>)
        requires
            self.wired(),
        ensures
            forall|j: int| 0 <= j < 16 ==> #[trigger] self.out().value(w)[j] == self.bits@[j].out().value(w)[0],
            forall|j: int|
                0 <= j < 16 ==> #[trigger] self.state().value(w)[j] == self.bits@[j].state().value(w)[0],
            forall|j: int|
                0 <= j < 16 ==> #[trigger] self.next().value(w)[j] == self.bits@[j].next().value(w)[0],
            forall|j: int|
                0 <= j < 16 ==> #[trigger] self.input().value(w)[j] == self.bits@[j].input().value(w)[0],
    {
        reveal(Register::wiring);
        assert forall|j: int| 0 <= j < 16 implies self.out().value(w)[j] == self.bits@[j].out().value(w)[0]
            && self.state().value(w)[j] == self.bits@[j].state().value(w)[0] && self.next().value(w)[j]
            == self.bits@[j].next().value(w)[0] && self.input().value(w)[j]
            == self.bits@[j].input().value(w)[0] by {
            assert(bit_fitted(self.bits@, self.input(), self.load(), self.out(), self.state(), self.next(), j));
        }
    }
}

impl Gate for Register {
    closed spec fn wired(&self) -> bool {
        self.wiring()
    }

    closed spec fn span(&self) -> Span {
        self.bits@[0].span().through(self.bits@[15].span())
    }

    open spec fn clocked(&self) -> bool {
        true
    }

    #[verifier::spinoff_prover]
    #[verifier::loop_isolation(false)]
    fn clock_up(&self, wires: &mut Wires)
        ensures
            self.sampled(*old(wires), *final(wires)),
    {
        broadcast use {group_run, lemma_one_bit_register_ports};

        proof {
            reveal(Register::wiring);
        }
        let ghost w0 = *wires;
        let mut k: usize = 0;
        while k < 16
            invariant
                k <= 16,
                framed(w0, *wires, self.span()),
                wires.mem() == w0.mem(),
                forall|j: int|
                    0 <= j < 16 ==> {
                        let bit = #[trigger] self.bits@[j];
                        &&& bit.out().value(wires@) == bit.out().value(w0@)
                        &&& bit.next().value(wires@) == bit.next().value(w0@)
                        &&& bit.state().value(wires@) == (if j < k {
                            bit.next().value(w0@)
                        } else {
                            bit.state().value(w0@)
                        })
                    },
            decreases 16 - k,
        {
            let ghost w1 = *wires;
            proof {
                assert(bit_fitted(self.bits@, self.input(), self.load(), self.out(), self.state(), self.next(), k as int));
            }
            self.bits[k].clock_up(wires);
            proof {
                assert forall|j: int| 0 <= j < 16 implies {
                    let bit = #[trigger] self.bits@[j];
                    &&& bit.out().value(wires@) == bit.out().value(w0@)
                    &&& bit.next().value(wires@) == bit.next().value(w0@)
                    &&& bit.state().value(wires@) == (if j < k + 1 {
                        bit.next().value(w0@)
                    } else {
                        bit.state().value(w0@)
                    })
                } by {
                    assert(bit_fitted(self.bits@, self.input(), self.load(), self.out(), self.state(), self.next(), j));
                    if j != k {
                        let bit = self.bits@[j];
                        assert(bit.out().value(wires@) == bit.out().value(w1@));
                        assert(bit.next().value(wires@) == bit.next().value(w1@));
                        assert(bit.state().value(wires@) == bit.state().value(w1@));
                    }
                }
            }
            k += 1;
        }
        proof {
            self.lemma_bundles(w0@);
            self.lemma_bundles(wires@);
            assert(self.state().value(wires@) =~= self.next().value(w0@));
            assert(self.out().value(wires@) =~= self.out().value(w0@));
            assert(self.next().value(wires@) =~= self.next().value(w0@));
        }
    }

    #[verifier::spinoff_prover]
    #[verifier::loop_isolation(false)]
    fn clock_down(&self, wires: &mut Wires)
        ensures
            self.published(*old(wires), *final(wires)),
    {
        broadcast use {group_run, lemma_one_bit_register_ports};

        proof {
            reveal(Register::wiring);
        }
        let ghost w0 = *wires;
        let mut k: usize = 0;
        while k < 16
            invariant
                k <= 16,
                framed(w0, *wires, self.span()),
                wires.mem() == w0.mem(),
                forall|j: int|
                    0 <= j < 16 ==> {
                        let bit = #[trigger] self.bits@[j];
                        &&& bit.state().value(wires@) == bit.state().value(w0@)
                        &&& bit.next().value(wires@) == bit.next().value(w0@)
                        &&& bit.out().value(wires@) == (if j < k {
                            bit.state().value(w0@)
                        } else {
                            bit.out().value(w0@)
                        })
                    },
            decreases 16 - k,
        {
            let ghost w1 = *wires;
            proof {
                assert(bit_fitted(self.bits@, self.input(), self.load(), self.out(), self.state(), self.next(), k as int));
            }
            self.bits[k].clock_down(wires);
            proof {
                assert forall|j: int| 0 <= j < 16 implies {
                    let bit = #[trigger] self.bits@[j];
                    &&& bit.state().value(wires@) == bit.state().value(w0@)
                    &&& bit.next().value(wires@) == bit.next().value(w0@)
                    &&& bit.out().value(wires@) == (if j < k + 1 {
                        bit.state().value(w0@)
                    } else {
                        bit.out().value(w0@)
                    })
                } by {
                    assert(bit_fitted(self.bits@, self.input(), self.load(), self.out(), self.state(), self.next(), j));
                    if j != k {
                        let bit = self.bits@[j];
                        assert(bit.out().value(wires@) == bit.out().value(w1@));
                        assert(bit.next().value(wires@) == bit.next().value(w1@));
                        assert(bit.state().value(wires@) == bit.state().value(w1@));
                    }
                }
            }
            k += 1;
        }
        proof {
            self.lemma_bundles(w0@);
            self.lemma_bundles(wires@);
            assert(self.out().value(wires@) =~= self.state().value(w0@));
            assert(self.state().value(wires@) =~= self.state().value(w0@));
            assert(self.next().value(wires@) =~= self.next().value(w0@));
        }
    }

    #[verifier::spinoff_prover]
    #[verifier::loop_isolation(false)]
    fn re_compute(&self, wires: &mut Wires)
        ensures
            self.settled(*old(wires), *final(wires)),
    {
        broadcast use {group_run, lemma_one_bit_register_ports};

        proof {
            reveal(Register::wiring);
        }
        let ghost w0 = *wires;
        let ghost load = self.load().value(w0@)[0];
        let mut k: usize = 0;
        while k < 16
            invariant
                k <= 16,
                framed(w0, *wires, self.span()),
                wires.mem() == w0.mem(),
                forall|j: int|
                    0 <= j < 16 ==> {
                        let bit = #[trigger] self.bits@[j];
                        &&& bit.out().value(wires@) == bit.out().value(w0@)
                        &&& bit.state().value(wires@) == bit.state().value(w0@)
                        &&& j < k ==> bit.next().value(wires@) == (if load == Bit::I {
                            bit.input().value(w0@)
                        } else {
                            bit.out().value(w0@)
                        })
                    },
            decreases 16 - k,
        {
            let ghost w1 = *wires;
            proof {
                assert(bit_fitted(self.bits@, self.input(), self.load(), self.out(), self.state(), self.next(), k as int));
            }
            self.bits[k].re_compute(wires);
            proof {
                assert forall|j: int| 0 <= j < 16 implies {
                    let bit = #[trigger] self.bits@[j];
                    &&& bit.out().value(wires@) == bit.out().value(w0@)
                    &&& bit.state().value(wires@) == bit.state().value(w0@)
                    &&& j < k + 1 ==> bit.next().value(wires@) == (if load == Bit::I {
                        bit.input().value(w0@)
                    } else {
                        bit.out().value(w0@)
                    })
                } by {
                    assert(bit_fitted(self.bits@, self.input(), self.load(), self.out(), self.state(), self.next(), j));
                    let bit = self.bits@[j];
                    if j != k {
                        assert(bit.out().value(wires@) == bit.out().value(w1@));
                        assert(bit.next().value(wires@) == bit.next().value(w1@));
                        assert(bit.state().value(wires@) == bit.state().value(w1@));
                    } else {
                        assert(bit.input().value(w1@) == bit.input().value(w0@));
                        assert(self.load().value(w1@) == self.load().value(w0@));
                    }
                }
            }
            k += 1;
        }
        proof {
            self.lemma_bundles(w0@);
            self.lemma_bundles(wires@);
            assert(self.out().value(wires@) =~= self.out().value(w0@));
            assert(self.state().value(wires@) =~= self.state().value(w0@));
            if load == Bit::I {
                assert(self.next().value(wires@) =~= self.input().value(w0@));
            } else {
                assert(self.next().value(wires@) =~= self.out().value(w0@));
            }
        }
    }
}

/// What a caller may rely on of a wired register.
pub broadcast proof fn lemma_register_ports(g: Register)
    requires
        #[trigger] g.wired(),
    ensures
        g.span().lo <= g.span().hi,
        g.span().wlo <= g.span().whi,
        g.out().within(g.span().lo, g.span().hi),
        g.state().within(g.span().lo, g.span().hi),
        g.next().within(g.span().lo, g.span().hi),
        g.input().below(g.span().lo),
        g.load().below(g.span().lo),
{
    broadcast use {lemma_one_bit_register_ports};

    reveal(Register::wiring);
    assert(bit_fitted(g.bits@, g.input(), g.load(), g.out(), g.state(), g.next(), 0));
    assert(bit_fitted(g.bits@, g.input(), g.load(), g.out(), g.state(), g.next(), 15));
}

/// One tick and one tock: the register shows `input` where `load` was `I`
/// when the tick began, and else the value that it showed before.
pub proof fn lemma_register_cycle(r: Register, w0: Wires, w1: Wires, w2: Wires, w3: Wires, w4: Wires)
    requires
        r.settled(w0, w1),
        r.sampled(w1, w2),
        r.published(w2, w3),
        r.settled(w3, w4),
    ensures
        r.out().value(w4@) == (if r.load().value(w0@)[0] == Bit::I {
            r.input().value(w0@)
        } else {
            r.out().value(w0@)
        }),
{
}

impl Register {
    /// The input bus `input`.
    pub closed spec fn input(&self) -> SharedBus<16> {
        self.input
    }

    /// The input bus `load`.
    pub closed spec fn load(&self) -> SharedBus<1> {
        self.load
    }

    /// The output bus `out`.
    pub closed spec fn out(&self) -> SharedBus<16> {
        self.out
    }

    /// The output bus `state`.
    pub closed spec fn state(&self) -> SharedBus<16> {
        self.state
    }

    /// The output bus `next`.
    pub closed spec fn next(&self) -> SharedBus<16> {
        self.next
    }

    /// The bus `out`, to wire it on.
    pub fn get_out(&self) -> (r: SharedBus<16>)
        ensures
            r == self.out(),
    {
        self.out
    }
}

} // verus!
