//! A memory made of four smaller ones: the high two bits of the address
//! pick a part, the low bits a word in it.
use vstd::prelude::*;
use vstd::arithmetic::power2::{lemma2_to64};
use crate::bit::{Bit, route, written, joined, lemma_bits_to_nat_bound, lemma_joined_index, lemma_joined_written};
use crate::bus::{SharedBus, group_build, group_run};
use crate::gate::Gate;
use crate::mux4way16::{Mux4Way16, lemma_mux4way16_ports};
use crate::dmux4way::{DMux4Way, lemma_dmux4way_ports};
use crate::wires::{Span, Wires, framed, grown};
use crate::bank::lemma_blank_joined;
use crate::store::{Store, blank};

verus! {

/// Part `k` of a bank takes the common input and low address, and the
/// `k`-th output of the demultiplexer as its `load`; it lies between the
/// demultiplexer and the multiplexer.
pub open spec fn part_fitted<C: Store>(
    parts: Seq<C>,
    input: SharedBus<16>,
    low: C::Address,
    dmux: DMux4Way,
    mux: Mux4Way16,
    k: int,
) -> bool {
    let part = parts[k];
    &&& part.wired()
    &&& part.input() == input
    &&& part.load() == dmux.out(k)
    &&& part.address() == low
    &&& dmux.span().before(part.span())
    &&& part.span().before(mux.span())
}

/// Four stores of one kind behind one demultiplexer and one multiplexer.
pub struct Bank4<C: Store> {
    pub out: SharedBus<16>,
    input: SharedBus<16>,
    load: SharedBus<1>,
    low: C::Address,
    high: SharedBus<2>,
    dmux4way: DMux4Way,
    parts: Vec<C>,
    mux4way16: Mux4Way16,
}

impl<C: Store> Bank4<C> {
    /// The four parts, each new and holding zeros.
    #[verifier::spinoff_prover]
    fn build_parts(input: SharedBus<16>, low: C::Address, dmux: &DMux4Way, wires: &mut Wires) -> (parts:
        Vec<C>)
        requires
            dmux.wired(),
            dmux.span().hi == old(wires)@.len(),
            dmux.span().whi == old(wires).mem().len(),
            input.below(dmux.span().lo),
            C::address_below(low, dmux.span().lo),
        ensures
            parts@.len() == 4,
            grown(*old(wires), *final(wires)),
            parts@[3].span().hi == final(wires)@.len(),
            parts@[3].span().whi == final(wires).mem().len(),
            forall|j: int|
                0 <= j < 4 ==> {
                    let part = #[trigger] parts@[j];
                    &&& part.wired()
                    &&& part.input() == input
                    &&& part.load() == dmux.out(j)
                    &&& part.address() == low
                    &&& dmux.span().before(part.span())
                    &&& part.span().hi <= final(wires)@.len()
                    &&& part.span().whi <= final(wires).mem().len()
                    &&& part.span().lo <= part.span().hi
                    &&& part.span().wlo <= part.span().whi
                    &&& part.out().below(final(wires)@.len())
                    &&& part.contents(final(wires)@) == blank(C::size())
                    &&& part.latched(final(wires)@) == blank(C::size())
                },
            forall|i: int, j: int|
                0 <= i < j < 4 ==> (#[trigger] parts@[i]).span().before((#[trigger] parts@[j]).span()),
    {
        broadcast use {group_build, lemma_dmux4way_ports, lemma_mux4way16_ports};

        let ghost w0 = *wires;
        let mut parts: Vec<C> = Vec::new();
        let mut k: usize = 0;
        while k < 4
            invariant
                k <= 4,
                parts@.len() == k,
                dmux.wired(),
                dmux.span().hi == w0@.len(),
                dmux.span().whi == w0.mem().len(),
                input.below(dmux.span().lo),
                C::address_below(low, dmux.span().lo),
                grown(w0, *wires),
                k > 0 ==> parts@[k - 1].span().hi == wires@.len() && parts@[k - 1].span().whi
                    == wires.mem().len(),
                forall|j: int|
                    0 <= j < k ==> {
                        let part = #[trigger] parts@[j];
                        &&& part.wired()
                        &&& part.input() == input
                        &&& part.load() == dmux.out(j)
                        &&& part.address() == low
                        &&& dmux.span().before(part.span())
                        &&& part.span().hi <= wires@.len()
                        &&& part.span().whi <= wires.mem().len()
                        &&& part.span().lo <= part.span().hi
                        &&& part.span().wlo <= part.span().whi
                        &&& part.out().below(wires@.len())
                        &&& part.contents(wires@) == blank(C::size())
                        &&& part.latched(wires@) == blank(C::size())
                    },
                forall|i: int, j: int|
                    0 <= i < j < k ==> (#[trigger] parts@[i]).span().before((#[trigger] parts@[j]).span()),
            decreases 4 - k,
        {
            let ghost before = parts@;
            let ghost w1 = *wires;
            proof {
                lemma_dmux4way_ports(*dmux);
                crate::wires::lemma_grown_len(w0, *wires);
                C::lemma_address_below(low, dmux.span().lo, wires@.len());
                assert(dmux.out(k as int).within(dmux.span().lo, dmux.span().hi));
            }
            let part = C::build(input, dmux.output(k), low, wires);
            parts.push(part);
            proof {
                crate::wires::lemma_grown_twice(w0, w1, *wires);
                crate::wires::lemma_grown_len(w1, *wires);
                parts@[k as int].lemma_layout();
                assert forall|j: int| 0 <= j < k implies (#[trigger] parts@[j]) == before[j] by {}
                assert forall|j: int| 0 <= j < k implies (#[trigger] parts@[j]).contents(wires@) == blank(
                    C::size(),
                ) && parts@[j].latched(wires@) == blank(C::size()) by {
                    assert(parts@[j] == before[j]);
                    before[j].lemma_grown(w1, *wires);
                }
            }
            k += 1;
        }
        parts
    }

    /// A bank of four new stores, all holding zeros.
    #[verifier::spinoff_prover]
    #[verifier::rlimit(30)]
    pub fn new(
        input: SharedBus<16>,
        load: SharedBus<1>,
        low: C::Address,
        high: SharedBus<2>,
        wires: &mut Wires,
    ) -> (r: Self)
        requires
            input.below(old(wires)@.len()),
            load.below(old(wires)@.len()),
            C::address_below(low, old(wires)@.len()),
            high.below(old(wires)@.len()),
        ensures
            r.wired(),
            r.input() == input,
            r.load() == load,
            r.low() == low,
            r.high() == high,
            r.span() == Span::added(*old(wires), *final(wires)),
            grown(*old(wires), *final(wires)),
            r.contents(final(wires)@) == blank(4 * C::size()),
            r.latched(final(wires)@) == blank(4 * C::size()),
    {
        broadcast use {group_build, lemma_dmux4way_ports, lemma_mux4way16_ports};

        let dmux4way = DMux4Way::new(load, high, wires);
        let parts = Self::build_parts(input, low, &dmux4way, wires);
        let ghost w2 = *wires;
        proof {
            assert(parts@[0].wired() && parts@[1].wired() && parts@[2].wired() && parts@[3].wired());
        }
        let mux4way16 = Mux4Way16::new(
            parts[0].output(),
            parts[1].output(),
            parts[2].output(),
            parts[3].output(),
            high,
            wires,
        );
        let r = Bank4 { out: mux4way16.get_out(), input, load, low, high, dmux4way, parts, mux4way16 };
        proof {
            reveal(Bank4::wiring);
            assert forall|j: int| 0 <= j < 4 implies #[trigger] part_fitted(
                r.parts@,
                input,
                low,
                dmux4way,
                mux4way16,
                j,
            ) by {}
            r.lemma_blank(w2, *wires);
        }
        r
    }

    /// A bank whose parts held zeros before the wires grew holds zeros.
    proof fn lemma_blank(&self, pre: Wires, post: Wires)
        requires
            self.parts@.len() == 4,
            grown(pre, post),
            forall|j: int|
                0 <= j < 4 ==> {
                    let part = #[trigger] self.parts@[j];
                    &&& part.wired()
                    &&& part.span().fits(pre)
                    &&& part.contents(pre@) == blank(C::size())
                    &&& part.latched(pre@) == blank(C::size())
                },
        ensures
            self.contents(post@) == blank(4 * C::size()),
            self.latched(post@) == blank(4 * C::size()),
    {
        assert forall|j: int| 0 <= j < 4 implies (#[trigger] self.kept(post@)[j]) == blank(C::size()) by {
            assert(self.parts@[j].wired());
            self.parts@[j].lemma_grown(pre, post);
        }
        assert forall|j: int| 0 <= j < 4 implies (#[trigger] self.held(post@)[j]) == blank(C::size()) by {
            assert(self.parts@[j].wired());
            self.parts@[j].lemma_grown(pre, post);
        }
        self.parts@[0].lemma_size(post@);
        lemma_blank_joined(self.kept(post@), C::size());
        lemma_blank_joined(self.held(post@), C::size());
    }

    /// The parts are connected as a bank.
    #[verifier::opaque]
    pub closed spec fn wiring(&self) -> bool {
        &&& self.parts@.len() == 4
        &&& self.dmux4way.wired()
        &&& self.mux4way16.wired()
        &&& self.dmux4way.input() == self.load()
        &&& self.dmux4way.sel() == self.high()
        &&& self.input().below(self.dmux4way.span().lo)
        &&& C::address_below(self.low(), self.dmux4way.span().lo)
        &&& forall|k: int|
            0 <= k < 4 ==> #[trigger] part_fitted(
                self.parts@,
                self.input(),
                self.low(),
                self.dmux4way,
                self.mux4way16,
                k,
            )
        &&& forall|i: int, j: int|
            0 <= i < j < 4 ==> (#[trigger] self.parts@[i]).span().before((#[trigger] self.parts@[j]).span())
        &&& self.mux4way16.a() == self.parts@[0].out()
        &&& self.mux4way16.b() == self.parts@[1].out()
        &&& self.mux4way16.c() == self.parts@[2].out()
        &&& self.mux4way16.d() == self.parts@[3].out()
        &&& self.mux4way16.sel() == self.high()
        &&& self.out() == self.mux4way16.out()
    }

    /// The contents of the four parts, part by part.
    pub closed spec fn kept(&self, w: Seq<Bit>) -> Seq<Seq<Seq<Bit>>> {
        Seq::new(4, |k: int| self.parts@[k].contents(w))
    }

    /// The sampled words of the four parts, part by part.
    pub closed spec fn held(&self, w: Seq<Bit>) -> Seq<Seq<Seq<Bit>>> {
        Seq::new(4, |k: int| self.parts@[k].latched(w))
    }

    /// The words to sample of the four parts, part by part.
    pub closed spec fn due(&self, w: Seq<Bit>) -> Seq<Seq<Seq<Bit>>> {
        Seq::new(4, |k: int| self.parts@[k].pending(w))
    }

    /// The words that can be read: those of part 0, then those of part 1,
    /// and so on.
    pub closed spec fn contents(&self, w: Seq<Bit>) -> Seq<Seq<Bit>> {
        joined(self.kept(w), C::size())
    }

    /// The words that the last rising edge sampled.
    pub closed spec fn latched(&self, w: Seq<Bit>) -> Seq<Seq<Bit>> {
        joined(self.held(w), C::size())
    }

    /// The words that the next rising edge will sample.
    pub closed spec fn pending(&self, w: Seq<Bit>) -> Seq<Seq<Bit>> {
        joined(self.due(w), C::size())
    }

    /// The word number that the two parts of the address name.
    pub open spec fn place(&self, w: Seq<Bit>) -> nat {
        C::place(self.low(), w) + C::size() * self.high().word(w)
    }

    /// What settling does to the bank.
    pub open spec fn settled(&self, pre: Wires, post: Wires) -> bool {
        &&& framed(pre, post, self.span())
        &&& post.mem() == pre.mem()
        &&& self.place(pre@) < 4 * C::size()
        &&& self.out().value(post@) == self.contents(pre@)[self.place(pre@) as int]
        &&& self.pending(post@) == written(
            self.contents(pre@),
            self.load().value(pre@)[0],
            self.place(pre@),
            self.input().value(pre@),
        )
        &&& self.contents(post@) == self.contents(pre@)
        &&& self.latched(post@) == self.latched(pre@)
    }

    /// What a rising edge does to the bank.
    pub open spec fn sampled(&self, pre: Wires, post: Wires) -> bool {
        &&& framed(pre, post, self.span())
        &&& post.mem() == pre.mem()
        &&& self.latched(post@) == self.pending(pre@)
        &&& self.contents(post@) == self.contents(pre@)
        &&& self.pending(post@) == self.pending(pre@)
        &&& self.out().value(post@) == self.out().value(pre@)
    }

    /// What a falling edge does to the bank.
    pub open spec fn published(&self, pre: Wires, post: Wires) -> bool {
        &&& framed(pre, post, self.span())
        &&& post.mem() == pre.mem()
        &&& self.contents(post@) == self.latched(pre@)
        &&& self.latched(post@) == self.latched(pre@)
        &&& self.pending(post@) == self.pending(pre@)
    }

    /// Where the bank and its buses lie.
    pub proof fn lemma_layout(&self)
        requires
            self.wired(),
        ensures
            self.span().lo <= self.span().hi,
            self.span().wlo <= self.span().whi,
            self.out().within(self.span().lo, self.span().hi),
            self.input().below(self.span().lo),
            self.load().below(self.span().lo),
            self.high().below(self.span().lo),
            C::address_below(self.low(), self.span().lo),
    {
        self.lemma_inside();
    }

    /// Where the parts of the bank lie.
    proof fn lemma_inside(&self)
        requires
            self.wired(),
        ensures
            self.span().lo <= self.span().hi,
            self.span().wlo <= self.span().whi,
            self.out().within(self.span().lo, self.span().hi),
            self.input().below(self.span().lo),
            self.load().below(self.span().lo),
            self.high().below(self.span().lo),
            C::address_below(self.low(), self.span().lo),
            self.parts@.len() == 4,
            self.dmux4way.wired(),
            self.mux4way16.wired(),
            self.dmux4way.span().lo <= self.dmux4way.span().hi <= self.mux4way16.span().lo
                <= self.mux4way16.span().hi,
            self.dmux4way.span().wlo <= self.dmux4way.span().whi <= self.mux4way16.span().wlo
                <= self.mux4way16.span().whi,
            forall|k: int|
                0 <= k < 4 ==> self.span().lo <= (#[trigger] self.parts@[k]).span().lo
                    <= self.parts@[k].span().hi <= self.span().hi && self.span().wlo
                    <= self.parts@[k].span().wlo <= self.parts@[k].span().whi <= self.span().whi
                    && self.parts@[k].wired(),
    {
        broadcast use {lemma_dmux4way_ports, lemma_mux4way16_ports};

        reveal(Bank4::wiring);
        assert(part_fitted(self.parts@, self.input(), self.low(), self.dmux4way, self.mux4way16, 0));
        self.parts@[0].lemma_layout();
        assert forall|k: int| 0 <= k < 4 implies self.span().lo <= (#[trigger] self.parts@[k]).span().lo
            <= self.parts@[k].span().hi <= self.span().hi && self.span().wlo <= self.parts@[k].span().wlo
            <= self.parts@[k].span().whi <= self.span().whi && self.parts@[k].wired() by {
            assert(part_fitted(self.parts@, self.input(), self.low(), self.dmux4way, self.mux4way16, k));
            self.parts@[k].lemma_layout();
        }
    }

    /// A change of the wires outside the bank does not show in it.
    pub proof fn lemma_apart(&self, pre: Wires, post: Wires, span: Span)
        requires
            self.wired(),
            self.span().fits(pre),
            framed(pre, post, span),
            span.hi <= self.span().lo || self.span().hi <= span.lo,
        ensures
            self.kept(post@) == self.kept(pre@),
            self.held(post@) == self.held(pre@),
            self.due(post@) == self.due(pre@),
            self.contents(post@) == self.contents(pre@),
            self.latched(post@) == self.latched(pre@),
            self.pending(post@) == self.pending(pre@),
    {
        self.lemma_inside();
        assert forall|k: int| 0 <= k < 4 implies (#[trigger] self.parts@[k]).contents(post@)
            == self.parts@[k].contents(pre@) && self.parts@[k].latched(post@) == self.parts@[k].latched(pre@)
            && self.parts@[k].pending(post@) == self.parts@[k].pending(pre@) by {
            self.parts@[k].lemma_layout();
            self.parts@[k].lemma_apart(pre, post, span);
        }
        assert(self.kept(post@) =~= self.kept(pre@));
        assert(self.held(post@) =~= self.held(pre@));
        assert(self.due(post@) =~= self.due(pre@));
    }

    /// Cells added to the wires do not show in the bank.
    pub proof fn lemma_grown(&self, pre: Wires, post: Wires)
        requires
            self.wired(),
            self.span().fits(pre),
            grown(pre, post),
        ensures
            self.contents(post@) == self.contents(pre@),
            self.latched(post@) == self.latched(pre@),
    {
        self.lemma_inside();
        assert forall|k: int| 0 <= k < 4 implies (#[trigger] self.parts@[k]).contents(post@)
            == self.parts@[k].contents(pre@) && self.parts@[k].latched(post@) == self.parts@[k].latched(pre@) by {
            self.parts@[k].lemma_grown(pre, post);
        }
        assert(self.kept(post@) =~= self.kept(pre@));
        assert(self.held(post@) =~= self.held(pre@));
    }

    /// The bank always holds four times the words of a part.
    pub proof fn lemma_size(&self, w: Seq<Bit>)
        requires
            self.wired(),
        ensures
            C::size() > 0,
            self.contents(w).len() == 4 * C::size(),
            self.latched(w).len() == 4 * C::size(),
            self.pending(w).len() == 4 * C::size(),
            self.place(w) < 4 * C::size(),
            self.high().word(w) < 4,
            C::place(self.low(), w) < C::size(),
    {
        self.lemma_inside();
        self.parts@[0].lemma_size(w);
        reveal(Bank4::wiring);
        assert(part_fitted(self.parts@, self.input(), self.low(), self.dmux4way, self.mux4way16, 0));
        lemma_bits_to_nat_bound(self.high().value(w));
        lemma2_to64();
        let m = C::size();
        let hi = self.high().word(w);
        assert(m * hi + m <= 4 * m) by (nonlinear_arith)
            requires
                hi + 1 <= 4,
        ;
    }
}

impl<C: Store> Bank4<C> {
    /// A step of part `k` leaves the other parts and every bus outside
    /// part `k` as they were.
    proof fn lemma_part_step(&self, k: int, pre: Wires, post: Wires)
        requires
            self.wired(),
            self.span().fits(pre),
            0 <= k < 4,
            framed(pre, post, self.parts@[k].span()),
        ensures
            framed(pre, post, self.span()),
            forall|j: int|
                0 <= j < 4 && j != k ==> (#[trigger] self.parts@[j]).contents(post@)
                    == self.parts@[j].contents(pre@) && self.parts@[j].latched(post@)
                    == self.parts@[j].latched(pre@) && self.parts@[j].pending(post@)
                    == self.parts@[j].pending(pre@) && self.parts@[j].out().value(post@)
                    == self.parts@[j].out().value(pre@),
            forall|j: int|
                0 <= j < 4 ==> (#[trigger] self.dmux4way.out(j)).value(post@) == self.dmux4way.out(j).value(
                    pre@,
                ),
            self.out().value(post@) == self.out().value(pre@),
            self.input().value(post@) == self.input().value(pre@),
            self.load().value(post@) == self.load().value(pre@),
            self.high().value(post@) == self.high().value(pre@),
            C::place(self.low(), post@) == C::place(self.low(), pre@),
    {
        broadcast use {group_run, lemma_dmux4way_ports, lemma_mux4way16_ports};

        self.lemma_inside();
        reveal(Bank4::wiring);
        assert(part_fitted(self.parts@, self.input(), self.low(), self.dmux4way, self.mux4way16, k));
        self.parts@[k].lemma_layout();
        let span = self.parts@[k].span();
        assert forall|j: int| 0 <= j < 4 && j != k implies (#[trigger] self.parts@[j]).contents(post@)
            == self.parts@[j].contents(pre@) && self.parts@[j].latched(post@) == self.parts@[j].latched(pre@)
            && self.parts@[j].pending(post@) == self.parts@[j].pending(pre@) && self.parts@[j].out().value(
            post@,
        ) == self.parts@[j].out().value(pre@) by {
            assert(part_fitted(self.parts@, self.input(), self.low(), self.dmux4way, self.mux4way16, j));
            self.parts@[j].lemma_layout();
            self.parts@[j].lemma_apart(pre, post, span);
        }
        C::lemma_address_below(self.low(), self.dmux4way.span().lo, span.lo);
        C::lemma_address_below(self.low(), self.dmux4way.span().lo, pre@.len());
        C::lemma_address_apart(self.low(), pre, post, span);
    }

    /// A step of the multiplexer leaves every part as it was.
    proof fn lemma_mux_step(&self, pre: Wires, post: Wires)
        requires
            self.wired(),
            self.span().fits(pre),
            framed(pre, post, self.mux4way16.span()),
        ensures
            framed(pre, post, self.span()),
            forall|j: int|
                0 <= j < 4 ==> (#[trigger] self.parts@[j]).contents(post@) == self.parts@[j].contents(pre@)
                    && self.parts@[j].latched(post@) == self.parts@[j].latched(pre@)
                    && self.parts@[j].pending(post@) == self.parts@[j].pending(pre@),
    {
        self.lemma_inside();
        reveal(Bank4::wiring);
        assert forall|j: int| 0 <= j < 4 implies (#[trigger] self.parts@[j]).contents(post@)
            == self.parts@[j].contents(pre@) && self.parts@[j].latched(post@) == self.parts@[j].latched(pre@)
            && self.parts@[j].pending(post@) == self.parts@[j].pending(pre@) by {
            assert(part_fitted(self.parts@, self.input(), self.low(), self.dmux4way, self.mux4way16, j));
            self.parts@[j].lemma_layout();
            self.parts@[j].lemma_apart(pre, post, self.mux4way16.span());
        }
    }

    /// A step of the demultiplexer leaves every part and every input bus as
    /// they were.
    proof fn lemma_dmux_step(&self, pre: Wires, post: Wires)
        requires
            self.wired(),
            self.span().fits(pre),
            framed(pre, post, self.dmux4way.span()),
        ensures
            framed(pre, post, self.span()),
            forall|j: int|
                0 <= j < 4 ==> (#[trigger] self.parts@[j]).contents(post@) == self.parts@[j].contents(pre@)
                    && self.parts@[j].latched(post@) == self.parts@[j].latched(pre@)
                    && self.parts@[j].pending(post@) == self.parts@[j].pending(pre@),
            self.input().value(post@) == self.input().value(pre@),
            self.load().value(post@) == self.load().value(pre@),
            self.high().value(post@) == self.high().value(pre@),
            C::place(self.low(), post@) == C::place(self.low(), pre@),
    {
        broadcast use {group_run, lemma_dmux4way_ports, lemma_mux4way16_ports};

        self.lemma_inside();
        reveal(Bank4::wiring);
        assert forall|j: int| 0 <= j < 4 implies (#[trigger] self.parts@[j]).contents(post@)
            == self.parts@[j].contents(pre@) && self.parts@[j].latched(post@) == self.parts@[j].latched(pre@)
            && self.parts@[j].pending(post@) == self.parts@[j].pending(pre@) by {
            assert(part_fitted(self.parts@, self.input(), self.low(), self.dmux4way, self.mux4way16, j));
            self.parts@[j].lemma_layout();
            self.parts@[j].lemma_apart(pre, post, self.dmux4way.span());
        }
        C::lemma_address_below(self.low(), self.dmux4way.span().lo, pre@.len());
        C::lemma_address_apart(self.low(), pre, post, self.dmux4way.span());
    }
}

impl<C: Store> Gate for Bank4<C> {
    closed spec fn wired(&self) -> bool {
        self.wiring()
    }

    closed spec fn span(&self) -> Span {
        self.dmux4way.span().through(self.mux4way16.span())
    }

    open spec fn clocked(&self) -> bool {
        true
    }

    #[verifier::spinoff_prover]
    fn clock_up(&self, wires: &mut Wires)
        ensures
            self.sampled(*old(wires), *final(wires)),
    {
        let ghost w0 = *wires;
        let mut k: usize = 0;
        while k < 4
            invariant
                k <= 4,
                self.wired(),
                self.span().fits(w0),
                framed(w0, *wires, self.span()),
                wires.mem() == w0.mem(),
                self.out().value(wires@) == self.out().value(w0@),
                forall|j: int|
                    0 <= j < 4 ==> {
                        let part = #[trigger] self.parts@[j];
                        &&& part.contents(wires@) == part.contents(w0@)
                        &&& part.pending(wires@) == part.pending(w0@)
                        &&& part.latched(wires@) == (if j < k {
                            part.pending(w0@)
                        } else {
                            part.latched(w0@)
                        })
                    },
            decreases 4 - k,
        {
            let ghost w1 = *wires;
            proof {
                self.lemma_inside();
                assert(self.parts@[k as int].wired());
            }
            self.parts[k].sample(wires);
            proof {
                self.lemma_part_step(k as int, w1, *wires);
            }
            k += 1;
        }
        proof {
            assert(self.held(wires@) =~= self.due(w0@));
            assert(self.kept(wires@) =~= self.kept(w0@));
            assert(self.due(wires@) =~= self.due(w0@));
        }
    }

    #[verifier::spinoff_prover]
    fn clock_down(&self, wires: &mut Wires)
        ensures
            self.published(*old(wires), *final(wires)),
    {
        let ghost w0 = *wires;
        let mut k: usize = 0;
        while k < 4
            invariant
                k <= 4,
                self.wired(),
                self.span().fits(w0),
                framed(w0, *wires, self.span()),
                wires.mem() == w0.mem(),
                forall|j: int|
                    0 <= j < 4 ==> {
                        let part = #[trigger] self.parts@[j];
                        &&& part.latched(wires@) == part.latched(w0@)
                        &&& part.pending(wires@) == part.pending(w0@)
                        &&& part.contents(wires@) == (if j < k {
                            part.latched(w0@)
                        } else {
                            part.contents(w0@)
                        })
                    },
            decreases 4 - k,
        {
            let ghost w1 = *wires;
            proof {
                self.lemma_inside();
                assert(self.parts@[k as int].wired());
            }
            self.parts[k].publish(wires);
            proof {
                self.lemma_part_step(k as int, w1, *wires);
            }
            k += 1;
        }
        proof {
            assert(self.kept(wires@) =~= self.held(w0@));
            assert(self.held(wires@) =~= self.held(w0@));
            assert(self.due(wires@) =~= self.due(w0@));
        }
    }

    #[verifier::spinoff_prover]
    fn re_compute(&self, wires: &mut Wires)
        ensures
            self.settled(*old(wires), *final(wires)),
    {
        broadcast use {group_run, lemma_dmux4way_ports, lemma_mux4way16_ports};

        let ghost w0 = *wires;
        let ghost lo = C::place(self.low(), w0@);
        let ghost hi = self.high().word(w0@);
        let ghost load = self.load().value(w0@);
        let ghost v = self.input().value(w0@);
        proof {
            self.lemma_inside();
            self.lemma_size(w0@);
            reveal(Bank4::wiring);
        }
        self.dmux4way.re_compute(wires);
        let ghost wd = *wires;
        proof {
            self.lemma_dmux_step(w0, wd);
        }
        let mut k: usize = 0;
        while k < 4
            invariant
                k <= 4,
                self.wired(),
                self.span().fits(w0),
                framed(w0, *wires, self.span()),
                wires.mem() == w0.mem(),
                self.input().value(wires@) == v,
                self.high().value(wires@) == self.high().value(w0@),
                C::place(self.low(), wires@) == lo,
                forall|j: int|
                    0 <= j < 4 ==> (#[trigger] self.dmux4way.out(j)).value(wires@) == route(load, hi, j as nat),
                forall|j: int|
                    0 <= j < 4 ==> {
                        let part = #[trigger] self.parts@[j];
                        &&& part.contents(wires@) == part.contents(w0@)
                        &&& part.latched(wires@) == part.latched(w0@)
                        &&& j < k ==> part.pending(wires@) == written(
                            part.contents(w0@),
                            route(load, hi, j as nat)[0],
                            lo,
                            v,
                        )
                        &&& j < k ==> part.out().value(wires@) == part.contents(w0@)[lo as int]
                    },
            decreases 4 - k,
        {
            let ghost w1 = *wires;
            proof {
                self.lemma_inside();
                reveal(Bank4::wiring);
                assert(part_fitted(self.parts@, self.input(), self.low(), self.dmux4way, self.mux4way16, k as int));
                assert(self.dmux4way.out(k as int).value(w1@) == route(load, hi, k as nat));
                assert(self.parts@[k as int].load().value(w1@)[0] == route(load, hi, k as nat)[0]);
            }
            self.parts[k].settle(wires);
            proof {
                self.lemma_part_step(k as int, w1, *wires);
            }
            k += 1;
        }
        let ghost w2 = *wires;
        proof {
            reveal(Bank4::wiring);
            assert(self.parts@[0].out().value(w2@) == self.parts@[0].contents(w0@)[lo as int]);
            assert(self.parts@[1].out().value(w2@) == self.parts@[1].contents(w0@)[lo as int]);
            assert(self.parts@[2].out().value(w2@) == self.parts@[2].contents(w0@)[lo as int]);
            assert(self.parts@[3].out().value(w2@) == self.parts@[3].contents(w0@)[lo as int]);
        }
        self.mux4way16.re_compute(wires);
        proof {
            self.lemma_mux_step(w2, *wires);
            let m = C::size();
            let before = self.kept(w0@);
            let after = self.due(wires@);
            assert(self.kept(wires@) =~= before);
            assert(self.held(wires@) =~= self.held(w0@));
            assert forall|j: int| 0 <= j < 4 implies (#[trigger] before[j]).len() == m by {
                assert(part_fitted(self.parts@, self.input(), self.low(), self.dmux4way, self.mux4way16, j));
                self.parts@[j].lemma_size(w0@);
            }
            assert forall|j: int| 0 <= j < 4 implies #[trigger] after[j] == written(
                before[j],
                if load[0] == Bit::I && hi == j {
                    Bit::I
                } else {
                    Bit::O
                },
                lo,
                v,
            ) by {
                assert(self.parts@[j].pending(wires@) == self.parts@[j].pending(w2@));
            }
            lemma_joined_written(before, after, m, load[0], hi, lo, v);
            lemma_joined_index(before, m, hi, lo);
            assert(self.out().value(wires@) == before[hi as int][lo as int]);
        }
    }
}

impl<C: Store> Bank4<C> {
    /// The input bus `input`.
    pub closed spec fn input(&self) -> SharedBus<16> {
        self.input
    }

    /// The input bus `load`.
    pub closed spec fn load(&self) -> SharedBus<1> {
        self.load
    }

    /// The part of the address that picks a word in a part.
    pub closed spec fn low(&self) -> C::Address {
        self.low
    }

    /// The part of the address that picks a part.
    pub closed spec fn high(&self) -> SharedBus<2> {
        self.high
    }

    /// The output bus `out`.
    pub closed spec fn out(&self) -> SharedBus<16> {
        self.out
    }

    /// The bus `out`, to wire it on.
    pub fn get_out(&self) -> (r: SharedBus<16>)
        ensures
            r == self.out(),
    {
        self.out
    }
}

} // verus!
