//! What the memories have in common: words that are written at the clock
//! and read through an address.
use vstd::prelude::*;
use crate::bit::{Bit, fill, written};
use crate::bus::{SharedBus, group_build, group_run};
use crate::gate::Gate;
use crate::register::{Register, lemma_register_ports};
use crate::wires::{Span, Wires, framed, grown};

verus! {

/// `n` words of zeros.
pub open spec fn blank(n: nat) -> Seq<Seq<Bit>> {
    Seq::new(n, |i: int| fill(16, Bit::O))
}

/// A clocked memory of 16-bit words with one address of its own kind.
///
/// `contents` are the words that can be read, `pending` the words that the
/// next rising edge will sample, and `latched` the words that the last one
/// sampled and the next falling edge will publish.
pub trait Store: Gate + Sized {
    /// The address that picks a word.
    type Address: Copy;

    /// Number of words.
    spec fn size() -> nat;

    spec fn address(&self) -> Self::Address;

    spec fn input(&self) -> SharedBus<16>;

    spec fn load(&self) -> SharedBus<1>;

    spec fn out(&self) -> SharedBus<16>;

    /// The word number that an address names.
    spec fn place(address: Self::Address, w: Seq<Bit>) -> nat;

    /// Every wire of the address is below `n`.
    spec fn address_below(address: Self::Address, n: nat) -> bool;

    spec fn contents(&self, w: Seq<Bit>) -> Seq<Seq<Bit>>;

    spec fn latched(&self, w: Seq<Bit>) -> Seq<Seq<Bit>>;

    spec fn pending(&self, w: Seq<Bit>) -> Seq<Seq<Bit>>;

    /// A new store of zeros.
    fn build(input: SharedBus<16>, load: SharedBus<1>, address: Self::Address, wires: &mut Wires) -> (r:
        Self)
        requires
            input.below(old(wires)@.len()),
            load.below(old(wires)@.len()),
            Self::address_below(address, old(wires)@.len()),
        ensures
            r.wired(),
            r.input() == input,
            r.load() == load,
            r.address() == address,
            r.span() == Span::added(*old(wires), *final(wires)),
            grown(*old(wires), *final(wires)),
            r.contents(final(wires)@) == blank(Self::size()),
            r.latched(final(wires)@) == blank(Self::size()),
    ;

    /// The bus on which the store shows the word at its address.
    fn output(&self) -> (r: SharedBus<16>)
        ensures
            r == self.out(),
    ;

    /// Settles the combinational part.
    fn settle(&self, wires: &mut Wires)
        requires
            self.wired(),
            self.span().fits(*old(wires)),
        ensures
            framed(*old(wires), *final(wires), self.span()),
            final(wires).mem() == old(wires).mem(),
            self.out().value(final(wires)@) == self.contents(old(wires)@)[Self::place(
                self.address(),
                old(wires)@,
            ) as int],
            self.pending(final(wires)@) == written(
                self.contents(old(wires)@),
                self.load().value(old(wires)@)[0],
                Self::place(self.address(), old(wires)@),
                self.input().value(old(wires)@),
            ),
            self.contents(final(wires)@) == self.contents(old(wires)@),
            self.latched(final(wires)@) == self.latched(old(wires)@),
    ;

    /// Rising edge.
    fn sample(&self, wires: &mut Wires)
        requires
            self.wired(),
            self.span().fits(*old(wires)),
        ensures
            framed(*old(wires), *final(wires), self.span()),
            final(wires).mem() == old(wires).mem(),
            self.latched(final(wires)@) == self.pending(old(wires)@),
            self.contents(final(wires)@) == self.contents(old(wires)@),
            self.pending(final(wires)@) == self.pending(old(wires)@),
            self.out().value(final(wires)@) == self.out().value(old(wires)@),
    ;

    /// Falling edge.
    fn publish(&self, wires: &mut Wires)
        requires
            self.wired(),
            self.span().fits(*old(wires)),
        ensures
            framed(*old(wires), *final(wires), self.span()),
            final(wires).mem() == old(wires).mem(),
            self.contents(final(wires)@) == self.latched(old(wires)@),
            self.latched(final(wires)@) == self.latched(old(wires)@),
            self.pending(final(wires)@) == self.pending(old(wires)@),
    ;

    /// Where the store and its buses lie.
    proof fn lemma_layout(&self)
        requires
            self.wired(),
        ensures
            self.span().lo <= self.span().hi,
            self.span().wlo <= self.span().whi,
            self.out().within(self.span().lo, self.span().hi),
            self.input().below(self.span().lo),
            self.load().below(self.span().lo),
            Self::address_below(self.address(), self.span().lo),
    ;

    /// The store always holds `size()` words.
    proof fn lemma_size(&self, w: Seq<Bit>)
        requires
            self.wired(),
        ensures
            Self::size() > 0,
            self.contents(w).len() == Self::size(),
            self.latched(w).len() == Self::size(),
            self.pending(w).len() == Self::size(),
            Self::place(self.address(), w) < Self::size(),
    ;

    /// A change of the wires outside the store does not show in it.
    proof fn lemma_apart(&self, pre: Wires, post: Wires, span: Span)
        requires
            self.wired(),
            self.span().fits(pre),
            framed(pre, post, span),
            span.hi <= self.span().lo || self.span().hi <= span.lo,
        ensures
            self.contents(post@) == self.contents(pre@),
            self.latched(post@) == self.latched(pre@),
            self.pending(post@) == self.pending(pre@),
    ;

    /// Cells added to the wires do not show in the store.
    proof fn lemma_grown(&self, pre: Wires, post: Wires)
        requires
            self.wired(),
            self.span().fits(pre),
            grown(pre, post),
        ensures
            self.contents(post@) == self.contents(pre@),
            self.latched(post@) == self.latched(pre@),
    ;

    /// A change of the wires above an address does not show on it.
    proof fn lemma_address_apart(address: Self::Address, pre: Wires, post: Wires, span: Span)
        requires
            Self::address_below(address, span.lo),
            Self::address_below(address, pre@.len()),
            framed(pre, post, span),
        ensures
            Self::place(address, post@) == Self::place(address, pre@),
    ;

    /// An address below `n` is below any greater number.
    proof fn lemma_address_below(address: Self::Address, n: nat, m: nat)
        requires
            Self::address_below(address, n),
            n <= m,
        ensures
            Self::address_below(address, m),
    ;
}

/// What settling does to a store: `out` shows the word at the address; the
/// words to sample are the contents with `input` written at the address
/// where `load` is `I`; contents and sampled words stay.
pub open spec fn store_settled<C: Store>(c: C, pre: Wires, post: Wires) -> bool {
    &&& framed(pre, post, c.span())
    &&& post.mem() == pre.mem()
    &&& c.out().value(post@) == c.contents(pre@)[C::place(c.address(), pre@) as int]
    &&& c.pending(post@) == written(
        c.contents(pre@),
        c.load().value(pre@)[0],
        C::place(c.address(), pre@),
        c.input().value(pre@),
    )
    &&& c.contents(post@) == c.contents(pre@)
    &&& c.latched(post@) == c.latched(pre@)
}

/// What a rising edge does to a store: the pending words are sampled;
/// nothing shows yet.
pub open spec fn store_sampled<C: Store>(c: C, pre: Wires, post: Wires) -> bool {
    &&& framed(pre, post, c.span())
    &&& post.mem() == pre.mem()
    &&& c.latched(post@) == c.pending(pre@)
    &&& c.contents(post@) == c.contents(pre@)
    &&& c.pending(post@) == c.pending(pre@)
    &&& c.out().value(post@) == c.out().value(pre@)
}

/// What a falling edge does to a store: the contents become the sampled
/// words. `out` follows at the next settling.
pub open spec fn store_published<C: Store>(c: C, pre: Wires, post: Wires) -> bool {
    &&& framed(pre, post, c.span())
    &&& post.mem() == pre.mem()
    &&& c.contents(post@) == c.latched(pre@)
    &&& c.latched(post@) == c.latched(pre@)
    &&& c.pending(post@) == c.pending(pre@)
}

/// One tick and one tock write `input` at the address where `load` was `I`
/// when the tick began: a later read of that address shows it, and every
/// other word is as it was. With `load` at `O` nothing is written.
pub proof fn lemma_store_cycle<C: Store>(c: C, w0: Wires, w1: Wires, w2: Wires, w3: Wires, w4: Wires)
    requires
        store_settled(c, w0, w1),
        store_sampled(c, w1, w2),
        store_published(c, w2, w3),
        store_settled(c, w3, w4),
    ensures
        c.contents(w4@) == written(
            c.contents(w0@),
            c.load().value(w0@)[0],
            C::place(c.address(), w0@),
            c.input().value(w0@),
        ),
        c.out().value(w4@) == c.contents(w4@)[C::place(c.address(), w3@) as int],
{
}

impl Store for Register {
    type Address = SharedBus<0>;

    open spec fn size() -> nat {
        1
    }

    open spec fn address(&self) -> SharedBus<0> {
        arbitrary()
    }

    open spec fn input(&self) -> SharedBus<16> {
        Register::input(self)
    }

    open spec fn load(&self) -> SharedBus<1> {
        Register::load(self)
    }

    open spec fn out(&self) -> SharedBus<16> {
        Register::out(self)
    }

    open spec fn place(address: SharedBus<0>, w: Seq<Bit>) -> nat {
        0
    }

    open spec fn address_below(address: SharedBus<0>, n: nat) -> bool {
        true
    }

    open spec fn contents(&self, w: Seq<Bit>) -> Seq<Seq<Bit>> {
        seq![self.out().value(w)]
    }

    open spec fn latched(&self, w: Seq<Bit>) -> Seq<Seq<Bit>> {
        seq![self.state().value(w)]
    }

    open spec fn pending(&self, w: Seq<Bit>) -> Seq<Seq<Bit>> {
        seq![self.next().value(w)]
    }

    fn build(input: SharedBus<16>, load: SharedBus<1>, address: SharedBus<0>, wires: &mut Wires) -> (r: Self) {
        let r = Register::new(input, load, wires);
        proof {
            assert(r.address().0.bits =~= address.0.bits);
            assert(r.contents(wires@) =~= blank(1));
            assert(r.latched(wires@) =~= blank(1));
        }
        r
    }

    fn output(&self) -> (r: SharedBus<16>) {
        self.get_out()
    }

    fn settle(&self, wires: &mut Wires) {
        self.re_compute(wires);
        proof {
            let pre = *old(wires);
            assert(self.pending(wires@) =~= written(
                self.contents(pre@),
                self.load().value(pre@)[0],
                0,
                self.input().value(pre@),
            ));
        }
    }

    fn sample(&self, wires: &mut Wires) {
        self.clock_up(wires);
    }

    fn publish(&self, wires: &mut Wires) {
        self.clock_down(wires);
    }

    proof fn lemma_layout(&self) {
        lemma_register_ports(*self);
    }

    proof fn lemma_size(&self, w: Seq<Bit>) {
    }

    proof fn lemma_apart(&self, pre: Wires, post: Wires, span: Span) {
        broadcast use group_run;

        lemma_register_ports(*self);
    }

    proof fn lemma_grown(&self, pre: Wires, post: Wires) {
        broadcast use group_build;

        lemma_register_ports(*self);
    }

    proof fn lemma_address_apart(address: SharedBus<0>, pre: Wires, post: Wires, span: Span) {
    }

    proof fn lemma_address_below(address: SharedBus<0>, n: nat, m: nat) {
    }
}

} // verus!
