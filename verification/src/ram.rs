//! Memories built from registers, multiplexers and demultiplexers: each
//! is a bank of smaller ones, down to the registers.
use vstd::prelude::*;
use vstd::arithmetic::power2::lemma2_to64;
use crate::bank::Bank8;
use crate::bank4::Bank4;
use crate::bit::{Bit, written, lemma_bits_to_nat_split};
use crate::bus::{SharedBus, lemma_value_framed};
use crate::gate::Gate;
use crate::register::Register;
use crate::store::{Store, blank};
use crate::wires::{Span, Wires, framed, grown};

verus! {

/// Memory of 8 words: eight registers, of which the high three
/// bits of the address pick one.
pub struct RAM8 {
    pub out: SharedBus<16>,
    address: SharedBus<3>,
    bank: Bank8<Register>,
}

impl RAM8 {
    pub fn new(input: SharedBus<16>, load: SharedBus<1>, address: SharedBus<3>, wires: &mut Wires) -> (r:
        RAM8)
        requires
            input.below(old(wires)@.len()),
            load.below(old(wires)@.len()),
            address.below(old(wires)@.len()),
        ensures
            r.wired(),
            r.input() == input,
            r.load() == load,
            r.address() == address,
            r.span() == Span::added(*old(wires), *final(wires)),
            grown(*old(wires), *final(wires)),
            r.contents(final(wires)@) == blank(8),
            r.latched(final(wires)@) == blank(8),
    {
        let low_address = address.reconnect([]);
        let high_address = address.reconnect([0, 1, 2]);
        let bank = Bank8::new(input, load, low_address, high_address, wires);
        let r = RAM8 { out: bank.get_out(), address, bank };
        proof {
            reveal(RAM8::wiring);
            r.bank.lemma_layout();
        }
        r
    }

    /// The bank takes the low and the high part of the address.
    #[verifier::opaque]
    pub closed spec fn wiring(&self) -> bool {
        &&& self.bank.wired()
        &&& self.out == self.bank.out()
        &&& self.address.below(self.bank.span().lo)
        &&& forall|j: int| 0 <= j < 0 ==> #[trigger] self.bank.low().0.bits[j] == self.address.0.bits[j]
        &&& forall|j: int|
            0 <= j < 3 ==> #[trigger] self.bank.high().0.bits[j] == self.address.0.bits[j + 0]
    }

    /// What `re_compute` does: `out` shows the word at the address; the
    /// words to sample are the contents with `input` written at the
    /// address where `load` is `I`; contents and sampled words stay.
    pub open spec fn settled(&self, pre: Wires, post: Wires) -> bool {
        &&& framed(pre, post, self.span())
        &&& post.mem() == pre.mem()
        &&& self.address().word(pre@) < 8
        &&& self.out().value(post@) == self.contents(pre@)[self.address().word(pre@) as int]
        &&& self.pending(post@) == written(
            self.contents(pre@),
            self.load().value(pre@)[0],
            self.address().word(pre@),
            self.input().value(pre@),
        )
        &&& self.contents(post@) == self.contents(pre@)
        &&& self.latched(post@) == self.latched(pre@)
    }

    /// What a rising edge does: the pending words are sampled; nothing
    /// shows yet.
    pub open spec fn sampled(&self, pre: Wires, post: Wires) -> bool {
        &&& framed(pre, post, self.span())
        &&& post.mem() == pre.mem()
        &&& self.latched(post@) == self.pending(pre@)
        &&& self.contents(post@) == self.contents(pre@)
        &&& self.pending(post@) == self.pending(pre@)
        &&& self.out().value(post@) == self.out().value(pre@)
    }

    /// What a falling edge does: the contents become the sampled words.
    pub open spec fn published(&self, pre: Wires, post: Wires) -> bool {
        &&& framed(pre, post, self.span())
        &&& post.mem() == pre.mem()
        &&& self.contents(post@) == self.latched(pre@)
        &&& self.latched(post@) == self.latched(pre@)
        &&& self.pending(post@) == self.pending(pre@)
    }

    /// The two parts of the address name the word that the whole names.
    proof fn lemma_place(&self, w: Seq<Bit>)
        requires
            self.wired(),
        ensures
            self.bank.place(w) == self.address.word(w),
            self.address.word(w) < 8,
    {
        reveal(RAM8::wiring);
        let s = self.address.value(w);
        lemma_bits_to_nat_split(s, 0);
        assert(self.bank.low().value(w) =~= s.take(0));
        assert(self.bank.high().value(w) =~= s.skip(0));
        lemma2_to64();
        self.bank.lemma_size(w);
    }

    /// The bus `out`, to wire it on.
    pub fn get_out(&self) -> (r: SharedBus<16>)
        ensures
            r == self.out(),
    {
        self.out
    }
}

impl Gate for RAM8 {
    closed spec fn wired(&self) -> bool {
        self.wiring()
    }

    closed spec fn span(&self) -> Span {
        self.bank.span()
    }

    open spec fn clocked(&self) -> bool {
        true
    }

    fn clock_up(&self, wires: &mut Wires)
        ensures
            self.sampled(*old(wires), *final(wires)),
    {
        proof {
            reveal(RAM8::wiring);
        }
        self.bank.clock_up(wires);
    }

    fn clock_down(&self, wires: &mut Wires)
        ensures
            self.published(*old(wires), *final(wires)),
    {
        proof {
            reveal(RAM8::wiring);
        }
        self.bank.clock_down(wires);
    }

    fn re_compute(&self, wires: &mut Wires)
        ensures
            self.settled(*old(wires), *final(wires)),
    {
        proof {
            reveal(RAM8::wiring);
            self.lemma_place(wires@);
        }
        self.bank.re_compute(wires);
    }
}

impl Store for RAM8 {
    type Address = SharedBus<3>;

    open spec fn size() -> nat {
        8
    }

    closed spec fn address(&self) -> SharedBus<3> {
        self.address
    }

    closed spec fn input(&self) -> SharedBus<16> {
        self.bank.input()
    }

    closed spec fn load(&self) -> SharedBus<1> {
        self.bank.load()
    }

    closed spec fn out(&self) -> SharedBus<16> {
        self.out
    }

    open spec fn place(address: SharedBus<3>, w: Seq<Bit>) -> nat {
        address.word(w)
    }

    open spec fn address_below(address: SharedBus<3>, n: nat) -> bool {
        address.below(n)
    }

    closed spec fn contents(&self, w: Seq<Bit>) -> Seq<Seq<Bit>> {
        self.bank.contents(w)
    }

    closed spec fn latched(&self, w: Seq<Bit>) -> Seq<Seq<Bit>> {
        self.bank.latched(w)
    }

    closed spec fn pending(&self, w: Seq<Bit>) -> Seq<Seq<Bit>> {
        self.bank.pending(w)
    }

    fn build(input: SharedBus<16>, load: SharedBus<1>, address: SharedBus<3>, wires: &mut Wires) -> (r:
        Self) {
        RAM8::new(input, load, address, wires)
    }

    fn output(&self) -> (r: SharedBus<16>) {
        self.out
    }

    fn settle(&self, wires: &mut Wires) {
        self.re_compute(wires);
    }

    fn sample(&self, wires: &mut Wires) {
        self.clock_up(wires);
    }

    fn publish(&self, wires: &mut Wires) {
        self.clock_down(wires);
    }

    proof fn lemma_layout(&self) {
        reveal(RAM8::wiring);
        self.bank.lemma_layout();
    }

    proof fn lemma_size(&self, w: Seq<Bit>) {
        reveal(RAM8::wiring);
        self.bank.lemma_size(w);
        self.lemma_place(w);
    }

    proof fn lemma_apart(&self, pre: Wires, post: Wires, span: Span) {
        reveal(RAM8::wiring);
        self.bank.lemma_apart(pre, post, span);
    }

    proof fn lemma_grown(&self, pre: Wires, post: Wires) {
        reveal(RAM8::wiring);
        self.bank.lemma_grown(pre, post);
    }

    proof fn lemma_address_apart(address: SharedBus<3>, pre: Wires, post: Wires, span: Span) {
        lemma_value_framed(address, pre, post, span);
    }

    proof fn lemma_address_below(address: SharedBus<3>, n: nat, m: nat) {
    }
}

/// Memory of 64 words: eight memories of 8 words, of which the high three
/// bits of the address pick one.
pub struct RAM64 {
    pub out: SharedBus<16>,
    address: SharedBus<6>,
    bank: Bank8<RAM8>,
}

impl RAM64 {
    pub fn new(input: SharedBus<16>, load: SharedBus<1>, address: SharedBus<6>, wires: &mut Wires) -> (r:
        RAM64)
        requires
            input.below(old(wires)@.len()),
            load.below(old(wires)@.len()),
            address.below(old(wires)@.len()),
        ensures
            r.wired(),
            r.input() == input,
            r.load() == load,
            r.address() == address,
            r.span() == Span::added(*old(wires), *final(wires)),
            grown(*old(wires), *final(wires)),
            r.contents(final(wires)@) == blank(64),
            r.latched(final(wires)@) == blank(64),
    {
        let low_address = address.reconnect([0, 1, 2]);
        let high_address = address.reconnect([3, 4, 5]);
        let bank = Bank8::new(input, load, low_address, high_address, wires);
        let r = RAM64 { out: bank.get_out(), address, bank };
        proof {
            reveal(RAM64::wiring);
            r.bank.lemma_layout();
        }
        r
    }

    /// The bank takes the low and the high part of the address.
    #[verifier::opaque]
    pub closed spec fn wiring(&self) -> bool {
        &&& self.bank.wired()
        &&& self.out == self.bank.out()
        &&& self.address.below(self.bank.span().lo)
        &&& forall|j: int| 0 <= j < 3 ==> #[trigger] self.bank.low().0.bits[j] == self.address.0.bits[j]
        &&& forall|j: int|
            0 <= j < 3 ==> #[trigger] self.bank.high().0.bits[j] == self.address.0.bits[j + 3]
    }

    /// What `re_compute` does: `out` shows the word at the address; the
    /// words to sample are the contents with `input` written at the
    /// address where `load` is `I`; contents and sampled words stay.
    pub open spec fn settled(&self, pre: Wires, post: Wires) -> bool {
        &&& framed(pre, post, self.span())
        &&& post.mem() == pre.mem()
        &&& self.address().word(pre@) < 64
        &&& self.out().value(post@) == self.contents(pre@)[self.address().word(pre@) as int]
        &&& self.pending(post@) == written(
            self.contents(pre@),
            self.load().value(pre@)[0],
            self.address().word(pre@),
            self.input().value(pre@),
        )
        &&& self.contents(post@) == self.contents(pre@)
        &&& self.latched(post@) == self.latched(pre@)
    }

    /// What a rising edge does: the pending words are sampled; nothing
    /// shows yet.
    pub open spec fn sampled(&self, pre: Wires, post: Wires) -> bool {
        &&& framed(pre, post, self.span())
        &&& post.mem() == pre.mem()
        &&& self.latched(post@) == self.pending(pre@)
        &&& self.contents(post@) == self.contents(pre@)
        &&& self.pending(post@) == self.pending(pre@)
        &&& self.out().value(post@) == self.out().value(pre@)
    }

    /// What a falling edge does: the contents become the sampled words.
    pub open spec fn published(&self, pre: Wires, post: Wires) -> bool {
        &&& framed(pre, post, self.span())
        &&& post.mem() == pre.mem()
        &&& self.contents(post@) == self.latched(pre@)
        &&& self.latched(post@) == self.latched(pre@)
        &&& self.pending(post@) == self.pending(pre@)
    }

    /// The two parts of the address name the word that the whole names.
    proof fn lemma_place(&self, w: Seq<Bit>)
        requires
            self.wired(),
        ensures
            self.bank.place(w) == self.address.word(w),
            self.address.word(w) < 64,
    {
        reveal(RAM64::wiring);
        let s = self.address.value(w);
        lemma_bits_to_nat_split(s, 3);
        assert(self.bank.low().value(w) =~= s.take(3));
        assert(self.bank.high().value(w) =~= s.skip(3));
        lemma2_to64();
        self.bank.lemma_size(w);
    }

    /// The bus `out`, to wire it on.
    pub fn get_out(&self) -> (r: SharedBus<16>)
        ensures
            r == self.out(),
    {
        self.out
    }
}

impl Gate for RAM64 {
    closed spec fn wired(&self) -> bool {
        self.wiring()
    }

    closed spec fn span(&self) -> Span {
        self.bank.span()
    }

    open spec fn clocked(&self) -> bool {
        true
    }

    fn clock_up(&self, wires: &mut Wires)
        ensures
            self.sampled(*old(wires), *final(wires)),
    {
        proof {
            reveal(RAM64::wiring);
        }
        self.bank.clock_up(wires);
    }

    fn clock_down(&self, wires: &mut Wires)
        ensures
            self.published(*old(wires), *final(wires)),
    {
        proof {
            reveal(RAM64::wiring);
        }
        self.bank.clock_down(wires);
    }

    fn re_compute(&self, wires: &mut Wires)
        ensures
            self.settled(*old(wires), *final(wires)),
    {
        proof {
            reveal(RAM64::wiring);
            self.lemma_place(wires@);
        }
        self.bank.re_compute(wires);
    }
}

impl Store for RAM64 {
    type Address = SharedBus<6>;

    open spec fn size() -> nat {
        64
    }

    closed spec fn address(&self) -> SharedBus<6> {
        self.address
    }

    closed spec fn input(&self) -> SharedBus<16> {
        self.bank.input()
    }

    closed spec fn load(&self) -> SharedBus<1> {
        self.bank.load()
    }

    closed spec fn out(&self) -> SharedBus<16> {
        self.out
    }

    open spec fn place(address: SharedBus<6>, w: Seq<Bit>) -> nat {
        address.word(w)
    }

    open spec fn address_below(address: SharedBus<6>, n: nat) -> bool {
        address.below(n)
    }

    closed spec fn contents(&self, w: Seq<Bit>) -> Seq<Seq<Bit>> {
        self.bank.contents(w)
    }

    closed spec fn latched(&self, w: Seq<Bit>) -> Seq<Seq<Bit>> {
        self.bank.latched(w)
    }

    closed spec fn pending(&self, w: Seq<Bit>) -> Seq<Seq<Bit>> {
        self.bank.pending(w)
    }

    fn build(input: SharedBus<16>, load: SharedBus<1>, address: SharedBus<6>, wires: &mut Wires) -> (r:
        Self) {
        RAM64::new(input, load, address, wires)
    }

    fn output(&self) -> (r: SharedBus<16>) {
        self.out
    }

    fn settle(&self, wires: &mut Wires) {
        self.re_compute(wires);
    }

    fn sample(&self, wires: &mut Wires) {
        self.clock_up(wires);
    }

    fn publish(&self, wires: &mut Wires) {
        self.clock_down(wires);
    }

    proof fn lemma_layout(&self) {
        reveal(RAM64::wiring);
        self.bank.lemma_layout();
    }

    proof fn lemma_size(&self, w: Seq<Bit>) {
        reveal(RAM64::wiring);
        self.bank.lemma_size(w);
        self.lemma_place(w);
    }

    proof fn lemma_apart(&self, pre: Wires, post: Wires, span: Span) {
        reveal(RAM64::wiring);
        self.bank.lemma_apart(pre, post, span);
    }

    proof fn lemma_grown(&self, pre: Wires, post: Wires) {
        reveal(RAM64::wiring);
        self.bank.lemma_grown(pre, post);
    }

    proof fn lemma_address_apart(address: SharedBus<6>, pre: Wires, post: Wires, span: Span) {
        lemma_value_framed(address, pre, post, span);
    }

    proof fn lemma_address_below(address: SharedBus<6>, n: nat, m: nat) {
    }
}

/// Memory of 512 words: eight memories of 64 words, of which the high three
/// bits of the address pick one.
pub struct RAM512 {
    pub out: SharedBus<16>,
    address: SharedBus<9>,
    bank: Bank8<RAM64>,
}

impl RAM512 {
    pub fn new(input: SharedBus<16>, load: SharedBus<1>, address: SharedBus<9>, wires: &mut Wires) -> (r:
        RAM512)
        requires
            input.below(old(wires)@.len()),
            load.below(old(wires)@.len()),
            address.below(old(wires)@.len()),
        ensures
            r.wired(),
            r.input() == input,
            r.load() == load,
            r.address() == address,
            r.span() == Span::added(*old(wires), *final(wires)),
            grown(*old(wires), *final(wires)),
            r.contents(final(wires)@) == blank(512),
            r.latched(final(wires)@) == blank(512),
    {
        let low_address = address.reconnect([0, 1, 2, 3, 4, 5]);
        let high_address = address.reconnect([6, 7, 8]);
        let bank = Bank8::new(input, load, low_address, high_address, wires);
        let r = RAM512 { out: bank.get_out(), address, bank };
        proof {
            reveal(RAM512::wiring);
            r.bank.lemma_layout();
        }
        r
    }

    /// The bank takes the low and the high part of the address.
    #[verifier::opaque]
    pub closed spec fn wiring(&self) -> bool {
        &&& self.bank.wired()
        &&& self.out == self.bank.out()
        &&& self.address.below(self.bank.span().lo)
        &&& forall|j: int| 0 <= j < 6 ==> #[trigger] self.bank.low().0.bits[j] == self.address.0.bits[j]
        &&& forall|j: int|
            0 <= j < 3 ==> #[trigger] self.bank.high().0.bits[j] == self.address.0.bits[j + 6]
    }

    /// What `re_compute` does: `out` shows the word at the address; the
    /// words to sample are the contents with `input` written at the
    /// address where `load` is `I`; contents and sampled words stay.
    pub open spec fn settled(&self, pre: Wires, post: Wires) -> bool {
        &&& framed(pre, post, self.span())
        &&& post.mem() == pre.mem()
        &&& self.address().word(pre@) < 512
        &&& self.out().value(post@) == self.contents(pre@)[self.address().word(pre@) as int]
        &&& self.pending(post@) == written(
            self.contents(pre@),
            self.load().value(pre@)[0],
            self.address().word(pre@),
            self.input().value(pre@),
        )
        &&& self.contents(post@) == self.contents(pre@)
        &&& self.latched(post@) == self.latched(pre@)
    }

    /// What a rising edge does: the pending words are sampled; nothing
    /// shows yet.
    pub open spec fn sampled(&self, pre: Wires, post: Wires) -> bool {
        &&& framed(pre, post, self.span())
        &&& post.mem() == pre.mem()
        &&& self.latched(post@) == self.pending(pre@)
        &&& self.contents(post@) == self.contents(pre@)
        &&& self.pending(post@) == self.pending(pre@)
        &&& self.out().value(post@) == self.out().value(pre@)
    }

    /// What a falling edge does: the contents become the sampled words.
    pub open spec fn published(&self, pre: Wires, post: Wires) -> bool {
        &&& framed(pre, post, self.span())
        &&& post.mem() == pre.mem()
        &&& self.contents(post@) == self.latched(pre@)
        &&& self.latched(post@) == self.latched(pre@)
        &&& self.pending(post@) == self.pending(pre@)
    }

    /// The two parts of the address name the word that the whole names.
    proof fn lemma_place(&self, w: Seq<Bit>)
        requires
            self.wired(),
        ensures
            self.bank.place(w) == self.address.word(w),
            self.address.word(w) < 512,
    {
        reveal(RAM512::wiring);
        let s = self.address.value(w);
        lemma_bits_to_nat_split(s, 6);
        assert(self.bank.low().value(w) =~= s.take(6));
        assert(self.bank.high().value(w) =~= s.skip(6));
        lemma2_to64();
        self.bank.lemma_size(w);
    }

    /// The bus `out`, to wire it on.
    pub fn get_out(&self) -> (r: SharedBus<16>)
        ensures
            r == self.out(),
    {
        self.out
    }
}

impl Gate for RAM512 {
    closed spec fn wired(&self) -> bool {
        self.wiring()
    }

    closed spec fn span(&self) -> Span {
        self.bank.span()
    }

    open spec fn clocked(&self) -> bool {
        true
    }

    fn clock_up(&self, wires: &mut Wires)
        ensures
            self.sampled(*old(wires), *final(wires)),
    {
        proof {
            reveal(RAM512::wiring);
        }
        self.bank.clock_up(wires);
    }

    fn clock_down(&self, wires: &mut Wires)
        ensures
            self.published(*old(wires), *final(wires)),
    {
        proof {
            reveal(RAM512::wiring);
        }
        self.bank.clock_down(wires);
    }

    fn re_compute(&self, wires: &mut Wires)
        ensures
            self.settled(*old(wires), *final(wires)),
    {
        proof {
            reveal(RAM512::wiring);
            self.lemma_place(wires@);
        }
        self.bank.re_compute(wires);
    }
}

impl Store for RAM512 {
    type Address = SharedBus<9>;

    open spec fn size() -> nat {
        512
    }

    closed spec fn address(&self) -> SharedBus<9> {
        self.address
    }

    closed spec fn input(&self) -> SharedBus<16> {
        self.bank.input()
    }

    closed spec fn load(&self) -> SharedBus<1> {
        self.bank.load()
    }

    closed spec fn out(&self) -> SharedBus<16> {
        self.out
    }

    open spec fn place(address: SharedBus<9>, w: Seq<Bit>) -> nat {
        address.word(w)
    }

    open spec fn address_below(address: SharedBus<9>, n: nat) -> bool {
        address.below(n)
    }

    closed spec fn contents(&self, w: Seq<Bit>) -> Seq<Seq<Bit>> {
        self.bank.contents(w)
    }

    closed spec fn latched(&self, w: Seq<Bit>) -> Seq<Seq<Bit>> {
        self.bank.latched(w)
    }

    closed spec fn pending(&self, w: Seq<Bit>) -> Seq<Seq<Bit>> {
        self.bank.pending(w)
    }

    fn build(input: SharedBus<16>, load: SharedBus<1>, address: SharedBus<9>, wires: &mut Wires) -> (r:
        Self) {
        RAM512::new(input, load, address, wires)
    }

    fn output(&self) -> (r: SharedBus<16>) {
        self.out
    }

    fn settle(&self, wires: &mut Wires) {
        self.re_compute(wires);
    }

    fn sample(&self, wires: &mut Wires) {
        self.clock_up(wires);
    }

    fn publish(&self, wires: &mut Wires) {
        self.clock_down(wires);
    }

    proof fn lemma_layout(&self) {
        reveal(RAM512::wiring);
        self.bank.lemma_layout();
    }

    proof fn lemma_size(&self, w: Seq<Bit>) {
        reveal(RAM512::wiring);
        self.bank.lemma_size(w);
        self.lemma_place(w);
    }

    proof fn lemma_apart(&self, pre: Wires, post: Wires, span: Span) {
        reveal(RAM512::wiring);
        self.bank.lemma_apart(pre, post, span);
    }

    proof fn lemma_grown(&self, pre: Wires, post: Wires) {
        reveal(RAM512::wiring);
        self.bank.lemma_grown(pre, post);
    }

    proof fn lemma_address_apart(address: SharedBus<9>, pre: Wires, post: Wires, span: Span) {
        lemma_value_framed(address, pre, post, span);
    }

    proof fn lemma_address_below(address: SharedBus<9>, n: nat, m: nat) {
    }
}

/// Memory of 4096 words: eight memories of 512 words, of which the high three
/// bits of the address pick one.
pub struct RAM4K {
    pub out: SharedBus<16>,
    address: SharedBus<12>,
    bank: Bank8<RAM512>,
}

impl RAM4K {
    pub fn new(input: SharedBus<16>, load: SharedBus<1>, address: SharedBus<12>, wires: &mut Wires) -> (r:
        RAM4K)
        requires
            input.below(old(wires)@.len()),
            load.below(old(wires)@.len()),
            address.below(old(wires)@.len()),
        ensures
            r.wired(),
            r.input() == input,
            r.load() == load,
            r.address() == address,
            r.span() == Span::added(*old(wires), *final(wires)),
            grown(*old(wires), *final(wires)),
            r.contents(final(wires)@) == blank(4096),
            r.latched(final(wires)@) == blank(4096),
    {
        let low_address = address.reconnect([0, 1, 2, 3, 4, 5, 6, 7, 8]);
        let high_address = address.reconnect([9, 10, 11]);
        let bank = Bank8::new(input, load, low_address, high_address, wires);
        let r = RAM4K { out: bank.get_out(), address, bank };
        proof {
            reveal(RAM4K::wiring);
            r.bank.lemma_layout();
        }
        r
    }

    /// The bank takes the low and the high part of the address.
    #[verifier::opaque]
    pub closed spec fn wiring(&self) -> bool {
        &&& self.bank.wired()
        &&& self.out == self.bank.out()
        &&& self.address.below(self.bank.span().lo)
        &&& forall|j: int| 0 <= j < 9 ==> #[trigger] self.bank.low().0.bits[j] == self.address.0.bits[j]
        &&& forall|j: int|
            0 <= j < 3 ==> #[trigger] self.bank.high().0.bits[j] == self.address.0.bits[j + 9]
    }

    /// What `re_compute` does: `out` shows the word at the address; the
    /// words to sample are the contents with `input` written at the
    /// address where `load` is `I`; contents and sampled words stay.
    pub open spec fn settled(&self, pre: Wires, post: Wires) -> bool {
        &&& framed(pre, post, self.span())
        &&& post.mem() == pre.mem()
        &&& self.address().word(pre@) < 4096
        &&& self.out().value(post@) == self.contents(pre@)[self.address().word(pre@) as int]
        &&& self.pending(post@) == written(
            self.contents(pre@),
            self.load().value(pre@)[0],
            self.address().word(pre@),
            self.input().value(pre@),
        )
        &&& self.contents(post@) == self.contents(pre@)
        &&& self.latched(post@) == self.latched(pre@)
    }

    /// What a rising edge does: the pending words are sampled; nothing
    /// shows yet.
    pub open spec fn sampled(&self, pre: Wires, post: Wires) -> bool {
        &&& framed(pre, post, self.span())
        &&& post.mem() == pre.mem()
        &&& self.latched(post@) == self.pending(pre@)
        &&& self.contents(post@) == self.contents(pre@)
        &&& self.pending(post@) == self.pending(pre@)
        &&& self.out().value(post@) == self.out().value(pre@)
    }

    /// What a falling edge does: the contents become the sampled words.
    pub open spec fn published(&self, pre: Wires, post: Wires) -> bool {
        &&& framed(pre, post, self.span())
        &&& post.mem() == pre.mem()
        &&& self.contents(post@) == self.latched(pre@)
        &&& self.latched(post@) == self.latched(pre@)
        &&& self.pending(post@) == self.pending(pre@)
    }

    /// The two parts of the address name the word that the whole names.
    proof fn lemma_place(&self, w: Seq<Bit>)
        requires
            self.wired(),
        ensures
            self.bank.place(w) == self.address.word(w),
            self.address.word(w) < 4096,
    {
        reveal(RAM4K::wiring);
        let s = self.address.value(w);
        lemma_bits_to_nat_split(s, 9);
        assert(self.bank.low().value(w) =~= s.take(9));
        assert(self.bank.high().value(w) =~= s.skip(9));
        lemma2_to64();
        self.bank.lemma_size(w);
    }

    /// The bus `out`, to wire it on.
    pub fn get_out(&self) -> (r: SharedBus<16>)
        ensures
            r == self.out(),
    {
        self.out
    }
}

impl Gate for RAM4K {
    closed spec fn wired(&self) -> bool {
        self.wiring()
    }

    closed spec fn span(&self) -> Span {
        self.bank.span()
    }

    open spec fn clocked(&self) -> bool {
        true
    }

    fn clock_up(&self, wires: &mut Wires)
        ensures
            self.sampled(*old(wires), *final(wires)),
    {
        proof {
            reveal(RAM4K::wiring);
        }
        self.bank.clock_up(wires);
    }

    fn clock_down(&self, wires: &mut Wires)
        ensures
            self.published(*old(wires), *final(wires)),
    {
        proof {
            reveal(RAM4K::wiring);
        }
        self.bank.clock_down(wires);
    }

    fn re_compute(&self, wires: &mut Wires)
        ensures
            self.settled(*old(wires), *final(wires)),
    {
        proof {
            reveal(RAM4K::wiring);
            self.lemma_place(wires@);
        }
        self.bank.re_compute(wires);
    }
}

impl Store for RAM4K {
    type Address = SharedBus<12>;

    open spec fn size() -> nat {
        4096
    }

    closed spec fn address(&self) -> SharedBus<12> {
        self.address
    }

    closed spec fn input(&self) -> SharedBus<16> {
        self.bank.input()
    }

    closed spec fn load(&self) -> SharedBus<1> {
        self.bank.load()
    }

    closed spec fn out(&self) -> SharedBus<16> {
        self.out
    }

    open spec fn place(address: SharedBus<12>, w: Seq<Bit>) -> nat {
        address.word(w)
    }

    open spec fn address_below(address: SharedBus<12>, n: nat) -> bool {
        address.below(n)
    }

    closed spec fn contents(&self, w: Seq<Bit>) -> Seq<Seq<Bit>> {
        self.bank.contents(w)
    }

    closed spec fn latched(&self, w: Seq<Bit>) -> Seq<Seq<Bit>> {
        self.bank.latched(w)
    }

    closed spec fn pending(&self, w: Seq<Bit>) -> Seq<Seq<Bit>> {
        self.bank.pending(w)
    }

    fn build(input: SharedBus<16>, load: SharedBus<1>, address: SharedBus<12>, wires: &mut Wires) -> (r:
        Self) {
        RAM4K::new(input, load, address, wires)
    }

    fn output(&self) -> (r: SharedBus<16>) {
        self.out
    }

    fn settle(&self, wires: &mut Wires) {
        self.re_compute(wires);
    }

    fn sample(&self, wires: &mut Wires) {
        self.clock_up(wires);
    }

    fn publish(&self, wires: &mut Wires) {
        self.clock_down(wires);
    }

    proof fn lemma_layout(&self) {
        reveal(RAM4K::wiring);
        self.bank.lemma_layout();
    }

    proof fn lemma_size(&self, w: Seq<Bit>) {
        reveal(RAM4K::wiring);
        self.bank.lemma_size(w);
        self.lemma_place(w);
    }

    proof fn lemma_apart(&self, pre: Wires, post: Wires, span: Span) {
        reveal(RAM4K::wiring);
        self.bank.lemma_apart(pre, post, span);
    }

    proof fn lemma_grown(&self, pre: Wires, post: Wires) {
        reveal(RAM4K::wiring);
        self.bank.lemma_grown(pre, post);
    }

    proof fn lemma_address_apart(address: SharedBus<12>, pre: Wires, post: Wires, span: Span) {
        lemma_value_framed(address, pre, post, span);
    }

    proof fn lemma_address_below(address: SharedBus<12>, n: nat, m: nat) {
    }
}

/// Memory of 16384 words: four memories of 4096 words, of which the high two
/// bits of the address pick one.
pub struct RAM16K {
    pub out: SharedBus<16>,
    address: SharedBus<14>,
    bank: Bank4<RAM4K>,
}

impl RAM16K {
    pub fn new(input: SharedBus<16>, load: SharedBus<1>, address: SharedBus<14>, wires: &mut Wires) -> (r:
        RAM16K)
        requires
            input.below(old(wires)@.len()),
            load.below(old(wires)@.len()),
            address.below(old(wires)@.len()),
        ensures
            r.wired(),
            r.input() == input,
            r.load() == load,
            r.address() == address,
            r.span() == Span::added(*old(wires), *final(wires)),
            grown(*old(wires), *final(wires)),
            r.contents(final(wires)@) == blank(16384),
            r.latched(final(wires)@) == blank(16384),
    {
        let low_address = address.reconnect([0, 1, 2, 3, 4, 5, 6, 7, 8, 9, 10, 11]);
        let high_address = address.reconnect([12, 13]);
        let bank = Bank4::new(input, load, low_address, high_address, wires);
        let r = RAM16K { out: bank.get_out(), address, bank };
        proof {
            reveal(RAM16K::wiring);
            r.bank.lemma_layout();
        }
        r
    }

    /// The bank takes the low and the high part of the address.
    #[verifier::opaque]
    pub closed spec fn wiring(&self) -> bool {
        &&& self.bank.wired()
        &&& self.out == self.bank.out()
        &&& self.address.below(self.bank.span().lo)
        &&& forall|j: int| 0 <= j < 12 ==> #[trigger] self.bank.low().0.bits[j] == self.address.0.bits[j]
        &&& forall|j: int|
            0 <= j < 2 ==> #[trigger] self.bank.high().0.bits[j] == self.address.0.bits[j + 12]
    }

    /// What `re_compute` does: `out` shows the word at the address; the
    /// words to sample are the contents with `input` written at the
    /// address where `load` is `I`; contents and sampled words stay.
    pub open spec fn settled(&self, pre: Wires, post: Wires) -> bool {
        &&& framed(pre, post, self.span())
        &&& post.mem() == pre.mem()
        &&& self.address().word(pre@) < 16384
        &&& self.out().value(post@) == self.contents(pre@)[self.address().word(pre@) as int]
        &&& self.pending(post@) == written(
            self.contents(pre@),
            self.load().value(pre@)[0],
            self.address().word(pre@),
            self.input().value(pre@),
        )
        &&& self.contents(post@) == self.contents(pre@)
        &&& self.latched(post@) == self.latched(pre@)
    }

    /// What a rising edge does: the pending words are sampled; nothing
    /// shows yet.
    pub open spec fn sampled(&self, pre: Wires, post: Wires) -> bool {
        &&& framed(pre, post, self.span())
        &&& post.mem() == pre.mem()
        &&& self.latched(post@) == self.pending(pre@)
        &&& self.contents(post@) == self.contents(pre@)
        &&& self.pending(post@) == self.pending(pre@)
        &&& self.out().value(post@) == self.out().value(pre@)
    }

    /// What a falling edge does: the contents become the sampled words.
    pub open spec fn published(&self, pre: Wires, post: Wires) -> bool {
        &&& framed(pre, post, self.span())
        &&& post.mem() == pre.mem()
        &&& self.contents(post@) == self.latched(pre@)
        &&& self.latched(post@) == self.latched(pre@)
        &&& self.pending(post@) == self.pending(pre@)
    }

    /// The two parts of the address name the word that the whole names.
    proof fn lemma_place(&self, w: Seq<Bit>)
        requires
            self.wired(),
        ensures
            self.bank.place(w) == self.address.word(w),
            self.address.word(w) < 16384,
    {
        reveal(RAM16K::wiring);
        let s = self.address.value(w);
        lemma_bits_to_nat_split(s, 12);
        assert(self.bank.low().value(w) =~= s.take(12));
        assert(self.bank.high().value(w) =~= s.skip(12));
        lemma2_to64();
        self.bank.lemma_size(w);
    }

    /// The bus `out`, to wire it on.
    pub fn get_out(&self) -> (r: SharedBus<16>)
        ensures
            r == self.out(),
    {
        self.out
    }
}

impl Gate for RAM16K {
    closed spec fn wired(&self) -> bool {
        self.wiring()
    }

    closed spec fn span(&self) -> Span {
        self.bank.span()
    }

    open spec fn clocked(&self) -> bool {
        true
    }

    fn clock_up(&self, wires: &mut Wires)
        ensures
            self.sampled(*old(wires), *final(wires)),
    {
        proof {
            reveal(RAM16K::wiring);
        }
        self.bank.clock_up(wires);
    }

    fn clock_down(&self, wires: &mut Wires)
        ensures
            self.published(*old(wires), *final(wires)),
    {
        proof {
            reveal(RAM16K::wiring);
        }
        self.bank.clock_down(wires);
    }

    fn re_compute(&self, wires: &mut Wires)
        ensures
            self.settled(*old(wires), *final(wires)),
    {
        proof {
            reveal(RAM16K::wiring);
            self.lemma_place(wires@);
        }
        self.bank.re_compute(wires);
    }
}

impl Store for RAM16K {
    type Address = SharedBus<14>;

    open spec fn size() -> nat {
        16384
    }

    closed spec fn address(&self) -> SharedBus<14> {
        self.address
    }

    closed spec fn input(&self) -> SharedBus<16> {
        self.bank.input()
    }

    closed spec fn load(&self) -> SharedBus<1> {
        self.bank.load()
    }

    closed spec fn out(&self) -> SharedBus<16> {
        self.out
    }

    open spec fn place(address: SharedBus<14>, w: Seq<Bit>) -> nat {
        address.word(w)
    }

    open spec fn address_below(address: SharedBus<14>, n: nat) -> bool {
        address.below(n)
    }

    closed spec fn contents(&self, w: Seq<Bit>) -> Seq<Seq<Bit>> {
        self.bank.contents(w)
    }

    closed spec fn latched(&self, w: Seq<Bit>) -> Seq<Seq<Bit>> {
        self.bank.latched(w)
    }

    closed spec fn pending(&self, w: Seq<Bit>) -> Seq<Seq<Bit>> {
        self.bank.pending(w)
    }

    fn build(input: SharedBus<16>, load: SharedBus<1>, address: SharedBus<14>, wires: &mut Wires) -> (r:
        Self) {
        RAM16K::new(input, load, address, wires)
    }

    fn output(&self) -> (r: SharedBus<16>) {
        self.out
    }

    fn settle(&self, wires: &mut Wires) {
        self.re_compute(wires);
    }

    fn sample(&self, wires: &mut Wires) {
        self.clock_up(wires);
    }

    fn publish(&self, wires: &mut Wires) {
        self.clock_down(wires);
    }

    proof fn lemma_layout(&self) {
        reveal(RAM16K::wiring);
        self.bank.lemma_layout();
    }

    proof fn lemma_size(&self, w: Seq<Bit>) {
        reveal(RAM16K::wiring);
        self.bank.lemma_size(w);
        self.lemma_place(w);
    }

    proof fn lemma_apart(&self, pre: Wires, post: Wires, span: Span) {
        reveal(RAM16K::wiring);
        self.bank.lemma_apart(pre, post, span);
    }

    proof fn lemma_grown(&self, pre: Wires, post: Wires) {
        reveal(RAM16K::wiring);
        self.bank.lemma_grown(pre, post);
    }

    proof fn lemma_address_apart(address: SharedBus<14>, pre: Wires, post: Wires, span: Span) {
        lemma_value_framed(address, pre, post, span);
    }

    proof fn lemma_address_below(address: SharedBus<14>, n: nat, m: nat) {
    }
}

} // verus!
