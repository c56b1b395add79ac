//! Buses: fixed-width bundles of wire handles.
use vstd::prelude::*;
use vstd::arithmetic::power2::{pow2, lemma_pow2_unfold, lemma2_to64};
use vstd::string::StringSliceAdditionalSpecFns;
use crate::bit::{Bit, bits_to_nat, lemma_bits_to_nat_prefix, nat_bits, fill, lemma_bits_to_nat_bound, lemma_bits_to_nat_step};
use crate::wires::{SharedBit, Span, Wires, framed, grown, group_grown};

verus! {

/// `N` wire handles, position 0 being the least significant bit.
///
/// A bus owns no storage. Two buses may hold the same handle, and then
/// they share that wire.
#[derive(Clone, Copy, Debug)]
pub struct Bus<const N: usize> {
    pub bits: [SharedBit; N],
}

/// A handle to a bus that gates keep for their inputs and outputs.
#[derive(Clone, Copy, Debug)]
pub struct SharedBus<const N: usize>(pub Bus<N>);

/// A text was not a binary numeral of the width asked for.
#[derive(Debug)]
pub struct ParseBusStrError;

/// The byte of the digit `0`.
pub const ZERO_DIGIT: u8 = 48;

/// The byte of the digit `1`.
pub const ONE_DIGIT: u8 = 49;

/// `text` is made of exactly `n` binary digits.
pub open spec fn is_binary_text(text: Seq<u8>, n: nat) -> bool {
    text.len() == n && forall|i: int|
        0 <= i < text.len() ==> (#[trigger] text[i]) == ZERO_DIGIT || text[i] == ONE_DIGIT
}

/// The bits that a binary numeral spells. The text has the most significant
/// digit first, so its last digit is bit 0.
pub open spec fn text_bits(text: Seq<u8>) -> Seq<Bit> {
    Seq::new(
        text.len(),
        |i: int|
            if text[text.len() - 1 - i] == ONE_DIGIT {
                Bit::I
            } else {
                Bit::O
            },
    )
}

/// The store after `dst[i] <- src[i]` was done for `i = 0, 1, .., n - 1`, in
/// this order.
pub open spec fn overwritten(w: Seq<Bit>, dst: Seq<SharedBit>, src: Seq<SharedBit>, n: nat) -> Seq<
    Bit,
>
    decreases n,
{
    if n == 0 {
        w
    } else {
        let p = overwritten(w, dst, src, (n - 1) as nat);
        p.update(dst[n - 1] as int, p[src[n - 1] as int])
    }
}

/// One more than the greatest handle in `ids`; 0 where there is none.
pub open spec fn ids_top(ids: Seq<SharedBit>) -> nat
    decreases ids.len(),
{
    if ids.len() == 0 {
        0
    } else if ids_top(ids.drop_last()) > ids.last() {
        ids_top(ids.drop_last())
    } else {
        (ids.last() + 1) as nat
    }
}

/// The least handle in `ids`; 0 where there is none.
pub open spec fn ids_bottom(ids: Seq<SharedBit>) -> nat
    decreases ids.len(),
{
    if ids.len() == 0 {
        0
    } else if ids.len() == 1 || ids.last() < ids_bottom(ids.drop_last()) {
        ids.last() as nat
    } else {
        ids_bottom(ids.drop_last())
    }
}

proof fn lemma_ids_extent(ids: Seq<SharedBit>, i: int)
    requires
        0 <= i < ids.len(),
    ensures
        ids_bottom(ids) <= ids[i] < ids_top(ids),
    decreases ids.len(),
{
    if i < ids.len() - 1 {
        lemma_ids_extent(ids.drop_last(), i);
    }
}

proof fn lemma_ids_bounds(ids: Seq<SharedBit>, lo: nat, hi: nat)
    requires
        forall|i: int| 0 <= i < ids.len() ==> lo <= #[trigger] ids[i] < hi,
    ensures
        ids_top(ids) <= hi,
        ids.len() > 0 ==> lo <= ids_bottom(ids),
    decreases ids.len(),
{
    if ids.len() > 0 {
        lemma_ids_bounds(ids.drop_last(), lo, hi);
        assert(ids.last() == ids[ids.len() - 1]);
    }
}

impl Bus<1> {
    /// An `N`-wide bus all of whose positions are the one wire of `self`.
    pub fn widen<const N: usize>(&self) -> (r: Bus<N>)
        ensures
            forall|i: int| 0 <= i < N ==> r.bits[i] == self.bits[0],
            r.within(self.bottom(), self.top()),
            r.below(self.top()),
    {
        let bit: SharedBit = self.get_shared_bit(0);
        let mut bits = [0usize;N];
        let mut i: usize = 0;
        while i < N
            invariant
                i <= N,
                self.bottom() <= bit < self.top(),
                forall|j: int| 0 <= j < i ==> (#[trigger] bits[j]) == bit,
            decreases N - i,
        {
            bits[i] = bit;
            i += 1;
        }
        let r = Bus { bits };
        proof {
            lemma_ids_bounds(r.bits@, self.bottom(), self.top());
        }
        r
    }
}

impl<const N: usize> Bus<N> {
    /// The values on the wires of the bus, position 0 first.
    pub open spec fn value(&self, w: Seq<Bit>) -> Seq<Bit> {
        Seq::new(N as nat, |i: int| w[self.bits[i] as int])
    }

    /// The number on the bus: the sum of `2^i` over the positions that carry `I`.
    pub open spec fn word(&self, w: Seq<Bit>) -> nat {
        bits_to_nat(self.value(w))
    }

    /// One more than the greatest handle of the bus; 0 for a bus of no wire.
    pub closed spec fn top(&self) -> nat {
        ids_top(self.bits@)
    }

    /// The least handle of the bus; 0 for a bus of no wire.
    pub closed spec fn bottom(&self) -> nat {
        ids_bottom(self.bits@)
    }

    /// Every handle is below `n`.
    pub open spec fn below(&self, n: nat) -> bool {
        self.top() <= n
    }

    /// Every handle is in `lo..hi`.
    pub open spec fn within(&self, lo: nat, hi: nat) -> bool {
        self.top() <= hi && (N == 0 || lo <= self.bottom())
    }

    /// No handle is in `lo..hi`.
    pub open spec fn apart(&self, lo: nat, hi: nat) -> bool {
        N == 0 || self.top() <= lo || hi <= self.bottom()
    }

    /// The handles are `base, base + 1, ..`.
    pub open spec fn row(&self, base: nat) -> bool {
        forall|i: int| 0 <= i < N ==> (#[trigger] self.bits[i]) == base + i
    }

    pub fn new(bits: [SharedBit; N]) -> (r: Self)
        ensures
            r.bits == bits,
    {
        Bus { bits }
    }

    /// A bus of `N` new wires that all carry `bit`.
    fn all(wires: &mut Wires, bit: Bit) -> (r: Self)
        ensures
            final(wires)@ == old(wires)@ + fill(N as nat, bit),
            final(wires).mem() == old(wires).mem(),
            r.row(old(wires)@.len()),
            r.within(old(wires)@.len(), final(wires)@.len()),
            r.below(final(wires)@.len()),
            grown(*old(wires), *final(wires)),
    {
        let mut bits = [0usize;N];
        let ghost pre = wires@;
        let mut i: usize = 0;
        while i < N
            invariant
                i <= N,
                wires@ =~= pre + fill(i as nat, bit),
                wires.mem() == old(wires).mem(),
                forall|j: int| 0 <= j < i ==> bits[j] == pre.len() + j,
            decreases N - i,
        {
            let id = wires.add(bit);
            bits[i] = id;
            i += 1;
        }
        let r = Bus { bits };
        proof {
            reveal(grown);
            lemma_ids_bounds(r.bits@, pre.len(), wires@.len());
        }
        r
    }

    /// A bus of `N` new wires that all carry `O`.
    pub fn all0(wires: &mut Wires) -> (r: Self)
        ensures
            final(wires)@ == old(wires)@ + fill(N as nat, Bit::O),
            final(wires).mem() == old(wires).mem(),
            r.row(old(wires)@.len()),
            r.within(old(wires)@.len(), final(wires)@.len()),
            r.below(final(wires)@.len()),
            grown(*old(wires), *final(wires)),
    {
        Self::all(wires, Bit::O)
    }

    /// A bus of `N` new wires that all carry `I`.
    pub fn all1(wires: &mut Wires) -> (r: Self)
        ensures
            final(wires)@ == old(wires)@ + fill(N as nat, Bit::I),
            final(wires).mem() == old(wires).mem(),
            r.row(old(wires)@.len()),
            r.within(old(wires)@.len(), final(wires)@.len()),
            r.below(final(wires)@.len()),
            grown(*old(wires), *final(wires)),
    {
        Self::all(wires, Bit::I)
    }

    /// Parses a binary numeral of exactly `N` digits, most significant
    /// digit first, into a bus of `N` new wires. Any other text is an error
    /// and adds no wire.
    #[verifier::loop_isolation(false)]
    pub fn from_str(s: &str, wires: &mut Wires) -> (r: Result<Self, ParseBusStrError>)
        ensures
            r is Ok <==> is_binary_text(s.spec_bytes(), N as nat),
            r is Ok ==> final(wires)@ == old(wires)@ + text_bits(s.spec_bytes()),
            r is Ok ==> r->Ok_0.value(final(wires)@) == text_bits(s.spec_bytes()),
            r is Ok ==> r->Ok_0.row(old(wires)@.len()),
            r is Ok ==> r->Ok_0.within(old(wires)@.len(), final(wires)@.len()),
            r is Ok ==> r->Ok_0.below(final(wires)@.len()),
            r is Err ==> final(wires)@ == old(wires)@,
            grown(*old(wires), *final(wires)),
            final(wires).mem() == old(wires).mem(),
    {
        proof {
            reveal(grown);
        }
        let text = s.as_bytes();
        if text.len() != N {
            return Err(ParseBusStrError);
        }
        let mut k: usize = 0;
        while k < N
            invariant
                k <= N,
                text@.len() == N,
                text@ == s.spec_bytes(),
                forall|j: int|
                    0 <= j < k ==> (#[trigger] text@[j]) == ZERO_DIGIT || text@[j] == ONE_DIGIT,
            decreases N - k,
        {
            if text[k] != ZERO_DIGIT && text[k] != ONE_DIGIT {
                assert(text@[k as int] != ZERO_DIGIT && text@[k as int] != ONE_DIGIT);
                return Err(ParseBusStrError);
            }
            k += 1;
        }
        let mut bits = [0usize;N];
        let ghost pre = wires@;
        let mut i: usize = 0;
        while i < N
            invariant
                i <= N,
                text@.len() == N,
                wires@ =~= pre + text_bits(text@).take(i as int),
                wires.mem() == old(wires).mem(),
                forall|j: int| 0 <= j < i ==> bits[j] == pre.len() + j,
            decreases N - i,
        {
            let bit = if text[N - 1 - i] == ONE_DIGIT {
                Bit::I
            } else {
                Bit::O
            };
            let id = wires.add(bit);
            bits[i] = id;
            i += 1;
        }
        assert(text_bits(text@).take(N as int) =~= text_bits(text@));
        let r = Bus { bits };
        proof {
            lemma_ids_bounds(r.bits@, pre.len(), wires@.len());
            assert(r.value(wires@) =~= text_bits(text@));
        }
        Ok(r)
    }

    /// The value on the bus as a binary numeral of `N` digits, most
    /// significant digit first: the text that `from_str` reads back.
    pub fn digits(&self, wires: &Wires) -> (text: Vec<u8>)
        requires
            self.below(wires@.len()),
        ensures
            is_binary_text(text@, N as nat),
            text_bits(text@) == self.value(wires@),
    {
        let mut text: Vec<u8> = Vec::new();
        let mut i: usize = 0;
        while i < N
            invariant
                i <= N,
                self.below(wires@.len()),
                text@.len() == i,
                forall|j: int|
                    0 <= j < i ==> (#[trigger] text@[j]) == (if self.value(wires@)[N - 1 - j] == Bit::I {
                        ONE_DIGIT
                    } else {
                        ZERO_DIGIT
                    }),
            decreases N - i,
        {
            let digit = match wires.get(self.get_shared_bit(N - 1 - i)) {
                Bit::I => ONE_DIGIT,
                Bit::O => ZERO_DIGIT,
            };
            text.push(digit);
            i += 1;
        }
        proof {
            assert(text_bits(text@) =~= self.value(wires@));
        }
        text
    }

    pub fn to_shared_bus(self) -> (r: SharedBus<N>)
        ensures
            r.0 == self,
    {
        SharedBus(self)
    }

    /// The handle at position `index`.
    pub fn get_shared_bit(&self, index: usize) -> (bit: SharedBit)
        requires
            index < N,
        ensures
            bit == self.bits[index as int],
            self.bottom() <= bit < self.top(),
    {
        proof {
            lemma_ids_extent(self.bits@, index as int);
        }
        self.bits[index]
    }

    /// The number on the bus, which must fit in 16 bits: the bus is at
    /// most 16 wide, or its wires from position 16 on carry `O`.
    pub fn to_u16(&self, wires: &Wires) -> (u: u16)
        requires
            N <= 16 || self.word(wires@) < 65536,
            self.below(wires@.len()),
        ensures
            u == self.word(wires@),
    {
        let mut u: u16 = 0;
        let mut weight: u32 = 1;
        let ghost value = self.value(wires@);
        let mut i: usize = 0;
        proof {
            lemma2_to64();
            lemma_bits_to_nat_bound(value);
            if N <= 16 {
                lemma_pow2_increases(N as nat, 16);
            }
        }
        while i < N
            invariant
                i <= N,
                bits_to_nat(value) < 65536,
                self.below(wires@.len()),
                value == self.value(wires@),
                i <= 16 ==> weight == pow2(i as nat),
                u == bits_to_nat(value.take(i as int)),
            decreases N - i,
        {
            proof {
                lemma_bits_to_nat_step(value, i as int);
                lemma_bits_to_nat_prefix(value, i + 1);
                lemma_pow2_unfold((i + 1) as nat);
                lemma2_to64();
                if i >= 16 {
                    lemma_pow2_increases(16, i as nat);
                } else {
                    lemma_pow2_increases(i as nat, 15);
                }
            }
            match wires.get(self.get_shared_bit(i)) {
                Bit::I => {
                    u = u + (weight as u16);
                },
                Bit::O => {},
            }
            if i < 16 {
                weight = weight * 2;
            }
            i += 1;
        }
        proof {
            assert(value.take(N as int) =~= value);
        }
        u
    }
}

impl SharedBus<1> {
    /// An `N`-wide bus all of whose positions are the one wire of `self`.
    pub fn widen<const N: usize>(&self) -> (r: SharedBus<N>)
        ensures
            forall|i: int| 0 <= i < N ==> r.0.bits[i] == self.0.bits[0],
            r.within(self.bottom(), self.top()),
            r.below(self.top()),
    {
        self.0.widen().to_shared_bus()
    }
}

impl SharedBus<16> {
    /// Puts the sixteen binary digits of `word` on a row of wires, the
    /// least significant digit on position 0.
    pub fn put(&self, word: u16, wires: &mut Wires)
        requires
            self.row(self.0.bits[0] as nat),
            self.below(old(wires)@.len()),
        ensures
            self.value(final(wires)@) == nat_bits(16, word as nat),
            self.word(final(wires)@) == word,
            final(wires).mem() == old(wires).mem(),
            framed(
                *old(wires),
                *final(wires),
                (Span { lo: self.0.bits[0] as nat, hi: (self.0.bits[0] + 16) as nat, wlo: 0, whi: 0 }),
            ),
    {
        let ghost base = self.0.bits[0] as nat;
        let mut rest: u16 = word;
        let mut i: usize = 0;
        proof {
            lemma2_to64();
            assert forall|j: int| 0 <= j < 16 implies self.bottom() <= (#[trigger] self.0.bits[j])
                < self.top() by {
                lemma_ids_extent(self.0.bits@, j);
            }
        }
        while i < 16
            invariant
                i <= 16,
                self.row(base),
                base + 16 <= wires@.len(),
                wires@.len() == old(wires)@.len(),
                wires.mem() == old(wires).mem(),
                rest as nat == word as nat / pow2(i as nat),
                forall|j: int| 0 <= j < i ==> wires@[base + j] == nat_bits(16, word as nat)[j],
                forall|k: int|
                    0 <= k < wires@.len() && !(base <= k < base + 16) ==> wires@[k] == old(wires)@[k],
            decreases 16 - i,
        {
            let bit = if rest % 2 == 1 {
                Bit::I
            } else {
                Bit::O
            };
            proof {
                vstd::arithmetic::power2::lemma_pow2_pos(i as nat);
                lemma_pow2_unfold((i + 1) as nat);
                vstd::arithmetic::div_mod::lemma_div_denominator(word as int, pow2(i as nat) as int, 2);
                assert(pow2(i as nat) * 2 == pow2((i + 1) as nat));
            }
            wires.set(self.get_shared_bit(i), bit);
            rest = rest / 2;
            i += 1;
        }
        proof {
            assert(self.value(wires@) =~= nat_bits(16, word as nat));
            crate::bit::lemma_nat_bits_value(16, word as nat);
        }
    }
}

impl<const N: usize> SharedBus<N> {
    /// The values on the wires of the bus, position 0 first.
    pub open spec fn value(&self, w: Seq<Bit>) -> Seq<Bit> {
        self.0.value(w)
    }

    /// The number on the bus.
    pub open spec fn word(&self, w: Seq<Bit>) -> nat {
        bits_to_nat(self.value(w))
    }

    /// One more than the greatest handle of the bus; 0 for a bus of no wire.
    pub open spec fn top(&self) -> nat {
        self.0.top()
    }

    /// The least handle of the bus; 0 for a bus of no wire.
    pub open spec fn bottom(&self) -> nat {
        self.0.bottom()
    }

    /// Every handle is below `n`.
    pub open spec fn below(&self, n: nat) -> bool {
        self.0.below(n)
    }

    /// Every handle is in `lo..hi`.
    pub open spec fn within(&self, lo: nat, hi: nat) -> bool {
        self.0.within(lo, hi)
    }

    /// No handle is in `lo..hi`.
    pub open spec fn apart(&self, lo: nat, hi: nat) -> bool {
        self.0.apart(lo, hi)
    }

    /// The handles are `base, base + 1, ..`.
    pub open spec fn row(&self, base: nat) -> bool {
        self.0.row(base)
    }

    /// The handle at position `index`.
    pub fn get_shared_bit(&self, index: usize) -> (bit: SharedBit)
        requires
            index < N,
        ensures
            bit == self.0.bits[index as int],
            self.bottom() <= bit < self.top(),
    {
        self.0.get_shared_bit(index)
    }

    /// A bus whose position `j` is position `bits[j]` of `self`: the same
    /// wires, picked, repeated or reordered.
    pub fn reconnect<const M: usize>(&self, bits: [usize; M]) -> (r: SharedBus<M>)
        requires
            forall|j: int| 0 <= j < M ==> bits[j] < N,
        ensures
            forall|j: int| 0 <= j < M ==> r.0.bits[j] == self.0.bits[bits[j] as int],
            r.within(self.bottom(), self.top()),
            r.below(self.top()),
    {
        let mut picked = [0usize;M];
        let mut j: usize = 0;
        while j < M
            invariant
                j <= M,
                forall|k: int| 0 <= k < M ==> bits[k] < N,
                forall|k: int| 0 <= k < j ==> picked[k] == self.0.bits[bits[k] as int],
                forall|k: int| 0 <= k < j ==> self.bottom() <= (#[trigger] picked[k]) < self.top(),
            decreases M - j,
        {
            picked[j] = self.get_shared_bit(bits[j]);
            j += 1;
        }
        proof {
            lemma_ids_bounds(picked@, self.bottom(), self.top());
        }
        Bus::new(picked).to_shared_bus()
    }

    /// Copies the value of each wire of `bus` onto the wire of `self` at the
    /// same position, from position 0 upwards. No wire is reconnected.
    pub fn overwrite(&self, bus: &Bus<N>, wires: &mut Wires)
        requires
            self.below(old(wires)@.len()),
            bus.below(old(wires)@.len()),
        ensures
            final(wires)@ == overwritten(old(wires)@, self.0.bits@, bus.bits@, N as nat),
            final(wires).mem() == old(wires).mem(),
    {
        let mut i: usize = 0;
        while i < N
            invariant
                i <= N,
                wires@.len() == old(wires)@.len(),
                self.below(wires@.len()),
                bus.below(wires@.len()),
                wires@ == overwritten(old(wires)@, self.0.bits@, bus.bits@, i as nat),
                wires.mem() == old(wires).mem(),
            decreases N - i,
        {
            let bit = wires.get(bus.get_shared_bit(i));
            wires.set(self.get_shared_bit(i), bit);
            i += 1;
        }
    }

    /// The number on the bus, which must fit in 16 bits: the bus is at
    /// most 16 wide, or its wires from position 16 on carry `O`.
    pub fn to_u16(&self, wires: &Wires) -> (u: u16)
        requires
            N <= 16 || self.word(wires@) < 65536,
            self.below(wires@.len()),
        ensures
            u == self.word(wires@),
    {
        self.0.to_u16(wires)
    }

    /// Drives every wire of the bus to `bit`, and no other wire.
    pub fn drive(&self, bit: Bit, wires: &mut Wires)
        requires
            self.below(old(wires)@.len()),
        ensures
            self.value(final(wires)@) == fill(N as nat, bit),
            final(wires)@.len() == old(wires)@.len(),
            final(wires).mem() == old(wires).mem(),
            forall|span: Span|
                self.within(span.lo, span.hi) ==> #[trigger] framed(*old(wires), *final(wires), span),
    {
        let mut i: usize = 0;
        assert forall|j: int| 0 <= j < N implies self.bottom() <= (#[trigger] self.0.bits[j])
            < self.top() by {
            lemma_ids_extent(self.0.bits@, j);
        }
        while i < N
            invariant
                i <= N,
                wires@.len() == old(wires)@.len(),
                wires.mem() == old(wires).mem(),
                self.below(wires@.len()),
                forall|j: int| 0 <= j < N ==> self.bottom() <= (#[trigger] self.0.bits[j]) < self.top(),
                forall|j: int| 0 <= j < i ==> wires@[#[trigger] self.0.bits[j] as int] == bit,
                forall|k: int|
                    0 <= k < wires@.len() && (forall|j: int| 0 <= j < N ==> self.0.bits[j] != k)
                        ==> #[trigger] wires@[k] == old(wires)@[k],
            decreases N - i,
        {
            wires.set(self.get_shared_bit(i), bit);
            i += 1;
        }
        assert(self.value(wires@) =~= fill(N as nat, bit));
        assert forall|span: Span| self.within(span.lo, span.hi) implies #[trigger] framed(
            *old(wires),
            *wires,
            span,
        ) by {
            assert forall|k: int| 0 <= k < wires@.len() && !(span.lo <= k < span.hi) implies wires@[k]
                == old(wires)@[k] by {
                assert(forall|j: int| 0 <= j < N ==> self.0.bits[j] != k);
            }
        }
    }

    /// Whether two buses carry the same value, wire by wire.
    pub fn same_value(&self, other: &SharedBus<N>, wires: &Wires) -> (same: bool)
        requires
            self.below(wires@.len()),
            other.below(wires@.len()),
        ensures
            same == (self.value(wires@) == other.value(wires@)),
    {
        let mut i: usize = 0;
        while i < N
            invariant
                i <= N,
                self.below(wires@.len()),
                other.below(wires@.len()),
                forall|j: int| 0 <= j < i ==> self.value(wires@)[j] == other.value(wires@)[j],
            decreases N - i,
        {
            if wires.get(self.get_shared_bit(i)) != wires.get(other.get_shared_bit(i)) {
                assert(self.value(wires@)[i as int] != other.value(wires@)[i as int]);
                return false;
            }
            i += 1;
        }
        assert(self.value(wires@) =~= other.value(wires@));
        true
    }
}

/// A change of the store inside `span` does not show on a bus that has no
/// wire there.
pub broadcast proof fn lemma_value_framed<const N: usize>(
    bus: SharedBus<N>,
    pre: Wires,
    post: Wires,
    span: Span,
)
    requires
        framed(pre, post, span),
        bus.below(pre@.len()),
        bus.apart(span.lo, span.hi),
    ensures
        #![trigger framed(pre, post, span), bus.value(post@)]
        bus.value(post@) == bus.value(pre@),
{
    assert forall|i: int| 0 <= i < N implies post@[bus.0.bits[i] as int] == pre@[bus.0.bits[i] as int] by {
        lemma_ids_extent(bus.0.bits@, i);
    }
    assert(bus.value(post@) =~= bus.value(pre@));
}

/// Cells added to the store do not show on a bus that was there before.
pub broadcast proof fn lemma_value_grown<const N: usize>(bus: SharedBus<N>, pre: Wires, post: Wires)
    requires
        grown(pre, post),
        bus.below(pre@.len()),
    ensures
        #![trigger grown(pre, post), bus.value(post@)]
        bus.value(post@) == bus.value(pre@),
{
    reveal(grown);
    assert forall|i: int| 0 <= i < N implies post@[bus.0.bits[i] as int] == pre@[bus.0.bits[i] as int] by {
        lemma_ids_extent(bus.0.bits@, i);
    }
    assert(bus.value(post@) =~= bus.value(pre@));
}

/// Every handle of a bus lies between its bottom and its top.
pub proof fn lemma_extent<const N: usize>(bus: SharedBus<N>, i: int)
    requires
        0 <= i < N,
    ensures
        bus.bottom() <= bus.0.bits[i] < bus.top(),
{
    lemma_ids_extent(bus.0.bits@, i);
}

/// A bus all of whose handles are in `lo..hi` lies within `lo..hi`.
pub proof fn lemma_extent_bounds<const N: usize>(bus: SharedBus<N>, lo: nat, hi: nat)
    requires
        forall|i: int| 0 <= i < N ==> lo <= #[trigger] bus.0.bits[i] < hi,
    ensures
        bus.within(lo, hi),
        bus.below(hi),
{
    lemma_ids_bounds(bus.0.bits@, lo, hi);
}

/// The one handle of a 1-bit bus is its bottom, and its top is one more.
pub broadcast proof fn lemma_extent_single(bus: Bus<1>)
    ensures
        #![trigger bus.top()]
        #![trigger bus.bottom()]
        bus.top() == bus.bits[0] + 1,
        bus.bottom() == bus.bits[0],
{
    reveal_with_fuel(ids_top, 2);
    reveal_with_fuel(ids_bottom, 2);
    assert(bus.bits@.drop_last().len() == 0);
}

/// Overwriting a row of wires from a bus that has no wire in that row
/// copies the value of the bus and changes nothing else.
pub proof fn lemma_overwritten_row<const N: usize>(
    w: Seq<Bit>,
    dst: SharedBus<N>,
    src: SharedBus<N>,
    base: nat,
)
    requires
        dst.row(base),
        base + N <= w.len(),
        src.below(w.len()),
        src.apart(base, base + N as nat),
    ensures
        overwritten(w, dst.0.bits@, src.0.bits@, N as nat).len() == w.len(),
        dst.value(overwritten(w, dst.0.bits@, src.0.bits@, N as nat)) == src.value(w),
        forall|i: int|
            0 <= i < w.len() && !(base <= i < base + N) ==> overwritten(
                w,
                dst.0.bits@,
                src.0.bits@,
                N as nat,
            )[i] == w[i],
{
    lemma_overwritten_prefix(w, dst, src, base, N as nat);
    let r = overwritten(w, dst.0.bits@, src.0.bits@, N as nat);
    assert(dst.value(r) =~= src.value(w));
}

proof fn lemma_overwritten_prefix<const N: usize>(
    w: Seq<Bit>,
    dst: SharedBus<N>,
    src: SharedBus<N>,
    base: nat,
    n: nat,
)
    requires
        dst.row(base),
        base + N <= w.len(),
        src.below(w.len()),
        src.apart(base, base + N as nat),
        n <= N,
    ensures
        overwritten(w, dst.0.bits@, src.0.bits@, n).len() == w.len(),
        forall|i: int|
            0 <= i < w.len() && !(base <= i < base + n) ==> overwritten(
                w,
                dst.0.bits@,
                src.0.bits@,
                n,
            )[i] == w[i],
        forall|j: int|
            0 <= j < n ==> overwritten(w, dst.0.bits@, src.0.bits@, n)[base + j] == w[src.0.bits[j] as int],
    decreases n,
{
    assert forall|j: int| 0 <= j < N implies src.bottom() <= (#[trigger] src.0.bits[j]) < src.top() by {
        lemma_ids_extent(src.0.bits@, j);
    }
    if n > 0 {
        lemma_overwritten_prefix(w, dst, src, base, (n - 1) as nat);
        assert(dst.0.bits[n - 1] == base + n - 1);
        assert(src.0.bits[n - 1] < w.len());
    }
}

pub broadcast group group_build {
    lemma_value_grown,
    lemma_extent_single,
    group_grown,
}

pub broadcast group group_run {
    lemma_value_framed,
    lemma_extent_single,
}

proof fn lemma_pow2_increases(a: nat, b: nat)
    requires
        a <= b,
    ensures
        pow2(a) <= pow2(b),
    decreases b - a,
{
    if a < b {
        lemma_pow2_increases(a, (b - 1) as nat);
        lemma_pow2_unfold(b);
    }
}

} // verus!
