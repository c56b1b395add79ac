//! The store that holds the value of every wire and memory word.
use vstd::prelude::*;
use crate::bit::Bit;

verus! {

/// Handle of one shared bit cell: the number of its slot in the store.
///
/// Two bus positions that hold the same handle are the same wire: a write
/// through one is seen through the other.
pub type SharedBit = usize;

/// The cells that one gate owns: the bit cells `lo..hi` and the memory
/// words `wlo..whi`.
pub struct Span {
    pub lo: nat,
    pub hi: nat,
    pub wlo: nat,
    pub whi: nat,
}

/// All mutable state of a circuit: one slot per bit cell, and one per word
/// of the word-array memories.
pub struct Wires {
    bits: Vec<Bit>,
    words: Vec<u16>,
}

impl View for Wires {
    type V = Seq<Bit>;

    closed spec fn view(&self) -> Seq<Bit> {
        self.bits@
    }
}

impl Span {
    /// The span lies inside the store.
    pub open spec fn fits(self, w: Wires) -> bool {
        self.lo <= self.hi <= w@.len() && self.wlo <= self.whi <= w.mem().len()
    }

    /// Every cell of `self` comes before every cell of `next`.
    pub open spec fn before(self, next: Span) -> bool {
        self.hi <= next.lo && self.whi <= next.wlo
    }

    /// The cells that were added between two states of the store.
    pub open spec fn added(pre: Wires, post: Wires) -> Span {
        Span { lo: pre@.len(), hi: post@.len(), wlo: pre.mem().len(), whi: post.mem().len() }
    }

    /// From the first cell of `self` to the last of `last`.
    pub open spec fn through(self, last: Span) -> Span {
        Span { lo: self.lo, hi: last.hi, wlo: self.wlo, whi: last.whi }
    }
}

/// `post` has the size of `pre` and differs from it inside `span` at most.
pub open spec fn framed(pre: Wires, post: Wires, span: Span) -> bool {
    &&& post@.len() == pre@.len()
    &&& post.mem().len() == pre.mem().len()
    &&& forall|i: int| 0 <= i < pre@.len() && !(span.lo <= i < span.hi) ==> #[trigger] post@[i] == pre@[i]
    &&& forall|k: int|
        0 <= k < pre.mem().len() && !(span.wlo <= k < span.whi) ==> #[trigger] post.mem()[k]
            == pre.mem()[k]
}

/// `post` is `pre` with cells added at the end.
#[verifier::opaque]
pub open spec fn grown(pre: Wires, post: Wires) -> bool {
    &&& pre@.len() <= post@.len()
    &&& pre.mem().len() <= post.mem().len()
    &&& forall|i: int| 0 <= i < pre@.len() ==> #[trigger] post@[i] == pre@[i]
    &&& forall|k: int| 0 <= k < pre.mem().len() ==> #[trigger] post.mem()[k] == pre.mem()[k]
}

/// Growth follows growth.
pub broadcast proof fn lemma_grown_twice(a: Wires, b: Wires, c: Wires)
    requires
        #[trigger] grown(a, b),
        #[trigger] grown(b, c),
    ensures
        grown(a, c),
{
    reveal(grown);
}

/// A store has grown from itself, by nothing.
pub broadcast proof fn lemma_grown_same(a: Wires)
    ensures
        #[trigger] grown(a, a),
{
    reveal(grown);
}

/// What grew is at least as long.
pub broadcast proof fn lemma_grown_len(a: Wires, b: Wires)
    requires
        #[trigger] grown(a, b),
    ensures
        a@.len() <= b@.len(),
        a.mem().len() <= b.mem().len(),
{
    reveal(grown);
}

pub broadcast group group_grown {
    lemma_grown_twice,
    lemma_grown_same,
    lemma_grown_len,
}

impl Wires {
    /// The memory words, in the order in which they were added.
    pub closed spec fn mem(&self) -> Seq<u16> {
        self.words@
    }

    /// An empty store.
    pub fn new() -> (w: Wires)
        ensures
            w@.len() == 0,
            w.mem().len() == 0,
    {
        Wires { bits: Vec::new(), words: Vec::new() }
    }

    /// Number of bit cells.
    pub fn len(&self) -> (n: usize)
        ensures
            n == self@.len(),
    {
        self.bits.len()
    }

    /// Number of memory words.
    pub fn mem_len(&self) -> (n: usize)
        ensures
            n == self.mem().len(),
    {
        self.words.len()
    }

    /// Adds a bit cell that holds `bit` and returns its handle.
    pub fn add(&mut self, bit: Bit) -> (id: SharedBit)
        ensures
            id == old(self)@.len(),
            final(self)@ == old(self)@.push(bit),
            final(self).mem() == old(self).mem(),
    {
        let id: usize = self.bits.len();
        self.bits.push(bit);
        id
    }

    /// The value on wire `id`.
    pub fn get(&self, id: SharedBit) -> (bit: Bit)
        requires
            id < self@.len(),
        ensures
            bit == self@[id as int],
    {
        self.bits[id]
    }

    /// Drives wire `id` to `bit`.
    pub fn set(&mut self, id: SharedBit, bit: Bit)
        requires
            id < old(self)@.len(),
        ensures
            final(self)@ == old(self)@.update(id as int, bit),
            final(self).mem() == old(self).mem(),
    {
        self.bits.set(id, bit);
    }

    /// Adds a memory word that holds `word` and returns its number.
    pub fn add_word(&mut self, word: u16) -> (k: usize)
        ensures
            k == old(self).mem().len(),
            final(self).mem() == old(self).mem().push(word),
            final(self)@ == old(self)@,
    {
        let k: usize = self.words.len();
        self.words.push(word);
        k
    }

    /// Memory word number `k`.
    pub fn word(&self, k: usize) -> (word: u16)
        requires
            k < self.mem().len(),
        ensures
            word == self.mem()[k as int],
    {
        self.words[k]
    }

    /// Stores `word` as memory word number `k`.
    pub fn set_word(&mut self, k: usize, word: u16)
        requires
            k < old(self).mem().len(),
        ensures
            final(self).mem() == old(self).mem().update(k as int, word),
            final(self)@ == old(self)@,
    {
        self.words.set(k, word);
    }
}

} // verus!
