//! The text form of a program: one instruction per line, written as binary
//! digits with the most significant digit first.
use vstd::prelude::*;
use vstd::string::StringSliceAdditionalSpecFns;
use crate::builtin::ROM32KBuiltIn;
use crate::gate::Gate;
use crate::bus::{ParseBusStrError, SharedBus, ONE_DIGIT, ZERO_DIGIT};
use crate::wires::{Span, Wires, grown};

verus! {

/// The byte that ends a line.
pub const LINE_END: u8 = 10;

/// The byte of a space.
pub const SPACE: u8 = 32;

/// The byte of a tab.
pub const TAB: u8 = 9;

/// A space or a tab.
pub open spec fn is_blank(b: u8) -> bool {
    b == SPACE || b == TAB
}

/// The number of bytes before the first line end; the length of the text
/// where there is none.
pub open spec fn first_break(text: Seq<u8>) -> nat
    decreases text.len(),
{
    if text.len() == 0 || text[0] == LINE_END {
        0
    } else {
        1 + first_break(text.drop_first())
    }
}

/// The number of blanks that a line begins with.
pub open spec fn leading_blanks(line: Seq<u8>) -> nat
    decreases line.len(),
{
    if line.len() == 0 || !is_blank(line[0]) {
        0
    } else {
        1 + leading_blanks(line.drop_first())
    }
}

/// The number that binary digits spell, modulo 2^16: the value of the last
/// sixteen digits. A byte that is not the digit 1 counts as 0.
pub open spec fn digits_word(digits: Seq<u8>) -> nat
    decreases digits.len(),
{
    if digits.len() == 0 {
        0
    } else {
        (2 * digits_word(digits.drop_last()) + if digits.last() == ONE_DIGIT {
            1nat
        } else {
            0nat
        }) % 65536
    }
}

/// Every byte is the digit 0 or the digit 1.
pub open spec fn all_binary(digits: Seq<u8>) -> bool {
    forall|i: int| 0 <= i < digits.len() ==> (#[trigger] digits[i]) == ZERO_DIGIT || digits[i] == ONE_DIGIT
}

/// The word that a line spells: after any leading blanks, binary digits
/// only, of which the last sixteen count and missing high digits are 0.
/// A line with any other byte spells nothing.
pub open spec fn line_word(line: Seq<u8>) -> Option<u16> {
    let digits = line.skip(leading_blanks(line) as int);
    if all_binary(digits) {
        Some(digits_word(digits) as u16)
    } else {
        None
    }
}

/// The words of the first `room` lines of a text, or nothing where one of
/// them spells no word. A text that ends with a line end has no further
/// line after it.
pub open spec fn rom_parse(text: Seq<u8>, room: nat) -> Option<Seq<u16>>
    decreases text.len(),
{
    if text.len() == 0 || room == 0 {
        Some(Seq::<u16>::empty())
    } else {
        let k = first_break(text) as int;
        let rest = if 0 <= k < text.len() {
            text.skip(k + 1)
        } else {
            Seq::<u8>::empty()
        };
        match line_word(text.take(k)) {
            None => None,
            Some(w) => match rom_parse(rest, (room - 1) as nat) {
                None => None,
                Some(words) => Some(seq![w] + words),
            },
        }
    }
}

/// `words` followed by zeros, `n` words in all.
pub open spec fn padded(words: Seq<u16>, n: nat) -> Seq<u16> {
    Seq::new(
        n,
        |i: int|
            if i < words.len() {
                words[i]
            } else {
                0u16
            },
    )
}

proof fn lemma_first_break(text: Seq<u8>, k: int)
    requires
        0 <= k <= text.len(),
        forall|j: int| 0 <= j < k ==> text[j] != LINE_END,
        k == text.len() || text[k] == LINE_END,
    ensures
        first_break(text) == k,
    decreases k,
{
    if k > 0 {
        lemma_first_break(text.drop_first(), k - 1);
    }
}

proof fn lemma_leading_blanks(line: Seq<u8>, k: int)
    requires
        0 <= k <= line.len(),
        forall|j: int| 0 <= j < k ==> is_blank(line[j]),
        k == line.len() || !is_blank(line[k]),
    ensures
        leading_blanks(line) == k,
    decreases k,
{
    if k > 0 {
        lemma_leading_blanks(line.drop_first(), k - 1);
    }
}

proof fn lemma_first_break_bound(text: Seq<u8>)
    ensures
        first_break(text) <= text.len(),
    decreases text.len(),
{
    if text.len() > 0 && text[0] != LINE_END {
        lemma_first_break_bound(text.drop_first());
    }
}

/// The word of the line `text[from..to]`, or `None` where it spells none.
pub fn parse_line(text: &[u8], from: usize, to: usize) -> (r: Option<u16>)
    requires
        from <= to <= text@.len(),
    ensures
        r == line_word(text@.subrange(from as int, to as int)),
{
    let ghost line = text@.subrange(from as int, to as int);
    let mut i: usize = from;
    while i < to && (text[i] == SPACE || text[i] == TAB)
        invariant
            from <= i <= to <= text@.len(),
            line == text@.subrange(from as int, to as int),
            forall|j: int| 0 <= j < i - from ==> is_blank(#[trigger] line[j]),
        decreases to - i,
    {
        i += 1;
    }
    proof {
        lemma_leading_blanks(line, i - from);
    }
    let ghost digits = line.skip(i - from);
    let start = i;
    let mut word: u32 = 0;
    while i < to
        invariant
            start <= i <= to <= text@.len(),
            from <= start,
            line == text@.subrange(from as int, to as int),
            digits == line.skip(start - from),
            leading_blanks(line) == start - from,
            forall|j: int|
                0 <= j < i - start ==> (#[trigger] digits[j]) == ZERO_DIGIT || digits[j] == ONE_DIGIT,
            word == digits_word(digits.take(i - start)),
            word < 65536,
        decreases to - i,
    {
        let b = text[i];
        if b != ZERO_DIGIT && b != ONE_DIGIT {
            proof {
                assert(digits[i - start] == b);
                assert(!all_binary(digits));
            }
            return None;
        }
        proof {
            assert(digits.take(i - start + 1).drop_last() =~= digits.take(i - start));
            assert(digits.take(i - start + 1).last() == b);
        }
        word = (word * 2 + if b == ONE_DIGIT {
            1
        } else {
            0
        }) % 65536;
        i += 1;
    }
    proof {
        assert(digits.take(to - start) =~= digits);
    }
    Some(word as u16)
}

impl ROM32KBuiltIn {
    /// A program memory that holds the program of a text: line `n` of the
    /// text is word `n`, and the words after the last line are 0. Only the
    /// first 32768 lines are read. Where one of them spells no word, the
    /// text is refused and nothing is built.
    pub fn from_rom_str(rom_str: &str, address: SharedBus<15>, wires: &mut Wires) -> (r: Result<
        ROM32KBuiltIn,
        ParseBusStrError,
    >)
        requires
            address.below(old(wires)@.len()),
        ensures
            r is Ok <==> rom_parse(rom_str.spec_bytes(), 32768) is Some,
            r is Err ==> *final(wires) == *old(wires),
            r is Ok ==> {
                let rom = r->Ok_0;
                &&& rom.wired()
                &&& rom.words() == padded(rom_parse(rom_str.spec_bytes(), 32768)->Some_0, 32768)
                &&& rom.address() == address
                &&& rom.span() == Span::added(*old(wires), *final(wires))
                &&& grown(*old(wires), *final(wires))
            },
    {
        let text = rom_str.as_bytes();
        let mut rom = [0u16;32768];
        let mut index: usize = 0;
        let mut pos: usize = 0;
        let ghost whole = text@;
        proof {
            assert(whole.skip(0) =~= whole);
            match rom_parse(whole, 32768) {
                None => {},
                Some(words) => {
                    assert(rom@.take(0) + words =~= words);
                },
            }
        }
        while pos < text.len() && index < 32768
            invariant
                pos <= text@.len(),
                index <= 32768,
                whole == text@,
                whole == rom_str.spec_bytes(),
                forall|j: int| index <= j < 32768 ==> rom[j] == 0,
                rom_parse(whole, 32768) == (match rom_parse(whole.skip(pos as int), (32768 - index) as nat) {
                    None => None::<Seq<u16>>,
                    Some(words) => Some(rom@.take(index as int) + words),
                }),
            decreases text@.len() - pos,
        {
            let ghost rest = whole.skip(pos as int);
            let mut end: usize = pos;
            while end < text.len() && text[end] != LINE_END
                invariant
                    pos <= end <= text@.len(),
                    whole == text@,
                    forall|j: int| pos <= j < end ==> whole[j] != LINE_END,
                decreases text@.len() - end,
            {
                end += 1;
            }
            proof {
                lemma_first_break(rest, end - pos);
                assert(rest.take(end - pos) =~= whole.subrange(pos as int, end as int));
                if end < whole.len() {
                    assert(rest.skip(end - pos + 1) =~= whole.skip(end + 1));
                } else {
                    assert(Seq::<u8>::empty() =~= whole.skip(end as int));
                }
            }
            match parse_line(text, pos, end) {
                None => {
                    proof {
                        assert(rom_parse(rest, (32768 - index) as nat) is None);
                    }
                    return Err(ParseBusStrError);
                },
                Some(word) => {
                    let ghost before = rom@;
                    rom[index] = word;
                    proof {
                        let next = if end < whole.len() {
                            whole.skip(end + 1)
                        } else {
                            whole.skip(end as int)
                        };
                        match rom_parse(next, (32768 - index - 1) as nat) {
                            None => {},
                            Some(words) => {
                                assert(before.take(index as int) + (seq![word] + words) =~= rom@.take(
                                    index + 1,
                                ) + words);
                            },
                        }
                    }
                    index += 1;
                    pos = if end < text.len() {
                        end + 1
                    } else {
                        end
                    };
                },
            }
        }
        proof {
            let words = rom_parse(whole.skip(pos as int), (32768 - index) as nat)->Some_0;
            assert(words.len() == 0);
            assert(rom@ =~= padded(rom@.take(index as int) + words, 32768));
        }
        Ok(ROM32KBuiltIn::new(Box::new(rom), address, wires))
    }
}

} // verus!
