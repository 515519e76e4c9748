//! Random usernames and passwords, for filling a table.

use std::ops::Range;

use rand::Rng;
use vstd::prelude::*;

verus! {

/// The printable ASCII characters, in the order in which they are drawn by
/// index.
pub const ASCII: [char; 94] = [
    '@', '`', '!', 'A', 'a', '"', 'B', 'b', '#', 'C', 'c', '$', 'D', 'd', '%', 'E', 'e', '&', 'F',
    'f', '\'', 'G', 'g', '(', 'H', 'h', ')', 'I', 'i', '*', 'J', 'j', '+', 'K', 'k', ',', 'L', 'l',
    '-', 'M', 'm', '.', 'N', 'n', '/', 'O', 'o', '0', 'P', 'p', '1', 'Q', 'q', '2', 'R', 'r', '3',
    'S', 's', '4', 'T', 't', '5', 'U', 'u', '6', 'V', 'v', '7', 'W', 'w', '8', 'X', 'x', '9', 'Y',
    'y', ':', 'Z', 'z', ';', '[', '{', '<', '\\', '|', '=', ']', '}', '>', '^', '~', '?', '_',
];

/// The number of characters that `randstr` draws from: all of `ASCII` but
/// the last.
pub const DRAWN: usize = 93;

/// Whether `randstr` can draw the character `c`.
pub open spec fn drawable(c: char) -> bool {
    exists|k: int| 0 <= k < DRAWN && #[trigger] ASCII@[k] == c
}

/// Whether `randstr` can return `text` for a length from `low` up to, and
/// not including, `high`.
pub open spec fn drawn_text(text: Seq<char>, low: int, high: int) -> bool {
    &&& low <= text.len() < high
    &&& forall|i: int| 0 <= i < text.len() ==> drawable(#[trigger] text[i])
}

/// The characters that can be drawn are the printable ASCII characters but
/// the underscore.
pub proof fn lemma_drawable_printable(c: char)
    ensures
        drawable(c) <==> ('!' <= c <= '~' && c != '_'),
{
    if drawable(c) {
        let k = choose|k: int| 0 <= k < DRAWN && #[trigger] ASCII@[k] == c;
        assert(ASCII@[k] == c);
    }
    if '!' <= c <= '~' && c != '_' {
        let code = c as int;
        let k: int = if code >= 0x60 {
            3 * (code - 0x60) + 1
        } else if code >= 0x40 {
            3 * (code - 0x40)
        } else {
            3 * (code - 0x21) + 2
        };
        assert(ASCII@[k] == c);
    }
}

/// The text that the indices `picks` spell in `ASCII`.
pub open spec fn spelled(picks: Seq<usize>) -> Seq<char> {
    Seq::new(picks.len(), |i: int| ASCII@[picks[i] as int])
}

/// `String::push` appends one character to the string.
pub assume_specification[ String::push ](text: &mut String, c: char)
    ensures
        final(text)@ == old(text)@.push(c),
;

/// A number drawn by `rand::Rng::gen_range` from the thread-local generator
/// `rand::thread_rng`. The draw differs from call to call; it always lies in
/// `range`, which must not be empty.
#[verifier::external_body]
pub fn randint(range: Range<usize>) -> (n: usize)
    requires
        range.start < range.end,
    ensures
        range.start <= n < range.end,
{
    rand::thread_rng().gen_range(range)
}

/// The text that `picks` spells: one character of `ASCII` for each index.
pub fn spell(picks: &Vec<usize>) -> (text: String)
    requires
        forall|i: int| 0 <= i < picks@.len() ==> (#[trigger] picks@[i]) < ASCII@.len(),
    ensures
        text@ == spelled(picks@),
{
    let mut text = String::new();
    let mut i: usize = 0;
    while i < picks.len()
        invariant
            i <= picks@.len(),
            forall|j: int| 0 <= j < picks@.len() ==> (#[trigger] picks@[j]) < ASCII@.len(),
            text@ == spelled(picks@.take(i as int)),
        decreases picks@.len() - i,
    {
        text.push(ASCII[picks[i]]);
        assert(text@ =~= spelled(picks@.take(i + 1)));
        i = i + 1;
    }
    assert(picks@.take(i as int) == picks@);
    text
}

/// A random text whose length is drawn from `size` and whose characters are
/// drawn from the first `DRAWN` entries of `ASCII`.
pub fn randstr(size: Range<usize>) -> (text: String)
    requires
        size.start < size.end,
    ensures
        drawn_text(text@, size.start as int, size.end as int),
{
    let length: usize = randint(size);
    let mut picks: Vec<usize> = Vec::new();
    let mut i: usize = 0;
    while i < length
        invariant
            i <= length,
            picks@.len() == i,
            forall|j: int| 0 <= j < i ==> (#[trigger] picks@[j]) < DRAWN,
        decreases length - i,
    {
        picks.push(randint(0..DRAWN));
        i = i + 1;
    }
    let text = spell(&picks);
    assert forall|i: int| 0 <= i < text@.len() implies drawable(#[trigger] text@[i]) by {
        assert(ASCII@[picks@[i] as int] == text@[i]);
    }
    text
}

} // verus!
