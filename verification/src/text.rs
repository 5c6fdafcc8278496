//! Positions in a text: character indices, byte offsets and line numbers.
//!
//! The scanner counts in characters. What it reports is counted in bytes of
//! the UTF-8 encoding and in lines; both are functions of the text and of a
//! character index, defined here together with the facts that the scanner
//! needs about them.

use vstd::prelude::*;
use vstd::std_specs::iter::IteratorSpec;
use vstd::string::StringSliceAdditionalSpecFns;
use vstd::utf8::*;

verus! {

/// The number of bytes that `c` takes in UTF-8.
pub open spec fn utf8_width(c: char) -> nat {
    encode_scalar(c as u32).len()
}

/// The number of bytes that the first `i` characters of `text` take in UTF-8,
/// which is the byte offset at which the character with index `i` begins.
pub open spec fn byte_offset(text: Seq<char>, i: int) -> nat {
    encode_utf8(text.take(i)).len()
}

/// The number of newline characters in `s`.
pub open spec fn newline_count(s: Seq<char>) -> nat
    decreases s.len(),
{
    if s.len() == 0 {
        0
    } else {
        newline_count(s.drop_last()) + if s.last() == '\n' {
            1nat
        } else {
            0nat
        }
    }
}

/// The number of the line that holds the character with index `i`; lines are
/// counted from 1, and a newline character ends its line.
pub open spec fn line_number(text: Seq<char>, i: int) -> nat {
    1 + newline_count(text.take(i))
}

/// Encoding a concatenation gives the concatenation of the encodings.
pub proof fn lemma_encode_concat(a: Seq<char>, b: Seq<char>)
    ensures
        encode_utf8(a + b) == encode_utf8(a) + encode_utf8(b),
    decreases a.len(),
{
    if a.len() == 0 {
        assert(a + b =~= b);
        assert(encode_utf8(a) + encode_utf8(b) =~= encode_utf8(b));
    } else {
        lemma_encode_concat(a.drop_first(), b);
        assert((a + b).drop_first() =~= a.drop_first() + b);
        assert(encode_utf8(a + b) =~= encode_utf8(a) + encode_utf8(b));
    }
}

/// Every character takes between one and four bytes; a newline takes one.
pub proof fn lemma_width_bounds(c: char)
    ensures
        1 <= utf8_width(c) <= 4,
        c == '\n' ==> utf8_width(c) == 1,
{
    char_is_scalar(c);
}

/// Stepping over one character adds its width to the byte offset, and adds one
/// to the line number exactly when the character is a newline.
pub proof fn lemma_step(text: Seq<char>, i: int)
    requires
        0 <= i < text.len(),
    ensures
        byte_offset(text, i + 1) == byte_offset(text, i) + utf8_width(text[i]),
        line_number(text, i + 1) == line_number(text, i) + if text[i] == '\n' {
            1nat
        } else {
            0nat
        },
{
    let head = text.take(i);
    let one = seq![text[i]];
    assert(text.take(i + 1) =~= head + one);
    lemma_encode_concat(head, one);
    assert(one.drop_first() =~= Seq::<char>::empty());
    assert(encode_utf8(one) =~= encode_scalar(text[i] as u32)) by {
        reveal_with_fuel(encode_utf8, 2);
    }
    assert(text.take(i + 1).drop_last() =~= head);
}

/// A text has at most as many newlines as characters.
pub proof fn lemma_newlines_bounded(s: Seq<char>)
    ensures
        newline_count(s) <= s.len(),
    decreases s.len(),
{
    if s.len() > 0 {
        lemma_newlines_bounded(s.drop_last());
    }
}

/// A character index never exceeds the byte offset that belongs to it, and
/// byte offsets grow with the index.
pub proof fn lemma_offsets_ordered(text: Seq<char>, i: int, j: int)
    requires
        0 <= i <= j <= text.len(),
    ensures
        j - i <= byte_offset(text, j) - byte_offset(text, i),
    decreases j - i,
{
    if i < j {
        lemma_offsets_ordered(text, i, j - 1);
        lemma_step(text, j - 1);
        lemma_width_bounds(text[j - 1]);
    }
}

/// The byte offset of a character index is a character boundary of the
/// encoded text.
pub proof fn lemma_offset_is_boundary(text: Seq<char>, i: int)
    requires
        0 <= i <= text.len(),
    ensures
        is_char_boundary(encode_utf8(text), byte_offset(text, i) as int),
    decreases i,
{
    let bytes = encode_utf8(text);
    encode_utf8_valid_utf8(text);
    if i == 0 {
        assert(text.take(0) =~= Seq::<char>::empty());
    } else {
        let rest = text.drop_first();
        encode_utf8_first_scalar(text);
        assert(pop_first_scalar(bytes) =~= encode_utf8(rest));
        assert(text.take(i).drop_first() =~= rest.take(i - 1));
        lemma_offset_is_boundary(rest, i - 1);
        assert(text.take(text.len() as int) =~= text);
        lemma_offsets_ordered(text, i, text.len() as int);
        lemma_offsets_ordered(text, 0, i);
    }
}

/// Two character sequences with the same encoding are the same sequence.
pub proof fn lemma_encode_injective(a: Seq<char>, b: Seq<char>)
    requires
        encode_utf8(a) == encode_utf8(b),
    ensures
        a == b,
{
    encode_utf8_decode_utf8(a);
    encode_utf8_decode_utf8(b);
}

/// The number of bytes that `c` takes in UTF-8.
pub(crate) fn width_of(c: char) -> (n: usize)
    ensures
        n == utf8_width(c),
{
    proof {
        char_is_scalar(c);
    }
    let v: u32 = c as u32;
    if v < 0x80 {
        1
    } else if v < 0x800 {
        2
    } else if v < 0x10000 {
        3
    } else {
        4
    }
}

/// The part of `whole` that begins at the character with index `i`, which is
/// found at `byte_pos`.
pub(crate) fn tail_from<'a>(whole: &'a str, byte_pos: usize, Ghost(i): Ghost<int>) -> (rest:
    &'a str)
    requires
        0 <= i <= whole@.len(),
        byte_pos == byte_offset(whole@, i),
    ensures
        rest@ == whole@.skip(i),
{
    proof {
        lemma_offset_is_boundary(whole@, i);
    }
    let (_, rest) = whole.split_at(byte_pos);
    proof {
        assert(whole@ =~= whole@.take(i) + whole@.skip(i));
        lemma_encode_concat(whole@.take(i), whole@.skip(i));
        assert(rest.spec_bytes() =~= encode_utf8(whole@.skip(i)));
        lemma_encode_injective(rest@, whole@.skip(i));
    }
    rest
}

/// The part of `whole` that ends before the character with index `i`, which is
/// found at `byte_pos`.
pub(crate) fn head_to<'a>(whole: &'a str, byte_pos: usize, Ghost(i): Ghost<int>) -> (head:
    &'a str)
    requires
        0 <= i <= whole@.len(),
        byte_pos == byte_offset(whole@, i),
    ensures
        head@ == whole@.take(i),
{
    proof {
        lemma_offset_is_boundary(whole@, i);
    }
    let (head, _) = whole.split_at(byte_pos);
    proof {
        assert(whole@ =~= whole@.take(i) + whole@.skip(i));
        lemma_encode_concat(whole@.take(i), whole@.skip(i));
        assert(head.spec_bytes() =~= encode_utf8(whole@.take(i)));
        lemma_encode_injective(head@, whole@.take(i));
    }
    head
}

/// The characters of `whole` with indices from `i` up to `j`, which lie
/// between the byte offsets `start` and `end`.
pub(crate) fn slice_between<'a>(
    whole: &'a str,
    start: usize,
    end: usize,
    Ghost(i): Ghost<int>,
    Ghost(j): Ghost<int>,
) -> (part: &'a str)
    requires
        0 <= i <= j <= whole@.len(),
        start == byte_offset(whole@, i),
        end == byte_offset(whole@, j),
    ensures
        part@ == whole@.subrange(i, j),
{
    let head = head_to(whole, end, Ghost(j));
    proof {
        assert(whole@.take(j).take(i) =~= whole@.take(i));
    }
    let part = tail_from(head, start, Ghost(i));
    proof {
        assert(whole@.take(j).skip(i) =~= whole@.subrange(i, j));
    }
    part
}

/// The character of `rest` with index `n`, if there is one.
pub(crate) fn nth_char(rest: &str, n: usize) -> (c: Option<char>)
    ensures
        c == if n < rest@.len() {
            Some(rest@[n as int])
        } else {
            None
        },
{
    let mut chars = rest.chars();
    let mut k: usize = 0;
    while k < n
        invariant
            k <= n,
            k <= rest@.len(),
            chars.remaining() == rest@.skip(k as int),
        decreases n - k,
    {
        match chars.next() {
            Some(_) => {
                proof {
                    assert(rest@.skip(k as int).drop_first() =~= rest@.skip(k + 1));
                }
                k = k + 1;
            },
            None => {
                return None;
            },
        }
    }
    let c = chars.next();
    c
}

} // verus!
