//! Text building blocks, stated over sequences of characters.
//!
//! Messages and keys in this crate are specified as the characters they hold.
//! This module has the pieces those statements are made of: numbers written in
//! decimal and hexadecimal, trimming, and finding and replacing one text inside
//! another.

use vstd::prelude::*;

verus! {

/// `String::push`: appends one character to the end of a string.
pub assume_specification[ String::push ](s: &mut String, c: char)
    ensures
        final(s)@ == old(s)@.push(c),
;

/// Whether two texts hold the same characters.
pub fn same(a: &str, b: &str) -> (same: bool)
    ensures
        same == (a@ == b@),
{
    let left: &[u8] = a.as_bytes();
    let right: &[u8] = b.as_bytes();
    proof {
        vstd::utf8::encode_utf8_decode_utf8(a@);
        vstd::utf8::encode_utf8_decode_utf8(b@);
    }
    if left.len() != right.len() {
        return false;
    }
    let mut index: usize = 0;
    while index < left.len()
        invariant
            index <= left@.len(),
            left@.len() == right@.len(),
            left@ == vstd::utf8::encode_utf8(a@),
            right@ == vstd::utf8::encode_utf8(b@),
            forall|i: int| 0 <= i < index ==> left@[i] == right@[i],
        decreases left@.len() - index,
    {
        if left[index] != right[index] {
            return false;
        }
        index = index + 1;
    }
    assert(left@ =~= right@);
    true
}

/// Every character of a text, in order.
pub fn chars_of(text: &str) -> (letters: Vec<char>)
    ensures
        letters@ == text@,
{
    let mut letters: Vec<char> = Vec::new();
    for letter in it: text.chars()
        invariant
            it.seq() == text@,
            letters@ == text@.take(it.index() as int),
    {
        letters.push(letter);
    }
    assert(text@.take(text@.len() as int) =~= text@);
    letters
}

/// Append characters `from..to` of `letters` to `text`.
fn push_range(text: &mut String, letters: &Vec<char>, from: usize, to: usize)
    requires
        from <= to <= letters@.len(),
    ensures
        final(text)@ == old(text)@ + letters@.subrange(from as int, to as int),
{
    let ghost before = text@;
    let mut index: usize = from;
    assert(before + letters@.subrange(from as int, from as int) =~= before);
    while index < to
        invariant
            from <= index <= to <= letters@.len(),
            text@ == before + letters@.subrange(from as int, index as int),
        decreases to - index,
    {
        text.push(letters[index]);
        index = index + 1;
        assert(text@ =~= before + letters@.subrange(from as int, index as int));
    }
}

/// The characters `from..to` of `letters` as a text of their own.
pub fn text_of(letters: &Vec<char>, from: usize, to: usize) -> (text: String)
    requires
        from <= to <= letters@.len(),
    ensures
        text@ == letters@.subrange(from as int, to as int),
{
    let mut text: String = String::new();
    push_range(&mut text, letters, from, to);
    assert(text@ =~= letters@.subrange(from as int, to as int));
    text
}

/// The number of characters a text holds.
pub fn char_count(text: &str) -> (count: usize)
    ensures
        count == text@.len(),
{
    text.unicode_len()
}

/// The number of bytes a text takes.
pub open spec fn byte_len(text: Seq<char>) -> nat {
    vstd::utf8::encode_utf8(text).len()
}

/// The number of bytes a text takes.
pub fn byte_count(text: &str) -> (count: usize)
    ensures
        count == byte_len(text@),
{
    text.as_bytes().len()
}

// --- Numbers -------------------------------------------------------------

/// The character of one decimal digit.
pub open spec fn digit(value: nat) -> char {
    (48 + value) as char
}

/// A number written in decimal, without leading zeros.
pub open spec fn decimal(value: nat) -> Seq<char>
    decreases value,
{
    if value < 10 {
        seq![digit(value)]
    } else {
        decimal(value / 10).push(digit(value % 10))
    }
}

/// Append a number in decimal.
pub fn push_decimal(text: &mut String, value: u64)
    ensures
        final(text)@ == old(text)@ + decimal(value as nat),
{
    push_wide_decimal(text, value as u128);
}

/// Append a number in decimal.
pub fn push_wide_decimal(text: &mut String, value: u128)
    ensures
        final(text)@ == old(text)@ + decimal(value as nat),
    decreases value,
{
    let ghost before = text@;
    if value >= 10 {
        push_wide_decimal(text, value / 10);
    }
    text.push((48u8 + (value % 10) as u8) as char);
    assert(text@ =~= before + decimal(value as nat));
}

/// The character of one lowercase hexadecimal digit.
pub open spec fn hex_digit(value: nat) -> char {
    if value < 10 {
        (48 + value) as char
    } else {
        (87 + value) as char
    }
}

/// The lowest `width` hexadecimal digits of a number, lowercase.
pub open spec fn hex(value: nat, width: nat) -> Seq<char>
    decreases width,
{
    if width == 0 {
        Seq::empty()
    } else {
        hex(value / 16, (width - 1) as nat).push(hex_digit(value % 16))
    }
}

/// Append the lowest `width` hexadecimal digits of a number, lowercase.
pub fn push_hex(text: &mut String, value: u16, width: u8)
    ensures
        final(text)@ == old(text)@ + hex(value as nat, width as nat),
    decreases width,
{
    let ghost before = text@;
    if width > 0 {
        push_hex(text, value / 16, width - 1);
        let nibble: u8 = (value % 16) as u8;
        let letter: char = if nibble < 10 {
            (48u8 + nibble) as char
        } else {
            (87u8 + nibble) as char
        };
        text.push(letter);
    }
    assert(text@ =~= before + hex(value as nat, width as nat));
}

/// The number the decimal digits of a text stand for.
pub open spec fn number_of(digits: Seq<char>) -> int
    decreases digits.len(),
{
    if digits.len() == 0 {
        0
    } else {
        10 * number_of(digits.drop_last()) + (digits.last() as int - 48)
    }
}

/// A number survives being written in decimal, so no two numbers are written
/// alike.
pub proof fn decimal_is_read_back(value: nat)
    ensures
        number_of(decimal(value)) == value,
        decimal(value).len() > 0,
    decreases value,
{
    reveal_with_fuel(number_of, 2);
    if value >= 10 {
        decimal_is_read_back(value / 10);
        assert(decimal(value).drop_last() =~= decimal(value / 10));
    } else {
        assert(decimal(value).drop_last() =~= Seq::<char>::empty());
    }
}

/// The number a lowercase hexadecimal digit stands for.
pub open spec fn hex_value(letter: char) -> int {
    if letter as int <= 57 {
        letter as int - 48
    } else {
        letter as int - 87
    }
}

/// The number the lowercase hexadecimal digits of a text stand for.
pub open spec fn hex_number_of(digits: Seq<char>) -> int
    decreases digits.len(),
{
    if digits.len() == 0 {
        0
    } else {
        16 * hex_number_of(digits.drop_last()) + hex_value(digits.last())
    }
}

/// Two to the power of four times `width`: how many numbers `width`
/// hexadecimal digits can hold.
pub open spec fn hex_range(width: nat) -> nat
    decreases width,
{
    if width == 0 {
        1
    } else {
        16 * hex_range((width - 1) as nat)
    }
}

/// A number that fits `width` hexadecimal digits survives being written in
/// them.
pub proof fn hex_is_read_back(value: nat, width: nat)
    ensures
        hex(value, width).len() == width,
        value < hex_range(width) ==> hex_number_of(hex(value, width)) == value,
        width == 4 ==> hex_range(width) == 0x10000,
    decreases width,
{
    reveal_with_fuel(hex_range, 5);
    if width > 0 {
        hex_is_read_back(value / 16, (width - 1) as nat);
        assert(hex(value, width).drop_last() =~= hex(value / 16, (width - 1) as nat));
    }
}

// --- Trimming ------------------------------------------------------------

/// Whether a character counts as white space (Unicode `White_Space`).
pub open spec fn is_space(letter: char) -> bool {
    let code = letter as u32;
    ||| 0x09 <= code <= 0x0d
    ||| code == 0x20
    ||| code == 0x85
    ||| code == 0xa0
    ||| code == 0x1680
    ||| 0x2000 <= code <= 0x200a
    ||| code == 0x2028
    ||| code == 0x2029
    ||| code == 0x202f
    ||| code == 0x205f
    ||| code == 0x3000
}

fn letter_is_space(letter: char) -> (space: bool)
    ensures
        space == is_space(letter),
{
    let code: u32 = letter as u32;
    (0x09 <= code && code <= 0x0d) || code == 0x20 || code == 0x85 || code == 0xa0 || code == 0x1680
        || (0x2000 <= code && code <= 0x200a) || code == 0x2028 || code == 0x2029 || code == 0x202f
        || code == 0x205f || code == 0x3000
}

/// A text without the white space it starts with.
pub open spec fn trimmed_start(text: Seq<char>) -> Seq<char>
    decreases text.len(),
{
    if text.len() > 0 && is_space(text[0]) {
        trimmed_start(text.drop_first())
    } else {
        text
    }
}

/// A text without the white space it ends with.
pub open spec fn trimmed_end(text: Seq<char>) -> Seq<char>
    decreases text.len(),
{
    if text.len() > 0 && is_space(text.last()) {
        trimmed_end(text.drop_last())
    } else {
        text
    }
}

/// A text without the white space around it.
pub open spec fn trimmed(text: Seq<char>) -> Seq<char> {
    trimmed_end(trimmed_start(text))
}

/// A text without the white space around it.
pub fn trim(text: &str) -> (inner: String)
    ensures
        inner@ == trimmed(text@),
{
    let letters: Vec<char> = chars_of(text);
    let mut from: usize = 0;
    assert(letters@.subrange(0, letters@.len() as int) =~= letters@);
    while from < letters.len() && letter_is_space(letters[from])
        invariant
            from <= letters@.len(),
            trimmed_start(letters@.subrange(from as int, letters@.len() as int)) == trimmed_start(
                letters@,
            ),
        decreases letters@.len() - from,
    {
        assert(letters@.subrange(from as int, letters@.len() as int).drop_first()
            =~= letters@.subrange(from + 1, letters@.len() as int));
        from = from + 1;
    }
    let mut to: usize = letters.len();
    assert(trimmed_start(letters@) == letters@.subrange(from as int, to as int));
    while to > from && letter_is_space(letters[to - 1])
        invariant
            from <= to <= letters@.len(),
            trimmed_end(letters@.subrange(from as int, to as int)) == trimmed_end(
                trimmed_start(letters@),
            ),
        decreases to,
    {
        assert(letters@.subrange(from as int, to as int).drop_last() =~= letters@.subrange(
            from as int,
            to - 1,
        ));
        to = to - 1;
    }
    text_of(&letters, from, to)
}

// --- Case ------------------------------------------------------------------

/// A character with A-Z turned into a-z.
pub open spec fn lowered_letter(letter: char) -> char {
    if 65 <= letter as int <= 90 {
        (letter as int + 32) as char
    } else {
        letter
    }
}

/// A text with A-Z turned into a-z.
pub open spec fn ascii_lowered(text: Seq<char>) -> Seq<char> {
    text.map_values(|letter: char| lowered_letter(letter))
}

/// A text with A-Z turned into a-z.
pub fn lower_ascii(text: &str) -> (lowered: String)
    ensures
        lowered@ == ascii_lowered(text@),
{
    let letters: Vec<char> = chars_of(text);
    let mut lowered: String = String::new();
    let mut index: usize = 0;
    assert(ascii_lowered(letters@.take(0)) =~= Seq::empty());
    while index < letters.len()
        invariant
            index <= letters@.len(),
            lowered@ == ascii_lowered(letters@.take(index as int)),
        decreases letters@.len() - index,
    {
        let code: u32 = letters[index] as u32;
        if 65 <= code && code <= 90 {
            lowered.push((code as u8 + 32) as char);
        } else {
            lowered.push(letters[index]);
        }
        index = index + 1;
        assert(lowered@ =~= ascii_lowered(letters@.take(index as int)));
    }
    assert(letters@.take(index as int) =~= text@);
    lowered
}

// --- Finding and replacing -----------------------------------------------

/// Whether `part` stands in `text` at `position`.
pub open spec fn stands_at(text: Seq<char>, part: Seq<char>, position: int) -> bool {
    &&& 0 <= position
    &&& position + part.len() <= text.len()
    &&& text.subrange(position, position + part.len()) == part
}

/// Whether `part` stands anywhere in `text`.
pub open spec fn contains_text(text: Seq<char>, part: Seq<char>) -> bool {
    exists|position: int| stands_at(text, part, position)
}

/// `text` with every occurrence of `part` replaced, leftmost first and without
/// overlaps. An empty `part` replaces nothing.
pub open spec fn replaced(text: Seq<char>, part: Seq<char>, by: Seq<char>) -> Seq<char>
    decreases text.len(),
{
    if part.len() == 0 || text.len() < part.len() {
        text
    } else if text.take(part.len() as int) == part {
        by + replaced(text.skip(part.len() as int), part, by)
    } else {
        seq![text[0]] + replaced(text.skip(1), part, by)
    }
}

/// Whether `part` stands in `text` at `position`.
fn part_stands_at(text: &Vec<char>, part: &Vec<char>, position: usize) -> (stands: bool)
    requires
        position <= text@.len(),
    ensures
        stands == stands_at(text@, part@, position as int),
{
    let length: usize = text.len();
    if part.len() > length - position {
        return false;
    }
    let mut index: usize = 0;
    while index < part.len()
        invariant
            index <= part@.len(),
            position + part@.len() <= text@.len() == length,
            forall|i: int| 0 <= i < index ==> text@[position + i] == part@[i],
        decreases part@.len() - index,
    {
        if text[position + index] != part[index] {
            assert(text@.subrange(position as int, position + part@.len())[index as int]
                != part@[index as int]);
            return false;
        }
        index = index + 1;
    }
    assert(text@.subrange(position as int, position + part@.len()) =~= part@);
    true
}

/// `text` with every occurrence of `part` replaced, leftmost first and without
/// overlaps. An empty `part` replaces nothing.
pub fn replace(text: &str, part: &str, by: &str) -> (result: String)
    ensures
        result@ == replaced(text@, part@, by@),
{
    let letters: Vec<char> = chars_of(text);
    let sought: Vec<char> = chars_of(part);
    let mut result: String = String::new();
    if sought.len() == 0 {
        push_range(&mut result, &letters, 0, letters.len());
        assert(result@ =~= text@);
        return result;
    }
    let mut at: usize = 0;
    assert(text@.skip(0) =~= text@);
    assert(Seq::<char>::empty() + replaced(text@, part@, by@) =~= replaced(text@, part@, by@));
    while letters.len() - at >= sought.len()
        invariant
            at <= letters@.len(),
            letters@ == text@,
            sought@ == part@,
            part@.len() > 0,
            result@ + replaced(text@.skip(at as int), part@, by@) == replaced(text@, part@, by@),
        decreases letters@.len() - at,
    {
        let ghost rest = text@.skip(at as int);
        let ghost before = result@;
        assert(rest.take(part@.len() as int) =~= text@.subrange(at as int, at + part@.len()));
        if part_stands_at(&letters, &sought, at) {
            result.append(by);
            at = at + sought.len();
            assert(rest.skip(part@.len() as int) =~= text@.skip(at as int));
            assert(result@ + replaced(text@.skip(at as int), part@, by@) =~= before + (by@
                + replaced(text@.skip(at as int), part@, by@)));
        } else {
            result.push(letters[at]);
            at = at + 1;
            assert(rest.skip(1) =~= text@.skip(at as int));
            assert(result@ + replaced(text@.skip(at as int), part@, by@) =~= before + (seq![rest[0]]
                + replaced(text@.skip(at as int), part@, by@)));
        }
    }
    let ghost before = result@;
    push_range(&mut result, &letters, at, letters.len());
    assert(letters@.subrange(at as int, letters@.len() as int) =~= text@.skip(at as int));
    assert(result@ =~= before + replaced(text@.skip(at as int), part@, by@));
    result
}

/// Whether `part`, laid over `other` so that it starts at `offset` of it,
/// agrees with it on every character they share.
pub open spec fn agrees_at(part: Seq<char>, other: Seq<char>, offset: int) -> bool {
    forall|k: int|
        0 <= k < other.len() && 0 <= k - offset < part.len() ==> #[trigger] other[k] == part[k
            - offset]
}

/// Whether `part` can never overlap an occurrence of `other` in any text: laid
/// over it anywhere, the two disagree on a character they share.
pub open spec fn is_clear_of(part: Seq<char>, other: Seq<char>) -> bool {
    forall|offset: int|
        -part.len() < offset < other.len() ==> !#[trigger] agrees_at(part, other, offset)
}

/// The end of a text, from `from` on, that a replacement left untouched was
/// there before it.
proof fn lemma_prefix_survives(
    text: Seq<char>,
    part: Seq<char>,
    by: Seq<char>,
    sought: Seq<char>,
    from: int,
)
    requires
        is_clear_of(sought, by),
        by.len() > 0,
        0 <= from <= sought.len(),
        sought.skip(from).len() <= replaced(text, part, by).len(),
        replaced(text, part, by).take(sought.len() - from) == sought.skip(from),
    ensures
        sought.len() - from <= text.len(),
        text.take(sought.len() - from) == sought.skip(from),
    decreases text.len(),
{
    let rest = sought.skip(from);
    let result = replaced(text, part, by);
    if from == sought.len() {
        assert(text.take(0) =~= rest);
    } else if part.len() == 0 || text.len() < part.len() {
    } else if text.take(part.len() as int) == part {
        let tail = replaced(text.skip(part.len() as int), part, by);
        assert(result == by + tail);
        assert forall|k: int| 0 <= k < by.len() && 0 <= k - (-from) < sought.len() implies #[trigger] by[k]
            == sought[k - (-from)] by {
            assert(result[k] == by[k]);
            assert(result.take(sought.len() - from)[k] == rest[k]);
        }
        assert(agrees_at(sought, by, -from));
    } else {
        let tail = replaced(text.skip(1), part, by);
        assert(result == seq![text[0]] + tail);
        assert(result[0] == text[0]);
        assert(result.take(sought.len() - from)[0] == rest[0]);
        assert(tail.take(sought.len() - from - 1) =~= sought.skip(from + 1)) by {
            assert forall|k: int| 0 <= k < sought.len() - from - 1 implies tail[k] == sought.skip(
                from + 1,
            )[k] by {
                assert(result[k + 1] == tail[k]);
                assert(result.take(sought.len() - from)[k + 1] == rest[k + 1]);
            }
        }
        lemma_prefix_survives(text.skip(1), part, by, sought, from + 1);
        assert(text.take(sought.len() - from) =~= rest) by {
            assert forall|k: int| 0 <= k < sought.len() - from implies text[k] == rest[k] by {
                if k > 0 {
                    assert(text.skip(1).take(sought.len() - from - 1)[k - 1] == sought.skip(
                        from + 1,
                    )[k - 1]);
                }
            }
        }
    }
}

/// A text that `part` does not stand in is left as it is.
pub proof fn replacing_leaves_the_rest(text: Seq<char>, part: Seq<char>, by: Seq<char>)
    requires
        !contains_text(text, part),
    ensures
        replaced(text, part, by) == text,
    decreases text.len(),
{
    if part.len() == 0 || text.len() < part.len() {
    } else {
        assert(text.take(part.len() as int) =~= text.subrange(0, part.len() as int));
        assert(!stands_at(text, part, 0));
        let rest = text.skip(1);
        assert forall|position: int| !stands_at(rest, part, position) by {
            if stands_at(rest, part, position) {
                assert(text.subrange(position + 1, position + 1 + part.len()) =~= rest.subrange(
                    position,
                    position + part.len(),
                ));
                assert(stands_at(text, part, position + 1));
            }
        }
        replacing_leaves_the_rest(rest, part, by);
        assert(seq![text[0]] + rest =~= text);
    }
}

/// What is replaced, on its own, is what it is replaced by.
pub proof fn replacing_the_whole_text(part: Seq<char>, by: Seq<char>)
    requires
        part.len() > 0,
    ensures
        replaced(part, part, by) == by,
{
    assert(part.take(part.len() as int) =~= part);
    assert(part.skip(part.len() as int) =~= Seq::empty());
    assert(replaced(Seq::<char>::empty(), part, by) =~= Seq::<char>::empty());
    assert(by + Seq::<char>::empty() =~= by);
}

/// Whether no occurrence of `part` in `left + right` reaches over the place
/// where the two meet.
pub open spec fn splits(left: Seq<char>, right: Seq<char>, part: Seq<char>) -> bool {
    forall|position: int|
        position < left.len() < position + part.len() ==> !#[trigger] stands_at(
            left + right,
            part,
            position,
        )
}

/// Where no occurrence reaches over the place two texts meet, replacing in the
/// one and in the other is replacing in both together.
pub proof fn replacing_goes_piece_by_piece(
    left: Seq<char>,
    right: Seq<char>,
    part: Seq<char>,
    by: Seq<char>,
)
    requires
        splits(left, right, part),
    ensures
        replaced(left + right, part, by) == replaced(left, part, by) + replaced(right, part, by),
    decreases left.len(),
{
    let both = left + right;
    let width = part.len() as int;
    if left.len() == 0 {
        assert(both =~= right);
        assert(replaced(left, part, by) =~= Seq::empty());
        assert(replaced(left, part, by) + replaced(right, part, by) =~= replaced(right, part, by));
    } else if width == 0 || both.len() < width {
        assert(replaced(left, part, by) + replaced(right, part, by) =~= both);
    } else if both.take(width) == part {
        assert(both.subrange(0, width) =~= both.take(width));
        assert(stands_at(both, part, 0));
        assert(width <= left.len());
        assert(left.take(width) =~= both.take(width));
        let rest = left.skip(width);
        assert(both.skip(width) =~= rest + right);
        assert forall|position: int| position < rest.len() < position + width implies !#[trigger] stands_at(
            rest + right,
            part,
            position,
        ) by {
            if stands_at(rest + right, part, position) {
                assert(both.subrange(position + width, position + 2 * width) =~= (rest
                    + right).subrange(position, position + width));
                assert(stands_at(both, part, position + width));
            }
        }
        replacing_goes_piece_by_piece(rest, right, part, by);
        assert(by + (replaced(rest, part, by) + replaced(right, part, by)) =~= (by + replaced(
            rest,
            part,
            by,
        )) + replaced(right, part, by));
    } else {
        let rest = left.skip(1);
        assert(both.skip(1) =~= rest + right);
        assert forall|position: int| position < rest.len() < position + width implies !#[trigger] stands_at(
            rest + right,
            part,
            position,
        ) by {
            if stands_at(rest + right, part, position) {
                assert(both.subrange(position + 1, position + 1 + width) =~= (rest
                    + right).subrange(position, position + width));
                assert(stands_at(both, part, position + 1));
            }
        }
        replacing_goes_piece_by_piece(rest, right, part, by);
        if left.len() >= width {
            assert(left.take(width) =~= both.take(width));
        } else {
            assert(seq![left[0]] + rest =~= left);
        }
        assert(seq![left[0]] + (replaced(rest, part, by) + replaced(right, part, by)) =~= (seq![
            left[0],
        ] + replaced(rest, part, by)) + replaced(right, part, by));
    }
}

/// The start of a sought text, up to `to`, that a replacement left at its end
/// was there before it.
proof fn lemma_suffix_survives(
    text: Seq<char>,
    part: Seq<char>,
    by: Seq<char>,
    sought: Seq<char>,
    to: int,
)
    requires
        is_clear_of(sought, by),
        by.len() > 0,
        0 <= to <= sought.len(),
        to <= replaced(text, part, by).len(),
        replaced(text, part, by).skip(replaced(text, part, by).len() - to) == sought.subrange(0, to),
    ensures
        to <= text.len(),
        text.skip(text.len() - to) == sought.subrange(0, to),
    decreases text.len(),
{
    let result = replaced(text, part, by);
    let wanted = sought.subrange(0, to);
    let start = result.len() - to;
    if to == 0 {
        assert(text.skip(text.len() as int) =~= wanted);
    } else if part.len() == 0 || text.len() < part.len() {
    } else {
        let hit = text.take(part.len() as int) == part;
        let head = if hit {
            by
        } else {
            seq![text[0]]
        };
        let rest = if hit {
            text.skip(part.len() as int)
        } else {
            text.skip(1)
        };
        let tail = replaced(rest, part, by);
        assert(result == head + tail);
        if start >= head.len() {
            assert(tail.skip(tail.len() - to) =~= result.skip(start));
            lemma_suffix_survives(rest, part, by, sought, to);
            assert(text.skip(text.len() - to) =~= rest.skip(rest.len() - to));
        } else if hit {
            assert forall|k: int| 0 <= k < by.len() && 0 <= k - start < sought.len() implies #[trigger] by[k]
                == sought[k - start] by {
                assert(result[k] == by[k]);
                assert(result.skip(start)[k - start] == wanted[k - start]);
            }
            assert(agrees_at(sought, by, start));
            assert(false);
        } else {
            assert(result.skip(0) =~= result);
            lemma_untouched(text, part, by, sought, 0, to);
            assert(text.skip(0) =~= text);
        }
    }
}

/// A text that a replacement turned into part of a text it can never overlap
/// was that already.
proof fn lemma_untouched(
    text: Seq<char>,
    part: Seq<char>,
    by: Seq<char>,
    sought: Seq<char>,
    from: int,
    to: int,
)
    requires
        is_clear_of(sought, by),
        by.len() > 0,
        0 <= from <= to <= sought.len(),
        replaced(text, part, by) == sought.subrange(from, to),
    ensures
        text == sought.subrange(from, to),
    decreases text.len(),
{
    let result = replaced(text, part, by);
    if part.len() == 0 || text.len() < part.len() {
    } else if text.take(part.len() as int) == part {
        let tail = replaced(text.skip(part.len() as int), part, by);
        assert(result == by + tail);
        assert forall|k: int| 0 <= k < by.len() && 0 <= k + from < sought.len() implies #[trigger] by[k]
            == sought[k - (-from)] by {
            assert(result[k] == by[k]);
            assert(result[k] == sought.subrange(from, to)[k]);
        }
        assert(agrees_at(sought, by, -from));
        assert(false);
    } else {
        let tail = replaced(text.skip(1), part, by);
        assert(result == seq![text[0]] + tail);
        assert(result[0] == text[0]);
        assert(tail =~= sought.subrange(from + 1, to)) by {
            assert forall|k: int| 0 <= k < tail.len() implies tail[k] == sought.subrange(
                from + 1,
                to,
            )[k] by {
                assert(result[k + 1] == tail[k]);
                assert(result[k + 1] == sought.subrange(from, to)[k + 1]);
            }
        }
        lemma_untouched(text.skip(1), part, by, sought, from + 1, to);
        assert(text =~= seq![text[0]] + text.skip(1));
        assert(text =~= sought.subrange(from, to));
    }
}

/// Replacing makes no new occurrence reach over the place two texts meet, of a
/// text that can never overlap what is put in.
pub proof fn replacing_keeps_the_split(
    left: Seq<char>,
    right: Seq<char>,
    part: Seq<char>,
    by: Seq<char>,
    sought: Seq<char>,
)
    requires
        is_clear_of(sought, by),
        by.len() > 0,
        splits(left, right, sought),
    ensures
        splits(replaced(left, part, by), replaced(right, part, by), sought),
{
    let before = replaced(left, part, by);
    let after = replaced(right, part, by);
    assert forall|position: int| position < before.len() < position + sought.len() implies !#[trigger] stands_at(
        before + after,
        sought,
        position,
    ) by {
        if stands_at(before + after, sought, position) {
            let cut = before.len() - position;
            let found = (before + after).subrange(position, position + sought.len());
            assert(before.skip(before.len() - cut) =~= sought.subrange(0, cut)) by {
                assert forall|k: int| 0 <= k < cut implies before[position + k] == sought[k] by {
                    assert(found[k] == sought[k]);
                }
            }
            assert(after.take(sought.len() - cut) =~= sought.skip(cut)) by {
                assert forall|k: int| 0 <= k < sought.len() - cut implies after[k] == sought[cut
                    + k] by {
                    assert(found[cut + k] == sought[cut + k]);
                }
            }
            lemma_suffix_survives(left, part, by, sought, cut);
            lemma_prefix_survives(right, part, by, sought, cut);
            let earlier = left.len() - cut;
            assert((left + right).subrange(earlier, earlier + sought.len()) =~= sought) by {
                assert forall|k: int| 0 <= k < sought.len() implies (left + right)[earlier + k]
                    == sought[k] by {
                    if k < cut {
                        assert(left.skip(earlier)[k] == sought.subrange(0, cut)[k]);
                    } else {
                        assert(right.take(sought.len() - cut)[k - cut] == sought.skip(cut)[k
                            - cut]);
                    }
                }
            }
            assert(stands_at(left + right, sought, earlier));
        }
    }
}

/// Replacing puts nothing new into a text but what it replaces by: a text that
/// can never overlap that stood there before.
pub proof fn replacing_adds_nothing(
    text: Seq<char>,
    part: Seq<char>,
    by: Seq<char>,
    sought: Seq<char>,
)
    requires
        is_clear_of(sought, by),
        by.len() > 0,
        sought.len() > 0,
        contains_text(replaced(text, part, by), sought),
    ensures
        contains_text(text, sought),
        sought != part,
    decreases text.len(),
{
    let result = replaced(text, part, by);
    let at = choose|position: int| stands_at(result, sought, position);
    if part.len() == 0 || text.len() < part.len() {
    } else if text.take(part.len() as int) == part {
        let rest = text.skip(part.len() as int);
        let tail = replaced(rest, part, by);
        assert(result == by + tail);
        if at >= by.len() {
            assert(tail.subrange(at - by.len(), at - by.len() + sought.len()) =~= sought) by {
                assert forall|k: int| 0 <= k < sought.len() implies tail[at - by.len() + k]
                    == sought[k] by {
                    assert(result.subrange(at, at + sought.len())[k] == sought[k]);
                }
            }
            assert(stands_at(tail, sought, at - by.len()));
            replacing_adds_nothing(rest, part, by, sought);
            let earlier = choose|position: int| stands_at(rest, sought, position);
            assert(text.subrange(
                earlier + part.len(),
                earlier + part.len() + sought.len(),
            ) =~= rest.subrange(earlier, earlier + sought.len()));
            assert(stands_at(text, sought, earlier + part.len()));
        } else {
            assert forall|k: int| 0 <= k < by.len() && 0 <= k - at < sought.len() implies #[trigger] by[k]
                == sought[k - at] by {
                assert(result[k] == by[k]);
                assert(result.subrange(at, at + sought.len())[k - at] == sought[k - at]);
            }
            assert(agrees_at(sought, by, at));
        }
    } else {
        let rest = text.skip(1);
        let tail = replaced(rest, part, by);
        assert(result == seq![text[0]] + tail);
        if at >= 1 {
            assert(tail.subrange(at - 1, at - 1 + sought.len()) =~= sought) by {
                assert forall|k: int| 0 <= k < sought.len() implies tail[at - 1 + k]
                    == sought[k] by {
                    assert(result.subrange(at, at + sought.len())[k] == sought[k]);
                }
            }
            assert(stands_at(tail, sought, at - 1));
            replacing_adds_nothing(rest, part, by, sought);
            let earlier = choose|position: int| stands_at(rest, sought, position);
            assert(text.subrange(earlier + 1, earlier + 1 + sought.len()) =~= rest.subrange(
                earlier,
                earlier + sought.len(),
            ));
            assert(stands_at(text, sought, earlier + 1));
        } else {
            assert(result.subrange(0, sought.len() as int) == sought);
            assert(result.take(sought.len() as int) =~= sought.skip(0));
            lemma_prefix_survives(text, part, by, sought, 0);
            assert(text.subrange(0, sought.len() as int) =~= sought);
            assert(text.take(sought.len() as int) =~= sought);
            assert(stands_at(text, sought, 0));
        }
    }
}

proof fn lemma_trimmed_start(text: Seq<char>) -> (from: int)
    ensures
        0 <= from <= text.len(),
        trimmed_start(text) == text.skip(from),
        forall|i: int| 0 <= i < from ==> is_space(#[trigger] text[i]),
        from < text.len() ==> !is_space(text[from]),
    decreases text.len(),
{
    if text.len() > 0 && is_space(text[0]) {
        let rest = text.drop_first();
        let from = lemma_trimmed_start(rest);
        assert(rest.skip(from) =~= text.skip(from + 1));
        assert forall|i: int| 0 <= i < from + 1 implies is_space(#[trigger] text[i]) by {
            if i > 0 {
                assert(rest[i - 1] == text[i]);
            }
        }
        from + 1
    } else {
        assert(text.skip(0) =~= text);
        0
    }
}

proof fn lemma_trimmed_end(text: Seq<char>) -> (to: int)
    ensures
        0 <= to <= text.len(),
        trimmed_end(text) == text.take(to),
        forall|i: int| to <= i < text.len() ==> is_space(#[trigger] text[i]),
        to > 0 ==> !is_space(text[to - 1]),
    decreases text.len(),
{
    if text.len() > 0 && is_space(text.last()) {
        let rest = text.drop_last();
        let to = lemma_trimmed_end(rest);
        assert(rest.take(to) =~= text.take(to));
        assert forall|i: int| to <= i < text.len() implies is_space(#[trigger] text[i]) by {
            if i < text.len() - 1 {
                assert(rest[i] == text[i]);
            }
        }
        to
    } else {
        assert(text.take(text.len() as int) =~= text);
        text.len() as int
    }
}

/// Trimming takes white space off both ends, all of it, and nothing else.
pub proof fn trimming_takes_the_space_around(text: Seq<char>) -> (ends: (int, int))
    ensures
        0 <= ends.0 <= ends.1 <= text.len(),
        trimmed(text) == text.subrange(ends.0, ends.1),
        forall|i: int| 0 <= i < ends.0 ==> is_space(#[trigger] text[i]),
        forall|i: int| ends.1 <= i < text.len() ==> is_space(#[trigger] text[i]),
        ends.0 < ends.1 ==> !is_space(text[ends.0]) && !is_space(text[ends.1 - 1]),
{
    let from = lemma_trimmed_start(text);
    let inner = text.skip(from);
    let to = lemma_trimmed_end(inner);
    assert(inner.take(to) =~= text.subrange(from, from + to));
    assert forall|i: int| from + to <= i < text.len() implies is_space(#[trigger] text[i]) by {
        assert(inner[i - from] == text[i]);
    }
    if to > 0 {
        assert(inner[to - 1] == text[from + to - 1]);
    }
    (from, from + to)
}

/// A text is left as it is by trimming exactly when neither end of it is white
/// space.
#[verifier::rlimit(60)]
pub proof fn a_trimmed_text_has_no_space_at_its_ends(text: Seq<char>)
    ensures
        trimmed(text) == text <==> text.len() == 0 || (!is_space(text[0]) && !is_space(
            text[text.len() - 1],
        )),
{
    let (from, to) = trimming_takes_the_space_around(text);
    if trimmed(text) == text {
        assert(trimmed(text).len() == to - from);
        assert(from == 0 && to == text.len());
    }
    if text.len() == 0 || (!is_space(text[0]) && !is_space(text[text.len() - 1])) {
        if text.len() > 0 {
            if from > 0 {
                assert(is_space(text[0]));
            }
            if to < text.len() {
                assert(is_space(text[text.len() - 1]));
            }
        }
        assert(text.subrange(from, to) =~= text);
    }
}

/// White space around a text makes no difference once it is trimmed.
pub proof fn space_around_makes_no_difference(space: char, text: Seq<char>)
    requires
        is_space(space),
    ensures
        trimmed(seq![space] + text) == trimmed(text),
{
    let padded = seq![space] + text;
    assert(padded.drop_first() =~= text);
}

/// The characters every writer calls blank are white space, and no letter, digit
/// or sign of a color is.
pub proof fn blanks_are_space(letter: char)
    ensures
        letter == ' ' || letter == '\t' || letter == '\n' || letter == '\r' ==> is_space(letter),
        '!' <= letter && letter <= '~' ==> !is_space(letter),
{
}

/// Lowering turns A to Z into a to z, letter by letter, and leaves every other
/// character as it is.
pub proof fn lowering_goes_letter_by_letter(text: Seq<char>, index: int)
    requires
        0 <= index < text.len(),
    ensures
        ascii_lowered(text).len() == text.len(),
        'A' <= text[index] && text[index] <= 'Z' ==> ascii_lowered(text)[index] as int
            == text[index] as int + 32,
        !('A' <= text[index] && text[index] <= 'Z') ==> ascii_lowered(text)[index] == text[index],
{
}

/// Whether `parts` stand in `text` one after the other, in this order.
pub open spec fn tells(text: Seq<char>, parts: Seq<Seq<char>>) -> bool
    decreases parts.len(),
{
    parts.len() == 0 || exists|at: int| #[trigger]
        stands_at(text, parts[0], at) && tells(
            text.skip(at + parts[0].len()),
            parts.drop_first(),
        )
}

/// What a text tells, one that begins with another part tells after that part.
pub(crate) proof fn lemma_tells(
    lead: Seq<char>,
    part: Seq<char>,
    rest: Seq<char>,
    parts: Seq<Seq<char>>,
)
    requires
        tells(rest, parts),
    ensures
        tells(lead + part + rest, seq![part] + parts),
{
    let text = lead + part + rest;
    let at = lead.len() as int;
    assert(text.subrange(at, at + part.len()) =~= part);
    let all = seq![part] + parts;
    assert(all[0] == part);
    assert(stands_at(text, all[0], at));
    assert(text.skip(at + part.len()) =~= rest);
    assert(all.drop_first() =~= parts);
}

/// A number is written in digits only, and begins with a nought only when it is
/// one.
pub proof fn a_number_is_written_without_leading_noughts(value: nat)
    ensures
        decimal(value).len() > 0,
        value > 0 ==> decimal(value)[0] != '0',
        value == 0 ==> decimal(value) == seq!['0'],
        forall|i: int|
            0 <= i < decimal(value).len() ==> '0' <= #[trigger] decimal(value)[i]
                && decimal(value)[i] <= '9',
    decreases value,
{
    if value >= 10 {
        a_number_is_written_without_leading_noughts(value / 10);
    }
}

/// The twenty-five characters that are white space.
pub open spec fn white_space() -> Seq<char> {
    seq![
        '\u{9}', '\u{a}', '\u{b}', '\u{c}', '\u{d}', ' ', '\u{85}', '\u{a0}', '\u{1680}',
        '\u{2000}', '\u{2001}', '\u{2002}', '\u{2003}', '\u{2004}', '\u{2005}', '\u{2006}',
        '\u{2007}', '\u{2008}', '\u{2009}', '\u{200a}', '\u{2028}', '\u{2029}', '\u{202f}',
        '\u{205f}', '\u{3000}',
    ]
}

/// A character is white space exactly when it is one of those twenty-five.
pub proof fn white_space_is_one_of_twenty_five(letter: char)
    ensures
        white_space().len() == 25,
        is_space(letter) <==> white_space().contains(letter),
{
    let all = white_space();
    let code = letter as int;
    if is_space(letter) {
        let at = if code <= 0x0d {
            code - 0x09
        } else if code == 0x20 {
            5
        } else if code == 0x85 {
            6
        } else if code == 0xa0 {
            7
        } else if code == 0x1680 {
            8
        } else if code <= 0x200a {
            9 + code - 0x2000
        } else if code == 0x2028 {
            20
        } else if code == 0x2029 {
            21
        } else if code == 0x202f {
            22
        } else if code == 0x205f {
            23
        } else {
            24
        };
        assert(all[at] == letter);
    }
}

/// The leftmost occurrence is the first to be replaced, and the search goes on
/// behind it: what stands before it is left as it is.
pub proof fn the_leftmost_occurrence_is_replaced_first(
    text: Seq<char>,
    part: Seq<char>,
    by: Seq<char>,
    at: int,
)
    requires
        part.len() > 0,
        stands_at(text, part, at),
        forall|earlier: int| earlier < at ==> !#[trigger] stands_at(text, part, earlier),
    ensures
        replaced(text, part, by) == text.take(at) + by + replaced(
            text.skip(at + part.len()),
            part,
            by,
        ),
    decreases at,
{
    if at == 0 {
        assert(text.take(part.len() as int) =~= text.subrange(0, part.len() as int));
        assert(text.take(0) + by =~= by);
    } else {
        let rest = text.skip(1);
        assert(!stands_at(text, part, 0));
        assert(text.take(part.len() as int) =~= text.subrange(0, part.len() as int));
        assert(rest.subrange(at - 1, at - 1 + part.len()) =~= text.subrange(at, at + part.len()));
        assert forall|earlier: int| earlier < at - 1 implies !#[trigger] stands_at(
            rest,
            part,
            earlier,
        ) by {
            if stands_at(rest, part, earlier) {
                assert(rest.subrange(earlier, earlier + part.len()) =~= text.subrange(
                    earlier + 1,
                    earlier + 1 + part.len(),
                ));
                assert(stands_at(text, part, earlier + 1));
            }
        }
        the_leftmost_occurrence_is_replaced_first(rest, part, by, at - 1);
        assert(rest.skip(at - 1 + part.len()) =~= text.skip(at + part.len()));
        let tail = replaced(text.skip(at + part.len()), part, by);
        assert(seq![text[0]] + (rest.take(at - 1) + by + tail) =~= text.take(at) + by + tail);
    }
}

} // verus!
