//! Text: the few string operations that the rest of the library is built on,
//! each stated over sequences of characters.

use vstd::prelude::*;

verus! {

/// Appends one character. Claimed of [`String::push`]: the text grows by
/// exactly that character, at its end.
pub assume_specification[ String::push ](buffer: &mut String, c: char)
    ensures
        final(buffer)@ == old(buffer)@.push(c),
;

/// The contents of a list of strings.
pub open spec fn texts(list: Seq<String>) -> Seq<Seq<char>> {
    Seq::new(list.len(), |i: int| list[i]@)
}

/// The contents of an optional string.
pub open spec fn opt_text(value: Option<String>) -> Option<Seq<char>> {
    match value {
        Some(text) => Some(text@),
        None => None,
    }
}

// ---------------------------------------------------------------------------
// Equality and copies
// ---------------------------------------------------------------------------

/// Whether two texts are the same characters in the same order.
pub fn same_text(left: &str, right: &str) -> (same: bool)
    ensures
        same == (left@ == right@),
{
    left.to_owned() == right.to_owned()
}

/// A copy of an optional text.
pub fn copy_optional(value: &Option<String>) -> (copy: Option<String>)
    ensures
        copy == *value,
{
    match value {
        Some(found) => Some(found.clone()),
        None => None,
    }
}

/// The text that Rust's `{:?}` prints for a text: quoted, with the characters
/// escaped that the standard library escapes.
pub uninterp spec fn debug_text(raw: Seq<char>) -> Seq<char>;

/// Wraps the standard library's `Debug` for `str`. Claimed of it: what it prints
/// depends on the text alone. Which characters it escapes is not stated here.
#[verifier::external_body]
pub(crate) fn quoted(raw: &str) -> (shown: String)
    ensures
        shown@ == debug_text(raw@),
{
    format!("{raw:?}")
}

/// The characters of a text, in order.
pub fn chars_of(text: &str) -> (chars: Vec<char>)
    ensures
        chars@ == text@,
{
    let mut chars: Vec<char> = Vec::new();
    for c in iter: text.chars()
        invariant
            chars@ == text@.take(iter.index() as int),
            iter.seq() == text@,
    {
        chars.push(c);
        assert(text@.take(iter.index() as int + 1) == text@.take(iter.index() as int).push(c));
    }
    assert(text@.take(text@.len() as int) == text@);
    chars
}

/// The text made of the characters in `chars[from..to]`.
pub fn text_between(chars: &Vec<char>, from: usize, to: usize) -> (text: String)
    requires
        from <= to <= chars@.len(),
    ensures
        text@ == chars@.subrange(from as int, to as int),
{
    let mut text = String::new();
    let mut i: usize = from;
    while i < to
        invariant
            from <= i <= to <= chars@.len(),
            text@ == chars@.subrange(from as int, i as int),
        decreases to - i,
    {
        text.push(chars[i]);
        assert(chars@.subrange(from as int, i as int + 1) == chars@.subrange(
            from as int,
            i as int,
        ).push(chars@[i as int]));
        i = i + 1;
    }
    text
}

// ---------------------------------------------------------------------------
// Numbers
// ---------------------------------------------------------------------------

/// The character of a decimal digit.
pub open spec fn digit_char(digit: nat) -> char {
    (digit + 48) as char
}

/// A number in decimal, without leading zeros.
pub open spec fn decimal(n: nat) -> Seq<char>
    decreases n,
{
    if n < 10 {
        seq![digit_char(n)]
    } else {
        decimal(n / 10).push(digit_char(n % 10))
    }
}

/// A signed number in decimal, with a leading `-` when it is negative.
pub open spec fn signed_decimal(n: int) -> Seq<char> {
    if n < 0 {
        "-"@ + decimal((-n) as nat)
    } else {
        decimal(n as nat)
    }
}

/// Writes a number in decimal.
pub fn push_decimal(out: &mut String, n: u64)
    ensures
        final(out)@ == old(out)@ + decimal(n as nat),
    decreases n,
{
    if n >= 10 {
        push_decimal(out, n / 10);
    }
    let digit: u8 = (n % 10) as u8;
    out.push((digit + 48) as char);
    assert(out@ == old(out)@ + decimal(n as nat));
}

/// Writes a signed number in decimal.
pub fn push_signed_decimal(out: &mut String, n: i32)
    ensures
        final(out)@ == old(out)@ + signed_decimal(n as int),
{
    let wide: i64 = n as i64;
    if wide < 0 {
        out.append("-");
        push_decimal(out, (-wide) as u64);
        assert(out@ == old(out)@ + ("-"@ + decimal((-n) as nat)));
    } else {
        push_decimal(out, wide as u64);
    }
}

/// Whether a character is an ASCII decimal digit.
pub open spec fn is_digit(c: char) -> bool {
    '0' <= c && c <= '9'
}

/// Whether a character is an ASCII hexadecimal digit.
pub open spec fn is_hex_digit(c: char) -> bool {
    is_digit(c) || ('a' <= c && c <= 'f') || ('A' <= c && c <= 'F')
}

/// The value of a string of decimal digits.
pub open spec fn digits_value(digits: Seq<char>) -> nat
    decreases digits.len(),
{
    if digits.len() == 0 {
        0
    } else {
        digits_value(digits.drop_last()) * 10 + (digits.last() as u32 - '0' as u32) as nat
    }
}

/// The digits of an unsigned number as it may be written: one leading `+` is
/// allowed.
pub open spec fn unsigned_digits(text: Seq<char>) -> Seq<char> {
    if text.len() > 0 && text[0] == '+' {
        text.skip(1)
    } else {
        text
    }
}

/// Whether a text spells a number that fits in 64 bits.
pub open spec fn spells_u64(text: Seq<char>) -> bool {
    let digits = unsigned_digits(text);
    &&& digits.len() > 0
    &&& forall|i: int| 0 <= i < digits.len() ==> is_digit(#[trigger] digits[i])
    &&& digits_value(digits) <= u64::MAX
}

/// The 64-bit number a text spells, if it spells one.
pub open spec fn u64_of(text: Seq<char>) -> Option<u64> {
    if spells_u64(text) {
        Some(digits_value(unsigned_digits(text)) as u64)
    } else {
        None
    }
}

/// A longer run of digits is never worth less than its beginning.
proof fn lemma_digits_value_grows(digits: Seq<char>, i: int)
    requires
        0 <= i <= digits.len(),
    ensures
        digits_value(digits.take(i)) <= digits_value(digits),
    decreases digits.len() - i,
{
    if i < digits.len() {
        lemma_digits_value_grows(digits, i + 1);
        assert(digits.take(i + 1).drop_last() == digits.take(i));
    } else {
        assert(digits.take(i) == digits);
    }
}

/// A number that is written out in decimal reads back.
pub proof fn lemma_decimal_reads_back(n: nat)
    ensures
        decimal(n).len() > 0,
        forall|i: int| 0 <= i < decimal(n).len() ==> is_digit(#[trigger] decimal(n)[i]),
        digits_value(decimal(n)) == n,
        n <= u64::MAX ==> u64_of(decimal(n)) == Some(n as u64),
    decreases n,
{
    let digits = decimal(n);
    if n >= 10 {
        lemma_decimal_reads_back(n / 10);
        assert(digits.drop_last() == decimal(n / 10));
        assert(digits.last() == digit_char(n % 10));
        assert forall|i: int| 0 <= i < digits.len() implies is_digit(#[trigger] digits[i]) by {
            if i < digits.len() - 1 {
                assert(digits[i] == decimal(n / 10)[i]);
            }
        }
    } else {
        assert(digits[0] == digit_char(n));
        assert(digits.drop_last() == Seq::<char>::empty());
        assert(digits_value(digits.drop_last()) == 0);
        assert(digits.last() == digit_char(n));
    }
    assert(is_digit(digits[0]));
    assert(unsigned_digits(digits) == digits);
}

/// Reads an unsigned 64-bit number: decimal digits, at least one, with at most
/// one leading `+`, and nothing that overflows.
pub fn parse_u64(text: &str) -> (number: Option<u64>)
    ensures
        number == u64_of(text@),
{
    let chars = chars_of(text);
    let start: usize = if chars.len() > 0 && chars[0] == '+' {
        1
    } else {
        0
    };
    let ghost digits = unsigned_digits(text@);
    assert(forall|k: int| 0 <= k < digits.len() ==> digits[k] == chars@[k + start]);
    if start == chars.len() {
        return None;
    }
    let mut value: u64 = 0;
    let mut i: usize = start;
    while i < chars.len()
        invariant
            start <= i <= chars@.len(),
            start <= 1,
            chars@ == text@,
            digits == unsigned_digits(text@),
            digits.len() == chars@.len() - start,
            digits.len() > 0,
            forall|k: int| 0 <= k < digits.len() ==> digits[k] == chars@[k + start],
            forall|k: int| 0 <= k < i - start ==> is_digit(#[trigger] digits[k]),
            value == digits_value(digits.take(i - start)),
        decreases chars.len() - i,
    {
        let c = chars[i];
        assert(c == digits[i - start]);
        assert(digits.take(i - start + 1).drop_last() == digits.take(i - start));
        assert(digits.take(i - start + 1).last() == c);
        if !('0' <= c && c <= '9') {
            return None;
        }
        let digit: u64 = (c as u32 - '0' as u32) as u64;
        proof {
            lemma_digits_value_grows(digits, i - start + 1);
        }
        if value > (u64::MAX - digit) / 10 {
            return None;
        }
        value = value * 10 + digit;
        i = i + 1;
    }
    assert(digits.take(digits.len() as int) == digits);
    Some(value)
}

// ---------------------------------------------------------------------------
// Prefixes and suffixes
// ---------------------------------------------------------------------------

/// What follows `prefix` in `text`, when `text` starts with it.
pub open spec fn after_prefix(text: Seq<char>, prefix: Seq<char>) -> Option<Seq<char>> {
    if prefix.is_prefix_of(text) {
        Some(text.skip(prefix.len() as int))
    } else {
        None
    }
}

/// What precedes `suffix` in `text`, when `text` ends with it.
pub open spec fn before_suffix(text: Seq<char>, suffix: Seq<char>) -> Option<Seq<char>> {
    if suffix.is_suffix_of(text) {
        Some(text.take(text.len() - suffix.len()))
    } else {
        None
    }
}

/// Whether `text` starts with `prefix`.
pub fn starts_with(text: &str, prefix: &str) -> (yes: bool)
    ensures
        yes == prefix@.is_prefix_of(text@),
{
    let n: usize = prefix.unicode_len();
    if text.unicode_len() < n {
        return false;
    }
    let head = text.substring_char(0, n);
    assert(head@ == text@.take(n as int));
    same_text(head, prefix)
}

/// The text after a prefix, or `None` when the prefix is not there.
pub fn strip_prefix(text: &str, prefix: &str) -> (rest: Option<String>)
    ensures
        opt_text(rest) == after_prefix(text@, prefix@),
{
    if !starts_with(text, prefix) {
        return None;
    }
    let n: usize = prefix.unicode_len();
    let rest = text.substring_char(n, text.unicode_len());
    assert(rest@ == text@.skip(n as int));
    Some(rest.to_owned())
}

/// The text before a suffix, or `None` when the suffix is not there.
pub fn strip_suffix(text: &str, suffix: &str) -> (rest: Option<String>)
    ensures
        opt_text(rest) == before_suffix(text@, suffix@),
{
    let n: usize = text.unicode_len();
    let m: usize = suffix.unicode_len();
    if n < m {
        return None;
    }
    let tail = text.substring_char(n - m, n);
    assert(tail@ == text@.subrange(text@.len() - suffix@.len(), text@.len() as int));
    if !same_text(tail, suffix) {
        assert(!suffix@.is_suffix_of(text@));
        return None;
    }
    assert(suffix@.is_suffix_of(text@));
    let rest = text.substring_char(0, n - m);
    assert(rest@ == text@.take(text@.len() - suffix@.len()));
    Some(rest.to_owned())
}

/// `text` without any run of `c` at its end.
pub open spec fn without_trailing(text: Seq<char>, c: char) -> Seq<char>
    decreases text.len(),
{
    if text.len() > 0 && text.last() == c {
        without_trailing(text.drop_last(), c)
    } else {
        text
    }
}

/// Removes every trailing `c`.
pub fn trim_trailing(text: &str, c: char) -> (trimmed: String)
    ensures
        trimmed@ == without_trailing(text@, c),
{
    let chars = chars_of(text);
    let mut end: usize = chars.len();
    assert(chars@.take(chars@.len() as int) == text@);
    while end > 0 && chars[end - 1] == c
        invariant
            end <= chars@.len(),
            chars@ == text@,
            without_trailing(chars@.take(end as int), c) == without_trailing(text@, c),
        decreases end,
    {
        assert(chars@.take(end as int).drop_last() == chars@.take(end - 1));
        end = end - 1;
    }
    let trimmed = text_between(&chars, 0, end);
    assert(trimmed@ == chars@.take(end as int));
    trimmed
}

// ---------------------------------------------------------------------------
// Case
// ---------------------------------------------------------------------------

/// A character with ASCII upper case folded to lower case.
pub open spec fn lower_char(c: char) -> char {
    if 'A' <= c && c <= 'Z' {
        (c as u32 + 32) as char
    } else {
        c
    }
}

/// A text with ASCII upper case folded to lower case.
pub open spec fn lower_text(text: Seq<char>) -> Seq<char> {
    Seq::new(text.len(), |i: int| lower_char(text[i]))
}

/// Folds ASCII upper case to lower case and leaves everything else alone.
pub fn to_ascii_lowercase(text: &str) -> (lower: String)
    ensures
        lower@ == lower_text(text@),
{
    let chars = chars_of(text);
    let mut lower = String::new();
    let mut i: usize = 0;
    while i < chars.len()
        invariant
            i <= chars@.len(),
            chars@ == text@,
            lower@ == lower_text(text@).take(i as int),
        decreases chars.len() - i,
    {
        let c = chars[i];
        if 'A' <= c && c <= 'Z' {
            lower.push(((c as u8) + 32) as char);
        } else {
            lower.push(c);
        }
        assert(lower_text(text@).take(i as int + 1) == lower_text(text@).take(i as int).push(
            lower_char(c),
        ));
        i = i + 1;
    }
    assert(lower_text(text@).take(text@.len() as int) == lower_text(text@));
    lower
}

// ---------------------------------------------------------------------------
// Splitting
// ---------------------------------------------------------------------------

/// The index of the first `c`, or the length of the text when there is none.
pub open spec fn first_index(text: Seq<char>, c: char) -> int
    decreases text.len(),
{
    if text.len() == 0 {
        0
    } else if text[0] == c {
        0
    } else {
        1 + first_index(text.skip(1), c)
    }
}

/// The first occurrence is inside the text or at its end.
pub proof fn lemma_first_index_bounds(text: Seq<char>, c: char)
    ensures
        0 <= first_index(text, c) <= text.len(),
    decreases text.len(),
{
    if text.len() > 0 && text[0] != c {
        lemma_first_index_bounds(text.skip(1), c);
    }
}

/// The pieces between the occurrences of `c`: always one more than there are
/// occurrences.
pub open spec fn pieces(text: Seq<char>, c: char) -> Seq<Seq<char>>
    decreases text.len(),
{
    let at = first_index(text, c);
    if 0 <= at < text.len() {
        seq![text.take(at)] + pieces(text.skip(at + 1), c)
    } else {
        seq![text]
    }
}

/// What stands at the first occurrence, when there is one, is `c`.
proof fn lemma_first_index_found(text: Seq<char>, c: char)
    ensures
        first_index(text, c) < text.len() ==> text[first_index(text, c)] == c,
    decreases text.len(),
{
    if text.len() > 0 && text[0] != c {
        lemma_first_index_found(text.skip(1), c);
        lemma_first_index_bounds(text.skip(1), c);
    }
}

/// Every character but `c` lies in one of the pieces.
pub proof fn lemma_pieces_cover(text: Seq<char>, c: char, i: int)
    requires
        0 <= i < text.len(),
        text[i] != c,
    ensures
        exists|k: int|
            0 <= k < pieces(text, c).len() && (#[trigger] pieces(text, c)[k]).contains(text[i]),
    decreases text.len(),
{
    lemma_first_index_bounds(text, c);
    lemma_first_index_found(text, c);
    let at = first_index(text, c);
    let all = pieces(text, c);
    if at < text.len() {
        let rest = text.skip(at + 1);
        if i < at {
            assert(all[0] == text.take(at));
            assert(all[0][i] == text[i]);
            assert(all[0].contains(text[i]));
        } else {
            assert(rest[i - at - 1] == text[i]);
            lemma_pieces_cover(rest, c, i - at - 1);
            let k = choose|k: int|
                0 <= k < pieces(rest, c).len() && (#[trigger] pieces(rest, c)[k]).contains(text[i]);
            assert(all[k + 1] == pieces(rest, c)[k]);
            assert(all[k + 1].contains(text[i]));
        }
    } else {
        assert(all[0] == text);
        assert(all[0].contains(text[i]));
    }
}

/// The pieces of a text, from its first character and the pieces of the rest.
pub proof fn lemma_pieces_step(text: Seq<char>, c: char)
    requires
        text.len() > 0,
    ensures
        pieces(text.skip(1), c).len() > 0,
        text[0] == c ==> pieces(text, c) == seq![Seq::<char>::empty()] + pieces(text.skip(1), c),
        text[0] != c ==> pieces(text, c) == seq![
            seq![text[0]] + pieces(text.skip(1), c)[0],
        ] + pieces(text.skip(1), c).skip(1),
{
    let rest = text.skip(1);
    lemma_first_index_bounds(rest, c);
    if text[0] == c {
        assert(text.take(0) == Seq::<char>::empty());
    } else {
        let at = first_index(rest, c);
        assert(first_index(text, c) == at + 1);
        if at < rest.len() {
            assert(text.take(at + 1) == seq![text[0]] + rest.take(at));
            assert(text.skip(at + 2) == rest.skip(at + 1));
            assert(pieces(rest, c).skip(1) == pieces(rest.skip(at + 1), c));
        } else {
            assert(text == seq![text[0]] + rest);
            assert(pieces(rest, c).skip(1) == Seq::<Seq<char>>::empty());
        }
    }
}

/// What comes before a `c` and holds none itself is the first piece.
pub proof fn lemma_pieces_after(before: Seq<char>, after: Seq<char>, c: char)
    requires
        !before.contains(c),
    ensures
        pieces(before + seq![c] + after, c) == seq![before] + pieces(after, c),
    decreases before.len(),
{
    let whole = before + seq![c] + after;
    lemma_pieces_step(whole, c);
    if before.len() == 0 {
        assert(whole.skip(1) == after);
        assert(before == Seq::<char>::empty());
    } else {
        let less = before.skip(1);
        assert forall|x: char| less.contains(x) implies before.contains(x) by {
            let i = choose|i: int| 0 <= i < less.len() && less[i] == x;
            assert(before[i + 1] == x);
        }
        assert(before.contains(before[0]));
        lemma_pieces_after(less, after, c);
        assert(whole.skip(1) == less + seq![c] + after);
        assert(seq![before[0]] + less == before);
        let rest = seq![less] + pieces(after, c);
        assert(rest.skip(1) == pieces(after, c));
        assert(whole[0] == before[0]);
    }
}

/// A text without a `c` is one piece.
pub proof fn lemma_one_piece(text: Seq<char>, c: char)
    requires
        !text.contains(c),
    ensures
        pieces(text, c) == seq![text],
{
    lemma_first_index_bounds(text, c);
    lemma_first_index_found(text, c);
    if first_index(text, c) < text.len() {
        assert(text.contains(text[first_index(text, c)]));
    }
}

/// Finds the first `c` at or after `from`, or the end.
fn find_char(chars: &Vec<char>, from: usize, c: char) -> (at: usize)
    requires
        from <= chars@.len(),
    ensures
        from <= at <= chars@.len(),
        at - from == first_index(chars@.skip(from as int), c),
{
    let mut at: usize = from;
    proof {
        lemma_first_index_bounds(chars@.skip(from as int), c);
    }
    while at < chars.len() && chars[at] != c
        invariant
            from <= at <= chars@.len(),
            first_index(chars@.skip(from as int), c) == (at - from) + first_index(
                chars@.skip(at as int),
                c,
            ),
        decreases chars.len() - at,
    {
        assert(chars@.skip(at as int)[0] == chars@[at as int]);
        assert(chars@.skip(at as int).skip(1) == chars@.skip(at as int + 1));
        at = at + 1;
    }
    if at < chars.len() {
        assert(chars@.skip(at as int)[0] == c);
    }
    at
}

/// Splits a text at every `c`.
pub fn split_at_char(text: &str, c: char) -> (parts: Vec<String>)
    ensures
        texts(parts@) == pieces(text@, c),
{
    let chars = chars_of(text);
    let mut parts: Vec<String> = Vec::new();
    let mut from: usize = 0;
    assert(chars@.skip(0) == text@);
    loop
        invariant
            from <= chars@.len(),
            chars@ == text@,
            texts(parts@) + pieces(chars@.skip(from as int), c) == pieces(text@, c),
        decreases chars.len() - from,
    {
        let at = find_char(&chars, from, c);
        let piece = text_between(&chars, from, at);
        let ghost before = parts@;
        parts.push(piece);
        assert(texts(parts@) == texts(before).push(piece@));
        assert(chars@.skip(from as int).take(at - from) == piece@);
        if at == chars.len() {
            assert(chars@.skip(from as int) == piece@);
            assert(texts(parts@) == texts(before) + seq![piece@]);
            return parts;
        }
        assert(chars@.skip(from as int).skip(at - from + 1) == chars@.skip(at as int + 1));
        assert(texts(before) + (seq![piece@] + pieces(chars@.skip(at as int + 1), c)) == texts(
            parts@,
        ) + pieces(chars@.skip(at as int + 1), c));
        from = at + 1;
    }
}

/// Whether a character separates words: the Unicode `White_Space` property.
pub open spec fn is_space(c: char) -> bool {
    ||| '\u{9}' <= c && c <= '\u{d}'
    ||| c == '\u{20}'
    ||| c == '\u{85}'
    ||| c == '\u{a0}'
    ||| c == '\u{1680}'
    ||| '\u{2000}' <= c && c <= '\u{200a}'
    ||| c == '\u{2028}'
    ||| c == '\u{2029}'
    ||| c == '\u{202f}'
    ||| c == '\u{205f}'
    ||| c == '\u{3000}'
}

/// Whether a character separates words.
pub fn is_space_char(c: char) -> (yes: bool)
    ensures
        yes == is_space(c),
{
    ('\u{9}' <= c && c <= '\u{d}') || c == '\u{20}' || c == '\u{85}' || c == '\u{a0}' || c
        == '\u{1680}' || ('\u{2000}' <= c && c <= '\u{200a}') || c == '\u{2028}' || c == '\u{2029}'
        || c == '\u{202f}' || c == '\u{205f}' || c == '\u{3000}'
}

/// The length of the run at the start of `text` whose characters are spaces
/// (`spaces`) or are not.
pub open spec fn run_length(text: Seq<char>, spaces: bool) -> int
    decreases text.len(),
{
    if text.len() > 0 && is_space(text[0]) == spaces {
        1 + run_length(text.skip(1), spaces)
    } else {
        0
    }
}

/// A run lies inside its text.
pub proof fn lemma_run_length_bounds(text: Seq<char>, spaces: bool)
    ensures
        0 <= run_length(text, spaces) <= text.len(),
    decreases text.len(),
{
    if text.len() > 0 && is_space(text[0]) == spaces {
        lemma_run_length_bounds(text.skip(1), spaces);
    }
}

/// The words of a text: the maximal runs of characters that are not spaces.
pub open spec fn words(text: Seq<char>) -> Seq<Seq<char>>
    decreases text.len(),
{
    let lead = run_length(text, true);
    let rest = text.skip(lead);
    let size = run_length(rest, false);
    if 0 <= lead <= text.len() && 0 < size <= rest.len() {
        seq![rest.take(size)] + words(rest.skip(size))
    } else {
        Seq::empty()
    }
}

/// A space at the end lengthens a run of spaces that reaches it, and no other
/// run.
proof fn lemma_run_before_space(text: Seq<char>, space: char, spaces: bool)
    requires
        is_space(space),
    ensures
        run_length(text.push(space), spaces) == run_length(text, spaces) + if spaces && run_length(
            text,
            spaces,
        ) == text.len() {
            1int
        } else {
            0int
        },
    decreases text.len(),
{
    let longer = text.push(space);
    if text.len() == 0 {
        assert(longer[0] == space);
        assert(longer.skip(1) == Seq::<char>::empty());
        assert(run_length(longer.skip(1), spaces) == 0);
    } else {
        assert(longer.skip(1) == text.skip(1).push(space));
        lemma_run_before_space(text.skip(1), space, spaces);
        lemma_run_length_bounds(text.skip(1), spaces);
    }
}

/// A space at the end of a text changes none of its words.
pub proof fn lemma_words_before_space(text: Seq<char>, space: char)
    requires
        is_space(space),
    ensures
        words(text.push(space)) == words(text),
    decreases text.len(),
{
    let longer = text.push(space);
    let lead = run_length(text, true);
    lemma_run_length_bounds(text, true);
    lemma_run_before_space(text, space, true);
    let rest = text.skip(lead);
    if lead == text.len() {
        assert(longer.skip(lead + 1) == Seq::<char>::empty());
        assert(rest == Seq::<char>::empty());
        assert(run_length(rest, false) == 0);
        assert(words(longer) == Seq::<Seq<char>>::empty());
    } else {
        assert(longer.skip(lead) == rest.push(space));
        lemma_run_before_space(rest, space, false);
        lemma_run_length_bounds(rest, false);
        let size = run_length(rest, false);
        if size > 0 {
            assert(rest.push(space).take(size) == rest.take(size));
            assert(rest.push(space).skip(size) == rest.skip(size).push(space));
            lemma_words_before_space(rest.skip(size), space);
        }
    }
}

/// Finds the end of a run of spaces, or of other characters, that starts at
/// `from`.
fn run_end(chars: &Vec<char>, from: usize, spaces: bool) -> (at: usize)
    requires
        from <= chars@.len(),
    ensures
        from <= at <= chars@.len(),
        at - from == run_length(chars@.skip(from as int), spaces),
{
    let mut at: usize = from;
    while at < chars.len() && is_space_char(chars[at]) == spaces
        invariant
            from <= at <= chars@.len(),
            run_length(chars@.skip(from as int), spaces) == (at - from) + run_length(
                chars@.skip(at as int),
                spaces,
            ),
        decreases chars.len() - at,
    {
        assert(chars@.skip(at as int)[0] == chars@[at as int]);
        assert(chars@.skip(at as int).skip(1) == chars@.skip(at as int + 1));
        at = at + 1;
    }
    if at < chars.len() {
        assert(chars@.skip(at as int)[0] == chars@[at as int]);
    }
    at
}

/// Splits a text into its words.
pub fn split_words(text: &str) -> (parts: Vec<String>)
    ensures
        texts(parts@) == words(text@),
{
    let chars = chars_of(text);
    let mut parts: Vec<String> = Vec::new();
    let mut from: usize = 0;
    assert(chars@.skip(0) == text@);
    loop
        invariant
            from <= chars@.len(),
            chars@ == text@,
            texts(parts@) + words(chars@.skip(from as int)) == words(text@),
        decreases chars.len() - from,
    {
        let start = run_end(&chars, from, true);
        let end = run_end(&chars, start, false);
        assert(chars@.skip(from as int).skip(start - from) == chars@.skip(start as int));
        if end == start {
            assert(words(chars@.skip(from as int)) == Seq::<Seq<char>>::empty());
            return parts;
        }
        let word = text_between(&chars, start, end);
        let ghost before = parts@;
        parts.push(word);
        assert(texts(parts@) == texts(before).push(word@));
        assert(chars@.skip(start as int).take(end - start) == word@);
        assert(chars@.skip(start as int).skip(end - start) == chars@.skip(end as int));
        assert(texts(before) + (seq![word@] + words(chars@.skip(end as int))) == texts(parts@)
            + words(chars@.skip(end as int)));
        from = end;
    }
}

// ---------------------------------------------------------------------------
// Joining
// ---------------------------------------------------------------------------

/// Texts one after another, with a separator between them.
pub open spec fn joined(parts: Seq<Seq<char>>, separator: Seq<char>) -> Seq<char>
    decreases parts.len(),
{
    if parts.len() == 0 {
        Seq::empty()
    } else if parts.len() == 1 {
        parts[0]
    } else {
        joined(parts.drop_last(), separator) + separator + parts.last()
    }
}

/// Joins texts with a separator.
pub fn join(parts: &Vec<String>, separator: &str) -> (all: String)
    ensures
        all@ == joined(texts(parts@), separator@),
{
    if parts.len() == 0 {
        return String::new();
    }
    let mut all = parts[0].clone();
    let mut i: usize = 1;
    assert(texts(parts@).take(1)[0] == parts@[0]@);
    while i < parts.len()
        invariant
            1 <= i <= parts@.len(),
            all@ == joined(texts(parts@).take(i as int), separator@),
        decreases parts.len() - i,
    {
        all.append(separator);
        all.append(parts[i].as_str());
        assert(texts(parts@).take(i as int + 1).drop_last() == texts(parts@).take(i as int));
        assert(texts(parts@).take(i as int + 1).last() == parts@[i as int]@);
        i = i + 1;
    }
    assert(texts(parts@).take(parts@.len() as int) == texts(parts@));
    all
}

// ---------------------------------------------------------------------------
// What a program printed
// ---------------------------------------------------------------------------

/// A text without the spaces at its two ends.
pub open spec fn trimmed(text: Seq<char>) -> Seq<char>
    decreases text.len(),
{
    if text.len() > 0 && is_space(text[0]) {
        trimmed(text.skip(1))
    } else if text.len() > 0 && is_space(text.last()) {
        trimmed(text.drop_last())
    } else {
        text
    }
}

/// Takes the spaces off the two ends of a text.
pub fn trim(text: &str) -> (kept: String)
    ensures
        kept@ == trimmed(text@),
{
    let chars = chars_of(text);
    let mut from: usize = 0;
    let mut to: usize = chars.len();
    assert(chars@.subrange(0, to as int) == text@);
    while from < to && is_space_char(chars[from])
        invariant
            from <= to == chars@.len(),
            trimmed(chars@.subrange(from as int, to as int)) == trimmed(text@),
        decreases to - from,
    {
        let ghost rest = chars@.subrange(from as int, to as int);
        assert(rest[0] == chars@[from as int]);
        assert(rest.skip(1) == chars@.subrange(from as int + 1, to as int));
        from = from + 1;
    }
    while from < to && is_space_char(chars[to - 1])
        invariant
            from <= to <= chars@.len(),
            from < chars@.len() ==> !is_space(chars@[from as int]),
            trimmed(chars@.subrange(from as int, to as int)) == trimmed(text@),
        decreases to - from,
    {
        let ghost rest = chars@.subrange(from as int, to as int);
        assert(rest[0] == chars@[from as int]);
        assert(rest.last() == chars@[to as int - 1]);
        assert(rest.drop_last() == chars@.subrange(from as int, to as int - 1));
        to = to - 1;
    }
    let ghost rest = chars@.subrange(from as int, to as int);
    if from < to {
        assert(rest[0] == chars@[from as int]);
        assert(rest.last() == chars@[to as int - 1]);
    }
    text_between(&chars, from, to)
}

/// The text that bytes are read as, whatever they are.
pub uninterp spec fn lossy_text(bytes: Seq<u8>) -> Seq<char>;

/// Wraps [`String::from_utf8_lossy`]. Claimed of it: the text depends on the
/// bytes alone, and well-formed UTF-8 is read as the text that it encodes. What
/// stands where the bytes are not UTF-8 is not stated here.
#[verifier::external_body]
pub(crate) fn decode(bytes: &Vec<u8>) -> (text: String)
    ensures
        text@ == lossy_text(bytes@),
        vstd::utf8::valid_utf8(bytes@) ==> text@ == vstd::utf8::decode_utf8(bytes@),
{
    String::from_utf8_lossy(bytes).into_owned()
}

/// Reads what a program printed, without the spaces at its two ends.
pub fn printed(bytes: &Vec<u8>) -> (text: String)
    ensures
        text@ == trimmed(lossy_text(bytes@)),
{
    trim(decode(bytes).as_str())
}

// ---------------------------------------------------------------------------
// Laws
// ---------------------------------------------------------------------------

/// Texts that were joined are all there.
pub proof fn law_a_joined_text_holds_every_part(
    parts: Seq<Seq<char>>,
    separator: Seq<char>,
    i: int,
)
    requires
        0 <= i < parts.len(),
    ensures
        exists|before: Seq<char>, after: Seq<char>|
            joined(parts, separator) == #[trigger] (before + parts[i] + after),
    decreases parts.len(),
{
    let none = Seq::<char>::empty();
    if parts.len() == 1 {
        assert(joined(parts, separator) =~= (none + parts[i]) + none);
    } else if i == parts.len() - 1 {
        let before = joined(parts.drop_last(), separator) + separator;
        assert(joined(parts, separator) =~= (before + parts[i]) + none);
    } else {
        law_a_joined_text_holds_every_part(parts.drop_last(), separator, i);
        let (before, after) = choose|before: Seq<char>, after: Seq<char>|
            joined(parts.drop_last(), separator) == #[trigger] (before + parts.drop_last()[i] + after);
        assert(joined(parts, separator) =~= (before + parts[i]) + (after + separator
            + parts.last()));
    }
}

/// A text is its beginning and what follows it, and its end and what precedes it.
pub proof fn law_a_prefix_and_a_suffix_are_cut_off(
    text: Seq<char>,
    part: Seq<char>,
    rest: Seq<char>,
)
    ensures
        after_prefix(text, part) == Some(rest) <==> text == part + rest,
        before_suffix(text, part) == Some(rest) <==> text == rest + part,
{
    if part.is_prefix_of(text) {
        assert(text =~= part + text.skip(part.len() as int));
    }
    if text == part + rest {
        assert(text.subrange(0, part.len() as int) =~= part);
        assert(text.skip(part.len() as int) =~= rest);
    }
    if part.is_suffix_of(text) {
        assert(text =~= text.take(text.len() - part.len()) + part);
    }
    if text == rest + part {
        assert(text.subrange(text.len() - part.len(), text.len() as int) =~= part);
        assert(text.take(text.len() - part.len()) =~= rest);
    }
}

/// What is taken off the end of a text is a run of that character, and none is
/// left there.
pub proof fn law_only_a_trailing_run_is_removed(text: Seq<char>, c: char)
    ensures
        ({
            let kept = without_trailing(text, c);
            &&& kept.len() <= text.len() && kept == text.take(kept.len() as int)
            &&& forall|i: int| kept.len() <= i < text.len() ==> #[trigger] text[i] == c
            &&& kept.len() > 0 ==> kept.last() != c
        }),
    decreases text.len(),
{
    if text.len() > 0 && text.last() == c {
        let less = text.drop_last();
        law_only_a_trailing_run_is_removed(less, c);
        let kept = without_trailing(text, c);
        assert(kept == less.take(kept.len() as int));
        assert(kept =~= text.take(kept.len() as int));
        assert forall|i: int| kept.len() <= i < text.len() implies #[trigger] text[i] == c by {
            if i < text.len() - 1 {
                assert(less[i] == text[i]);
            }
        }
    } else {
        assert(text.take(text.len() as int) =~= text);
    }
}

/// Folding moves the letters `A` to `Z` to `a` to `z`, and no other character.
pub proof fn law_only_capital_letters_are_folded(text: Seq<char>, i: int)
    requires
        0 <= i < text.len(),
    ensures
        lower_text(text).len() == text.len(),
        65 <= text[i] as u32 <= 90 ==> lower_text(text)[i] as u32 == text[i] as u32 + 32,
        !(65 <= text[i] as u32 <= 90) ==> lower_text(text)[i] == text[i],
{
}

/// The pieces of a text hold none of what they were split at, and joined with it
/// they are the text again.
pub proof fn law_pieces_are_what_lies_between(text: Seq<char>, c: char)
    ensures
        pieces(text, c).len() > 0,
        joined(pieces(text, c), seq![c]) == text,
        forall|k: int| 0 <= k < pieces(text, c).len() ==> !(#[trigger] pieces(text, c)[k]).contains(c),
    decreases text.len(),
{
    if text.len() == 0 {
        lemma_one_piece(text, c);
    } else {
        let rest = text.skip(1);
        let behind = pieces(rest, c);
        let all = pieces(text, c);
        law_pieces_are_what_lies_between(rest, c);
        lemma_pieces_step(text, c);
        assert(text =~= seq![text[0]] + rest);
        if text[0] == c {
            lemma_joined_front(seq![Seq::<char>::empty()] + behind, seq![c]);
            assert((seq![Seq::<char>::empty()] + behind).skip(1) =~= behind);
            assert(joined(all, seq![c]) =~= text);
            assert forall|k: int| 0 <= k < all.len() implies !(#[trigger] all[k]).contains(c) by {
                if k > 0 {
                    assert(all[k] == behind[k - 1]);
                }
            }
        } else {
            let first = seq![text[0]] + behind[0];
            assert(all[0] == first);
            assert(all.skip(1) =~= behind.skip(1));
            lemma_joined_front(all, seq![c]);
            lemma_joined_front(behind, seq![c]);
            assert(joined(all, seq![c]) =~= seq![text[0]] + joined(behind, seq![c]));
            assert forall|k: int| 0 <= k < all.len() implies !(#[trigger] all[k]).contains(c) by {
                if k > 0 {
                    assert(all[k] == behind[k]);
                } else if first.contains(c) {
                    let i = choose|i: int| 0 <= i < first.len() && first[i] == c;
                    assert(behind[0][i - 1] == c);
                    assert(behind[0].contains(c));
                }
            }
        }
    }
}

/// Joined texts, from the first of them and the rest.
proof fn lemma_joined_front(parts: Seq<Seq<char>>, separator: Seq<char>)
    requires
        parts.len() > 0,
    ensures
        parts.len() == 1 ==> joined(parts, separator) == parts[0],
        parts.len() > 1 ==> joined(parts, separator) == parts[0] + separator + joined(
            parts.skip(1),
            separator,
        ),
    decreases parts.len(),
{
    if parts.len() > 1 {
        let less = parts.drop_last();
        lemma_joined_front(less, separator);
        assert(parts.skip(1).drop_last() =~= less.skip(1));
        assert(parts.skip(1).last() == parts.last());
        if parts.len() == 2 {
            assert(parts.skip(1)[0] == parts.last());
            assert(less[0] == parts[0]);
        }
        assert(joined(parts, separator) =~= parts[0] + separator + joined(
            parts.skip(1),
            separator,
        ));
    }
}

/// A run of characters goes on behind a text exactly where it takes up all of it.
proof fn lemma_run_goes_on(text: Seq<char>, more: Seq<char>, spaces: bool)
    ensures
        run_length(text, spaces) < text.len() ==> run_length(text + more, spaces) == run_length(
            text,
            spaces,
        ),
        run_length(text, spaces) == text.len() ==> run_length(text + more, spaces) == text.len()
            + run_length(more, spaces),
    decreases text.len(),
{
    let whole = text + more;
    if text.len() == 0 {
        assert(whole =~= more);
    } else {
        assert(whole.skip(1) =~= text.skip(1) + more);
        assert(whole[0] == text[0]);
        lemma_run_goes_on(text.skip(1), more, spaces);
        lemma_run_length_bounds(text.skip(1), spaces);
    }
}

/// The characters of a run are all of its kind, and what follows it is not.
proof fn lemma_run_is_of_one_kind(text: Seq<char>, spaces: bool)
    ensures
        forall|i: int| 0 <= i < run_length(text, spaces) ==> is_space(#[trigger] text[i]) == spaces,
        run_length(text, spaces) < text.len() ==> is_space(text[run_length(text, spaces)])
            != spaces,
    decreases text.len(),
{
    if text.len() > 0 && is_space(text[0]) == spaces {
        let rest = text.skip(1);
        lemma_run_is_of_one_kind(rest, spaces);
        lemma_run_length_bounds(rest, spaces);
        assert forall|i: int| 0 <= i < run_length(text, spaces) implies is_space(
            #[trigger] text[i],
        ) == spaces by {
            if i > 0 {
                assert(rest[i - 1] == text[i]);
            }
        }
    }
}

/// A space at the beginning changes none of a text's words.
proof fn lemma_words_behind_space(text: Seq<char>)
    requires
        text.len() > 0,
        is_space(text[0]),
    ensures
        words(text) == words(text.skip(1)),
{
    let rest = text.skip(1);
    let lead = run_length(rest, true);
    lemma_run_length_bounds(rest, true);
    assert(run_length(text, true) == lead + 1);
    assert(text.skip(lead + 1) =~= rest.skip(lead));
}

/// A text without a space is one word, and no text has none.
pub proof fn law_a_text_without_spaces_is_a_word(text: Seq<char>)
    requires
        forall|i: int| 0 <= i < text.len() ==> !is_space(#[trigger] text[i]),
    ensures
        text.len() > 0 ==> words(text) == seq![text],
        text.len() == 0 ==> words(text) == Seq::<Seq<char>>::empty(),
{
    let rest = text.skip(0);
    assert(rest =~= text);
    if text.len() > 0 {
        assert(!is_space(text[0]));
        lemma_run_is_of_one_kind(text, false);
        lemma_run_length_bounds(text, false);
        assert(run_length(text, false) == text.len()) by {
            if run_length(text, false) < text.len() {
                assert(is_space(text[run_length(text, false)]));
            }
        }
        let none = text.skip(text.len() as int);
        assert(none =~= Seq::<char>::empty());
        assert(none.skip(0) =~= none);
        assert(words(none) =~= Seq::<Seq<char>>::empty());
        assert(text.take(text.len() as int) =~= text);
        assert(words(text) =~= seq![text]);
    }
}

/// A space parts words: the words around it are those before it and those behind
/// it.
pub proof fn law_a_space_parts_words(before: Seq<char>, space: char, after: Seq<char>)
    requires
        is_space(space),
    ensures
        words(before + seq![space] + after) == words(before) + words(after),
    decreases before.len(),
{
    let whole = before + seq![space] + after;
    if before.len() == 0 {
        lemma_words_behind_space(whole);
        assert(whole.skip(1) =~= after);
        assert(before.skip(0) =~= before);
        assert(words(before) + words(after) =~= words(after));
    } else if is_space(before[0]) {
        lemma_words_behind_space(whole);
        lemma_words_behind_space(before);
        assert(whole.skip(1) =~= before.skip(1) + seq![space] + after);
        law_a_space_parts_words(before.skip(1), space, after);
    } else {
        let size = run_length(before, false);
        let tail = seq![space] + after;
        lemma_run_length_bounds(before, false);
        lemma_run_length_bounds(before.skip(1), false);
        lemma_run_goes_on(before, tail, false);
        assert(whole =~= before + tail);
        assert(tail[0] == space);
        assert(run_length(tail, false) == 0);
        assert(run_length(whole, false) == size);
        assert(size > 0);
        assert(before.skip(0) =~= before && whole.skip(0) =~= whole);
        assert(whole.take(size) =~= before.take(size));
        let rest = before.skip(size);
        assert(whole.skip(size) =~= rest + seq![space] + after);
        law_a_space_parts_words(rest, space, after);
        assert(words(before) =~= seq![before.take(size)] + words(rest));
        assert(words(whole) =~= seq![before.take(size)] + words(whole.skip(size)));
        assert(words(whole) =~= words(before) + words(after));
    }
}

/// What is taken off the two ends of a text is spaces, and neither end of what is
/// left is one.
pub proof fn law_only_spaces_at_the_ends_are_trimmed(text: Seq<char>) -> (from: int)
    ensures
        ({
            let kept = trimmed(text);
            let to = from + kept.len();
            &&& 0 <= from && to <= text.len()
            &&& kept == text.subrange(from, to)
            &&& forall|i: int| 0 <= i < from ==> is_space(#[trigger] text[i])
            &&& forall|i: int| to <= i < text.len() ==> is_space(#[trigger] text[i])
            &&& kept.len() > 0 ==> !is_space(kept[0]) && !is_space(kept.last())
        }),
    decreases text.len(),
{
    let kept = trimmed(text);
    if text.len() > 0 && is_space(text[0]) {
        let rest = text.skip(1);
        let behind = law_only_spaces_at_the_ends_are_trimmed(rest);
        let from = behind + 1;
        assert(rest.subrange(behind, behind + kept.len()) =~= text.subrange(
            from,
            from + kept.len(),
        ));
        assert forall|i: int| 0 <= i < from implies is_space(#[trigger] text[i]) by {
            if i > 0 {
                assert(rest[i - 1] == text[i]);
            }
        }
        assert forall|i: int| from + kept.len() <= i < text.len() implies is_space(
            #[trigger] text[i],
        ) by {
            assert(rest[i - 1] == text[i]);
        }
        from
    } else if text.len() > 0 && is_space(text.last()) {
        let less = text.drop_last();
        let from = law_only_spaces_at_the_ends_are_trimmed(less);
        assert(less.subrange(from, from + kept.len()) =~= text.subrange(from, from + kept.len()));
        assert forall|i: int| 0 <= i < from implies is_space(#[trigger] text[i]) by {
            assert(less[i] == text[i]);
        }
        assert forall|i: int| from + kept.len() <= i < text.len() implies is_space(
            #[trigger] text[i],
        ) by {
            if i < text.len() - 1 {
                assert(less[i] == text[i]);
            }
        }
        from
    } else {
        assert(text.subrange(0, text.len() as int) =~= text);
        0
    }
}

/// A character is white space, or a hexadecimal digit, by its number alone.
pub proof fn law_characters_are_told_apart_by_number(c: char)
    ensures
        ({
            let n = c as u32;
            &&& n < 128 ==> (is_space(c) <==> n == 9 || n == 10 || n == 11 || n == 12 || n == 13
                || n == 32)
            &&& n >= 128 ==> (is_space(c) <==> n == 133 || n == 160 || n == 5760 || 8192 <= n
                <= 8202 || n == 8232 || n == 8233 || n == 8239 || n == 8287 || n == 12288)
            &&& is_digit(c) <==> 48 <= n <= 57
            &&& is_hex_digit(c) <==> 48 <= n <= 57 || 65 <= n <= 70 || 97 <= n <= 102
        }),
{
}

} // verus!
