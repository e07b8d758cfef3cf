//! Building, comparing and splitting text.
//!
//! Every diagnostic of this library is assembled here out of literals, decimal
//! numbers and names, so that contracts can state messages exactly.

use vstd::prelude::*;

verus! {

/// `String::push`: appends one character.
pub assume_specification[ String::push ](text: &mut String, character: char)
    ensures
        final(text)@ == old(text)@.push(character),
;

/// The decimal digit with the value `d`.
pub open spec fn digit(d: int) -> char {
    (48 + d) as char
}

/// Decimal notation of a natural number, without leading zeros.
pub open spec fn decimal(n: nat) -> Seq<char>
    decreases n,
{
    if n < 10 {
        seq![digit(n as int)]
    } else {
        decimal(n / 10).push(digit((n % 10) as int))
    }
}

/// Decimal notation of an integer.
pub open spec fn signed_decimal(n: int) -> Seq<char> {
    if n < 0 {
        seq!['-'] + decimal((-n) as nat)
    } else {
        decimal(n as nat)
    }
}

/// The lower-case hexadecimal digit with the value `d`.
pub open spec fn hex_digit(d: int) -> char {
    if d < 10 {
        (48 + d) as char
    } else {
        (87 + d) as char
    }
}

/// Lower-case hexadecimal notation, without leading zeros.
pub open spec fn hexadecimal(n: nat) -> Seq<char>
    decreases n,
{
    if n < 16 {
        seq![hex_digit(n as int)]
    } else {
        hexadecimal(n / 16).push(hex_digit((n % 16) as int))
    }
}

/// Each character as a `\u{...}` escape.
pub open spec fn escaped_unicode(characters: Seq<char>) -> Seq<char>
    decreases characters.len(),
{
    if characters.len() == 0 {
        Seq::empty()
    } else {
        escaped_unicode(characters.drop_last()) + seq!['\\', 'u', '{'] + hexadecimal(
            characters.last() as nat,
        ) + seq!['}']
    }
}

/// The parts in order, with the separator between neighbours.
pub open spec fn joined(parts: Seq<Seq<char>>, separator: Seq<char>) -> Seq<char>
    decreases parts.len(),
{
    if parts.len() == 0 {
        Seq::empty()
    } else if parts.len() == 1 {
        parts[0]
    } else {
        joined(parts.drop_last(), separator) + separator + parts.last()
    }
}

/// The views of a sequence of strings.
pub open spec fn views(parts: Seq<String>) -> Seq<Seq<char>> {
    Seq::new(parts.len(), |i: int| parts[i]@)
}

/// A shape in the notation `[a, b, c]`.
pub open spec fn shape_text(dims: Seq<usize>) -> Seq<char> {
    "["@ + joined(Seq::new(dims.len(), |i: int| decimal(dims[i] as nat)), ", "@) + "]"@
}

/// An ASCII capital as its small letter; every other character as it is.
pub open spec fn ascii_lower(c: char) -> char {
    if 'A' <= c && c <= 'Z' {
        (c as u8 + 32) as char
    } else {
        c
    }
}

/// An ASCII small letter as its capital; every other character as it is.
pub open spec fn ascii_upper(c: char) -> char {
    if 'a' <= c && c <= 'z' {
        (c as u8 - 32) as char
    } else {
        c
    }
}

pub open spec fn ascii_lowered(text: Seq<char>) -> Seq<char> {
    Seq::new(text.len(), |i: int| ascii_lower(text[i]))
}

pub open spec fn ascii_raised(text: Seq<char>) -> Seq<char> {
    Seq::new(text.len(), |i: int| ascii_upper(text[i]))
}

/// What `{:?}` prints for a string.
pub uninterp spec fn quoted(text: Seq<char>) -> Seq<char>;

/// What `{:?}` prints for a character.
pub uninterp spec fn quoted_char(character: char) -> Seq<char>;

/// Whether a character has the Unicode property `White_Space`.
pub open spec fn white_space(character: char) -> bool {
    ||| '\u{9}' <= character && character <= '\u{d}'
    ||| character == ' '
    ||| character == '\u{85}'
    ||| character == '\u{a0}'
    ||| character == '\u{1680}'
    ||| '\u{2000}' <= character && character <= '\u{200a}'
    ||| character == '\u{2028}'
    ||| character == '\u{2029}'
    ||| character == '\u{202f}'
    ||| character == '\u{205f}'
    ||| character == '\u{3000}'
}

/// The `Debug` notation of `str`, through `format!`: a function of the text alone,
/// named by `quoted`. Which characters come out escaped is left unsaid.
#[verifier::external_body]
pub(crate) fn quoted_text(text: &str) -> (out: String)
    ensures
        out@ == quoted(text@),
{
    format!("{text:?}")
}

/// The `Debug` notation of `char`, through `format!`: a function of the character
/// alone, named by `quoted_char`. Which characters come out escaped is left unsaid.
#[verifier::external_body]
pub(crate) fn quoted_char_text(character: char) -> (out: String)
    ensures
        out@ == quoted_char(character),
{
    format!("{character:?}")
}

/// `char::is_whitespace`: membership in the Unicode property `White_Space`.
#[verifier::external_body]
pub(crate) fn is_white_space(character: char) -> (out: bool)
    ensures
        out == white_space(character),
{
    character.is_whitespace()
}

/// Whether two texts are the same.
pub fn same_text(left: &str, right: &str) -> (out: bool)
    ensures
        out == (left@ == right@),
{
    left.to_owned() == right.to_owned()
}

/// Whether `text` begins with `prefix`.
pub fn begins_with(text: &str, prefix: &str) -> (out: bool)
    ensures
        out == prefix@.is_prefix_of(text@),
{
    let length: usize = text.unicode_len();
    let head: usize = prefix.unicode_len();
    head <= length && same_text(text.substring_char(0, head), prefix)
}

/// Whether `text` ends with `suffix`.
pub fn finishes_with(text: &str, suffix: &str) -> (out: bool)
    ensures
        out == suffix@.is_suffix_of(text@),
{
    let length: usize = text.unicode_len();
    let tail: usize = suffix.unicode_len();
    tail <= length && same_text(text.substring_char(length - tail, length), suffix)
}

/// A text occurs in another.
pub open spec fn occurs_in(part: Seq<char>, text: Seq<char>) -> bool {
    exists|at: int| occurs_at(part, text, at)
}

/// A text occurs in another at the given place.
pub open spec fn occurs_at(part: Seq<char>, text: Seq<char>, at: int) -> bool {
    0 <= at && at + part.len() <= text.len() && text.subrange(at, at + part.len()) == part
}

/// Whether `part` occurs in `text`.
pub fn contains_text(text: &str, part: &str) -> (out: bool)
    ensures
        out == occurs_in(part@, text@),
{
    let length: usize = text.unicode_len();
    let size: usize = part.unicode_len();
    if size > length {
        return false;
    }
    let last: usize = length - size;
    let mut at: usize = 0;
    while at < last
        invariant
            length == text@.len(),
            size == part@.len(),
            last + size == length,
            at <= last,
            forall|k: int| 0 <= k < at ==> !#[trigger] occurs_at(part@, text@, k),
        decreases last - at,
    {
        if same_text(text.substring_char(at, at + size), part) {
            assert(occurs_at(part@, text@, at as int));
            return true;
        }
        at = at + 1;
    }
    let out = same_text(text.substring_char(last, length), part);
    assert(out == occurs_at(part@, text@, last as int));
    out
}

/// The characters of a text.
pub fn characters_of(text: &str) -> (out: Vec<char>)
    ensures
        out@ == text@,
{
    let mut out: Vec<char> = Vec::new();
    for c in it: text.chars()
        invariant
            out@ == it.seq().take(it.index() as int),
            it.seq() == text@,
    {
        out.push(c);
    }
    out
}

/// The text made of the given characters.
pub fn text_of(characters: &[char]) -> (out: String)
    ensures
        out@ == characters@,
{
    let mut out = String::new();
    let mut i: usize = 0;
    while i < characters.len()
        invariant
            i <= characters.len(),
            out@ == characters@.take(i as int),
        decreases characters.len() - i,
    {
        out.push(characters[i]);
        i = i + 1;
    }
    out
}

fn digit_char(d: u64) -> (out: char)
    requires
        d < 10,
    ensures
        out == digit(d as int),
{
    (48u8 + d as u8) as char
}

fn hex_digit_char(d: u32) -> (out: char)
    requires
        d < 16,
    ensures
        out == hex_digit(d as int),
{
    if d < 10 {
        (48u8 + d as u8) as char
    } else {
        (87u8 + d as u8) as char
    }
}

/// A number in decimal notation.
pub fn decimal_text(n: u64) -> (out: String)
    ensures
        out@ == decimal(n as nat),
    decreases n,
{
    if n < 10 {
        let mut out = String::new();
        out.push(digit_char(n));
        out
    } else {
        let mut out = decimal_text(n / 10);
        out.push(digit_char(n % 10));
        out
    }
}

/// A signed number in decimal notation.
pub fn signed_decimal_text(n: i64) -> (out: String)
    ensures
        out@ == signed_decimal(n as int),
{
    if n < 0 {
        let mut out = String::new();
        out.push('-');
        if n == i64::MIN {
            out.append(decimal_text(9223372036854775808).as_str());
        } else {
            out.append(decimal_text((-n) as u64).as_str());
        }
        out
    } else {
        decimal_text(n as u64)
    }
}

/// A number in lower-case hexadecimal notation.
pub fn hexadecimal_text(n: u32) -> (out: String)
    ensures
        out@ == hexadecimal(n as nat),
    decreases n,
{
    if n < 16 {
        let mut out = String::new();
        out.push(hex_digit_char(n));
        out
    } else {
        let mut out = hexadecimal_text(n / 16);
        out.push(hex_digit_char(n % 16));
        out
    }
}

fn push_escape(out: &mut String, c: char)
    ensures
        final(out)@ == old(out)@ + seq!['\\', 'u', '{'] + hexadecimal(c as nat) + seq!['}'],
{
    out.push('\\');
    out.push('u');
    out.push('{');
    let code: u32 = c as u32;
    out.append(hexadecimal_text(code).as_str());
    out.push('}');
    assert(out@ =~= old(out)@ + seq!['\\', 'u', '{'] + hexadecimal(c as nat) + seq!['}']);
}

/// Each character as a `\u{...}` escape.
pub fn escaped_unicode_text(characters: &[char]) -> (out: String)
    ensures
        out@ == escaped_unicode(characters@),
{
    let mut out = String::new();
    let mut i: usize = 0;
    while i < characters.len()
        invariant
            i <= characters.len(),
            out@ == escaped_unicode(characters@.take(i as int)),
        decreases characters.len() - i,
    {
        proof {
            assert(characters@.take(i + 1).drop_last() =~= characters@.take(i as int));
        }
        push_escape(&mut out, characters[i]);
        i = i + 1;
    }
    assert(characters@.take(characters.len() as int) =~= characters@);
    out
}

/// The parts in order, with the separator between neighbours.
pub fn joined_text(parts: &[String], separator: &str) -> (out: String)
    ensures
        out@ == joined(views(parts@), separator@),
{
    let mut out = String::new();
    let mut i: usize = 0;
    while i < parts.len()
        invariant
            i <= parts.len(),
            out@ == joined(views(parts@).take(i as int), separator@),
        decreases parts.len() - i,
    {
        proof {
            assert(views(parts@).take(i + 1).drop_last() =~= views(parts@).take(i as int));
        }
        if i > 0 {
            out.append(separator);
        }
        out.append(parts[i].as_str());
        assert(i == 0 ==> out@ =~= parts[0]@);
        i = i + 1;
    }
    assert(views(parts@).take(parts.len() as int) =~= views(parts@));
    out
}

/// A shape in the notation `[a, b, c]`.
pub fn shape_string(dims: &[usize]) -> (out: String)
    ensures
        out@ == shape_text(dims@),
{
    let mut parts: Vec<String> = Vec::new();
    let mut i: usize = 0;
    while i < dims.len()
        invariant
            i <= dims.len(),
            parts.len() == i,
            forall|k: int| 0 <= k < i ==> (#[trigger] parts[k])@ == decimal(dims[k] as nat),
        decreases dims.len() - i,
    {
        parts.push(decimal_text(dims[i] as u64));
        i = i + 1;
    }
    proof {
        assert(views(parts@) =~= Seq::new(dims@.len(), |k: int| decimal(dims[k] as nat)));
    }
    let mut out = "[".to_owned();
    out.append(joined_text(parts.as_slice(), ", ").as_str());
    out.append("]");
    out
}

/// `first`, then `second`.
pub fn with_text(first: &str, second: &str) -> (out: String)
    ensures
        out@ == first@ + second@,
{
    let mut out = first.to_owned();
    out.append(second);
    out
}

/// `before`, then `middle`, then `after`.
pub fn around_text(before: &str, middle: &str, after: &str) -> (out: String)
    ensures
        out@ == before@ + middle@ + after@,
{
    let mut out = with_text(before, middle);
    out.append(after);
    out
}

/// `before`, then a number, then `after`.
pub fn around_number(before: &str, n: usize, after: &str) -> (out: String)
    ensures
        out@ == before@ + decimal(n as nat) + after@,
{
    around_text(before, decimal_text(n as u64).as_str(), after)
}

/// `before`, then a number, then `between`, then a number, then `after`.
pub fn around_numbers(before: &str, m: usize, between: &str, n: usize, after: &str) -> (out: String)
    ensures
        out@ == before@ + decimal(m as nat) + between@ + decimal(n as nat) + after@,
{
    let mut out = around_number(before, m, between);
    out.append(decimal_text(n as u64).as_str());
    out.append(after);
    out
}

/// `before`, then a number, then `between`, then a number.
pub fn with_numbers(before: &str, m: usize, between: &str, n: usize) -> (out: String)
    ensures
        out@ == before@ + decimal(m as nat) + between@ + decimal(n as nat),
{
    let mut out = around_number(before, m, between);
    out.append(decimal_text(n as u64).as_str());
    out
}

/// A text with its ASCII capitals made small.
pub fn ascii_lowered_text(text: &str) -> (out: String)
    ensures
        out@ == ascii_lowered(text@),
{
    let characters = characters_of(text);
    let mut out = String::new();
    let mut i: usize = 0;
    while i < characters.len()
        invariant
            i <= characters.len(),
            characters@ == text@,
            out@ == ascii_lowered(text@).take(i as int),
        decreases characters.len() - i,
    {
        let c = characters[i];
        if 'A' <= c && c <= 'Z' {
            out.push((c as u8 + 32) as char);
        } else {
            out.push(c);
        }
        i = i + 1;
    }
    out
}

/// A text with its ASCII small letters made capital.
pub fn ascii_raised_text(text: &str) -> (out: String)
    ensures
        out@ == ascii_raised(text@),
{
    let characters = characters_of(text);
    let mut out = String::new();
    let mut i: usize = 0;
    while i < characters.len()
        invariant
            i <= characters.len(),
            characters@ == text@,
            out@ == ascii_raised(text@).take(i as int),
        decreases characters.len() - i,
    {
        let c = characters[i];
        if 'a' <= c && c <= 'z' {
            out.push((c as u8 - 32) as char);
        } else {
            out.push(c);
        }
        i = i + 1;
    }
    out
}

/// The number that decimal digits stand for.
pub open spec fn number_read(digits: Seq<char>) -> int
    decreases digits.len(),
{
    if digits.len() == 0 {
        0
    } else {
        10 * number_read(digits.drop_last()) + (digits.last() as int - '0' as int)
    }
}

proof fn decimal_reads_back(n: nat)
    ensures
        number_read(decimal(n)) == n,
        decimal(n).len() >= 1,
        forall|i: int| 0 <= i < decimal(n).len() ==> '0' <= #[trigger] decimal(n)[i] <= '9',
        n > 0 ==> decimal(n)[0] != '0',
        n < 10 ==> decimal(n).len() == 1,
    decreases n,
{
    reveal_with_fuel(number_read, 2);
    if n < 10 {
        assert(decimal(n).drop_last() =~= Seq::<char>::empty());
        assert(number_read(Seq::<char>::empty()) == 0);
        assert(decimal(n).last() as int == 48 + n);
    } else {
        decimal_reads_back(n / 10);
        let last = digit((n % 10) as int);
        assert(last as int == 48 + n % 10);
        assert(decimal(n).drop_last() =~= decimal(n / 10));
        assert(decimal(n).last() == last);
        assert forall|i: int| 0 <= i < decimal(n).len() implies '0' <= #[trigger] decimal(n)[i]
            <= '9' by {
            if i < decimal(n / 10).len() {
                assert(decimal(n)[i] == decimal(n / 10)[i]);
            }
        }
        assert(decimal(n)[0] == decimal(n / 10)[0]);
    }
}

/// A number is written in digits that read back as the number, without a zero ahead of others.
pub proof fn written_numbers_read_back(n: u64, out: String)
    requires
        call_ensures(decimal_text, (n,), out),
    ensures
        number_read(out@) == n,
        out@.len() >= 1,
        forall|i: int| 0 <= i < out@.len() ==> '0' <= #[trigger] out@[i] <= '9',
        out@[0] == '0' ==> out@.len() == 1,
{
    decimal_reads_back(n as nat);
}

/// A number below zero is written as a sign and the number without it.
pub proof fn signs_stand_ahead(n: i64, out: String)
    requires
        call_ensures(signed_decimal_text, (n,), out),
    ensures
        n >= 0 ==> number_read(out@) == n && '0' <= out@[0] <= '9',
        n < 0 ==> out@[0] == '-' && number_read(out@.skip(1)) == -n,
{
    if n < 0 {
        decimal_reads_back((-n) as nat);
        assert(out@.skip(1) =~= decimal((-n) as nat));
    } else {
        decimal_reads_back(n as nat);
        assert('0' <= decimal(n as nat)[0] <= '9');
    }
}

/// A text begins with a prefix exactly where something follows the prefix in it, ends with a
/// suffix where something stands ahead of it, and holds a part where both are so.
pub proof fn parts_stand_in_texts(
    text: &str,
    part: &str,
    begins: bool,
    finishes: bool,
    holds: bool,
    same: bool,
)
    requires
        call_ensures(begins_with, (text, part), begins),
        call_ensures(finishes_with, (text, part), finishes),
        call_ensures(contains_text, (text, part), holds),
        call_ensures(same_text, (text, part), same),
    ensures
        same <==> text@ == part@,
        begins <==> exists|rest: Seq<char>| text@ == #[trigger] (part@ + rest),
        finishes <==> exists|rest: Seq<char>| text@ == #[trigger] (rest + part@),
        holds <==> exists|before: Seq<char>, after: Seq<char>|
            text@ == #[trigger] (before + part@ + after),
{
    let length = part@.len() as int;
    if begins {
        assert(text@ =~= part@ + text@.skip(length));
    }
    if exists|rest: Seq<char>| text@ == #[trigger] (part@ + rest) {
        let rest = choose|rest: Seq<char>| text@ == #[trigger] (part@ + rest);
        assert(part@ =~= text@.take(length));
        assert(part@.is_prefix_of(text@));
    }
    if finishes {
        assert(text@ =~= text@.take(text@.len() - length) + part@);
    }
    if exists|rest: Seq<char>| text@ == #[trigger] (rest + part@) {
        let rest = choose|rest: Seq<char>| text@ == #[trigger] (rest + part@);
        assert(part@ =~= text@.skip(text@.len() - length));
        assert(part@.is_suffix_of(text@));
    }
    if holds {
        let at = choose|at: int| occurs_at(part@, text@, at);
        assert(text@ =~= text@.take(at) + part@ + text@.skip(at + length));
    }
    if exists|before: Seq<char>, after: Seq<char>| text@ == #[trigger] (before + part@ + after) {
        let (before, after) = choose|before: Seq<char>, after: Seq<char>|
            text@ == #[trigger] (before + part@ + after);
        let at = before.len() as int;
        assert(text@.subrange(at, at + length) =~= part@);
        assert(occurs_at(part@, text@, at));
    }
}

/// One part more is joined by a separator and itself; one part alone stands for itself, and none
/// leave nothing.
pub proof fn joining_adds_a_part(
    parts: &[String],
    more: &[String],
    part: String,
    separator: &str,
    before: String,
    after: String,
)
    requires
        more@ == parts@.push(part),
        call_ensures(joined_text, (parts, separator), before),
        call_ensures(joined_text, (more, separator), after),
    ensures
        parts@.len() == 0 ==> before@.len() == 0 && after@ == part@,
        parts@.len() > 0 ==> after@ == before@ + separator@ + part@,
{
    assert(views(more@).drop_last() =~= views(parts@));
    assert(views(more@).last() == part@);
}

/// Changing the case of ASCII letters keeps the place of every character and touches no other:
/// capitals and small letters lie thirty-two apart.
pub proof fn case_changes_touch_letters(text: &str, small: String, capital: String, i: int)
    requires
        call_ensures(ascii_lowered_text, (text,), small),
        call_ensures(ascii_raised_text, (text,), capital),
        0 <= i < text@.len(),
    ensures
        small@.len() == text@.len() && capital@.len() == text@.len(),
        65 <= text@[i] as int <= 90 ==> small@[i] as int == text@[i] as int + 32,
        !(65 <= text@[i] as int <= 90) ==> small@[i] == text@[i],
        97 <= text@[i] as int <= 122 ==> capital@[i] as int == text@[i] as int - 32,
        !(97 <= text@[i] as int <= 122) ==> capital@[i] == text@[i],
{
}

/// Characters make a text, and a text has its characters.
pub proof fn texts_are_their_characters(
    text: &str,
    characters: Vec<char>,
    slice: &[char],
    out: String,
)
    requires
        call_ensures(characters_of, (text,), characters),
        slice@ == characters@,
        call_ensures(text_of, (slice,), out),
    ensures
        characters@ == text@,
        out@ == text@,
{
}

/// The number that lower-case hexadecimal digits stand for.
pub open spec fn hexadecimal_read(digits: Seq<char>) -> int
    decreases digits.len(),
{
    if digits.len() == 0 {
        0
    } else {
        16 * hexadecimal_read(digits.drop_last()) + (if digits.last() <= '9' {
            digits.last() as int - '0' as int
        } else {
            digits.last() as int - 'a' as int + 10
        })
    }
}

proof fn hexadecimal_reads_back(n: nat)
    ensures
        hexadecimal_read(hexadecimal(n)) == n,
        hexadecimal(n).len() >= 1,
        n > 0 ==> hexadecimal(n)[0] != '0',
        n < 16 ==> hexadecimal(n).len() == 1,
    decreases n,
{
    reveal_with_fuel(hexadecimal_read, 2);
    if n < 16 {
        assert(hexadecimal(n).drop_last() =~= Seq::<char>::empty());
        assert(hexadecimal_read(Seq::<char>::empty()) == 0);
    } else {
        hexadecimal_reads_back(n / 16);
        assert(hexadecimal(n).drop_last() =~= hexadecimal(n / 16));
        assert(hexadecimal(n)[0] == hexadecimal(n / 16)[0]);
    }
}

/// A number is written in hexadecimal digits that read back as the number, without a zero ahead of
/// others.
pub proof fn hexadecimal_numbers_read_back(n: u32, out: String)
    requires
        call_ensures(hexadecimal_text, (n,), out),
    ensures
        hexadecimal_read(out@) == n,
        out@.len() >= 1,
        n > 0 ==> out@[0] != '0',
{
    hexadecimal_reads_back(n as nat);
}

/// One character more is escaped by its code in braces; no characters leave nothing.
pub proof fn escaping_adds_a_code(
    characters: &[char],
    more: &[char],
    c: char,
    code: String,
    before: String,
    after: String,
)
    requires
        more@ == characters@.push(c),
        call_ensures(hexadecimal_text, (c as u32,), code),
        call_ensures(escaped_unicode_text, (characters,), before),
        call_ensures(escaped_unicode_text, (more,), after),
    ensures
        characters@.len() == 0 ==> before@.len() == 0,
        after@ == before@ + seq!['\\', 'u', '{'] + code@ + seq!['}'],
{
    assert(more@.drop_last() =~= characters@);
    assert(c as u32 as nat == c as nat);
}

/// Texts and numbers are put together in the order in which they are given; a shape stands in
/// brackets.
pub proof fn parts_keep_their_order(
    before: &str,
    between: &str,
    after: &str,
    m: usize,
    n: usize,
    first_number: String,
    second_number: String,
    pair: String,
    triple: String,
    one: String,
    two: String,
    open: String,
)
    requires
        call_ensures(decimal_text, (m as u64,), first_number),
        call_ensures(decimal_text, (n as u64,), second_number),
        call_ensures(with_text, (before, after), pair),
        call_ensures(around_text, (before, between, after), triple),
        call_ensures(around_number, (before, m, after), one),
        call_ensures(around_numbers, (before, m, between, n, after), two),
        call_ensures(with_numbers, (before, m, between, n), open),
    ensures
        pair@ == before@ + after@,
        triple@ == before@ + between@ + after@,
        one@ == before@ + first_number@ + after@,
        two@ == before@ + first_number@ + between@ + second_number@ + after@,
        open@ == before@ + first_number@ + between@ + second_number@,
{
}

/// A shape of one dimension is its size in brackets, and one dimension more is set off by a comma.
pub proof fn shapes_list_their_sizes(
    dims: &[usize],
    more: &[usize],
    size: usize,
    number: String,
    before: String,
    after: String,
)
    requires
        more@ == dims@.push(size),
        call_ensures(decimal_text, (size as u64,), number),
        call_ensures(shape_string, (dims,), before),
        call_ensures(shape_string, (more,), after),
    ensures
        dims@.len() == 0 ==> before@ == "[]"@ && after@ == "["@ + number@ + "]"@,
        dims@.len() > 0 ==> after@ == before@.drop_last() + ", "@ + number@ + "]"@,
{
    reveal_strlit("[");
    reveal_strlit("]");
    reveal_strlit("[]");
    let written = Seq::new(more@.len(), |i: int| decimal(more@[i] as nat));
    let fewer = Seq::new(dims@.len(), |i: int| decimal(dims@[i] as nat));
    assert(written.drop_last() =~= fewer);
    assert(written.last() == number@);
    if dims@.len() == 0 {
        assert(joined(fewer, ", "@) =~= Seq::<char>::empty());
        assert(before@ =~= "[]"@);
    } else {
        assert(before@.drop_last() =~= "["@ + joined(fewer, ", "@));
        assert(after@ =~= before@.drop_last() + ", "@ + number@ + "]"@);
    }
}

} // verus!
