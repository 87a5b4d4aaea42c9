//! The few operations on text that the rest of the library needs, on sequences of characters.
use vstd::prelude::*;
use vstd::string::is_ascii;

verus! {

/// `String::push` appends the character to the end of the string.
pub assume_specification[ String::push ](s: &mut String, c: char)
    ensures
        final(s)@ == old(s)@.push(c),
;

/// What `str::to_lowercase` makes of a string: its lowercase form in the terms of Unicode.
pub uninterp spec fn lowercase(s: Seq<char>) -> Seq<char>;

/// `str::to_lowercase` depends on the characters of the string alone. On ASCII text it turns
/// `A` to `Z` into `a` to `z` and keeps all else; what it makes of other text is left to
/// `lowercase`.
pub assume_specification[ str::to_lowercase ](s: &str) -> (lower: String)
    ensures
        lower@ == lowercase(s@),
        is_ascii(s) ==> lower@ == ascii_lowercase(s@),
;

/// The character with `A` to `Z` replaced by `a` to `z`.
pub open spec fn ascii_lower(c: char) -> char {
    if 'A' <= c <= 'Z' {
        (c as u32 + 32) as char
    } else {
        c
    }
}

/// The text with `A` to `Z` replaced by `a` to `z`.
pub open spec fn ascii_lowercase(s: Seq<char>) -> Seq<char> {
    s.map_values(|c: char| ascii_lower(c))
}

/// `needle` stands in `text` at position `i`.
pub open spec fn occurs_at(text: Seq<char>, needle: Seq<char>, i: int) -> bool {
    &&& 0 <= i <= text.len() - needle.len()
    &&& text.subrange(i, i + needle.len()) == needle
}

/// `needle` stands somewhere in `text`.
pub open spec fn occurs_in(text: Seq<char>, needle: Seq<char>) -> bool {
    exists|i: int| occurs_at(text, needle, i)
}

/// The text with every `from` replaced by `to`.
pub open spec fn replaced(s: Seq<char>, from: char, to: char) -> Seq<char> {
    s.map_values(
        |c: char|
            if c == from {
                to
            } else {
                c
            },
    )
}

/// The parts of `s` between the occurrences of `sep`: one more than there are occurrences.
pub open spec fn split(s: Seq<char>, sep: char) -> Seq<Seq<char>>
    decreases s.len(),
{
    if s.len() == 0 {
        seq![s]
    } else {
        let front = split(s.drop_last(), sep);
        if s.last() == sep {
            front.push(Seq::empty())
        } else {
            front.drop_last().push(front.last().push(s.last()))
        }
    }
}

/// The digit for a number below ten.
pub open spec fn digit(d: nat) -> char {
    (48 + d) as char
}

/// The number in decimal notation, without leading zeros.
pub open spec fn decimal(n: nat) -> Seq<char>
    decreases n,
{
    if n < 10 {
        seq![digit(n)]
    } else {
        decimal(n / 10).push(digit(n % 10))
    }
}

/// The characters of a string.
pub(crate) fn chars_of(s: &str) -> (chars: Vec<char>)
    ensures
        chars@ == s@,
{
    let mut chars: Vec<char> = Vec::new();
    for c in it: s.chars()
        invariant
            it.seq() == s@,
            chars@ == s@.take(it.index() as int),
    {
        chars.push(c);
    }
    chars
}

/// Whether two strings hold the same characters.
pub(crate) fn same_text(a: &str, b: &str) -> (same: bool)
    ensures
        same == (a@ == b@),
{
    let left: Vec<char> = chars_of(a);
    let right: Vec<char> = chars_of(b);
    assert(left@.len() == right@.len() ==> left@.subrange(0, right@.len() as int) =~= left@);
    left.len() == right.len() && matches_at(&left, &right, 0)
}

/// Whether `needle` stands in `text` at position `at`.
fn matches_at(text: &Vec<char>, needle: &Vec<char>, at: usize) -> (found: bool)
    requires
        at + needle@.len() <= text@.len(),
    ensures
        found == occurs_at(text@, needle@, at as int),
{
    let length: usize = text.len();
    for k in 0..needle.len()
        invariant
            length == text@.len(),
            at + needle@.len() <= length,
            forall|j: int| 0 <= j < k ==> #[trigger] text@[at + j] == needle@[j],
    {
        if text[at + k] != needle[k] {
            assert(text@.subrange(at as int, at + needle@.len())[k as int] != needle@[k as int]);
            return false;
        }
    }
    assert(text@.subrange(at as int, at + needle@.len()) =~= needle@) by {
        assert forall|j: int| 0 <= j < needle@.len() implies text@.subrange(
            at as int,
            at + needle@.len(),
        )[j] == needle@[j] by {
            assert(text@[at + j] == needle@[j]);
        }
    }
    true
}

/// Whether `needle` stands somewhere in `text`.
pub(crate) fn contains(text: &str, needle: &str) -> (found: bool)
    ensures
        found == occurs_in(text@, needle@),
{
    let chars: Vec<char> = chars_of(text);
    let wanted: Vec<char> = chars_of(needle);
    if wanted.len() > chars.len() {
        return false;
    }
    let last: usize = chars.len() - wanted.len();
    let mut i: usize = 0;
    loop
        invariant
            chars@ == text@,
            wanted@ == needle@,
            i <= last,
            last == chars@.len() - wanted@.len(),
            forall|j: int| 0 <= j < i ==> !occurs_at(text@, needle@, j),
        decreases last - i,
    {
        if matches_at(&chars, &wanted, i) {
            return true;
        }
        if i == last {
            return false;
        }
        i += 1;
    }
}

/// The character with `A` to `Z` replaced by `a` to `z`.
fn lower_char(c: char) -> (lower: char)
    ensures
        lower == ascii_lower(c),
{
    if 'A' <= c && c <= 'Z' {
        (c as u8 + 32) as char
    } else {
        c
    }
}

/// Whether two strings are the same text but for the case of ASCII letters.
pub(crate) fn eq_ignore_ascii_case(a: &str, b: &str) -> (same: bool)
    ensures
        same == (ascii_lowercase(a@) == ascii_lowercase(b@)),
{
    let left: Vec<char> = chars_of(a);
    let right: Vec<char> = chars_of(b);
    if left.len() != right.len() {
        assert(ascii_lowercase(a@).len() != ascii_lowercase(b@).len());
        return false;
    }
    for i in 0..left.len()
        invariant
            left@ == a@,
            right@ == b@,
            left@.len() == right@.len(),
            forall|j: int| 0 <= j < i ==> ascii_lower(left@[j]) == ascii_lower(right@[j]),
    {
        if lower_char(left[i]) != lower_char(right[i]) {
            assert(ascii_lowercase(a@)[i as int] != ascii_lowercase(b@)[i as int]);
            return false;
        }
    }
    assert(ascii_lowercase(a@) =~= ascii_lowercase(b@));
    true
}

/// The string with every `from` replaced by `to`.
pub(crate) fn replace_char(s: &str, from: char, to: char) -> (out: String)
    ensures
        out@ == replaced(s@, from, to),
{
    let chars: Vec<char> = chars_of(s);
    let mut out: String = String::new();
    for i in 0..chars.len()
        invariant
            chars@ == s@,
            out@ == replaced(s@.take(i as int), from, to),
    {
        let c: char = if chars[i] == from {
            to
        } else {
            chars[i]
        };
        out.push(c);
        assert(out@ =~= replaced(s@.take(i + 1), from, to));
    }
    assert(s@.take(s@.len() as int) =~= s@);
    out
}

/// What follows `prefix` in `s`, if `s` starts with it.
pub(crate) fn strip_prefix(s: &str, prefix: &str) -> (rest: Option<String>)
    ensures
        match rest {
            Some(tail) => s@ == prefix@ + tail@,
            None => !prefix@.is_prefix_of(s@),
        },
{
    let chars: Vec<char> = chars_of(s);
    let start: Vec<char> = chars_of(prefix);
    if start.len() > chars.len() || !matches_at(&chars, &start, 0) {
        return None;
    }
    let mut tail: String = String::new();
    for i in start.len()..chars.len()
        invariant
            start@.len() <= chars@.len(),
            tail@ == chars@.subrange(start@.len() as int, i as int),
    {
        tail.push(chars[i]);
        assert(tail@ =~= chars@.subrange(start@.len() as int, i + 1));
    }
    assert(s@ =~= prefix@ + tail@) by {
        assert(s@.subrange(0, prefix@.len() as int) == prefix@);
    }
    Some(tail)
}

/// The number in decimal notation.
pub(crate) fn decimal_string(n: u32) -> (s: String)
    ensures
        s@ == decimal(n as nat),
    decreases n,
{
    let last: u8 = (n % 10) as u8;
    let c: char = (48 + last) as char;
    let mut s: String = if n < 10 {
        String::new()
    } else {
        decimal_string(n / 10)
    };
    s.push(c);
    assert(n < 10 ==> s@ =~= seq![digit(n as nat)]);
    s
}

/// Lowering the case takes each capital letter to the small letter at the same place of the
/// alphabet, and leaves every other character alone.
pub proof fn law_case_goes_by_the_alphabet(c: char, i: int)
    ensures
        0 <= i < 26 ==> ascii_lower("ABCDEFGHIJKLMNOPQRSTUVWXYZ"@[i])
            == "abcdefghijklmnopqrstuvwxyz"@[i],
        !"ABCDEFGHIJKLMNOPQRSTUVWXYZ"@.contains(c) ==> ascii_lower(c) == c,
{
    let capitals = "ABCDEFGHIJKLMNOPQRSTUVWXYZ"@;
    reveal_strlit("ABCDEFGHIJKLMNOPQRSTUVWXYZ");
    reveal_strlit("abcdefghijklmnopqrstuvwxyz");
    if 'A' <= c <= 'Z' {
        let k = c as int - 'A' as int;
        assert(capitals[k] == c);
    }
}

/// Lowering the case keeps the length and works on each character by itself.
pub proof fn law_case_is_lowered_one_by_one(s: Seq<char>, i: int)
    requires
        0 <= i < s.len(),
    ensures
        ascii_lowercase(s).len() == s.len(),
        ascii_lowercase(s)[i] == ascii_lower(s[i]),
{
}

/// A text occurs in another exactly if that other is made of something, the text, and something
/// more.
pub proof fn law_occurs_between(text: Seq<char>, needle: Seq<char>)
    ensures
        occurs_in(text, needle) <==> exists|before: Seq<char>, after: Seq<char>|
            text == #[trigger] (before + needle + after),
{
    if occurs_in(text, needle) {
        let i = choose|i: int| occurs_at(text, needle, i);
        let before = text.subrange(0, i);
        let after = text.subrange(i + needle.len(), text.len() as int);
        assert(text =~= before + needle + after) by {
            assert(text.subrange(i, i + needle.len()) == needle);
            assert forall|j: int| 0 <= j < text.len() implies text[j] == (before + needle
                + after)[j] by {
                if i <= j < i + needle.len() {
                    assert(text.subrange(i, i + needle.len())[j - i] == needle[j - i]);
                }
            }
        }
    }
    if exists|before: Seq<char>, after: Seq<char>| text == #[trigger] (before + needle + after) {
        let (before, after) = choose|before: Seq<char>, after: Seq<char>|
            text == #[trigger] (before + needle + after);
        assert(text.subrange(before.len() as int, (before.len() + needle.len()) as int) =~= needle);
        assert(occurs_at(text, needle, before.len() as int));
    }
}

/// Replacing keeps the length, puts `to` where `from` stood, and leaves all else.
pub proof fn law_replaced_in_place(s: Seq<char>, from: char, to: char, i: int)
    requires
        0 <= i < s.len(),
    ensures
        replaced(s, from, to).len() == s.len(),
        s[i] == from ==> replaced(s, from, to)[i] == to,
        s[i] != from ==> replaced(s, from, to)[i] == s[i],
{
}

/// The parts, with the separator between each two.
pub open spec fn joined(parts: Seq<Seq<char>>, sep: char) -> Seq<char>
    decreases parts.len(),
{
    if parts.len() == 0 {
        Seq::empty()
    } else if parts.len() == 1 {
        parts[0]
    } else {
        joined(parts.drop_last(), sep).push(sep) + parts.last()
    }
}

/// Splitting is undone by joining, and no part holds the separator: nothing is lost, and nothing
/// is left unsplit.
pub proof fn law_split_is_undone_by_joining(s: Seq<char>, sep: char)
    ensures
        split(s, sep).len() > 0,
        joined(split(s, sep), sep) == s,
        forall|k: int|
            0 <= k < split(s, sep).len() ==> !(#[trigger] split(s, sep)[k]).contains(sep),
    decreases s.len(),
{
    let parts = split(s, sep);
    if s.len() == 0 {
        assert(joined(parts, sep) =~= s);
    } else {
        let front = split(s.drop_last(), sep);
        law_split_is_undone_by_joining(s.drop_last(), sep);
        assert(s =~= s.drop_last().push(s.last()));
        if s.last() == sep {
            assert(parts.drop_last() =~= front);
            assert(joined(parts, sep) =~= s);
            assert forall|k: int| 0 <= k < parts.len() implies !(#[trigger] parts[k]).contains(
                sep,
            ) by {
                if k < front.len() {
                    assert(parts[k] == front[k]);
                }
            }
        } else {
            assert(parts.drop_last() =~= front.drop_last());
            assert(joined(parts, sep) =~= joined(front, sep).push(s.last()));
            assert forall|k: int| 0 <= k < parts.len() implies !(#[trigger] parts[k]).contains(
                sep,
            ) by {
                if k < front.len() - 1 {
                    assert(parts[k] == front[k]);
                } else {
                    let last = front[front.len() - 1];
                    assert(parts[k] == last.push(s.last()));
                    if parts[k].contains(sep) {
                        let m = choose|m: int| 0 <= m < parts[k].len() && parts[k][m] == sep;
                        assert(last[m] == sep);
                        assert(last.contains(sep));
                    }
                }
            }
        }
    }
}

/// The number that a row of digits stands for.
pub open spec fn number_of(digits: Seq<char>) -> int
    decreases digits.len(),
{
    if digits.len() == 0 {
        0
    } else {
        10 * number_of(digits.drop_last()) + (digits.last() as int - '0' as int)
    }
}

/// The decimal notation of a number consists of digits, stands for that number, and does not begin
/// with a zero unless the number is zero.
pub proof fn law_decimal_stands_for_the_number(n: nat)
    ensures
        decimal(n).len() > 0,
        number_of(decimal(n)) == n,
        forall|i: int| 0 <= i < decimal(n).len() ==> '0' <= #[trigger] decimal(n)[i] <= '9',
        decimal(n)[0] == '0' ==> n == 0 && decimal(n).len() == 1,
    decreases n,
{
    let digits = decimal(n);
    if n < 10 {
        assert(digits.drop_last() =~= Seq::empty());
        assert(number_of(digits.drop_last()) == 0);
    } else {
        let front = decimal(n / 10);
        law_decimal_stands_for_the_number(n / 10);
        assert(digits.drop_last() =~= front);
        assert(digits[0] == front[0]);
        assert forall|i: int| 0 <= i < digits.len() implies '0' <= #[trigger] digits[i] <= '9' by {
            if i < front.len() {
                assert(digits[i] == front[i]);
            }
        }
    }
}

} // verus!
