//! Text as sequences of characters: the small operations on `str` and `String`
//! that the rest of the library states its contracts with.

use vstd::prelude::*;
use vstd::utf8::*;

verus! {

/// `String::push` appends one character to the end of the string.
pub assume_specification[ std::string::String::push ](s: &mut std::string::String, c: char)
    ensures
        final(s)@ == old(s)@.push(c),
;

/// Equality of string slices compares their characters.
pub assume_specification[ <str as PartialEq<str>>::eq ](a: &str, b: &str) -> (r: bool)
    ensures
        r == (a@ == b@),
;

/// The message that `core::str::Utf8Error` displays for bytes that are not UTF-8.
pub uninterp spec fn utf8_error_text(bytes: Seq<u8>) -> Seq<char>;

/// `core::str::from_utf8`: the text that the bytes encode, or, exactly when they
/// are not valid UTF-8, the displayed error.
#[verifier::external_body]
pub(crate) fn text_from_utf8(bytes: &[u8]) -> (r: Result<String, String>)
    ensures
        match r {
            Ok(text) => valid_utf8(bytes@) && text@ == decode_utf8(bytes@),
            Err(message) => !valid_utf8(bytes@) && message@ == utf8_error_text(bytes@),
        },
{
    match core::str::from_utf8(bytes) {
        Ok(text) => Ok(text.to_owned()),
        Err(error) => Err(error.to_string()),
    }
}

/// Whether two strings hold the same characters.
pub fn same_text(a: &str, b: &str) -> (r: bool)
    ensures
        r == (a@ == b@),
{
    a.eq(b)
}

/// The characters of a string, as a vector.
pub fn to_chars(s: &str) -> (r: Vec<char>)
    ensures
        r@ == s@,
{
    let mut out: Vec<char> = Vec::new();
    for c in it: s.chars()
        invariant
            it.seq() == s@,
            out@ == s@.take(it.index() as int),
    {
        proof {
            assert(s@.take(it.index() as int + 1) =~= s@.take(it.index() as int).push(
                s@[it.index() as int],
            ));
        }
        out.push(c);
    }
    proof {
        assert(s@.take(s@.len() as int) =~= s@);
    }
    out
}

/// The string that holds the given characters.
pub fn from_chars(chars: &[char]) -> (r: String)
    ensures
        r@ == chars@,
{
    let mut out = String::new();
    let mut i: usize = 0;
    while i < chars.len()
        invariant
            i <= chars.len(),
            out@ == chars@.take(i as int),
        decreases chars.len() - i,
    {
        proof {
            assert(chars@.take(i as int + 1) =~= chars@.take(i as int).push(chars@[i as int]));
        }
        out.push(chars[i]);
        i += 1;
    }
    proof {
        assert(chars@.take(i as int) =~= chars@);
    }
    out
}

/// The parts in order, with `separator` between neighbours.
pub open spec fn joined(parts: Seq<Seq<char>>, separator: Seq<char>) -> Seq<char>
    decreases parts.len(),
{
    if parts.len() == 0 {
        Seq::empty()
    } else if parts.len() == 1 {
        parts[0]
    } else {
        joined(parts.drop_last(), separator) + separator + parts.last()
    }
}

/// Joins strings with a separator between neighbours.
pub fn join(parts: &Vec<String>, separator: &str) -> (r: String)
    ensures
        r@ == joined(parts.deep_view(), separator@),
{
    let mut out = String::new();
    let mut i: usize = 0;
    while i < parts.len()
        invariant
            i <= parts.len(),
            out@ == joined(parts.deep_view().take(i as int), separator@),
        decreases parts.len() - i,
    {
        let ghost before = parts.deep_view().take(i as int);
        let ghost after = parts.deep_view().take(i as int + 1);
        proof {
            assert(after.drop_last() =~= before);
            assert(after.last() == parts[i as int]@);
        }
        if i > 0 {
            out.append(separator);
        }
        out.append(parts[i].as_str());
        i += 1;
    }
    proof {
        assert(parts.deep_view().take(i as int) =~= parts.deep_view());
    }
    out
}

/// The characters with the Unicode property White_Space.
pub open spec fn is_white_space(c: char) -> bool {
    let code = c as int;
    ||| 0x09 <= code <= 0x0d
    ||| code == 0x20
    ||| code == 0x85
    ||| code == 0xa0
    ||| code == 0x1680
    ||| 0x2000 <= code <= 0x200a
    ||| code == 0x2028
    ||| code == 0x2029
    ||| code == 0x202f
    ||| code == 0x205f
    ||| code == 0x3000
}

/// `char::is_whitespace` tells whether a character has the property White_Space.
pub assume_specification[ char::is_whitespace ](c: char) -> (r: bool)
    ensures
        r == is_white_space(c),
;

/// What is left when leading white space is taken off.
pub open spec fn trimmed_start(s: Seq<char>) -> Seq<char>
    decreases s.len(),
{
    if s.len() > 0 && is_white_space(s[0]) {
        trimmed_start(s.skip(1))
    } else {
        s
    }
}

/// What is left when trailing white space is taken off.
pub open spec fn trimmed_end(s: Seq<char>) -> Seq<char>
    decreases s.len(),
{
    if s.len() > 0 && is_white_space(s.last()) {
        trimmed_end(s.drop_last())
    } else {
        s
    }
}

/// What is left when white space is taken off both ends.
pub open spec fn trimmed(s: Seq<char>) -> Seq<char> {
    trimmed_end(trimmed_start(s))
}

/// What is left when every trailing `c` is taken off.
pub open spec fn without_trailing(s: Seq<char>, c: char) -> Seq<char>
    decreases s.len(),
{
    if s.len() > 0 && s.last() == c {
        without_trailing(s.drop_last(), c)
    } else {
        s
    }
}

/// What is left when every leading `c` is taken off.
pub open spec fn without_leading(s: Seq<char>, c: char) -> Seq<char>
    decreases s.len(),
{
    if s.len() > 0 && s[0] == c {
        without_leading(s.skip(1), c)
    } else {
        s
    }
}

/// Text without the white space at its ends.
pub fn trim(s: &str) -> (r: String)
    ensures
        r@ == trimmed(s@),
{
    let chars = to_chars(s);
    let mut start: usize = 0;
    proof {
        assert(s@.skip(0) =~= s@);
    }
    while start < chars.len() && chars[start].is_whitespace()
        invariant
            start <= chars.len(),
            chars@ == s@,
            trimmed_start(s@) == trimmed_start(s@.skip(start as int)),
        decreases chars.len() - start,
    {
        proof {
            assert(s@.skip(start as int).skip(1) =~= s@.skip(start as int + 1));
        }
        start += 1;
    }
    let ghost rest = s@.skip(start as int);
    assert(rest.len() > 0 ==> rest[0] == chars@[start as int]);
    assert(trimmed_start(s@) == rest);
    let mut end: usize = chars.len();
    proof {
        assert(chars@.subrange(start as int, end as int) =~= rest);
    }
    while end > start && chars[end - 1].is_whitespace()
        invariant
            start <= end <= chars.len(),
            trimmed_end(rest) == trimmed_end(chars@.subrange(start as int, end as int)),
        decreases end - start,
    {
        proof {
            assert(chars@.subrange(start as int, end as int).drop_last() =~= chars@.subrange(
                start as int,
                end as int - 1,
            ));
        }
        end -= 1;
    }
    proof {
        let kept = chars@.subrange(start as int, end as int);
        assert(kept.len() > 0 ==> kept.last() == chars@[end as int - 1]);
    }
    from_chars(vstd::slice::slice_subrange(chars.as_slice(), start, end))
}

/// Text without any `c` at its end.
pub fn trim_trailing(s: &str, c: char) -> (r: String)
    ensures
        r@ == without_trailing(s@, c),
{
    let chars = to_chars(s);
    let mut end: usize = chars.len();
    proof {
        assert(s@.take(end as int) =~= s@);
    }
    while end > 0 && chars[end - 1] == c
        invariant
            end <= chars.len(),
            chars@ == s@,
            without_trailing(s@, c) == without_trailing(s@.take(end as int), c),
        decreases end,
    {
        proof {
            assert(s@.take(end as int).drop_last() =~= s@.take(end as int - 1));
        }
        end -= 1;
    }
    from_chars(vstd::slice::slice_subrange(chars.as_slice(), 0, end))
}

/// Text without any `c` at its start.
pub fn trim_leading(s: &str, c: char) -> (r: String)
    ensures
        r@ == without_leading(s@, c),
{
    let chars = to_chars(s);
    let mut start: usize = 0;
    proof {
        assert(s@.skip(0) =~= s@);
    }
    while start < chars.len() && chars[start] == c
        invariant
            start <= chars.len(),
            chars@ == s@,
            without_leading(s@, c) == without_leading(s@.skip(start as int), c),
        decreases chars.len() - start,
    {
        proof {
            assert(s@.skip(start as int).skip(1) =~= s@.skip(start as int + 1));
        }
        start += 1;
    }
    from_chars(vstd::slice::slice_subrange(chars.as_slice(), start, chars.len()))
}

/// Two texts, one after the other.
pub fn concat(a: &str, b: &str) -> (r: String)
    ensures
        r@ == a@ + b@,
{
    let mut out = a.to_owned();
    out.append(b);
    out
}

/// Three texts, one after the other.
pub fn concat3(a: &str, b: &str, c: &str) -> (r: String)
    ensures
        r@ == a@ + b@ + c@,
{
    let mut out = a.to_owned();
    out.append(b);
    out.append(c);
    out
}

/// Four texts, one after the other.
pub fn concat4(a: &str, b: &str, c: &str, d: &str) -> (r: String)
    ensures
        r@ == a@ + b@ + c@ + d@,
{
    let mut out = a.to_owned();
    out.append(b);
    out.append(c);
    out.append(d);
    out
}

/// Five texts, one after the other.
pub fn concat5(a: &str, b: &str, c: &str, d: &str, e: &str) -> (r: String)
    ensures
        r@ == a@ + b@ + c@ + d@ + e@,
{
    let mut out = a.to_owned();
    out.append(b);
    out.append(c);
    out.append(d);
    out.append(e);
    out
}

/// The digits of a number in base ten, without leading zeros.
pub open spec fn decimal(n: nat) -> Seq<char>
    decreases n,
{
    if n < 10 {
        seq![(48 + n) as char]
    } else {
        decimal(n / 10).push((48 + n % 10) as char)
    }
}

/// A number written in base ten.
pub fn decimal_text(n: u64) -> (r: String)
    ensures
        r@ == decimal(n as nat),
    decreases n,
{
    if n < 10 {
        let mut out = String::new();
        out.push((48u8 + n as u8) as char);
        proof {
            assert(out@ =~= decimal(n as nat));
        }
        out
    } else {
        let mut out = decimal_text(n / 10);
        let digit: u8 = (n % 10) as u8;
        out.push((48u8 + digit) as char);
        out
    }
}

/// A number of up to 128 bits written in base ten.
pub fn decimal_text_u128(n: u128) -> (r: String)
    ensures
        r@ == decimal(n as nat),
    decreases n,
{
    if n < 10 {
        let mut out = String::new();
        out.push((48u8 + n as u8) as char);
        proof {
            assert(out@ =~= decimal(n as nat));
        }
        out
    } else {
        let mut out = decimal_text_u128(n / 10);
        let digit: u8 = (n % 10) as u8;
        out.push((48u8 + digit) as char);
        out
    }
}

pub open spec fn is_digit(c: char) -> bool {
    '0' <= c <= '9'
}

/// The number that a row of digits stands for.
pub open spec fn digits_value(digits: Seq<char>) -> nat
    decreases digits.len(),
{
    if digits.len() == 0 {
        0
    } else {
        digits_value(digits.drop_last()) * 10 + (digits.last() as nat - '0' as nat) as nat
    }
}

/// A text that reads as a number of 64 bits: digits, with or without a plus in front.
pub open spec fn parsed_u64(text: Seq<char>) -> Option<u64> {
    let digits = if text.len() > 0 && text[0] == '+' {
        text.skip(1)
    } else {
        text
    };
    digits_number(digits)
}

/// The number of 64 bits that a row of digits stands for.
pub open spec fn digits_number(digits: Seq<char>) -> Option<u64> {
    if digits.len() > 0 && (forall|i: int| 0 <= i < digits.len() ==> is_digit(#[trigger] digits[i]))
        && digits_value(digits) <= u64::MAX {
        Some(digits_value(digits) as u64)
    } else {
        None
    }
}

proof fn lemma_more_digits(digits: Seq<char>, upto: int)
    requires
        0 <= upto <= digits.len(),
        forall|i: int| 0 <= i < digits.len() ==> is_digit(#[trigger] digits[i]),
    ensures
        digits_value(digits.take(upto)) <= digits_value(digits),
    decreases digits.len() - upto,
{
    if upto == digits.len() {
        assert(digits.take(upto) =~= digits);
    } else {
        lemma_more_digits(digits, upto + 1);
        assert(digits.take(upto + 1).drop_last() =~= digits.take(upto));
        assert(is_digit(digits[upto]));
    }
}

/// Reads a number of 64 bits.
pub fn parse_u64(text: &str) -> (r: Option<u64>)
    ensures
        r == parsed_u64(text@),
{
    let chars = to_chars(text);
    let start: usize = if chars.len() > 0 && chars[0] == '+' {
        1
    } else {
        0
    };
    let ghost digits = chars@.skip(start as int);
    proof {
        assert(chars@.skip(0) =~= chars@);
        assert(digits == if text@.len() > 0 && text@[0] == '+' {
            text@.skip(1)
        } else {
            text@
        });
    }
    if start == chars.len() {
        return None;
    }
    let mut value: u64 = 0;
    let mut i: usize = start;
    while i < chars.len()
        invariant
            start <= i <= chars.len(),
            start <= 1,
            digits == chars@.skip(start as int),
            value == digits_value(digits.take(i - start)),
            forall|k: int| 0 <= k < i - start ==> is_digit(#[trigger] digits[k]),
            parsed_u64(text@) == digits_number(digits),
        decreases chars.len() - i,
    {
        let c = chars[i];
        assert(c == digits[i - start]);
        if !('0' <= c && c <= '9') {
            assert(!is_digit(digits[i - start]));
            return None;
        }
        let digit: u64 = (c as u32 - '0' as u32) as u64;
        proof {
            assert(digits.take(i - start + 1).drop_last() =~= digits.take(i - start));
            assert(digits.take(i - start + 1).last() == c);
            assert(digits_value(digits.take(i - start + 1)) == value * 10 + digit);
            if forall|k: int| 0 <= k < digits.len() ==> is_digit(#[trigger] digits[k]) {
                lemma_more_digits(digits, i - start + 1);
            }
        }
        match value.checked_mul(10) {
            None => {
                return None;
            },
            Some(tens) => match tens.checked_add(digit) {
                None => {
                    return None;
                },
                Some(sum) => {
                    value = sum;
                },
            },
        }
        i += 1;
    }
    proof {
        assert(digits.take(i - start) =~= digits);
    }
    Some(value)
}

/// The pieces of a text between the separators in it. There is always one.
pub open spec fn split(s: Seq<char>, separator: char) -> Seq<Seq<char>>
    decreases s.len(),
{
    if s.len() == 0 {
        seq![Seq::empty()]
    } else {
        let before = split(s.drop_last(), separator);
        if s.last() == separator {
            before.push(Seq::empty())
        } else {
            before.update(before.len() - 1, before.last().push(s.last()))
        }
    }
}

/// A text has at least one piece, its pieces hold no separator, and put together with
/// separators between them they are the text.
pub proof fn law_split_and_join(s: Seq<char>, separator: char)
    ensures
        split(s, separator).len() > 0,
        joined(split(s, separator), seq![separator]) == s,
        forall|i: int|
            0 <= i < split(s, separator).len() ==> !(#[trigger] split(s, separator)[i]).contains(
                separator,
            ),
    decreases s.len(),
{
    if s.len() == 0 {
    } else {
        law_split_and_join(s.drop_last(), separator);
        let before = split(s.drop_last(), separator);
        let parts = split(s, separator);
        assert(s =~= s.drop_last().push(s.last()));
        if s.last() == separator {
            assert(parts.drop_last() =~= before);
            assert(joined(parts, seq![separator]) =~= joined(before, seq![separator]) + seq![
                separator,
            ] + Seq::<char>::empty());
        } else {
            assert(parts.drop_last() =~= before.drop_last());
            assert(parts.last() == before.last().push(s.last()));
            assert(joined(parts, seq![separator]) =~= joined(before, seq![separator]).push(
                s.last(),
            ));
            assert forall|i: int| 0 <= i < parts.len() implies !(#[trigger] parts[i]).contains(
                separator,
            ) by {
                if i < parts.len() - 1 {
                    assert(parts[i] == before[i]);
                } else {
                    assert(!before[i].contains(separator));
                    if parts[i].contains(separator) {
                        let k = choose|k: int| 0 <= k < parts[i].len() && parts[i][k] == separator;
                        assert(before[i][k] == separator);
                    }
                }
            }
        }
    }
}

/// Cuts a text at every separator.
pub fn split_text(text: &str, separator: char) -> (r: Vec<String>)
    ensures
        r.deep_view() == split(text@, separator),
{
    let chars = to_chars(text);
    let mut parts: Vec<String> = Vec::new();
    let mut current = String::new();
    let mut i: usize = 0;
    proof {
        assert(text@.take(0) =~= Seq::empty());
        assert(parts.deep_view().push(current@) =~= split(text@.take(0), separator));
    }
    while i < chars.len()
        invariant
            i <= chars.len(),
            chars@ == text@,
            parts.deep_view().push(current@) == split(text@.take(i as int), separator),
        decreases chars.len() - i,
    {
        let c = chars[i];
        let ghost before = parts.deep_view();
        let ghost piece = current@;
        proof {
            assert(text@.take(i as int + 1).drop_last() =~= text@.take(i as int));
            assert(text@.take(i as int + 1).last() == c);
        }
        if c == separator {
            parts.push(current);
            current = String::new();
            proof {
                assert(parts.deep_view() =~= before.push(piece));
            }
        } else {
            current.push(c);
            proof {
                assert(before.push(piece.push(c)) =~= before.push(piece).update(
                    before.len() as int,
                    piece.push(c),
                ));
            }
        }
        i += 1;
    }
    let ghost before = parts.deep_view();
    parts.push(current);
    proof {
        assert(text@.take(i as int) =~= text@);
        assert(parts.deep_view() =~= before.push(current@));
    }
    parts
}

/// Where the first separator stands, or the length where there is none.
pub open spec fn first_index(s: Seq<char>, separator: char) -> int
    decreases s.len(),
{
    if s.len() == 0 || s[0] == separator {
        0
    } else {
        1 + first_index(s.skip(1), separator)
    }
}

proof fn lemma_first_index(s: Seq<char>, separator: char, at: int)
    requires
        0 <= at <= s.len(),
        forall|k: int| 0 <= k < at ==> s[k] != separator,
        at == s.len() || s[at] == separator,
    ensures
        first_index(s, separator) == at,
    decreases s.len(),
{
    if at > 0 {
        lemma_first_index(s.skip(1), separator, at - 1);
    }
}

/// What stands before and behind the first separator.
pub open spec fn split_once_at(s: Seq<char>, separator: char) -> Option<(Seq<char>, Seq<char>)> {
    let at = first_index(s, separator);
    if at < s.len() {
        Some((s.take(at), s.skip(at + 1)))
    } else {
        None
    }
}

/// Cuts a text at its first separator.
pub fn split_once(text: &str, separator: char) -> (r: Option<(String, String)>)
    ensures
        r.deep_view() == split_once_at(text@, separator),
{
    let chars = to_chars(text);
    let mut i: usize = 0;
    while i < chars.len() && chars[i] != separator
        invariant
            i <= chars.len(),
            forall|k: int| 0 <= k < i ==> chars@[k] != separator,
        decreases chars.len() - i,
    {
        i += 1;
    }
    proof {
        lemma_first_index(chars@, separator, i as int);
    }
    if i == chars.len() {
        return None;
    }
    let before = from_chars(vstd::slice::slice_subrange(chars.as_slice(), 0, i));
    let behind = from_chars(vstd::slice::slice_subrange(chars.as_slice(), i + 1, chars.len()));
    proof {
        assert(before@ =~= text@.take(i as int));
        assert(behind@ =~= text@.skip(i as int + 1));
    }
    Some((before, behind))
}

/// Where the last separator stands, or minus one where there is none.
pub open spec fn last_index(s: Seq<char>, separator: char) -> int
    decreases s.len(),
{
    if s.len() == 0 {
        -1
    } else if s.last() == separator {
        s.len() - 1
    } else {
        last_index(s.drop_last(), separator)
    }
}

/// What stands before and behind the last separator.
pub open spec fn rsplit_once_at(s: Seq<char>, separator: char) -> Option<(Seq<char>, Seq<char>)> {
    let at = last_index(s, separator);
    if at >= 0 {
        Some((s.take(at), s.skip(at + 1)))
    } else {
        None
    }
}

/// Cuts a text at its last separator.
pub fn rsplit_once(text: &str, separator: char) -> (r: Option<(String, String)>)
    ensures
        r.deep_view() == rsplit_once_at(text@, separator),
{
    let chars = to_chars(text);
    let mut i: usize = chars.len();
    proof {
        assert(text@.take(i as int) =~= text@);
    }
    while i > 0 && chars[i - 1] != separator
        invariant
            i <= chars.len(),
            chars@ == text@,
            last_index(text@, separator) == last_index(text@.take(i as int), separator),
        decreases i,
    {
        proof {
            assert(text@.take(i as int).drop_last() =~= text@.take(i as int - 1));
        }
        i -= 1;
    }
    if i == 0 {
        return None;
    }
    let before = from_chars(vstd::slice::slice_subrange(chars.as_slice(), 0, i - 1));
    let behind = from_chars(vstd::slice::slice_subrange(chars.as_slice(), i, chars.len()));
    proof {
        assert(before@ =~= text@.take(i as int - 1));
        assert(behind@ =~= text@.skip(i as int));
    }
    Some((before, behind))
}

/// Whether a text starts with another.
pub fn starts_with(text: &str, prefix: &str) -> (r: bool)
    ensures
        r == prefix@.is_prefix_of(text@),
{
    let chars = to_chars(text);
    let wanted = to_chars(prefix);
    if wanted.len() > chars.len() {
        return false;
    }
    let mut i: usize = 0;
    while i < wanted.len()
        invariant
            wanted.len() <= chars.len(),
            i <= wanted.len(),
            chars@ == text@,
            wanted@ == prefix@,
            forall|k: int| 0 <= k < i ==> chars@[k] == wanted@[k],
        decreases wanted.len() - i,
    {
        if chars[i] != wanted[i] {
            assert(text@.subrange(0, prefix@.len() as int)[i as int] != prefix@[i as int]);
            return false;
        }
        i += 1;
    }
    assert(prefix@ =~= text@.subrange(0, prefix@.len() as int));
    true
}

/// What follows a prefix.
pub fn strip_prefix(text: &str, prefix: &str) -> (r: Option<String>)
    ensures
        match r {
            Some(rest) => prefix@.is_prefix_of(text@) && rest@ == text@.skip(
                prefix@.len() as int,
            ),
            None => !prefix@.is_prefix_of(text@),
        },
{
    if !starts_with(text, prefix) {
        return None;
    }
    let chars = to_chars(text);
    let start: usize = to_chars(prefix).len();
    Some(from_chars(vstd::slice::slice_subrange(chars.as_slice(), start, chars.len())))
}

/// One text comes before another: at the first place where they differ its character
/// is the smaller one, or it ends there.
pub open spec fn text_less(a: Seq<char>, b: Seq<char>) -> bool
    decreases a.len(),
{
    if b.len() == 0 {
        false
    } else if a.len() == 0 {
        true
    } else if a[0] != b[0] {
        a[0] < b[0]
    } else {
        text_less(a.skip(1), b.skip(1))
    }
}

/// Whether one text comes before another.
pub fn comes_before(a: &str, b: &str) -> (r: bool)
    ensures
        r == text_less(a@, b@),
{
    let first = to_chars(a);
    let second = to_chars(b);
    let mut i: usize = 0;
    proof {
        assert(a@.skip(0) =~= a@);
        assert(b@.skip(0) =~= b@);
    }
    while i < first.len() && i < second.len()
        invariant
            i <= first.len(),
            i <= second.len(),
            first@ == a@,
            second@ == b@,
            text_less(a@, b@) == text_less(a@.skip(i as int), b@.skip(i as int)),
        decreases first.len() - i,
    {
        if first[i] != second[i] {
            return first[i] < second[i];
        }
        proof {
            assert(a@.skip(i as int).skip(1) =~= a@.skip(i as int + 1));
            assert(b@.skip(i as int).skip(1) =~= b@.skip(i as int + 1));
        }
        i += 1;
    }
    i < second.len()
}

/// Of two texts that are the same up to a place, the one with the smaller character there
/// comes first.
pub proof fn lemma_first_difference(a: Seq<char>, b: Seq<char>, place: int)
    requires
        0 <= place < a.len(),
        place < b.len(),
        forall|i: int| 0 <= i < place ==> a[i] == b[i],
        a[place] < b[place],
    ensures
        text_less(a, b),
    decreases place,
{
    if place > 0 {
        assert(a[0] == b[0]);
        assert forall|i: int| 0 <= i < place - 1 implies a.skip(1)[i] == b.skip(1)[i] by {
            assert(a[i + 1] == b[i + 1]);
        }
        lemma_first_difference(a.skip(1), b.skip(1), place - 1);
    }
}

/// Of two texts that differ, exactly one comes before the other, and no text comes
/// before itself.
pub proof fn law_texts_are_ordered(a: Seq<char>, b: Seq<char>)
    ensures
        text_less(a, b) ==> !text_less(b, a) && a != b,
        a != b ==> text_less(a, b) || text_less(b, a),
    decreases a.len(),
{
    if a.len() > 0 && b.len() > 0 {
        if a[0] == b[0] {
            law_texts_are_ordered(a.skip(1), b.skip(1));
            if a.skip(1) == b.skip(1) {
                assert(a =~= seq![a[0]] + a.skip(1));
                assert(b =~= seq![b[0]] + b.skip(1));
            }
        }
    } else if a.len() == 0 && b.len() == 0 {
        assert(a =~= b);
    }
}

/// What comes before a text comes before everything behind that text.
pub proof fn law_text_order_is_transitive(a: Seq<char>, b: Seq<char>, c: Seq<char>)
    requires
        text_less(a, b),
        text_less(b, c),
    ensures
        text_less(a, c),
    decreases a.len(),
{
    if a.len() > 0 && b.len() > 0 && c.len() > 0 && a[0] == b[0] && b[0] == c[0] {
        law_text_order_is_transitive(a.skip(1), b.skip(1), c.skip(1));
    }
}

/// A text stands in another from that place on.
pub open spec fn stands_at(whole: Seq<char>, part: Seq<char>, at: int) -> bool {
    &&& 0 <= at
    &&& at + part.len() <= whole.len()
    &&& whole.subrange(at, at + part.len()) == part
}

/// A text stands somewhere in another.
pub open spec fn stands_in(whole: Seq<char>, part: Seq<char>) -> bool {
    exists|at: int| #[trigger] stands_at(whole, part, at)
}

/// Texts that are joined all stand in what comes out, and nothing else does but the
/// separators between them.
pub proof fn law_joined_holds_its_parts(parts: Seq<Seq<char>>, separator: Seq<char>, i: int)
    requires
        0 <= i < parts.len(),
    ensures
        stands_in(joined(parts, separator), parts[i]),
        parts.len() == 1 ==> joined(parts, separator) == parts[0],
        parts.len() == 2 ==> joined(parts, separator) == parts[0] + separator + parts[1],
    decreases parts.len(),
{
    let whole = joined(parts, separator);
    if parts.len() == 1 {
        assert(whole.subrange(0, whole.len() as int) =~= whole);
        assert(stands_at(whole, parts[i], 0));
    } else {
        let before = joined(parts.drop_last(), separator);
        if parts.len() == 2 {
            assert(parts.drop_last()[0] == parts[0]);
            assert(before == parts[0]);
        }
        if i == parts.len() - 1 {
            let at: int = before.len() as int + separator.len() as int;
            assert(whole.subrange(at, at + parts[i].len()) =~= parts[i]);
            assert(stands_at(whole, parts[i], at));
        } else {
            law_joined_holds_its_parts(parts.drop_last(), separator, i);
            let at = choose|at: int| #[trigger] stands_at(before, parts.drop_last()[i], at);
            assert(whole.subrange(at, at + parts[i].len()) =~= before.subrange(
                at,
                at + parts[i].len(),
            ));
            assert(stands_at(whole, parts[i], at));
        }
    }
}

proof fn lemma_trimmed_start(s: Seq<char>) -> (at: int)
    ensures
        0 <= at <= s.len(),
        trimmed_start(s) == s.skip(at),
        forall|i: int| 0 <= i < at ==> is_white_space(#[trigger] s[i]),
        at < s.len() ==> !is_white_space(s[at]),
    decreases s.len(),
{
    if s.len() > 0 && is_white_space(s[0]) {
        let rest = s.skip(1);
        let at = lemma_trimmed_start(rest);
        assert(rest.skip(at) =~= s.skip(at + 1));
        assert forall|i: int| 0 <= i < at + 1 implies is_white_space(#[trigger] s[i]) by {
            if i > 0 {
                assert(rest[i - 1] == s[i]);
            }
        }
        at + 1
    } else {
        assert(s.skip(0) =~= s);
        0
    }
}

proof fn lemma_trimmed_end(s: Seq<char>) -> (end: int)
    ensures
        0 <= end <= s.len(),
        trimmed_end(s) == s.take(end),
        forall|i: int| end <= i < s.len() ==> is_white_space(#[trigger] s[i]),
        end > 0 ==> !is_white_space(s[end - 1]),
    decreases s.len(),
{
    if s.len() > 0 && is_white_space(s.last()) {
        let rest = s.drop_last();
        let end = lemma_trimmed_end(rest);
        assert(rest.take(end) =~= s.take(end));
        assert forall|i: int| end <= i < s.len() implies is_white_space(#[trigger] s[i]) by {
            if i < s.len() - 1 {
                assert(rest[i] == s[i]);
            }
        }
        end
    } else {
        assert(s.take(s.len() as int) =~= s);
        s.len() as int
    }
}

/// Trimming takes white space off both ends, all of it and nothing else: what is left
/// is a piece of the text, only white space stands before and behind it, and it neither
/// starts nor ends with any.
pub proof fn law_trimming_takes_white_space(s: Seq<char>) -> (r: (int, int))
    ensures
        0 <= r.0 <= r.1 <= s.len(),
        trimmed(s) == s.subrange(r.0, r.1),
        forall|i: int| 0 <= i < r.0 ==> is_white_space(#[trigger] s[i]),
        forall|i: int| r.1 <= i < s.len() ==> is_white_space(#[trigger] s[i]),
        trimmed(s).len() > 0 ==> !is_white_space(trimmed(s)[0]) && !is_white_space(
            trimmed(s).last(),
        ),
{
    let at = lemma_trimmed_start(s);
    let rest = s.skip(at);
    let end = lemma_trimmed_end(rest);
    assert(rest.take(end) =~= s.subrange(at, at + end));
    assert forall|i: int| at + end <= i < s.len() implies is_white_space(#[trigger] s[i]) by {
        assert(rest[i - at] == s[i]);
    }
    if end > 0 {
        assert(rest[0] == s[at]);
    }
    (at, at + end)
}

/// The texts of a list, one by one.
pub proof fn lemma_list(list: Vec<String>)
    ensures
        list.deep_view().len() == list@.len(),
        forall|i: int|
            0 <= i < list@.len() ==> #[trigger] list.deep_view()[i] == list@[i]@,
        forall|i: int|
            0 <= i < list@.len() ==> (#[trigger] list@[i])@ == list.deep_view()[i],
{
}

/// Texts one behind the other.
pub open spec fn run_together(parts: Seq<Seq<char>>) -> Seq<char>
    decreases parts.len(),
{
    if parts.len() == 0 {
        Seq::empty()
    } else {
        run_together(parts.drop_last()) + parts.last()
    }
}

/// Texts that are joined by nothing stand one behind the other.
pub proof fn law_joined_by_nothing(parts: Seq<Seq<char>>)
    ensures
        joined(parts, ""@) == run_together(parts),
    decreases parts.len(),
{
    reveal_strlit("");
    if parts.len() > 0 {
        law_joined_by_nothing(parts.drop_last());
        if parts.len() == 1 {
            assert(run_together(parts.drop_last()) =~= Seq::empty());
        }
        assert(joined(parts, ""@) =~= run_together(parts));
    }
}

/// What runs together can be put together list by list.
pub proof fn lemma_run_together_adds(first: Seq<Seq<char>>, rest: Seq<Seq<char>>)
    ensures
        run_together(first + rest) == run_together(first) + run_together(rest),
    decreases rest.len(),
{
    if rest.len() == 0 {
        assert(first + rest =~= first);
        assert(run_together(first) + run_together(rest) =~= run_together(first));
    } else {
        assert((first + rest).drop_last() =~= first + rest.drop_last());
        lemma_run_together_adds(first, rest.drop_last());
        assert(run_together(first + rest) =~= run_together(first) + run_together(rest));
    }
}

proof fn lemma_last_index(s: Seq<char>, separator: char)
    ensures
        -1 <= last_index(s, separator) < s.len(),
        last_index(s, separator) >= 0 ==> s[last_index(s, separator)] == separator,
        forall|i: int|
            last_index(s, separator) < i < s.len() ==> #[trigger] s[i] != separator,
    decreases s.len(),
{
    if s.len() > 0 && s.last() != separator {
        lemma_last_index(s.drop_last(), separator);
        assert forall|i: int| last_index(s, separator) < i < s.len() implies #[trigger] s[i]
            != separator by {
            if i < s.len() - 1 {
                assert(s.drop_last()[i] != separator);
            }
        }
    }
}

/// A text that is cut at its last separator is the two parts around it, and the second
/// holds no further one; a text without it is not cut.
pub proof fn law_rsplit_once(s: Seq<char>, separator: char)
    ensures
        s.contains(separator) <==> rsplit_once_at(s, separator) is Some,
        rsplit_once_at(s, separator) matches Some((before, behind)) ==> s == before + seq![
            separator,
        ] + behind && !behind.contains(separator),
{
    lemma_last_index(s, separator);
    let at = last_index(s, separator);
    if at >= 0 {
        assert(s.contains(s[at]));
        assert(s =~= s.take(at) + seq![separator] + s.skip(at + 1));
        let rest = s.skip(at + 1);
        if rest.contains(separator) {
            let k = choose|k: int| 0 <= k < rest.len() && rest[k] == separator;
            assert(s[at + 1 + k] == separator);
        }
    } else if s.contains(separator) {
        let k = choose|k: int| 0 <= k < s.len() && s[k] == separator;
        assert(s[k] == separator);
    }
}

/// A text that is two parts around a separator, with none in the first, is cut into them.
pub proof fn law_split_once(key: Seq<char>, separator: char, value: Seq<char>)
    requires
        !key.contains(separator),
    ensures
        split_once_at(key + seq![separator] + value, separator) == Some((key, value)),
{
    let s = key + seq![separator] + value;
    let at = key.len() as int;
    assert forall|k: int| 0 <= k < at implies s[k] != separator by {
        assert(key.contains(key[k]));
    }
    lemma_first_index(s, separator, at);
    assert(s.take(at) =~= key);
    assert(s.skip(at + 1) =~= value);
}

/// A text that is put between two others stands in what comes out.
pub proof fn law_text_stands_between(before: Seq<char>, part: Seq<char>, behind: Seq<char>)
    ensures
        stands_in(before + part + behind, part),
{
    let whole = before + part + behind;
    let at = before.len() as int;
    assert(whole.subrange(at, at + part.len()) =~= part);
    assert(stands_at(whole, part, at));
}

/// What a text is cut into at its first separator, put together again, is the text.
pub proof fn lemma_split_once_parts(s: Seq<char>, separator: char)
    ensures
        split_once_at(s, separator) matches Some((key, value)) ==> s == key + seq![separator]
            + value && s.contains(separator),
{
    lemma_first_index_is_separator(s, separator);
    let at = first_index(s, separator);
    if at < s.len() {
        assert(s =~= s.take(at) + seq![separator] + s.skip(at + 1));
        assert(s.contains(s[at]));
    }
}

proof fn lemma_first_index_is_separator(s: Seq<char>, separator: char)
    ensures
        0 <= first_index(s, separator) <= s.len(),
        first_index(s, separator) < s.len() ==> s[first_index(s, separator)] == separator,
    decreases s.len(),
{
    if s.len() > 0 && s[0] != separator {
        lemma_first_index_is_separator(s.skip(1), separator);
    }
}

/// What stands in a part of a text stands in the text.
pub proof fn lemma_parts_stand_in()
    ensures
        forall|a: Seq<char>, b: Seq<char>, part: Seq<char>|
            stands_in(a, part) || stands_in(b, part) ==> #[trigger] stands_in(a + b, part),
        forall|a: Seq<char>| #[trigger] stands_in(a, a),
{
    assert forall|a: Seq<char>, b: Seq<char>, part: Seq<char>|
        stands_in(a, part) || stands_in(b, part) implies #[trigger] stands_in(a + b, part) by {
        if stands_in(a, part) {
            let at = choose|at: int| stands_at(a, part, at);
            assert(stands_at(a, part, at));
            assert((a + b).subrange(at, at + part.len()) =~= a.subrange(at, at + part.len()));
            assert(stands_at(a + b, part, at));
        } else {
            let at = choose|at: int| stands_at(b, part, at);
            assert(stands_at(b, part, at));
            assert((a + b).subrange(a.len() + at, a.len() + at + part.len()) =~= b.subrange(
                at,
                at + part.len(),
            ));
            assert(stands_at(a + b, part, a.len() + at));
        }
    }
    assert forall|a: Seq<char>| #[trigger] stands_in(a, a) by {
        assert(a.subrange(0, a.len() as int) =~= a);
        assert(stands_at(a, a, 0));
    }
}

proof fn lemma_decimal_reads_back(n: nat)
    ensures
        decimal(n).len() > 0,
        forall|i: int| 0 <= i < decimal(n).len() ==> is_digit(#[trigger] decimal(n)[i]),
        digits_value(decimal(n)) == n,
    decreases n,
{
    if n < 10 {
        assert(decimal(n).drop_last() =~= Seq::empty());
        assert(digits_value(Seq::<char>::empty()) == 0);
        assert(decimal(n).last() == (48 + n) as char);
    } else {
        lemma_decimal_reads_back(n / 10);
        assert(decimal(n).drop_last() =~= decimal(n / 10));
        assert(decimal(n).last() == (48 + n % 10) as char);
    }
}

/// A number that was written is read back.
pub proof fn law_written_number_is_read_back(n: u64, written: String, text: &str, r: Option<u64>)
    requires
        call_ensures(decimal_text, (n,), written),
        text@ == written@,
        call_ensures(parse_u64, (text,), r),
    ensures
        r == Some(n),
{
    lemma_decimal_reads_back(n as nat);
    assert(is_digit(decimal(n as nat)[0]));
}

/// What is left of a text whose trailing characters are taken off does not end with them,
/// and with them behind it is the text.
pub proof fn law_trailing_characters_are_taken_off(s: &str, c: char, r: String)
    requires
        call_ensures(trim_trailing, (s, c), r),
    ensures
        r@.len() > 0 ==> r@.last() != c,
        r@.is_prefix_of(s@),
        forall|i: int| r@.len() <= i < s@.len() ==> #[trigger] s@[i] == c,
{
    lemma_without_trailing(s@, c);
}

proof fn lemma_without_trailing(s: Seq<char>, c: char)
    ensures
        without_trailing(s, c).len() > 0 ==> without_trailing(s, c).last() != c,
        without_trailing(s, c).len() <= s.len(),
        without_trailing(s, c) == s.take(without_trailing(s, c).len() as int),
        forall|i: int| without_trailing(s, c).len() <= i < s.len() ==> #[trigger] s[i] == c,
    decreases s.len(),
{
    if s.len() > 0 && s.last() == c {
        let rest = s.drop_last();
        lemma_without_trailing(rest, c);
        assert(rest.take(without_trailing(s, c).len() as int) =~= s.take(
            without_trailing(s, c).len() as int,
        ));
        assert forall|i: int| without_trailing(s, c).len() <= i < s.len() implies #[trigger] s[i]
            == c by {
            if i < rest.len() {
                assert(rest[i] == c);
            }
        }
    } else {
        assert(s.take(s.len() as int) =~= s);
    }
}

/// A prefix that was taken off and put back gives the text, and only a text that starts with
/// it has it.
pub proof fn law_prefix_is_taken_off(text: &str, prefix: &str, r: Option<String>, starts: bool)
    requires
        call_ensures(strip_prefix, (text, prefix), r),
        call_ensures(starts_with, (text, prefix), starts),
    ensures
        starts <==> r is Some,
        r matches Some(rest) ==> text@ == prefix@ + rest@,
        forall|rest: Seq<char>| text@ == #[trigger] (prefix@ + rest) ==> r is Some,
{
    if prefix@.is_prefix_of(text@) {
        assert(text@ =~= prefix@ + text@.skip(prefix@.len() as int));
    }
    assert forall|rest: Seq<char>| text@ == #[trigger] (prefix@ + rest) implies r is Some by {
        assert((prefix@ + rest).subrange(0, prefix@.len() as int) =~= prefix@);
    }
}

/// Texts are put together in their order.
pub proof fn law_pieces_keep_their_order(
    a: &str,
    b: &str,
    c: &str,
    two: String,
    three: String,
    text: &str,
    parts: Vec<String>,
    separator: char,
)
    requires
        call_ensures(concat, (a, b), two),
        call_ensures(concat3, (a, b, c), three),
        call_ensures(split_text, (text, separator), parts),
    ensures
        two@ == a@ + b@,
        three@ == two@ + c@,
        parts@.len() > 0,
        joined(parts.deep_view(), seq![separator]) == text@,
        forall|i: int| 0 <= i < parts@.len() ==> !(#[trigger] parts@[i])@.contains(separator),
{
    law_split_and_join(text@, separator);
    lemma_list(parts);
    assert forall|i: int| 0 <= i < parts@.len() implies !(#[trigger] parts@[i])@.contains(
        separator,
    ) by {
        assert(!parts.deep_view()[i].contains(separator));
    }
}

} // verus!
