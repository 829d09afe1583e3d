//! Text as sequences of characters: comparison, trimming, splitting, decimal
//! numbers and line handling, each stated over `Seq<char>`.
use vstd::prelude::*;

verus! {

/// `String::push` appends one character at the end.
pub assume_specification[ String::push ](text: &mut String, c: char)
    ensures
        final(text)@ == old(text)@.push(c),
;

/// The characters of `text`, in order.
pub fn chars_of(text: &str) -> (chars: Vec<char>)
    ensures
        chars@ == text@,
{
    let mut chars: Vec<char> = Vec::new();
    for c in iter: text.chars()
        invariant
            iter.seq() == text@,
            chars@ == text@.take(iter.index() as int),
    {
        chars.push(c);
    }
    assert(text@.take(text@.len() as int) =~= text@);
    chars
}

/// Whether two texts hold the same characters.
pub fn same_text(left: &str, right: &str) -> (same: bool)
    ensures
        same == (left@ == right@),
{
    let left_chars: Vec<char> = chars_of(left);
    let right_chars: Vec<char> = chars_of(right);
    if left_chars.len() != right_chars.len() {
        return false;
    }
    let mut i: usize = 0;
    while i < left_chars.len()
        invariant
            i <= left_chars.len(),
            left_chars.len() == right_chars.len(),
            left_chars@ == left@,
            right_chars@ == right@,
            forall|k: int| 0 <= k < i ==> left@[k] == right@[k],
        decreases left_chars.len() - i,
    {
        if left_chars[i] != right_chars[i] {
            return false;
        }
        i = i + 1;
    }
    assert(left@ =~= right@);
    true
}

/// The ASCII lower-case form of a character.
pub open spec fn lower_char(c: char) -> char {
    if 'A' <= c && c <= 'Z' {
        (c as u32 + 32) as char
    } else {
        c
    }
}

/// The text with every ASCII capital replaced by its small letter.
pub open spec fn lower(s: Seq<char>) -> Seq<char> {
    s.map_values(|c: char| lower_char(c))
}

fn lower_char_of(c: char) -> (r: char)
    ensures
        r == lower_char(c),
{
    if 'A' <= c && c <= 'Z' {
        let code: u8 = c as u8;
        (code + 32) as char
    } else {
        c
    }
}

/// ASCII lower-casing of a text.
pub fn to_lower(text: &str) -> (r: String)
    ensures
        r@ == lower(text@),
{
    let mut r: String = String::new();
    for c in iter: text.chars()
        invariant
            iter.seq() == text@,
            r@ == lower(text@.take(iter.index() as int)),
    {
        r.push(lower_char_of(c));
        assert(lower(text@.take(iter.index() as int + 1)) =~= lower(text@.take(iter.index() as int)).push(lower_char(c)));
    }
    assert(text@.take(text@.len() as int) =~= text@);
    r
}

/// Whether `c` has the Unicode `White_Space` property.
pub open spec fn white_space(c: char) -> bool {
    ||| '\u{9}' <= c <= '\u{d}'
    ||| c == ' '
    ||| c == '\u{85}'
    ||| c == '\u{a0}'
    ||| c == '\u{1680}'
    ||| '\u{2000}' <= c <= '\u{200a}'
    ||| c == '\u{2028}'
    ||| c == '\u{2029}'
    ||| c == '\u{202f}'
    ||| c == '\u{205f}'
    ||| c == '\u{3000}'
}

fn is_white_space(c: char) -> (r: bool)
    ensures
        r == white_space(c),
{
    ('\u{9}' <= c && c <= '\u{d}') || c == ' ' || c == '\u{85}' || c == '\u{a0}' || c == '\u{1680}'
        || ('\u{2000}' <= c && c <= '\u{200a}') || c == '\u{2028}' || c == '\u{2029}'
        || c == '\u{202f}' || c == '\u{205f}' || c == '\u{3000}'
}

/// `s` without its leading white space.
pub open spec fn trim_front(s: Seq<char>) -> Seq<char>
    decreases s.len(),
{
    if s.len() > 0 && white_space(s[0]) {
        trim_front(s.skip(1))
    } else {
        s
    }
}

/// `s` without its trailing white space.
pub open spec fn trim_back(s: Seq<char>) -> Seq<char>
    decreases s.len(),
{
    if s.len() > 0 && white_space(s.last()) {
        trim_back(s.drop_last())
    } else {
        s
    }
}

/// `s` without white space at either end.
pub open spec fn trimmed(s: Seq<char>) -> Seq<char> {
    trim_back(trim_front(s))
}

/// The text without white space at either end.
pub fn trim(text: &str) -> (r: &str)
    ensures
        r@ == trimmed(text@),
{
    let chars: Vec<char> = chars_of(text);
    let mut start: usize = 0;
    assert(text@.skip(0) =~= text@);
    while start < chars.len() && is_white_space(chars[start])
        invariant
            start <= chars.len(),
            chars@ == text@,
            trim_front(text@) == trim_front(text@.skip(start as int)),
        decreases chars.len() - start,
    {
        assert(text@.skip(start as int).skip(1) =~= text@.skip(start + 1));
        start = start + 1;
    }
    let mut end: usize = chars.len();
    assert(text@.skip(start as int) =~= text@.subrange(start as int, end as int));
    assert(trim_front(text@) == text@.subrange(start as int, end as int));
    while start < end && is_white_space(chars[end - 1])
        invariant
            start <= end <= chars.len(),
            chars@ == text@,
            trimmed(text@) == trim_back(text@.subrange(start as int, end as int)),
        decreases end - start,
    {
        assert(text@.subrange(start as int, end as int).drop_last() =~= text@.subrange(start as int, end - 1));
        end = end - 1;
    }
    text.substring_char(start, end)
}

/// The position of the first `c` in `s`, or `s.len()` where there is none.
pub open spec fn find(s: Seq<char>, c: char) -> int
    decreases s.len(),
{
    if s.len() == 0 || s[0] == c {
        0
    } else {
        1 + find(s.skip(1), c)
    }
}

/// The position of the last `c` in `s`, or -1 where there is none.
pub open spec fn rfind(s: Seq<char>, c: char) -> int
    decreases s.len(),
{
    if s.len() == 0 {
        -1
    } else if s.last() == c {
        s.len() - 1
    } else {
        rfind(s.drop_last(), c)
    }
}

pub proof fn lemma_find(s: Seq<char>, c: char)
    ensures
        0 <= find(s, c) <= s.len(),
        find(s, c) < s.len() ==> s[find(s, c)] == c,
        forall|j: int| 0 <= j < find(s, c) ==> s[j] != c,
    decreases s.len(),
{
    if s.len() > 0 && s[0] != c {
        lemma_find(s.skip(1), c);
        assert forall|j: int| 0 <= j < find(s, c) implies s[j] != c by {
            if j > 0 {
                assert(s.skip(1)[j - 1] == s[j]);
            }
        }
    }
}

pub proof fn lemma_rfind(s: Seq<char>, c: char)
    ensures
        -1 <= rfind(s, c) < s.len(),
        rfind(s, c) >= 0 ==> s[rfind(s, c)] == c,
        forall|j: int| rfind(s, c) < j < s.len() ==> s[j] != c,
    decreases s.len(),
{
    if s.len() > 0 && s.last() != c {
        lemma_rfind(s.drop_last(), c);
        assert forall|j: int| rfind(s, c) < j < s.len() implies s[j] != c by {
            if j < s.len() - 1 {
                assert(s.drop_last()[j] == s[j]);
            }
        }
    }
}

/// The first position of `c`, or the length.
pub fn find_in(chars: &[char], c: char) -> (r: usize)
    ensures
        r == find(chars@, c),
{
    let mut i: usize = 0;
    proof {
        lemma_find(chars@, c);
    }
    while i < chars.len() && chars[i] != c
        invariant
            i <= chars.len(),
            forall|j: int| 0 <= j < i ==> chars@[j] != c,
        decreases chars.len() - i,
    {
        i = i + 1;
    }
    i
}

/// Whether `c` occurs in the text.
pub fn contains_char(text: &str, c: char) -> (r: bool)
    ensures
        r == text@.contains(c),
{
    let chars: Vec<char> = chars_of(text);
    let i: usize = find_in(&chars, c);
    proof {
        lemma_find(text@, c);
    }
    i < chars.len()
}

/// What stands before and after the first `c`, where there is one.
pub open spec fn split_first(s: Seq<char>, c: char) -> Option<(Seq<char>, Seq<char>)> {
    let i = find(s, c);
    if i < s.len() {
        Some((s.take(i), s.skip(i + 1)))
    } else {
        None
    }
}

/// What stands before and after the last `c`, where there is one.
pub open spec fn split_last(s: Seq<char>, c: char) -> Option<(Seq<char>, Seq<char>)> {
    let i = rfind(s, c);
    if i >= 0 {
        Some((s.take(i), s.skip(i + 1)))
    } else {
        None
    }
}

/// The text before and after the first `c`.
pub fn split_once<'a>(text: &'a str, c: char) -> (r: Option<(&'a str, &'a str)>)
    ensures
        r is Some == split_first(text@, c) is Some,
        r matches Some((a, b)) ==> split_first(text@, c) == Some((a@, b@)),
{
    let chars: Vec<char> = chars_of(text);
    let i: usize = find_in(&chars, c);
    proof {
        lemma_find(text@, c);
    }
    if i < chars.len() {
        let before: &'a str = text.substring_char(0, i);
        let after: &'a str = text.substring_char(i + 1, chars.len());
        assert(before@ =~= text@.take(i as int));
        assert(after@ =~= text@.skip(i + 1));
        Some((before, after))
    } else {
        None
    }
}

/// The text before and after the last `c`.
pub fn rsplit_once<'a>(text: &'a str, c: char) -> (r: Option<(&'a str, &'a str)>)
    ensures
        r is Some == split_last(text@, c) is Some,
        r matches Some((a, b)) ==> split_last(text@, c) == Some((a@, b@)),
{
    let chars: Vec<char> = chars_of(text);
    let mut i: usize = chars.len();
    proof {
        lemma_rfind(text@, c);
    }
    while i > 0 && chars[i - 1] != c
        invariant
            i <= chars.len(),
            chars@ == text@,
            forall|j: int| i <= j < chars.len() ==> text@[j] != c,
        decreases i,
    {
        i = i - 1;
    }
    if i > 0 {
        let before: &'a str = text.substring_char(0, i - 1);
        let after: &'a str = text.substring_char(i, chars.len());
        assert(rfind(text@, c) == i - 1);
        assert(before@ =~= text@.take(i - 1));
        assert(after@ =~= text@.skip(i as int));
        Some((before, after))
    } else {
        None
    }
}

/// Whether `pattern` stands in `s` at position `i`.
pub open spec fn occurs_at(s: Seq<char>, pattern: Seq<char>, i: int) -> bool {
    0 <= i && i + pattern.len() <= s.len() && s.subrange(i, i + pattern.len()) == pattern
}

/// Whether `pattern` stands somewhere in `s`.
pub open spec fn has_text(s: Seq<char>, pattern: Seq<char>) -> bool {
    exists|i: int| occurs_at(s, pattern, i)
}

fn occurs_in(chars: &[char], pattern: &[char], at: usize) -> (r: bool)
    requires
        at <= chars.len(),
    ensures
        r == occurs_at(chars@, pattern@, at as int),
{
    if pattern.len() > chars.len() - at {
        return false;
    }
    let mut i: usize = 0;
    while i < pattern.len()
        invariant
            i <= pattern.len(),
            at + pattern.len() <= chars.len(),
            forall|k: int| 0 <= k < i ==> chars@[at + k] == pattern@[k],
        decreases pattern.len() - i,
    {
        if chars[at + i] != pattern[i] {
            assert(chars@.subrange(at as int, at + pattern@.len())[i as int] != pattern@[i as int]);
            return false;
        }
        i = i + 1;
    }
    assert(chars@.subrange(at as int, at + pattern@.len()) =~= pattern@);
    true
}

/// Whether the text begins with `prefix`.
pub fn starts_with(text: &str, prefix: &str) -> (r: bool)
    ensures
        r == prefix@.is_prefix_of(text@),
{
    let chars: Vec<char> = chars_of(text);
    let pattern: Vec<char> = chars_of(prefix);
    let r: bool = occurs_in(&chars, &pattern, 0);
    r
}

/// Whether the text ends with `suffix`.
pub fn ends_with(text: &str, suffix: &str) -> (r: bool)
    ensures
        r == suffix@.is_suffix_of(text@),
{
    let chars: Vec<char> = chars_of(text);
    let pattern: Vec<char> = chars_of(suffix);
    if pattern.len() > chars.len() {
        return false;
    }
    let at: usize = chars.len() - pattern.len();
    let r: bool = occurs_in(&chars, &pattern, at);
    r
}

/// The text without `prefix` at its start.
pub fn strip_prefix<'a>(text: &'a str, prefix: &str) -> (r: Option<&'a str>)
    ensures
        r is Some == prefix@.is_prefix_of(text@),
        r matches Some(rest) ==> text@ == prefix@ + rest@,
{
    if !starts_with(text, prefix) {
        return None;
    }
    let rest: &'a str = text.substring_char(prefix.unicode_len(), text.unicode_len());
    assert(text@ =~= prefix@ + rest@);
    Some(rest)
}

/// The text without `suffix` at its end.
pub fn strip_suffix<'a>(text: &'a str, suffix: &str) -> (r: Option<&'a str>)
    ensures
        r is Some == suffix@.is_suffix_of(text@),
        r matches Some(rest) ==> text@ == rest@ + suffix@,
{
    if !ends_with(text, suffix) {
        return None;
    }
    let rest: &'a str = text.substring_char(0, text.unicode_len() - suffix.unicode_len());
    assert(text@ =~= rest@ + suffix@);
    Some(rest)
}

/// Whether `pattern` occurs in the text.
pub fn contains_text(text: &str, pattern: &str) -> (r: bool)
    ensures
        r == has_text(text@, pattern@),
{
    let chars: Vec<char> = chars_of(text);
    let needle: Vec<char> = chars_of(pattern);
    let mut i: usize = 0;
    while i < chars.len()
        invariant
            i <= chars.len(),
            chars@ == text@,
            needle@ == pattern@,
            forall|k: int| 0 <= k < i ==> !occurs_at(text@, pattern@, k),
        decreases chars.len() - i,
    {
        if occurs_in(&chars, &needle, i) {
            return true;
        }
        i = i + 1;
    }
    let r: bool = occurs_in(&chars, &needle, i);
    r
}

/// `s` with every `from` replaced by `to`.
pub open spec fn replaced(s: Seq<char>, from: char, to: Seq<char>) -> Seq<char> {
    s.flat_map(replacement(from, to))
}

/// What stands for each character when `from` is replaced by `to`.
pub open spec fn replacement(from: char, to: Seq<char>) -> spec_fn(char) -> Seq<char> {
    |c: char| if c == from { to } else { seq![c] }
}

/// The text with every `from` replaced by `to`.
pub fn replace_char(text: &str, from: char, to: &str) -> (r: String)
    ensures
        r@ == replaced(text@, from, to@),
{
    let ghost f = replacement(from, to@);
    let mut r: String = String::new();
    assert(replaced(text@.take(0), from, to@) =~= Seq::<char>::empty());
    for c in iter: text.chars()
        invariant
            iter.seq() == text@,
            f == replacement(from, to@),
            r@ == text@.take(iter.index() as int).flat_map(f),
    {
        proof {
            text@.lemma_flat_map_take_append(f, iter.index() as int);
        }
        if c == from {
            r.append(to);
        } else {
            r.push(c);
        }
        assert(r@ =~= text@.take(iter.index() as int).flat_map(f) + f(c));
    }
    assert(text@.take(text@.len() as int) =~= text@);
    r
}

/// The numeral of a digit.
pub open spec fn digit_char(d: nat) -> char {
    ('0' as u32 + d) as char
}

/// The decimal numeral of `n`.
pub open spec fn decimal(n: nat) -> Seq<char>
    decreases n,
{
    if n < 10 {
        seq![digit_char(n)]
    } else {
        decimal(n / 10).push(digit_char(n % 10))
    }
}

/// Whether `c` is an ASCII digit.
pub open spec fn is_digit(c: char) -> bool {
    '0' <= c <= '9'
}

/// Whether `s` consists of ASCII digits alone.
pub open spec fn all_digits(s: Seq<char>) -> bool {
    forall|i: int| 0 <= i < s.len() ==> is_digit(#[trigger] s[i])
}

/// The number that a digit sequence denotes.
pub open spec fn numeral_value(s: Seq<char>) -> nat
    decreases s.len(),
{
    if s.len() == 0 {
        0
    } else {
        numeral_value(s.drop_last()) * 10 + (s.last() as u32 - '0' as u32) as nat
    }
}

/// The decimal numeral of a number.
pub fn decimal_text(n: u64) -> (r: String)
    ensures
        r@ == decimal(n as nat),
{
    wide_decimal_text(n as u128)
}

/// The decimal numeral of a wide number.
pub fn wide_decimal_text(n: u128) -> (r: String)
    ensures
        r@ == decimal(n as nat),
    decreases n,
{
    let digit: char = (48u8 + (n % 10) as u8) as char;
    if n < 10 {
        let mut r: String = String::new();
        r.push(digit);
        assert(r@ =~= seq![digit_char(n as nat)]);
        r
    } else {
        let mut r: String = wide_decimal_text(n / 10);
        r.push(digit);
        r
    }
}

/// A decimal numeral consists of digits and denotes its number.
pub proof fn lemma_decimal(n: nat)
    ensures
        decimal(n).len() > 0,
        all_digits(decimal(n)),
        numeral_value(decimal(n)) == n,
        n > 0 ==> decimal(n)[0] != '0',
    decreases n,
{
    reveal_with_fuel(numeral_value, 2);
    if n >= 10 {
        lemma_decimal(n / 10);
        assert(decimal(n).drop_last() =~= decimal(n / 10));
    } else {
        assert(seq![digit_char(n)].drop_last() =~= Seq::<char>::empty());
    }
}

/// Two numbers with the same numeral are the same number.
pub proof fn lemma_decimal_injective(a: nat, b: nat)
    requires
        decimal(a) == decimal(b),
    ensures
        a == b,
{
    lemma_decimal(a);
    lemma_decimal(b);
}

/// The number that `s` spells: digits, with an optional leading plus sign,
/// denoting at most `max`.
pub open spec fn parsed_number(s: Seq<char>, max: nat) -> Option<nat> {
    let digits = if s.len() > 0 && s[0] == '+' { s.skip(1) } else { s };
    if digits.len() > 0 && all_digits(digits) && numeral_value(digits) <= max {
        Some(numeral_value(digits))
    } else {
        None
    }
}

proof fn lemma_numeral_prefix(s: Seq<char>, k: int)
    requires
        all_digits(s),
        0 <= k <= s.len(),
    ensures
        numeral_value(s.take(k)) <= numeral_value(s),
    decreases s.len() - k,
{
    if k == s.len() {
        assert(s.take(k) =~= s);
    } else {
        lemma_numeral_prefix(s, k + 1);
        assert(s.take(k + 1).drop_last() =~= s.take(k));
        assert(is_digit(s[k]));
    }
}

/// The unsigned number that the text spells, where it is at most `max`.
pub fn parse_number(text: &str, max: u64) -> (r: Option<u64>)
    ensures
        r is Some == parsed_number(text@, max as nat) is Some,
        r matches Some(n) ==> parsed_number(text@, max as nat) == Some(n as nat),
{
    let chars: Vec<char> = chars_of(text);
    let start: usize = if chars.len() > 0 && chars[0] == '+' { 1 } else { 0 };
    let ghost digits = if text@.len() > 0 && text@[0] == '+' { text@.skip(1) } else { text@ };
    assert(digits =~= text@.skip(start as int));
    if start == chars.len() {
        return None;
    }
    let mut value: u64 = 0;
    let mut i: usize = start;
    assert(digits.take(0) =~= Seq::<char>::empty());
    while i < chars.len()
        invariant
            start <= i <= chars.len(),
            chars@ == text@,
            digits == text@.skip(start as int),
            digits == (if text@.len() > 0 && text@[0] == '+' { text@.skip(1) } else { text@ }),
            forall|k: int| 0 <= k < i - start ==> is_digit(#[trigger] digits[k]),
            value == numeral_value(digits.take(i - start)),
            value <= max,
        decreases chars.len() - i,
    {
        let c: char = chars[i];
        assert(digits[i - start] == c);
        if !('0' <= c && c <= '9') {
            return None;
        }
        let digit: u64 = (c as u8 - 48u8) as u64;
        assert(digits.take(i - start + 1).drop_last() =~= digits.take(i - start));
        assert(digits.take(i - start + 1).last() == c);
        assert(numeral_value(digits.take(i - start + 1)) == value * 10 + digit);
        if value > max / 10 || digit > max - value * 10 {
            proof {
                assert(value * 10 + digit > max) by (nonlinear_arith)
                    requires
                        value > max / 10 || digit > max - value * 10,
                ;
                if all_digits(digits) {
                    lemma_numeral_prefix(digits, i - start + 1);
                }
            }
            return None;
        }
        value = value * 10 + digit;
        i = i + 1;
    }
    assert(digits.take(digits.len() as int) =~= digits);
    Some(value)
}

/// Reading a decimal numeral gives back the number it was written for.
pub proof fn law_decimal_reads_back(n: nat, max: nat)
    requires
        n <= max,
    ensures
        parsed_number(decimal(n), max) == Some(n),
{
    lemma_decimal(n);
    assert(is_digit(decimal(n)[0]));
}

/// The texts held by a list of strings.
pub open spec fn texts(list: Seq<String>) -> Seq<Seq<char>> {
    list.map_values(|s: String| s@)
}

/// The text held by an optional string.
pub open spec fn opt_text(value: Option<String>) -> Option<Seq<char>> {
    match value {
        Some(s) => Some(s@),
        None => None,
    }
}

/// `line` without one trailing carriage return.
pub open spec fn without_carriage_return(line: Seq<char>) -> Seq<char> {
    if line.len() > 0 && line.last() == '\r' {
        line.drop_last()
    } else {
        line
    }
}

/// The lines of `s`: the pieces that end in a line feed, or in a carriage
/// return and a line feed, and a last piece where text follows the last of
/// them.
pub open spec fn lines(s: Seq<char>) -> Seq<Seq<char>>
    decreases s.len(),
{
    let i = find(s, '\n');
    if s.len() == 0 {
        seq![]
    } else if 0 <= i < s.len() {
        seq![without_carriage_return(s.take(i))] + lines(s.skip(i + 1))
    } else {
        seq![s]
    }
}

/// The lines of a text.
pub fn lines_of<'a>(text: &'a str) -> (r: Vec<&'a str>)
    ensures
        r@.map_values(|line: &str| line@) == lines(text@),
{
    let chars: Vec<char> = chars_of(text);
    let mut r: Vec<&'a str> = Vec::new();
    let mut start: usize = 0;
    assert(text@.skip(0) =~= text@);
    assert(r@.map_values(|line: &str| line@) + lines(text@) =~= lines(text@));
    while start < chars.len()
        invariant
            start <= chars.len(),
            chars@ == text@,
            r@.map_values(|line: &str| line@) + lines(text@.skip(start as int)) == lines(text@),
        decreases chars.len() - start,
    {
        let ghost rest = text@.skip(start as int);
        let ghost done = r@.map_values(|line: &str| line@);
        let mut i: usize = start;
        proof {
            lemma_find(rest, '\n');
        }
        while i < chars.len() && chars[i] != '\n'
            invariant
                start <= i <= chars.len(),
                chars@ == text@,
                rest == text@.skip(start as int),
                forall|j: int| start <= j < i ==> text@[j] != '\n',
            decreases chars.len() - i,
        {
            i = i + 1;
        }
        assert(forall|j: int| 0 <= j < i - start ==> #[trigger] rest[j] != '\n');
        if i < chars.len() {
            assert(rest[i - start] == '\n');
            assert(find(rest, '\n') == i - start);
        } else {
            assert(find(rest, '\n') == i - start);
        }
        let mut end: usize = i;
        if i < chars.len() && i > start && chars[i - 1] == '\r' {
            end = i - 1;
        }
        let line: &'a str = text.substring_char(start, end);
        r.push(line);
        assert(r@.map_values(|line: &str| line@) =~= done.push(line@));
        if i < chars.len() {
            assert(rest.take(i - start) =~= text@.subrange(start as int, i as int));
            assert(line@ =~= without_carriage_return(rest.take(i - start)));
            assert(rest.skip(i - start + 1) =~= text@.skip(i + 1));
            assert(done.push(line@) + lines(text@.skip(i + 1)) =~= done + (seq![line@] + lines(text@.skip(i + 1))));
            start = i + 1;
        } else {
            assert(line@ =~= rest);
            assert(text@.skip(i as int) =~= Seq::<char>::empty());
            assert(done.push(line@) + lines(text@.skip(i as int)) =~= done + seq![line@]);
            start = i;
        }
    }
    assert(text@.skip(start as int) =~= Seq::<char>::empty());
    assert(r@.map_values(|line: &str| line@) + lines(text@.skip(start as int)) =~= r@.map_values(|line: &str| line@));
    r
}

/// The parts with `separator` between each two of them.
pub open spec fn joined(parts: Seq<Seq<char>>, separator: Seq<char>) -> Seq<char>
    decreases parts.len(),
{
    if parts.len() == 0 {
        seq![]
    } else if parts.len() == 1 {
        parts[0]
    } else {
        joined(parts.drop_last(), separator) + separator + parts.last()
    }
}

/// The parts with `separator` between each two of them, as one text.
pub fn join(parts: &Vec<String>, separator: &str) -> (r: String)
    ensures
        r@ == joined(texts(parts@), separator@),
{
    let mut r: String = String::new();
    let mut i: usize = 0;
    while i < parts.len()
        invariant
            i <= parts.len(),
            r@ == joined(texts(parts@).take(i as int), separator@),
        decreases parts.len() - i,
    {
        let ghost before = texts(parts@).take(i as int);
        if i > 0 {
            r.append(separator);
        }
        r.append(parts[i].as_str());
        assert(texts(parts@).take(i + 1).drop_last() =~= before);
        assert(texts(parts@).take(i + 1).last() == parts@[i as int]@);
        assert(i == 0 ==> r@ =~= parts@[0]@);
        i = i + 1;
    }
    assert(texts(parts@).take(parts@.len() as int) =~= texts(parts@));
    r
}

/// Appends a text to a list of strings.
pub fn push_text(list: &mut Vec<String>, text: &str)
    ensures
        texts(final(list)@) == texts(old(list)@).push(text@),
{
    list.push(text.to_owned());
    assert(texts(list@) =~= texts(old(list)@).push(text@));
}

/// Appends two texts to a list of strings.
pub fn push_two(list: &mut Vec<String>, first: &str, second: &str)
    ensures
        texts(final(list)@) == texts(old(list)@) + seq![first@, second@],
{
    push_text(list, first);
    push_text(list, second);
    assert(texts(list@) =~= texts(old(list)@) + seq![first@, second@]);
}

/// The concatenation of two texts.
pub fn concat2(a: &str, b: &str) -> (r: String)
    ensures
        r@ == a@ + b@,
{
    a.to_owned().concat(b)
}

/// The concatenation of three texts.
pub fn concat3(a: &str, b: &str, c: &str) -> (r: String)
    ensures
        r@ == a@ + b@ + c@,
{
    a.to_owned().concat(b).concat(c)
}

/// A copy of an optional string.
pub fn copy_opt(value: &Option<String>) -> (r: Option<String>)
    ensures
        r == *value,
{
    match value {
        Some(s) => Some(s.clone()),
        None => None,
    }
}

/// The text held by an optional string slice.
pub open spec fn opt_str(value: Option<&str>) -> Option<Seq<char>> {
    match value {
        Some(s) => Some(s@),
        None => None,
    }
}

/// An optional string as an optional slice.
pub fn as_opt_str<'a>(value: &'a Option<String>) -> (r: Option<&'a str>)
    ensures
        opt_str(r) == opt_text(*value),
        r is Some == *value is Some,
{
    match value {
        Some(s) => Some(s.as_str()),
        None => None,
    }
}

/// The pieces of `s` between the separators `c`; one more than there are
/// separators.
pub open spec fn pieces(s: Seq<char>, c: char) -> Seq<Seq<char>>
    decreases s.len(),
{
    let i = find(s, c);
    if 0 <= i < s.len() {
        seq![s.take(i)] + pieces(s.skip(i + 1), c)
    } else {
        seq![s]
    }
}

/// The texts of a list of slices.
pub open spec fn slices(list: Seq<&str>) -> Seq<Seq<char>> {
    list.map_values(|s: &str| s@)
}

/// The pieces of a text between the separators `c`.
pub fn split_all<'a>(text: &'a str, c: char) -> (r: Vec<&'a str>)
    ensures
        slices(r@) == pieces(text@, c),
        r.len() > 0,
{
    let chars: Vec<char> = chars_of(text);
    let mut r: Vec<&'a str> = Vec::new();
    let mut start: usize = 0;
    assert(text@.skip(0) =~= text@);
    assert(slices(r@) + pieces(text@, c) =~= pieces(text@, c));
    loop
        invariant
            start <= chars.len(),
            chars@ == text@,
            slices(r@) + pieces(text@.skip(start as int), c) == pieces(text@, c),
        decreases chars.len() - start,
    {
        let ghost rest = text@.skip(start as int);
        let ghost done = slices(r@);
        let mut i: usize = start;
        proof {
            lemma_find(rest, c);
        }
        while i < chars.len() && chars[i] != c
            invariant
                start <= i <= chars.len(),
                chars@ == text@,
                rest == text@.skip(start as int),
                forall|j: int| start <= j < i ==> text@[j] != c,
            decreases chars.len() - i,
        {
            i = i + 1;
        }
        assert(forall|j: int| 0 <= j < i - start ==> #[trigger] rest[j] != c);
        if i < chars.len() {
            assert(rest[i - start] == c);
        }
        assert(find(rest, c) == i - start);
        let piece: &'a str = text.substring_char(start, i);
        r.push(piece);
        assert(slices(r@) =~= done.push(piece@));
        if i < chars.len() {
            assert(rest.take(i - start) =~= piece@);
            assert(rest.skip(i - start + 1) =~= text@.skip(i + 1));
            assert(done.push(piece@) + pieces(text@.skip(i + 1), c) =~= done + (seq![piece@] + pieces(text@.skip(i + 1), c)));
            start = i + 1;
        } else {
            assert(piece@ =~= rest);
            assert(done.push(piece@) =~= done + seq![piece@]);
            return r;
        }
    }
}

/// The ASCII capital of a character.
pub open spec fn upper_char(c: char) -> char {
    if 'a' <= c && c <= 'z' {
        (c as u32 - 32) as char
    } else {
        c
    }
}

/// The text with every ASCII small letter replaced by its capital.
pub open spec fn upper(s: Seq<char>) -> Seq<char> {
    s.map_values(|c: char| upper_char(c))
}

/// The ASCII capital of a character.
pub fn upper_char_of(c: char) -> (r: char)
    ensures
        r == upper_char(c),
{
    if 'a' <= c && c <= 'z' {
        let code: u8 = c as u8;
        (code - 32) as char
    } else {
        c
    }
}

/// ASCII upper-casing of a text.
pub fn to_upper(text: &str) -> (r: String)
    ensures
        r@ == upper(text@),
{
    let mut r: String = String::new();
    for c in iter: text.chars()
        invariant
            iter.seq() == text@,
            r@ == upper(text@.take(iter.index() as int)),
    {
        r.push(upper_char_of(c));
        assert(upper(text@.take(iter.index() as int + 1)) =~= upper(text@.take(iter.index() as int)).push(upper_char(c)));
    }
    assert(text@.take(text@.len() as int) =~= text@);
    r
}

/// Whether `c` is an ASCII letter.
pub open spec fn ascii_letter(c: char) -> bool {
    ('a' <= c <= 'z') || ('A' <= c <= 'Z')
}

/// Whether `c` is an ASCII letter.
pub fn is_ascii_letter(c: char) -> (r: bool)
    ensures
        r == ascii_letter(c),
{
    ('a' <= c && c <= 'z') || ('A' <= c && c <= 'Z')
}

/// The decimal numeral of a signed number.
pub open spec fn signed_decimal(n: int) -> Seq<char> {
    if n < 0 {
        "-"@ + decimal((-n) as nat)
    } else {
        decimal(n as nat)
    }
}

/// The decimal numeral of a signed number.
pub fn signed_decimal_text(n: i64) -> (r: String)
    ensures
        r@ == signed_decimal(n as int),
{
    if n < 0 {
        let magnitude: u64 = (-(n as i128)) as u64;
        concat2("-", decimal_text(magnitude).as_str())
    } else {
        decimal_text(n as u64)
    }
}

/// Lower-casing keeps the length; it turns each ASCII capital into the small
/// letter of the same place in the alphabet and leaves every other character.
pub proof fn law_lower_changes_capitals_alone(s: Seq<char>)
    ensures
        lower(s).len() == s.len(),
        forall|i: int|
            0 <= i < s.len() ==> {
                let c = #[trigger] lower(s)[i];
                &&& 'A' <= s[i] <= 'Z' ==> 'a' <= c <= 'z' && c as u32 - 'a' as u32 == s[i] as u32
                    - 'A' as u32
                &&& !('A' <= s[i] <= 'Z') ==> c == s[i]
            },
        lower(lower(s)) == lower(s),
{
    assert(lower(lower(s)) =~= lower(s));
}

/// Upper-casing keeps the length; it turns each ASCII small letter into its
/// capital, so that lower-casing gives the same text before and after it.
pub proof fn law_upper_differs_in_case_alone(s: Seq<char>)
    ensures
        upper(s).len() == s.len(),
        forall|i: int|
            0 <= i < s.len() ==> !('a' <= #[trigger] upper(s)[i] <= 'z') && (!('a' <= s[i] <= 'z')
                ==> upper(s)[i] == s[i]),
        lower(upper(s)) == lower(s),
{
    assert(lower(upper(s)) =~= lower(s));
}

proof fn lemma_trim_front(s: Seq<char>)
    ensures
        exists|a: int|
            0 <= a <= s.len() && trim_front(s) == #[trigger] s.skip(a) && forall|i: int|
                0 <= i < a ==> white_space(#[trigger] s[i]),
        trim_front(s).len() > 0 ==> !white_space(trim_front(s)[0]),
    decreases s.len(),
{
    if s.len() > 0 && white_space(s[0]) {
        let rest = s.skip(1);
        lemma_trim_front(rest);
        let b = choose|b: int|
            0 <= b <= rest.len() && trim_front(rest) == #[trigger] rest.skip(b) && forall|i: int|
                0 <= i < b ==> white_space(#[trigger] rest[i]);
        assert(s.skip(b + 1) =~= rest.skip(b));
        assert forall|i: int| 0 <= i < b + 1 implies white_space(#[trigger] s[i]) by {
            if i > 0 {
                assert(rest[i - 1] == s[i]);
            }
        }
    } else {
        assert(s.skip(0) =~= s);
    }
}

proof fn lemma_trim_back(s: Seq<char>)
    ensures
        exists|b: int|
            0 <= b <= s.len() && trim_back(s) == #[trigger] s.take(b) && forall|i: int|
                b <= i < s.len() ==> white_space(#[trigger] s[i]),
        trim_back(s).len() > 0 ==> !white_space(trim_back(s).last()),
    decreases s.len(),
{
    if s.len() > 0 && white_space(s.last()) {
        let rest = s.drop_last();
        lemma_trim_back(rest);
        let b = choose|b: int|
            0 <= b <= rest.len() && trim_back(rest) == #[trigger] rest.take(b) && forall|i: int|
                b <= i < rest.len() ==> white_space(#[trigger] rest[i]);
        assert(s.take(b) =~= rest.take(b));
        assert forall|i: int| b <= i < s.len() implies white_space(#[trigger] s[i]) by {
            if i < rest.len() {
                assert(rest[i] == s[i]);
            }
        }
    } else {
        assert(s.take(s.len() as int) =~= s);
    }
}

/// Trimming cuts white space off both ends and nothing else: what is left is a
/// stretch of the text that neither begins nor ends with white space, and all
/// that was cut off is white space.
pub proof fn law_trimming_cuts_white_space_alone(s: Seq<char>)
    ensures
        exists|a: int, b: int|
            0 <= a <= b <= s.len() && trimmed(s) == #[trigger] s.subrange(a, b) && (forall|i: int|
                0 <= i < a || b <= i < s.len() ==> white_space(#[trigger] s[i])),
        trimmed(s).len() > 0 ==> !white_space(trimmed(s)[0]) && !white_space(trimmed(s).last()),
        white_space(' ') && white_space('\t') && white_space('\n') && white_space('\r'),
        forall|c: char| '!' <= c <= '~' ==> !white_space(c),
{
    lemma_trim_front(s);
    let front = trim_front(s);
    lemma_trim_back(front);
    let a = choose|a: int|
        0 <= a <= s.len() && front == #[trigger] s.skip(a) && forall|i: int|
            0 <= i < a ==> white_space(#[trigger] s[i]);
    let b = choose|b: int|
        0 <= b <= front.len() && trim_back(front) == #[trigger] front.take(b) && forall|i: int|
            b <= i < front.len() ==> white_space(#[trigger] front[i]);
    assert(s.subrange(a, a + b) =~= front.take(b));
    assert forall|i: int| 0 <= i < a || a + b <= i < s.len() implies white_space(
        #[trigger] s[i],
    ) by {
        if i >= a {
            assert(front[i - a] == s[i]);
        }
    }
    if trimmed(s).len() > 0 {
        assert(trimmed(s)[0] == front[0]);
    }
}

/// A first part stands before the rest.
pub proof fn lemma_joined_front(first: Seq<char>, rest: Seq<Seq<char>>, separator: Seq<char>)
    requires
        rest.len() > 0,
    ensures
        joined(seq![first] + rest, separator) == first + separator + joined(rest, separator),
    decreases rest.len(),
{
    let all = seq![first] + rest;
    if rest.len() == 1 {
        assert(all.drop_last() =~= seq![first]);
        assert(joined(seq![first], separator) == first);
        assert(all.last() == rest[0]);
        assert(joined(rest, separator) == rest[0]);
    } else {
        assert(all.drop_last() =~= seq![first] + rest.drop_last());
        lemma_joined_front(first, rest.drop_last(), separator);
        assert(joined(all, separator) =~= first + separator + joined(rest, separator));
    }
}

/// Splitting a text at a character and putting that character between the
/// pieces gives the text back, and no piece holds the character.
pub proof fn law_pieces_join_to_the_text(s: Seq<char>, c: char)
    ensures
        joined(pieces(s, c), seq![c]) == s,
        pieces(s, c).len() >= 1,
        forall|i: int| 0 <= i < pieces(s, c).len() ==> !(#[trigger] pieces(s, c)[i]).contains(c),
    decreases s.len(),
{
    let i = find(s, c);
    lemma_find(s, c);
    if i < s.len() {
        let rest = s.skip(i + 1);
        law_pieces_join_to_the_text(rest, c);
        lemma_joined_front(s.take(i), pieces(rest, c), seq![c]);
        assert(s =~= s.take(i) + seq![c] + rest);
        assert forall|k: int| 0 <= k < pieces(s, c).len() implies !(
        #[trigger] pieces(s, c)[k]).contains(c) by {
            if k > 0 {
                assert(pieces(s, c)[k] == pieces(rest, c)[k - 1]);
            }
        }
    } else {
        assert(pieces(s, c) =~= seq![s]);
    }
}

/// What a split at the first or the last occurrence gives is what stands before
/// and after it: the character lies between the two parts, and the first part,
/// or the second, does not hold it. There is no split exactly where the
/// character does not occur.
pub proof fn law_splits_are_at_the_character(s: Seq<char>, c: char)
    ensures
        split_first(s, c) is Some <==> s.contains(c),
        split_last(s, c) is Some <==> s.contains(c),
        split_first(s, c) matches Some((before, after)) ==> s == before + seq![c] + after
            && !before.contains(c),
        split_last(s, c) matches Some((before, after)) ==> s == before + seq![c] + after
            && !after.contains(c),
{
    lemma_find(s, c);
    lemma_rfind(s, c);
    if s.contains(c) {
        let k = s.index_of(c);
        assert(s[k] == c);
    }
    if split_first(s, c) is Some {
        let i = find(s, c);
        assert(s[i] == c);
        assert(s =~= s.take(i) + seq![c] + s.skip(i + 1));
    }
    if split_last(s, c) is Some {
        let i = rfind(s, c);
        assert(s[i] == c);
        assert(s =~= s.take(i) + seq![c] + s.skip(i + 1));
    }
}

/// Text that follows without the character belongs to the last piece.
pub proof fn lemma_pieces_append(s: Seq<char>, tail: Seq<char>, c: char)
    requires
        !tail.contains(c),
    ensures
        pieces(s + tail, c) == pieces(s, c).drop_last().push(pieces(s, c).last() + tail),
        pieces(s, c).len() >= 1,
    decreases s.len(),
{
    let all = s + tail;
    lemma_find(s, c);
    lemma_find(all, c);
    let i = find(s, c);
    if i < s.len() {
        assert(all[i] == c);
        assert(find(all, c) == i) by {
            let j = find(all, c);
            if j < i {
                assert(s[j] == all[j]);
            }
        }
        let rest = s.skip(i + 1);
        lemma_pieces_append(rest, tail, c);
        assert(all.skip(i + 1) =~= rest + tail);
        assert(all.take(i) =~= s.take(i));
        assert(pieces(all, c) =~= pieces(s, c).drop_last().push(pieces(s, c).last() + tail));
    } else {
        let j = find(all, c);
        if j < all.len() {
            if j >= s.len() {
                assert(tail[j - s.len()] == c);
            } else {
                assert(s[j] == c);
            }
        }
        assert(pieces(all, c) =~= seq![all]);
        assert(pieces(s, c) =~= seq![s]);
        assert(pieces(all, c) =~= pieces(s, c).drop_last().push(pieces(s, c).last() + tail));
    }
}

/// The character itself at the end begins a new piece.
pub proof fn lemma_pieces_push(s: Seq<char>, c: char)
    ensures
        pieces(s.push(c), c) == pieces(s, c).push(Seq::<char>::empty()),
    decreases s.len(),
{
    let all = s.push(c);
    lemma_find(s, c);
    lemma_find(all, c);
    let i = find(s, c);
    if i < s.len() {
        assert(all[i] == c);
        assert(find(all, c) == i) by {
            let j = find(all, c);
            if j < i {
                assert(s[j] == all[j]);
            }
        }
        let rest = s.skip(i + 1);
        lemma_pieces_push(rest, c);
        assert(all.skip(i + 1) =~= rest.push(c));
        assert(all.take(i) =~= s.take(i));
        assert(pieces(all, c) =~= pieces(s, c).push(Seq::<char>::empty()));
    } else {
        let j = find(all, c);
        assert(all[s.len() as int] == c);
        assert(j == s.len()) by {
            if j < s.len() {
                assert(s[j] == all[j]);
            }
        }
        assert(all.take(j) =~= s);
        assert(all.skip(j + 1) =~= Seq::<char>::empty());
        assert(pieces(Seq::<char>::empty(), c) =~= seq![Seq::<char>::empty()]);
        assert(pieces(s, c) =~= seq![s]);
        assert(pieces(all, c) =~= pieces(s, c).push(Seq::<char>::empty()));
    }
}

/// Replacing a character by another one keeps the length and every other
/// character.
pub proof fn law_replacing_keeps_the_rest(s: Seq<char>, from: char, to: char)
    ensures
        replaced(s, from, seq![to]).len() == s.len(),
        forall|i: int|
            0 <= i < s.len() ==> #[trigger] replaced(s, from, seq![to])[i] == (if s[i] == from {
                to
            } else {
                s[i]
            }),
    decreases s.len(),
{
    let f = replacement(from, seq![to]);
    if s.len() == 0 {
        assert(replaced(s, from, seq![to]) =~= Seq::<char>::empty());
    } else {
        let before = s.drop_last();
        law_replacing_keeps_the_rest(before, from, to);
        before.lemma_flat_map_push(f, s.last());
        assert(before.push(s.last()) =~= s);
    }
}

/// The lines of a text, each ended by a line feed.
pub open spec fn ended_lines(list: Seq<Seq<char>>) -> Seq<char>
    decreases list.len(),
{
    if list.len() == 0 {
        seq![]
    } else {
        list[0] + seq!['\n'] + ended_lines(list.skip(1))
    }
}

/// The lines of a text without carriage returns, each ended by a line feed, are
/// the text itself, with a line feed at its end where it had none. No line holds
/// a line feed.
pub proof fn law_lines_make_up_the_text(s: Seq<char>)
    ensures
        forall|i: int| 0 <= i < lines(s).len() ==> !(#[trigger] lines(s)[i]).contains('\n'),
        !s.contains('\r') ==> ended_lines(lines(s)) == (if s.len() == 0 || s.last() == '\n' {
            s
        } else {
            s.push('\n')
        }),
    decreases s.len(),
{
    let i = find(s, '\n');
    lemma_find(s, '\n');
    if s.len() == 0 {
    } else if i < s.len() {
        let line = s.take(i);
        let rest = s.skip(i + 1);
        law_lines_make_up_the_text(rest);
        assert forall|k: int| 0 <= k < lines(s).len() implies !(#[trigger] lines(s)[k]).contains(
            '\n',
        ) by {
            if k > 0 {
                assert(lines(s)[k] == lines(rest)[k - 1]);
            }
        }
        if !s.contains('\r') {
            assert forall|k: int| 0 <= k < rest.len() implies rest[k] != '\r' by {
                assert(s[k + i + 1] == rest[k]);
                assert(s.contains(s[k + i + 1]));
            }
            if i > 0 {
                assert(s[i - 1] == line.last());
                assert(s.contains(s[i - 1]));
            }
            assert(without_carriage_return(line) == line);
            assert(lines(s).skip(1) =~= lines(rest));
            assert(s =~= line + seq!['\n'] + rest);
            if rest.len() == 0 {
                assert(s.last() == s[i]);
                assert(ended_lines(lines(s)) =~= s);
            } else {
                assert(s.last() == rest.last());
                if s.last() == '\n' {
                    assert(ended_lines(lines(s)) =~= s);
                } else {
                    assert(ended_lines(lines(s)) =~= s.push('\n'));
                }
            }
        }
    } else {
        assert(lines(s) =~= seq![s]);
        assert(lines(s).skip(1) =~= Seq::<Seq<char>>::empty());
        assert(ended_lines(lines(s).skip(1)) =~= Seq::<char>::empty());
        assert(s.last() == s[s.len() - 1]);
        assert(ended_lines(lines(s)) =~= s + seq!['\n']);
        assert(s + seq!['\n'] =~= s.push('\n'));
    }
}

/// A line behind a text that ends in a separator is a piece of its own.
pub proof fn lemma_pieces_line(s: Seq<char>, line: Seq<char>, c: char)
    requires
        !line.contains(c),
        pieces(s, c).last().len() == 0,
    ensures
        pieces(s, c).len() >= 1,
        pieces(s + line + seq![c], c) == pieces(s, c).drop_last().push(line).push(
            Seq::<char>::empty(),
        ),
{
    lemma_pieces_append(s, line, c);
    lemma_pieces_push(s + line, c);
    assert((s + line).push(c) =~= s + line + seq![c]);
    assert(pieces(s, c).last() + line =~= line);
}

/// The only piece of the empty text is empty.
pub proof fn lemma_pieces_of_nothing(c: char)
    ensures
        pieces(Seq::<char>::empty(), c) == seq![Seq::<char>::empty()],
{
    assert(pieces(Seq::<char>::empty(), c) =~= seq![Seq::<char>::empty()]);
}

/// A text has each of its parts, and what it has is one of its parts.
pub proof fn law_texts_have_their_parts(before: Seq<char>, part: Seq<char>, after: Seq<char>)
    ensures
        has_text(before + part + after, part),
        has_text(before, part) ==> exists|a: Seq<char>, b: Seq<char>|
            before == #[trigger] (a + part + b),
{
    let whole = before + part + after;
    assert(whole.subrange(before.len() as int, (before.len() + part.len()) as int) =~= part);
    assert(occurs_at(whole, part, before.len() as int));
    if has_text(before, part) {
        let i = choose|i: int| occurs_at(before, part, i);
        assert(before =~= before.take(i) + part + before.skip(i + part.len()));
    }
}

} // verus!
