//! Identifiers of rooms, media items and connections: 128-bit values, written
//! as hyphenated lower-case hexadecimal.
use vstd::prelude::*;
use vstd::arithmetic::power::{lemma_pow0, lemma_pow1, lemma_pow_adds, lemma_pow_positive, pow};

verus! {

/// The lower-case hexadecimal numeral of a value below sixteen.
pub open spec fn hex_char(digit: int) -> char {
    if digit < 10 {
        ('0' as u32 + digit) as char
    } else {
        ('a' as u32 + (digit - 10)) as char
    }
}

/// The `i`-th of the 32 hexadecimal digits of `id`, counted from the most
/// significant one.
pub open spec fn hex_digit_at(id: u128, i: int) -> char {
    hex_char((id as int / pow(16, (31 - i) as nat)) % 16)
}

/// The hyphenated form of `id`: its 32 hexadecimal digits in groups of 8, 4,
/// 4, 4 and 12.
pub open spec fn hyphenated(id: u128) -> Seq<char> {
    Seq::new(
        36,
        |i: int|
            if i < 8 {
                hex_digit_at(id, i)
            } else if i == 8 || i == 13 || i == 18 || i == 23 {
                '-'
            } else if i < 13 {
                hex_digit_at(id, i - 1)
            } else if i < 18 {
                hex_digit_at(id, i - 2)
            } else if i < 23 {
                hex_digit_at(id, i - 3)
            } else {
                hex_digit_at(id, i - 4)
            },
    )
}

/// What `uuid::Uuid::parse_str` makes of a text: the identifier, or the text
/// of the error.
pub uninterp spec fn parsed_id(text: Seq<char>) -> Result<u128, Seq<char>>;

/// A result with the error taken by its text.
pub open spec fn id_result(r: Result<u128, String>) -> Result<u128, Seq<char>> {
    match r {
        Ok(id) => Ok(id),
        Err(message) => Err(message@),
    }
}

/// `Display` of `uuid::Uuid`, through `to_string`: the hyphenated lower-case
/// form of the value.
#[verifier::external_body]
pub(crate) fn id_text(id: u128) -> (text: String)
    ensures
        text@ == hyphenated(id),
{
    uuid::Uuid::from_u128(id).to_string()
}

/// `uuid::Uuid::parse_str`: its result is a function of the text, here called
/// `parsed_id`; the error is handed on as the text that its `Display` gives.
/// The hyphenated form of an identifier is read back as that identifier.
#[verifier::external_body]
pub(crate) fn parse_id(text: &str) -> (r: Result<u128, String>)
    ensures
        id_result(r) == parsed_id(text@),
        forall|id: u128| text@ == #[trigger] hyphenated(id) ==> (r is Ok && r->Ok_0 == id),
{
    match uuid::Uuid::parse_str(text) {
        Ok(id) => Ok(id.as_u128()),
        Err(error) => Err(error.to_string()),
    }
}

/// Whether `id` carries the version and variant bits of a random identifier.
pub open spec fn is_random_id(id: u128) -> bool {
    (id / 0x1000_0000_0000_0000_0000u128) % 16 == 4 && (id / 0x4000_0000_0000_0000u128) % 4 == 2
}

/// `uuid::Uuid::new_v4`: a random identifier. Its version and variant bits
/// are fixed; nothing else is known of it.
#[verifier::external_body]
pub(crate) fn random_id() -> (id: u128)
    ensures
        is_random_id(id),
{
    uuid::Uuid::new_v4().as_u128()
}

proof fn lemma_hex_char(a: int, b: int)
    requires
        0 <= a < 16,
        0 <= b < 16,
        hex_char(a) == hex_char(b),
    ensures
        a == b,
{
}

proof fn lemma_same_digits(a: u128, b: u128, k: nat)
    requires
        k <= 32,
        forall|i: int| 0 <= i < 32 ==> #[trigger] hex_digit_at(a, i) == hex_digit_at(b, i),
    ensures
        a as int / pow(16, k) == b as int / pow(16, k),
    decreases 32 - k,
{
    lemma_pow_positive(16, k);
    if k == 32 {
        assert(pow(16, 32) == 0x1_0000_0000_0000_0000_0000_0000_0000_0000) by {
            reveal_with_fuel(pow, 33);
        }
        assert(a as int / pow(16, 32) == 0);
        assert(b as int / pow(16, 32) == 0);
    } else {
        lemma_same_digits(a, b, k + 1);
        let unit = pow(16, k);
        let x = a as int / unit;
        let y = b as int / unit;
        assert(hex_digit_at(a, 31 - k) == hex_digit_at(b, 31 - k));
        lemma_hex_char(x % 16, y % 16);
        lemma_pow_adds(16, k, 1);
        lemma_pow1(16);
        vstd::arithmetic::div_mod::lemma_div_denominator(a as int, unit, 16);
        vstd::arithmetic::div_mod::lemma_div_denominator(b as int, unit, 16);
        assert(x / 16 == y / 16);
        assert(x == 16 * (x / 16) + x % 16);
        assert(y == 16 * (y / 16) + y % 16);
    }
}

/// No two identifiers are written alike.
pub proof fn law_identifiers_are_written_apart(a: u128, b: u128)
    requires
        hyphenated(a) == hyphenated(b),
    ensures
        a == b,
{
    assert forall|i: int| 0 <= i < 32 implies #[trigger] hex_digit_at(a, i) == hex_digit_at(b, i) by {
        let place = if i < 8 {
            i
        } else if i < 12 {
            i + 1
        } else if i < 16 {
            i + 2
        } else if i < 20 {
            i + 3
        } else {
            i + 4
        };
        assert(hyphenated(a)[place] == hex_digit_at(a, i));
        assert(hyphenated(b)[place] == hex_digit_at(b, i));
    }
    lemma_same_digits(a, b, 0);
    lemma_pow0(16);
    assert(a as int / 1 == a);
    assert(b as int / 1 == b);
}

} // verus!
