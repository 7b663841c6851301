//! Recipe identifiers: 128-bit values written as hyphenated lower-case text.

use core::cmp::Ordering;
use vstd::arithmetic::div_mod::{lemma_basic_div, lemma_div_denominator, lemma_fundamental_div_mod};
use vstd::arithmetic::power::{lemma_pow0, lemma_pow1, lemma_pow_adds, lemma_pow_positive, pow};
use vstd::prelude::*;
use vstd::std_specs::cmp::PartialOrdSpecImpl;

verus! {

/// The value of a hexadecimal digit, in either case.
pub open spec fn hex_value(c: char) -> Option<int> {
    if '0' <= c <= '9' {
        Some(c as int - '0' as int)
    } else if 'a' <= c <= 'f' {
        Some(c as int - 'a' as int + 10)
    } else if 'A' <= c <= 'F' {
        Some(c as int - 'A' as int + 10)
    } else {
        None
    }
}

/// Whether `digits` holds hexadecimal digits only.
pub open spec fn all_hex(digits: Seq<char>) -> bool {
    forall|i: int| 0 <= i < digits.len() ==> hex_value(#[trigger] digits[i]) is Some
}

/// The number that the hexadecimal digits `digits` write, most significant
/// digit first.
pub open spec fn hex_number(digits: Seq<char>) -> int
    decreases digits.len(),
{
    if digits.len() == 0 {
        0
    } else {
        hex_number(digits.drop_last()) * 16 + hex_value(digits.last()).unwrap()
    }
}

/// The value that 32 hexadecimal digits write; nothing for any other text.
pub open spec fn simple_value(digits: Seq<char>) -> Option<u128> {
    if digits.len() == 32 && all_hex(digits) {
        Some(hex_number(digits) as u128)
    } else {
        None
    }
}

/// The 32 characters of a 36-character text that stand in the five groups.
pub open spec fn without_hyphens(text: Seq<char>) -> Seq<char> {
    text.subrange(0, 8) + text.subrange(9, 13) + text.subrange(14, 18) + text.subrange(19, 23)
        + text.subrange(24, 36)
}

/// The value that a text of five hyphenated groups of hexadecimal digits
/// writes; nothing for any other text.
pub open spec fn hyphenated_value(text: Seq<char>) -> Option<u128> {
    if text.len() == 36 && text[8] == '-' && text[13] == '-' && text[18] == '-' && text[23]
        == '-' {
        simple_value(without_hyphens(text))
    } else {
        None
    }
}

/// The value that a text is read as: 32 hexadecimal digits in either case,
/// written in one piece, in hyphenated groups of 8, 4, 4, 4 and 12, or in such
/// groups after `urn:uuid:`. Any other text is read as nothing.
pub open spec fn uuid_parse(text: Seq<char>) -> Option<u128> {
    if text.len() == 32 {
        simple_value(text)
    } else if text.len() == 36 {
        hyphenated_value(text)
    } else if text.len() == 45 && text.subrange(0, 9) == "urn:uuid:"@ {
        hyphenated_value(text.subrange(9, 45))
    } else {
        None
    }
}

/// The sixteen lower-case hexadecimal digits, in order.
pub open spec fn hex_digits() -> Seq<char> {
    seq!['0', '1', '2', '3', '4', '5', '6', '7', '8', '9', 'a', 'b', 'c', 'd', 'e', 'f']
}

/// Whether position `i` of the 36-character form holds a hyphen.
pub open spec fn is_hyphen_position(i: int) -> bool {
    i == 8 || i == 13 || i == 18 || i == 23
}

/// How many hexadecimal digits stand before position `i` of the 36-character form.
pub open spec fn digits_before(i: int) -> int {
    if i < 8 {
        i
    } else if i < 13 {
        i - 1
    } else if i < 18 {
        i - 2
    } else if i < 23 {
        i - 3
    } else {
        i - 4
    }
}

/// The `d`-th hexadecimal digit of `value`, counted from the most significant one.
pub open spec fn nibble(value: u128, d: int) -> int {
    (value as int / pow(16, (31 - d) as nat)) % 16
}

/// The text of an identifier: 32 lower-case hexadecimal digits, most significant
/// first, in groups of 8, 4, 4, 4 and 12 separated by hyphens.
pub open spec fn hyphenated(value: u128) -> Seq<char> {
    Seq::new(
        36,
        |i: int|
            if is_hyphen_position(i) {
                '-'
            } else {
                hex_digits()[nibble(value, digits_before(i))]
            },
    )
}

/// The text of an identifier has 36 characters: hyphens at the four places
/// where the groups meet, and lower-case hexadecimal digits everywhere else.
pub proof fn lemma_hyphenated_shape(value: u128)
    ensures
        hyphenated(value).len() == 36,
        forall|i: int|
            0 <= i < 36 ==> if is_hyphen_position(i) {
                #[trigger] hyphenated(value)[i] == '-'
            } else {
                hex_digits().contains(hyphenated(value)[i])
            },
{
    assert forall|i: int| 0 <= i < 36 && !is_hyphen_position(i) implies hex_digits().contains(
        #[trigger] hyphenated(value)[i],
    ) by {
        let digit = nibble(value, digits_before(i));
        assert(0 <= digit < 16);
        assert(hyphenated(value)[i] == hex_digits()[digit]);
    }
}

/// Sixteen to the power of 32 is two to the power of 128.
proof fn lemma_pow16_32()
    ensures
        pow(16, 32) == 0x1_0000_0000_0000_0000_0000_0000_0000_0000,
{
    lemma_pow1(16);
    lemma_pow_adds(16, 1, 1);
    lemma_pow_adds(16, 2, 2);
    lemma_pow_adds(16, 4, 4);
    lemma_pow_adds(16, 8, 8);
    lemma_pow_adds(16, 16, 16);
    assert(pow(16, 2) == 0x100) by (nonlinear_arith)
        requires
            pow(16, 2) == pow(16, 1) * pow(16, 1),
            pow(16, 1) == 16,
    ;
    assert(pow(16, 4) == 0x1_0000) by (nonlinear_arith)
        requires
            pow(16, 4) == pow(16, 2) * pow(16, 2),
            pow(16, 2) == 0x100,
    ;
    assert(pow(16, 8) == 0x1_0000_0000) by (nonlinear_arith)
        requires
            pow(16, 8) == pow(16, 4) * pow(16, 4),
            pow(16, 4) == 0x1_0000,
    ;
    assert(pow(16, 16) == 0x1_0000_0000_0000_0000) by (nonlinear_arith)
        requires
            pow(16, 16) == pow(16, 8) * pow(16, 8),
            pow(16, 8) == 0x1_0000_0000,
    ;
    assert(pow(16, 32) == 0x1_0000_0000_0000_0000_0000_0000_0000_0000) by (nonlinear_arith)
        requires
            pow(16, 32) == pow(16, 16) * pow(16, 16),
            pow(16, 16) == 0x1_0000_0000_0000_0000,
    ;
}

/// The first `k` digits of a value write the value without its last
/// `32 - k` digits.
proof fn lemma_leading_digits(value: u128, digits: Seq<char>, k: int)
    requires
        digits.len() == 32,
        forall|d: int| 0 <= d < 32 ==> hex_value(#[trigger] digits[d]) == Some(nibble(value, d)),
        0 <= k <= 32,
    ensures
        hex_number(digits.subrange(0, k)) == value as int / pow(16, (32 - k) as nat),
    decreases k,
{
    if k == 0 {
        lemma_pow16_32();
        lemma_basic_div(value as int, pow(16, 32));
    } else {
        lemma_leading_digits(value, digits, k - 1);
        let upto = digits.subrange(0, k);
        assert(upto.drop_last() =~= digits.subrange(0, k - 1));
        assert(upto.last() == digits[k - 1]);
        let low = pow(16, (32 - k) as nat);
        lemma_pow_positive(16, (32 - k) as nat);
        lemma_pow_adds(16, (32 - k) as nat, 1);
        lemma_pow1(16);
        assert(pow(16, (32 - (k - 1)) as nat) == low * 16);
        let q = value as int / low;
        lemma_div_denominator(value as int, low, 16);
        lemma_fundamental_div_mod(q, 16);
        assert(nibble(value, k - 1) == q % 16);
    }
}

/// The text of an identifier reads back as the identifier.
pub proof fn lemma_text_reads_back(value: u128)
    ensures
        uuid_parse(hyphenated(value)) == Some(value),
{
    let text = hyphenated(value);
    let digits = without_hyphens(text);
    assert(digits.len() == 32);
    assert forall|d: int| 0 <= d < 32 implies hex_value(#[trigger] digits[d]) == Some(
        nibble(value, d),
    ) by {
        let at = if d < 8 {
            d
        } else if d < 12 {
            d + 1
        } else if d < 16 {
            d + 2
        } else if d < 20 {
            d + 3
        } else {
            d + 4
        };
        assert(digits[d] == text[at]);
        assert(digits_before(at) == d);
        let n = nibble(value, d);
        assert(0 <= n < 16);
        assert(text[at] == hex_digits()[n]);
    }
    lemma_leading_digits(value, digits, 32);
    assert(digits.subrange(0, 32) =~= digits);
    lemma_pow0(16);
}

/// Whether `value` carries the marks of a randomly generated identifier:
/// version 4 in bits 76 to 79 and the RFC 4122 variant in bits 62 and 63.
pub open spec fn is_random_form(value: u128) -> bool {
    (value >> 76u128) & 0xf == 4 && (value >> 62u128) & 0x3 == 2
}

/// Calls `uuid::Uuid::new_v4`, which draws 128 bits from the operating system and
/// stamps version and variant on them. Only those marks are promised of the
/// result. The call panics if the system has no random source to offer.
#[verifier::external_body]
fn random_uuid() -> (value: u128)
    ensures
        is_random_form(value),
{
    uuid::Uuid::new_v4().as_u128()
}

/// Formats through `uuid::Uuid`'s `Display`, which writes the value
/// big-endian in the hyphenated lower-case form.
#[verifier::external_body]
fn uuid_text(value: u128) -> (text: String)
    ensures
        text@ == hyphenated(value),
{
    uuid::Uuid::from_u128(value).to_string()
}

/// Calls `uuid::Uuid::parse_str` and hands back the value read, big-endian, or
/// nothing where the text was rejected. The parser takes a text of 32 or 36
/// bytes, or of 45 bytes that start with `urn:uuid:`, and in it hexadecimal
/// digits of either case, with hyphens after 8, 12, 16 and 20 digits or with
/// none.
#[verifier::external_body]
fn uuid_from_text(text: &str) -> (value: Option<u128>)
    ensures
        value == uuid_parse(text@),
{
    uuid::Uuid::parse_str(text).ok().map(|id| id.as_u128())
}

/// A unique identifier for a recipe, also the name of its directory on disk.
/// Identifiers are equal where their values are, and ordered as their values.
#[derive(Clone, Copy, Debug, PartialEq, Eq, Ord, Hash, Structural)]
pub struct RecipeId(pub u128);

impl PartialOrd for RecipeId {
    fn partial_cmp(&self, other: &RecipeId) -> (order: Option<Ordering>) {
        if self.0 < other.0 {
            Some(Ordering::Less)
        } else if self.0 > other.0 {
            Some(Ordering::Greater)
        } else {
            Some(Ordering::Equal)
        }
    }
}

impl PartialOrdSpecImpl for RecipeId {
    open spec fn obeys_partial_cmp_spec() -> bool {
        true
    }

    open spec fn partial_cmp_spec(&self, other: &RecipeId) -> Option<Ordering> {
        if self.0 < other.0 {
            Some(Ordering::Less)
        } else if self.0 > other.0 {
            Some(Ordering::Greater)
        } else {
            Some(Ordering::Equal)
        }
    }
}

impl RecipeId {
    /// Creates a new random identifier.
    pub fn new() -> (id: RecipeId)
        ensures
            is_random_form(id.0),
    {
        RecipeId(random_uuid())
    }

    /// The identifier with the given 128-bit value.
    pub fn from_u128(value: u128) -> (id: RecipeId)
        ensures
            id.0 == value,
    {
        RecipeId(value)
    }

    /// The 128-bit value of the identifier.
    pub fn as_u128(&self) -> (value: u128)
        ensures
            value == self.0,
    {
        self.0
    }

    /// The identifier as text, in the form its directory is named.
    pub fn to_string(&self) -> (text: String)
        ensures
            text@ == hyphenated(self.0),
            uuid_parse(text@) == Some(self.0),
    {
        proof {
            lemma_text_reads_back(self.0);
        }
        uuid_text(self.0)
    }

    /// Reads an identifier from text, such as the name of a directory.
    pub fn parse_str(text: &str) -> (id: Option<RecipeId>)
        ensures
            match uuid_parse(text@) {
                Some(value) => id == Some(RecipeId(value)),
                None => id is None,
            },
    {
        match uuid_from_text(text) {
            Some(value) => Some(RecipeId(value)),
            None => None,
        }
    }
}

impl Default for RecipeId {
    /// A new random identifier.
    fn default() -> (id: RecipeId)
        ensures
            is_random_form(id.0),
    {
        RecipeId::new()
    }
}

} // verus!
