//! Identifiers that are unlikely ever to repeat.

use uuid::Uuid;
use vstd::prelude::*;

verus! {

/// Whether the bits of `id` are those of a random identifier: version 4 of the RFC variant.
pub open spec fn random_identifier(id: u128) -> bool {
    (id >> 76) & 0xf == 4 && (id >> 62) & 3 == 2
}

/// One of the 32 hexadecimal digits of `id`, the most significant first.
pub open spec fn nibble(id: u128, place: int) -> u128 {
    (id >> ((124 - 4 * place) as u128)) & 0xf
}

/// A lower-case hexadecimal digit.
pub open spec fn hex_digit(value: u128) -> char {
    if value < 10 {
        (48 + value) as char
    } else {
        (87 + value) as char
    }
}

/// Where the groups of the textual form are parted.
pub open spec fn hyphen_at(i: int) -> bool {
    i == 8 || i == 13 || i == 18 || i == 23
}

/// Which digit stands at `i` in the textual form.
pub open spec fn digit_place(i: int) -> int {
    if i < 8 {
        i
    } else if i < 13 {
        i - 1
    } else if i < 18 {
        i - 2
    } else if i < 23 {
        i - 3
    } else {
        i - 4
    }
}

/// The textual form of an identifier: lower-case hexadecimal digits in groups of 8, 4, 4, 4 and 12.
pub open spec fn identifier_text(id: u128) -> Seq<char> {
    Seq::new(
        36,
        |i: int|
            if hyphen_at(i) {
                '-'
            } else {
                hex_digit(nibble(id, digit_place(i)))
            },
    )
}

/// A random identifier, from `uuid::Uuid::new_v4`.
#[verifier::external_body]
pub(crate) fn new_identifier() -> (res: u128)
    ensures
        random_identifier(res),
{
    Uuid::new_v4().as_u128()
}

/// The textual form of an identifier, from the `Display` of `uuid::Uuid`.
#[verifier::external_body]
pub(crate) fn write_identifier(id: u128) -> (res: String)
    ensures
        res@ == identifier_text(id),
{
    Uuid::from_u128(id).to_string()
}

proof fn lemma_same_nibble(a: u128, b: u128, i: int)
    requires
        identifier_text(a) == identifier_text(b),
        0 <= i < 36,
        !hyphen_at(i),
    ensures
        nibble(a, digit_place(i)) == nibble(b, digit_place(i)),
{
    let x = nibble(a, digit_place(i));
    let y = nibble(b, digit_place(i));
    let s = (124 - 4 * digit_place(i)) as u128;
    assert((a >> s) & 0xf <= 15) by (bit_vector);
    assert((b >> s) & 0xf <= 15) by (bit_vector);
    assert(identifier_text(a)[i] == hex_digit(x));
    assert(identifier_text(b)[i] == hex_digit(y));
}

/// Different identifiers have different textual forms.
pub proof fn law_identifier_text_is_unambiguous(a: u128, b: u128)
    requires
        identifier_text(a) == identifier_text(b),
    ensures
        a == b,
{
    assert forall|place: int| 0 <= place < 32 implies #[trigger] nibble(a, place) == nibble(
        b,
        place,
    ) by {
        let i = if place < 8 {
            place
        } else if place < 12 {
            place + 1
        } else if place < 16 {
            place + 2
        } else if place < 20 {
            place + 3
        } else {
            place + 4
        };
        lemma_same_nibble(a, b, i);
    }
    lemma_high_digits(a, b);
    lemma_low_digits(a, b);
    assert(a == b) by (bit_vector)
        requires
            a >> 64 == b >> 64,
            a & 0xffff_ffff_ffff_ffff == b & 0xffff_ffff_ffff_ffff,
    ;
}

spec fn same_digits(a: u128, b: u128) -> bool {
    forall|place: int| 0 <= place < 32 ==> #[trigger] nibble(a, place) == nibble(b, place)
}

proof fn lemma_high_digits(a: u128, b: u128)
    requires
        same_digits(a, b),
    ensures
        a >> 64 == b >> 64,
{
    assert(nibble(a, 0) == nibble(b, 0) && nibble(a, 1) == nibble(b, 1) && nibble(a, 2) == nibble(
        b,
        2,
    ) && nibble(a, 3) == nibble(b, 3) && nibble(a, 4) == nibble(b, 4) && nibble(a, 5) == nibble(
        b,
        5,
    ) && nibble(a, 6) == nibble(b, 6) && nibble(a, 7) == nibble(b, 7));
    assert(nibble(a, 8) == nibble(b, 8) && nibble(a, 9) == nibble(b, 9) && nibble(a, 10) == nibble(
        b,
        10,
    ) && nibble(a, 11) == nibble(b, 11) && nibble(a, 12) == nibble(b, 12) && nibble(a, 13)
        == nibble(b, 13) && nibble(a, 14) == nibble(b, 14) && nibble(a, 15) == nibble(b, 15));
    assert(a >> 64 == b >> 64) by (bit_vector)
        requires
            (a >> 124) & 0xf == (b >> 124) & 0xf,
            (a >> 120) & 0xf == (b >> 120) & 0xf,
            (a >> 116) & 0xf == (b >> 116) & 0xf,
            (a >> 112) & 0xf == (b >> 112) & 0xf,
            (a >> 108) & 0xf == (b >> 108) & 0xf,
            (a >> 104) & 0xf == (b >> 104) & 0xf,
            (a >> 100) & 0xf == (b >> 100) & 0xf,
            (a >> 96) & 0xf == (b >> 96) & 0xf,
            (a >> 92) & 0xf == (b >> 92) & 0xf,
            (a >> 88) & 0xf == (b >> 88) & 0xf,
            (a >> 84) & 0xf == (b >> 84) & 0xf,
            (a >> 80) & 0xf == (b >> 80) & 0xf,
            (a >> 76) & 0xf == (b >> 76) & 0xf,
            (a >> 72) & 0xf == (b >> 72) & 0xf,
            (a >> 68) & 0xf == (b >> 68) & 0xf,
            (a >> 64) & 0xf == (b >> 64) & 0xf,
    ;
}

proof fn lemma_low_digits(a: u128, b: u128)
    requires
        same_digits(a, b),
    ensures
        a & 0xffff_ffff_ffff_ffff == b & 0xffff_ffff_ffff_ffff,
{
    assert(nibble(a, 16) == nibble(b, 16) && nibble(a, 17) == nibble(b, 17) && nibble(a, 18)
        == nibble(b, 18) && nibble(a, 19) == nibble(b, 19) && nibble(a, 20) == nibble(b, 20)
        && nibble(a, 21) == nibble(b, 21) && nibble(a, 22) == nibble(b, 22) && nibble(a, 23)
        == nibble(b, 23));
    assert(nibble(a, 24) == nibble(b, 24) && nibble(a, 25) == nibble(b, 25) && nibble(a, 26)
        == nibble(b, 26) && nibble(a, 27) == nibble(b, 27) && nibble(a, 28) == nibble(b, 28)
        && nibble(a, 29) == nibble(b, 29) && nibble(a, 30) == nibble(b, 30) && nibble(a, 31)
        == nibble(b, 31));
    assert(a & 0xffff_ffff_ffff_ffff == b & 0xffff_ffff_ffff_ffff) by (bit_vector)
        requires
            (a >> 60) & 0xf == (b >> 60) & 0xf,
            (a >> 56) & 0xf == (b >> 56) & 0xf,
            (a >> 52) & 0xf == (b >> 52) & 0xf,
            (a >> 48) & 0xf == (b >> 48) & 0xf,
            (a >> 44) & 0xf == (b >> 44) & 0xf,
            (a >> 40) & 0xf == (b >> 40) & 0xf,
            (a >> 36) & 0xf == (b >> 36) & 0xf,
            (a >> 32) & 0xf == (b >> 32) & 0xf,
            (a >> 28) & 0xf == (b >> 28) & 0xf,
            (a >> 24) & 0xf == (b >> 24) & 0xf,
            (a >> 20) & 0xf == (b >> 20) & 0xf,
            (a >> 16) & 0xf == (b >> 16) & 0xf,
            (a >> 12) & 0xf == (b >> 12) & 0xf,
            (a >> 8) & 0xf == (b >> 8) & 0xf,
            (a >> 4) & 0xf == (b >> 4) & 0xf,
            (a >> 0) & 0xf == (b >> 0) & 0xf,
    ;
}

} // verus!
