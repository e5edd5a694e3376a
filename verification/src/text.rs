//! Text primitives: white space, trimming, comparison and decimal notation.

use vstd::prelude::*;
use vstd::string::*;
use vstd::utf8::*;

verus! {

/// `String::push` appends one character at the end of the string.
pub assume_specification[ String::push ](text: &mut String, c: char)
    ensures
        final(text)@ == old(text)@.push(c),
;

/// Characters with the Unicode `White_Space` property.
pub open spec fn white_space(c: char) -> bool {
    ||| '\u{9}' <= c <= '\u{d}'
    ||| c == ' '
    ||| c == '\u{85}'
    ||| c == '\u{a0}'
    ||| c == '\u{1680}'
    ||| '\u{2000}' <= c <= '\u{200a}'
    ||| c == '\u{2028}'
    ||| c == '\u{2029}'
    ||| c == '\u{202f}'
    ||| c == '\u{205f}'
    ||| c == '\u{3000}'
}

/// The control characters of ASCII and Latin-1.
pub open spec fn control(c: char) -> bool {
    c <= '\u{1f}' || '\u{7f}' <= c <= '\u{9f}'
}

/// Text that holds nothing but white space; the empty text is blank.
pub open spec fn blank(text: Seq<char>) -> bool {
    forall|i: int| 0 <= i < text.len() ==> white_space(#[trigger] text[i])
}

/// `text` without its longest run of trailing white space.
pub open spec fn trimmed_end(text: Seq<char>) -> Seq<char>
    decreases text.len(),
{
    if text.len() > 0 && white_space(text.last()) {
        trimmed_end(text.drop_last())
    } else {
        text
    }
}

/// `text` without its longest run of leading white space.
pub open spec fn trimmed_start(text: Seq<char>) -> Seq<char>
    decreases text.len(),
{
    if text.len() > 0 && white_space(text.first()) {
        trimmed_start(text.drop_first())
    } else {
        text
    }
}

/// `text` without leading and trailing white space.
pub open spec fn trimmed(text: Seq<char>) -> Seq<char> {
    trimmed_end(trimmed_start(text))
}

/// Reports whether `c` has the Unicode `White_Space` property.
pub fn is_white_space(c: char) -> (res: bool)
    ensures
        res == white_space(c),
{
    ('\u{9}' <= c && c <= '\u{d}') || c == ' ' || c == '\u{85}' || c == '\u{a0}' || c == '\u{1680}'
        || ('\u{2000}' <= c && c <= '\u{200a}') || c == '\u{2028}' || c == '\u{2029}' || c
        == '\u{202f}' || c == '\u{205f}' || c == '\u{3000}'
}

/// Reports whether `c` is a control character.
pub fn is_control(c: char) -> (res: bool)
    ensures
        res == control(c),
{
    c <= '\u{1f}' || ('\u{7f}' <= c && c <= '\u{9f}')
}

/// `text` without control characters.
pub open spec fn printable(text: Seq<char>) -> Seq<char> {
    text.filter(|c: char| !control(c))
}

/// `text` without control characters.
pub fn without_control(text: &str) -> (res: String)
    ensures
        res@ == printable(text@),
{
    let mut res = String::new();
    proof {
        reveal(Seq::filter);
        assert(text@.take(0) =~= Seq::empty());
    }
    for c in it: text.chars()
        invariant
            it.seq() == text@,
            res@ == printable(text@.take(it.index() as int)),
    {
        proof {
            reveal(Seq::filter);
            assert(text@[it.index() as int] == c);
            assert(text@.take(it.index() + 1).drop_last() =~= text@.take(it.index() as int));
        }
        if !is_control(c) {
            res.push(c);
        }
    }
    assert(text@.take(text@.len() as int) =~= text@);
    res
}

/// Reports whether `text` holds nothing but white space.
pub fn is_blank(text: &str) -> (res: bool)
    ensures
        res == blank(text@),
{
    for c in it: text.chars()
        invariant
            it.seq() == text@,
            forall|i: int| 0 <= i < it.index() ==> white_space(#[trigger] text@[i]),
    {
        if !is_white_space(c) {
            assert(text@[it.index() as int] == c);
            return false;
        }
    }
    true
}

proof fn lemma_trimmed_end_split(text: Seq<char>, end: int)
    requires
        0 <= end <= text.len(),
        end > 0 ==> !white_space(text[end - 1]),
        forall|i: int| end <= i < text.len() ==> white_space(#[trigger] text[i]),
    ensures
        trimmed_end(text) == text.subrange(0, end),
    decreases text.len(),
{
    if end < text.len() {
        lemma_trimmed_end_split(text.drop_last(), end);
        assert(text.drop_last().subrange(0, end) =~= text.subrange(0, end));
    } else {
        assert(text.subrange(0, end) =~= text);
    }
}

proof fn lemma_trimmed_start_split(text: Seq<char>, start: int)
    requires
        0 <= start <= text.len(),
        start < text.len() ==> !white_space(text[start]),
        forall|i: int| 0 <= i < start ==> white_space(#[trigger] text[i]),
    ensures
        trimmed_start(text) == text.subrange(start, text.len() as int),
    decreases text.len(),
{
    if start > 0 {
        lemma_trimmed_start_split(text.drop_first(), start - 1);
        assert(text.drop_first().subrange(start - 1, text.len() - 1) =~= text.subrange(
            start,
            text.len() as int,
        ));
    } else {
        assert(text.subrange(start, text.len() as int) =~= text);
    }
}

/// `text` without its longest run of trailing white space.
pub fn trim_end(text: &str) -> (res: &str)
    ensures
        res@ == trimmed_end(text@),
{
    let mut count: usize = 0;
    let mut end: usize = 0;
    let total = text.unicode_len();
    for c in it: text.chars()
        invariant
            it.seq() == text@,
            total == text@.len(),
            count == it.index(),
            end <= count,
            end > 0 ==> !white_space(text@[end - 1]),
            forall|i: int| end <= i < it.index() ==> white_space(#[trigger] text@[i]),
    {
        assert(text@[it.index() as int] == c);
        count = count + 1;
        if !is_white_space(c) {
            end = count;
        }
    }
    proof {
        lemma_trimmed_end_split(text@, end as int);
    }
    text.substring_char(0, end)
}

/// `text` without leading and trailing white space.
pub fn trim(text: &str) -> (res: &str)
    ensures
        res@ == trimmed(text@),
{
    let total = text.unicode_len();
    let mut start: usize = 0;
    let mut found = false;
    for c in it: text.chars()
        invariant
            it.seq() == text@,
            total == text@.len(),
            found ==> start < it.index() && !white_space(text@[start as int]),
            !found ==> start == it.index(),
            forall|i: int| 0 <= i < start ==> white_space(#[trigger] text@[i]),
    {
        assert(text@[it.index() as int] == c);
        if !found {
            if is_white_space(c) {
                start = start + 1;
            } else {
                found = true;
            }
        }
    }
    proof {
        lemma_trimmed_start_split(text@, start as int);
    }
    trim_end(text.substring_char(start, total))
}

/// `text` without its longest run of `c` at the end.
pub open spec fn without_trailing(text: Seq<char>, c: char) -> Seq<char>
    decreases text.len(),
{
    if text.len() > 0 && text.last() == c {
        without_trailing(text.drop_last(), c)
    } else {
        text
    }
}

proof fn lemma_without_trailing_split(text: Seq<char>, c: char, end: int)
    requires
        0 <= end <= text.len(),
        end > 0 ==> text[end - 1] != c,
        forall|i: int| end <= i < text.len() ==> #[trigger] text[i] == c,
    ensures
        without_trailing(text, c) == text.subrange(0, end),
    decreases text.len(),
{
    if end < text.len() {
        lemma_without_trailing_split(text.drop_last(), c, end);
        assert(text.drop_last().subrange(0, end) =~= text.subrange(0, end));
    } else {
        assert(text.subrange(0, end) =~= text);
    }
}

/// `text` without its longest run of `c` at the end.
pub fn trim_end_char(text: &str, c: char) -> (res: &str)
    ensures
        res@ == without_trailing(text@, c),
{
    let mut count: usize = 0;
    let mut end: usize = 0;
    let total = text.unicode_len();
    for d in it: text.chars()
        invariant
            it.seq() == text@,
            total == text@.len(),
            count == it.index(),
            end <= count,
            end > 0 ==> text@[end - 1] != c,
            forall|i: int| end <= i < it.index() ==> #[trigger] text@[i] == c,
    {
        assert(text@[it.index() as int] == d);
        count = count + 1;
        if d != c {
            end = count;
        }
    }
    proof {
        lemma_without_trailing_split(text@, c, end as int);
    }
    text.substring_char(0, end)
}

/// Reports whether two texts hold the same characters.
pub fn same_text(a: &str, b: &str) -> (res: bool)
    ensures
        res == (a@ == b@),
{
    let left = a.as_bytes();
    let right = b.as_bytes();
    proof {
        encode_utf8_decode_utf8(a@);
        encode_utf8_decode_utf8(b@);
    }
    if left.len() != right.len() {
        return false;
    }
    let mut i: usize = 0;
    while i < left.len()
        invariant
            i <= left.len(),
            left@ == encode_utf8(a@),
            right@ == encode_utf8(b@),
            left.len() == right.len(),
            forall|j: int| 0 <= j < i ==> left@[j] == right@[j],
        decreases left.len() - i,
    {
        if left[i] != right[i] {
            return false;
        }
        i = i + 1;
    }
    assert(left@ =~= right@);
    true
}

/// Reports whether `text` holds the character `c`.
pub fn contains_char(text: &str, c: char) -> (res: bool)
    ensures
        res == text@.contains(c),
{
    for d in it: text.chars()
        invariant
            it.seq() == text@,
            forall|i: int| 0 <= i < it.index() ==> #[trigger] text@[i] != c,
    {
        assert(text@[it.index() as int] == d);
        if d == c {
            return true;
        }
    }
    false
}

/// Reports whether `text` holds no character but `c`.
pub fn is_only(text: &str, c: char) -> (res: bool)
    ensures
        res == (forall|i: int| 0 <= i < text@.len() ==> #[trigger] text@[i] == c),
{
    for d in it: text.chars()
        invariant
            it.seq() == text@,
            forall|i: int| 0 <= i < it.index() ==> #[trigger] text@[i] == c,
    {
        assert(text@[it.index() as int] == d);
        if d != c {
            return false;
        }
    }
    true
}

/// The lower-case counterpart of an ASCII capital; any other character is itself.
pub open spec fn ascii_lower(c: char) -> char {
    if 'A' <= c <= 'Z' {
        (c as u32 + 32) as char
    } else {
        c
    }
}

/// The lower-case counterpart of an ASCII capital; any other character is itself.
pub fn to_ascii_lower(c: char) -> (res: char)
    ensures
        res == ascii_lower(c),
{
    if 'A' <= c && c <= 'Z' {
        (c as u8 + 32) as char
    } else {
        c
    }
}

/// Whether two texts agree once ASCII capitals are lowered.
pub open spec fn ascii_case_equal(a: Seq<char>, b: Seq<char>) -> bool {
    &&& a.len() == b.len()
    &&& forall|i: int| 0 <= i < a.len() ==> ascii_lower(#[trigger] a[i]) == ascii_lower(b[i])
}

/// The characters of `text`, in order.
pub fn to_chars(text: &str) -> (res: Vec<char>)
    ensures
        res@ == text@,
{
    let mut res: Vec<char> = Vec::new();
    for c in it: text.chars()
        invariant
            it.seq() == text@,
            res@ == text@.subrange(0, it.index() as int),
    {
        assert(text@[it.index() as int] == c);
        res.push(c);
        assert(text@.subrange(0, it.index() + 1) =~= text@.subrange(0, it.index() as int).push(c));
    }
    assert(text@.subrange(0, text@.len() as int) =~= text@);
    res
}

/// Reports whether two texts agree once ASCII capitals are lowered.
pub fn same_text_ignoring_ascii_case(a: &str, b: &str) -> (res: bool)
    ensures
        res == ascii_case_equal(a@, b@),
{
    let left = to_chars(a);
    let right = to_chars(b);
    if left.len() != right.len() {
        return false;
    }
    let mut i: usize = 0;
    while i < left.len()
        invariant
            i <= left.len(),
            left@ == a@,
            right@ == b@,
            left.len() == right.len(),
            forall|j: int| 0 <= j < i ==> ascii_lower(#[trigger] left@[j]) == ascii_lower(right@[j]),
        decreases left.len() - i,
    {
        if to_ascii_lower(left[i]) != to_ascii_lower(right[i]) {
            assert(ascii_lower(a@[i as int]) != ascii_lower(b@[i as int]));
            return false;
        }
        i = i + 1;
    }
    true
}

/// The UTF-8 encoding of `text`.
pub fn bytes_of(text: &str) -> (res: Vec<u8>)
    ensures
        res@ == encode_utf8(text@),
{
    let mut bytes: Vec<u8> = Vec::new();
    bytes.extend_from_slice(text.as_bytes());
    assert(bytes@ =~= encode_utf8(text@));
    bytes
}

/// Number of bytes before the character at `index`.
pub open spec fn byte_offset(text: Seq<char>, index: int) -> nat {
    encode_utf8(text.take(index)).len()
}

/// Appending a character appends its encoding.
pub proof fn lemma_encode_push(text: Seq<char>, c: char)
    ensures
        encode_utf8(text.push(c)) == encode_utf8(text) + encode_scalar(c as u32),
    decreases text.len(),
{
    if text.len() == 0 {
        assert(text.push(c).drop_first() =~= text);
        assert(encode_utf8(text.push(c)) =~= encode_utf8(text) + encode_scalar(c as u32));
    } else {
        lemma_encode_push(text.drop_first(), c);
        assert(text.push(c).drop_first() =~= text.drop_first().push(c));
        assert(encode_utf8(text.push(c)) =~= encode_utf8(text) + encode_scalar(c as u32));
    }
}

/// A later character stands at a later byte.
pub proof fn lemma_byte_offset_increases(text: Seq<char>, i: int, j: int)
    requires
        0 <= i < j <= text.len(),
    ensures
        byte_offset(text, i) < byte_offset(text, j),
    decreases j - i,
{
    let last = j - 1;
    lemma_encode_push(text.take(last), text[last]);
    char_is_scalar(text[last]);
    assert(text.take(j) =~= text.take(last).push(text[last]));
    assert(encode_scalar(text[last] as u32).len() > 0);
    if i < last {
        lemma_byte_offset_increases(text, i, last);
    }
}

/// The decimal digit for `value`, which lies between zero and nine.
pub open spec fn digit(value: int) -> char {
    (48 + value) as char
}

/// Decimal notation without leading zeros.
pub open spec fn decimal(value: nat) -> Seq<char>
    decreases value,
{
    if value < 10 {
        seq![digit(value as int)]
    } else {
        decimal(value / 10).push(digit((value % 10) as int))
    }
}

/// The bytes of the decimal notation of `value`.
pub open spec fn decimal_bytes(value: nat) -> Seq<u8>
    decreases value,
{
    if value < 10 {
        seq![(48 + value) as u8]
    } else {
        decimal_bytes(value / 10).push((48 + value % 10) as u8)
    }
}

/// Appends the decimal notation of `value`.
pub fn push_decimal(out: &mut String, value: u64)
    ensures
        final(out)@ == old(out)@ + decimal(value as nat),
    decreases value,
{
    if value >= 10 {
        push_decimal(out, value / 10);
    }
    let unit = (value % 10) as u8;
    out.push((48 + unit) as char);
    assert(out@ =~= old(out)@ + decimal(value as nat));
}

/// Appends the bytes of the decimal notation of `value`.
pub fn push_decimal_bytes(out: &mut Vec<u8>, value: u64)
    ensures
        final(out)@ == old(out)@ + decimal_bytes(value as nat),
    decreases value,
{
    if value >= 10 {
        push_decimal_bytes(out, value / 10);
    }
    let unit = (value % 10) as u8;
    out.push(48 + unit);
    assert(out@ =~= old(out)@ + decimal_bytes(value as nat));
}

/// Whether a byte is a decimal digit.
pub open spec fn digit_byte(byte: u8) -> bool {
    48 <= byte <= 57
}

/// Decimal notation consists of digits, and there is at least one.
pub proof fn lemma_decimal_bytes_are_digits(value: nat)
    ensures
        decimal_bytes(value).len() > 0,
        forall|i: int| 0 <= i < decimal_bytes(value).len() ==> digit_byte(#[trigger] decimal_bytes(value)[i]),
    decreases value,
{
    if value >= 10 {
        lemma_decimal_bytes_are_digits(value / 10);
    }
}

/// Different numbers have different decimal notations.
pub proof fn lemma_decimal_bytes_are_unambiguous(a: nat, b: nat)
    requires
        decimal_bytes(a) == decimal_bytes(b),
    ensures
        a == b,
    decreases a,
{
    lemma_decimal_bytes_are_digits(a / 10);
    lemma_decimal_bytes_are_digits(b / 10);
    assert(a < 10 ==> decimal_bytes(a) =~= seq![(48 + a) as u8]);
    assert(b < 10 ==> decimal_bytes(b) =~= seq![(48 + b) as u8]);
    assert(a >= 10 ==> decimal_bytes(a).len() == decimal_bytes(a / 10).len() + 1);
    assert(b >= 10 ==> decimal_bytes(b).len() == decimal_bytes(b / 10).len() + 1);
    if a < 10 || b < 10 {
        assert(decimal_bytes(a).len() == decimal_bytes(b).len());
        assert(a < 10 && b < 10);
        assert(decimal_bytes(a)[0] == 48 + a);
        assert(decimal_bytes(b)[0] == 48 + b);
    } else {
        let shorter_a = decimal_bytes(a / 10);
        let shorter_b = decimal_bytes(b / 10);
        assert(decimal_bytes(a).drop_last() =~= shorter_a);
        assert(decimal_bytes(b).drop_last() =~= shorter_b);
        assert(decimal_bytes(a).last() == 48 + a % 10);
        assert(decimal_bytes(b).last() == 48 + b % 10);
        lemma_decimal_bytes_are_unambiguous(a / 10, b / 10);
    }
}

/// A number in decimal notation ends where something other than a digit follows.
pub proof fn lemma_decimal_field(
    a: nat,
    b: nat,
    after_a: u8,
    after_b: u8,
    rest_a: Seq<u8>,
    rest_b: Seq<u8>,
)
    requires
        decimal_bytes(a).push(after_a) + rest_a == decimal_bytes(b).push(after_b) + rest_b,
        !digit_byte(after_a),
        !digit_byte(after_b),
    ensures
        a == b,
        after_a == after_b,
        rest_a == rest_b,
{
    let whole_a = decimal_bytes(a).push(after_a) + rest_a;
    let whole_b = decimal_bytes(b).push(after_b) + rest_b;
    let end_a = decimal_bytes(a).len() as int;
    let end_b = decimal_bytes(b).len() as int;
    lemma_decimal_bytes_are_digits(a);
    lemma_decimal_bytes_are_digits(b);
    assert(whole_a[end_a] == after_a);
    assert(whole_b[end_b] == after_b);
    if end_a < end_b {
        assert(whole_b[end_a] == decimal_bytes(b)[end_a]);
    } else if end_b < end_a {
        assert(whole_a[end_b] == decimal_bytes(a)[end_b]);
    }
    assert(whole_a.take(end_a) =~= decimal_bytes(a));
    assert(whole_b.take(end_b) =~= decimal_bytes(b));
    lemma_decimal_bytes_are_unambiguous(a, b);
    assert(whole_a.skip(end_a + 1) =~= rest_a);
    assert(whole_b.skip(end_b + 1) =~= rest_b);
}

/// Decimal notation consists of digits.
pub proof fn lemma_decimal_is_digits(value: nat)
    ensures
        forall|i: int| 0 <= i < decimal(value).len() ==> '0' <= #[trigger] decimal(value)[i] <= '9',
    decreases value,
{
    let unit = (value % 10) as int;
    assert(digit(unit) as u32 == 48 + unit);
    if value >= 10 {
        lemma_decimal_is_digits(value / 10);
        let before = decimal(value / 10);
        assert forall|i: int| 0 <= i < decimal(value).len() implies '0' <= #[trigger] decimal(
            value,
        )[i] <= '9' by {
            if i < before.len() {
                assert(decimal(value)[i] == before[i]);
            }
        }
    } else {
        assert(decimal(value) =~= seq![digit(unit)]);
    }
}

/// The number that digits stand for, the highest place first.
pub open spec fn read_decimal(digits: Seq<char>) -> int
    decreases digits.len(),
{
    if digits.len() == 0 {
        0
    } else {
        10 * read_decimal(digits.drop_last()) + (digits.last() as int - '0' as int)
    }
}

/// Decimal notation reads back as the number. It holds nothing but digits, and begins with a zero
/// for zero alone.
pub proof fn law_decimal_reads_back(value: nat)
    ensures
        read_decimal(decimal(value)) == value,
        decimal(value).len() > 0,
        forall|i: int| 0 <= i < decimal(value).len() ==> '0' <= #[trigger] decimal(value)[i] <= '9',
        decimal(value)[0] == '0' <==> value == 0,
    decreases value,
{
    lemma_decimal_is_digits(value);
    let unit = (value % 10) as int;
    assert(digit(unit) as int == 48 + unit);
    if value >= 10 {
        law_decimal_reads_back(value / 10);
        assert(decimal(value).drop_last() =~= decimal(value / 10));
    } else {
        assert(decimal(value).drop_last() =~= Seq::empty());
        assert(read_decimal(Seq::empty()) == 0);
    }
}

/// The bytes of the decimal notation are those of its digits.
pub proof fn law_decimal_bytes_are_its_digits(value: nat)
    ensures
        decimal_bytes(value).len() == decimal(value).len(),
        forall|i: int|
            0 <= i < decimal(value).len() ==> #[trigger] decimal_bytes(value)[i] as int
                == decimal(value)[i] as int,
    decreases value,
{
    let unit = (value % 10) as int;
    assert(digit(unit) as int == 48 + unit);
    if value >= 10 {
        law_decimal_bytes_are_its_digits(value / 10);
        assert forall|i: int| 0 <= i < decimal(value).len() implies #[trigger] decimal_bytes(
            value,
        )[i] as int == decimal(value)[i] as int by {
            if i < decimal(value / 10).len() {
                assert(decimal_bytes(value)[i] == decimal_bytes(value / 10)[i]);
            }
        }
    }
}

/// Trimming cuts white space and nothing else: what is left stands in the text with nothing but
/// white space around it, and neither begins nor ends with white space.
pub proof fn law_trimming_cuts_white_space_alone(text: Seq<char>) -> (start: int)
    ensures
        0 <= start <= start + trimmed(text).len() <= text.len(),
        trimmed(text) == text.subrange(start, start + trimmed(text).len()),
        forall|i: int|
            0 <= i < start || start + trimmed(text).len() <= i < text.len() ==> white_space(
                #[trigger] text[i],
            ),
        trimmed(text).len() > 0 ==> !white_space(trimmed(text).first()) && !white_space(
            trimmed(text).last(),
        ),
        trimmed(text).len() == 0 <==> blank(text),
{
    let start = lemma_start_of(text);
    lemma_trimmed_start_split(text, start);
    let rest = text.subrange(start, text.len() as int);
    law_trimming_the_end_cuts_white_space_alone(rest);
    let left = trimmed_end(rest);
    assert(left =~= text.subrange(start, start + left.len()));
    assert forall|i: int| start + left.len() <= i < text.len() implies white_space(
        #[trigger] text[i],
    ) by {
        assert(rest[i - start] == text[i]);
    }
    if left.len() > 0 {
        assert(left.first() == text[start]);
        assert(!white_space(text[start]));
    }
    start
}

proof fn lemma_start_of(text: Seq<char>) -> (start: int)
    ensures
        0 <= start <= text.len(),
        start < text.len() ==> !white_space(text[start]),
        forall|i: int| 0 <= i < start ==> white_space(#[trigger] text[i]),
    decreases text.len(),
{
    if text.len() > 0 && white_space(text[0]) {
        let rest = text.drop_first();
        let start = lemma_start_of(rest);
        assert forall|i: int| 0 <= i < start + 1 implies white_space(#[trigger] text[i]) by {
            if i > 0 {
                assert(rest[i - 1] == text[i]);
            }
        }
        start + 1
    } else {
        0
    }
}

/// Trimming the end cuts white space and nothing else: what is left is the beginning of the text,
/// does not end with white space, and is followed by nothing but white space.
pub proof fn law_trimming_the_end_cuts_white_space_alone(text: Seq<char>)
    ensures
        trimmed_end(text).len() <= text.len(),
        trimmed_end(text) == text.take(trimmed_end(text).len() as int),
        trimmed_end(text).len() > 0 ==> !white_space(trimmed_end(text).last()),
        forall|i: int|
            trimmed_end(text).len() <= i < text.len() ==> white_space(#[trigger] text[i]),
    decreases text.len(),
{
    if text.len() > 0 && white_space(text.last()) {
        let shorter = text.drop_last();
        law_trimming_the_end_cuts_white_space_alone(shorter);
        assert(shorter.take(trimmed_end(text).len() as int) =~= text.take(
            trimmed_end(text).len() as int,
        ));
        assert forall|i: int| trimmed_end(text).len() <= i < text.len() implies white_space(
            #[trigger] text[i],
        ) by {
            if i < shorter.len() {
                assert(shorter[i] == text[i]);
            }
        }
    } else {
        assert(text.take(text.len() as int) =~= text);
    }
}

/// Cutting a trailing character cuts that character and nothing else.
pub proof fn law_cutting_a_character_cuts_it_alone(text: Seq<char>, c: char)
    ensures
        without_trailing(text, c).len() <= text.len(),
        without_trailing(text, c) == text.take(without_trailing(text, c).len() as int),
        without_trailing(text, c).len() > 0 ==> without_trailing(text, c).last() != c,
        forall|i: int|
            without_trailing(text, c).len() <= i < text.len() ==> #[trigger] text[i] == c,
    decreases text.len(),
{
    if text.len() > 0 && text.last() == c {
        let shorter = text.drop_last();
        law_cutting_a_character_cuts_it_alone(shorter, c);
        let end = without_trailing(text, c).len() as int;
        assert(shorter.take(end) =~= text.take(end));
        assert forall|i: int| end <= i < text.len() implies #[trigger] text[i] == c by {
            if i < shorter.len() {
                assert(shorter[i] == text[i]);
            }
        }
    } else {
        assert(text.take(text.len() as int) =~= text);
    }
}

/// Spaces, tabs and line breaks are white space, and nothing that can be seen in ASCII is.
pub proof fn law_white_space_cannot_be_seen(c: char)
    ensures
        c == ' ' || c == '\t' || c == '\n' || c == '\r' ==> white_space(c),
        '!' <= c <= '~' ==> !white_space(c),
        c < '\t' || '\r' < c < ' ' ==> !white_space(c),
{
}

/// Control characters are those below the space and those from delete to the end of the second
/// control block; nothing that can be seen in ASCII is one. Text without them stays as it is.
pub proof fn law_control_characters_cannot_be_seen(c: char, text: Seq<char>)
    ensures
        control(c) <==> (c as u32) < 0x20 || 0x7f <= (c as u32) && (c as u32) < 0xa0,
        (forall|i: int| 0 <= i < text.len() ==> !control(#[trigger] text[i])) ==> printable(text)
            == text,
    decreases text.len(),
{
    reveal(Seq::filter);
    if text.len() > 0 && (forall|i: int| 0 <= i < text.len() ==> !control(#[trigger] text[i])) {
        let shorter = text.drop_last();
        assert forall|i: int| 0 <= i < shorter.len() implies !control(#[trigger] shorter[i]) by {
            assert(shorter[i] == text[i]);
        }
        law_control_characters_cannot_be_seen(c, shorter);
        assert(!control(text[text.len() - 1]));
        assert(shorter.push(text.last()) =~= text);
    }
}

/// Lowering concerns the capitals of ASCII: each becomes the letter that is 32 places behind it, and
/// any other character stays as it is.
pub proof fn law_lowering_concerns_capitals(c: char)
    ensures
        'A' <= c <= 'Z' ==> ascii_lower(c) as u32 == c as u32 + 32 && 'a' <= ascii_lower(c) <= 'z',
        !('A' <= c <= 'Z') ==> ascii_lower(c) == c,
{
}

/// Texts without capitals agree once capitals are lowered only where they are the same, and case is
/// all that texts which agree can differ in.
pub proof fn law_case_is_all_that_is_ignored(a: Seq<char>, b: Seq<char>)
    requires
        ascii_case_equal(a, b),
    ensures
        ascii_case_equal(b, a),
        a.len() == b.len(),
        forall|i: int|
            0 <= i < a.len() ==> #[trigger] a[i] == b[i] || a[i] as u32 + 32 == b[i] as u32
                || b[i] as u32 + 32 == a[i] as u32,
        (forall|i: int|
            0 <= i < a.len() ==> !('A' <= #[trigger] a[i] <= 'Z') && !('A' <= b[i] <= 'Z')) ==> a
            == b,
{
    assert forall|i: int| 0 <= i < a.len() implies #[trigger] a[i] == b[i] || a[i] as u32 + 32
        == b[i] as u32 || b[i] as u32 + 32 == a[i] as u32 by {
        assert(ascii_lower(a[i]) == ascii_lower(b[i]));
        law_lowering_concerns_capitals(a[i]);
        law_lowering_concerns_capitals(b[i]);
    }
    if forall|i: int|
        0 <= i < a.len() ==> !('A' <= #[trigger] a[i] <= 'Z') && !('A' <= b[i] <= 'Z') {
        assert forall|i: int| 0 <= i < a.len() implies a[i] == b[i] by {
            assert(ascii_lower(a[i]) == ascii_lower(b[i]));
        }
        assert(a =~= b);
    }
}

} // verus!
