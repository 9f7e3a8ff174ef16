//! Text primitives: comparison, counting, decimal numbers and lowercase hex.
use vstd::prelude::*;
use vstd::utf8::encode_utf8;

verus! {

/// `String::push` appends the given character to the end of the string.
pub assume_specification[ String::push ](text: &mut String, c: char)
    ensures
        final(text)@ == old(text)@.push(c),
;

/// The characters of `text`, in order.
pub fn to_chars(text: &str) -> (chars: Vec<char>)
    ensures
        chars@ == text@,
{
    let mut chars: Vec<char> = Vec::new();
    for c in it: text.chars()
        invariant
            it.seq() == text@,
            chars@ == it.seq().take(it.index() as int),
    {
        chars.push(c);
    }
    chars
}

/// Two texts are equal exactly when their characters are.
pub fn text_eq(left: &str, right: &str) -> (same: bool)
    ensures
        same == (left@ == right@),
{
    let a: &[u8] = left.as_bytes();
    let b: &[u8] = right.as_bytes();
    proof {
        vstd::utf8::encode_utf8_decode_utf8(left@);
        vstd::utf8::encode_utf8_decode_utf8(right@);
    }
    if a.len() != b.len() {
        return false;
    }
    let mut i: usize = 0;
    while i < a.len()
        invariant
            i <= a.len(),
            a.len() == b.len(),
            a@ == encode_utf8(left@),
            b@ == encode_utf8(right@),
            forall|k: int| 0 <= k < i ==> a@[k] == b@[k],
        decreases a.len() - i,
    {
        if a[i] != b[i] {
            return false;
        }
        i = i + 1;
    }
    assert(a@ =~= b@);
    true
}

/// Number of bytes `text` takes in UTF-8.
pub open spec fn utf8_len(text: Seq<char>) -> nat {
    encode_utf8(text).len()
}

/// Number of bytes `text` takes in UTF-8.
pub fn byte_len(text: &str) -> (len: usize)
    ensures
        len == utf8_len(text@),
{
    text.as_bytes().len()
}

/// Number of bytes `text` takes in UTF-8, in a type in which many such numbers add up.
pub(crate) fn text_bytes(text: &str) -> (size: u128)
    ensures
        size == utf8_len(text@),
        size <= u64::MAX,
{
    byte_len(text) as u128
}

/// Number of characters of `text`.
pub fn char_count(text: &str) -> (count: usize)
    ensures
        count == text@.len(),
{
    text.unicode_len()
}

/// The first `limit` characters of a sequence, or all of it when it is shorter.
pub open spec fn capped(text: Seq<char>, limit: int) -> Seq<char> {
    if text.len() <= limit {
        text
    } else {
        text.take(limit)
    }
}

/// The first `limit` characters of `text`, or all of it when it is shorter.
pub fn take_chars(text: &str, limit: usize) -> (prefix: String)
    ensures
        prefix@ == capped(text@, limit as int),
{
    let count: usize = text.unicode_len();
    if count <= limit {
        text.to_owned()
    } else {
        text.substring_char(0, limit).to_owned()
    }
}

/// `text` is not empty and has at most `limit` characters.
pub open spec fn within(text: Seq<char>, limit: int) -> bool {
    0 < text.len() <= limit
}

/// Tests that `text` is not empty and has at most `limit` characters.
pub fn is_within(text: &str, limit: usize) -> (ok: bool)
    ensures
        ok == within(text@, limit as int),
{
    let count: usize = text.unicode_len();
    0 < count && count <= limit
}

/// `text` begins with `prefix`.
pub open spec fn has_prefix(text: Seq<char>, prefix: Seq<char>) -> bool {
    prefix.len() <= text.len() && text.take(prefix.len() as int) == prefix
}

/// Tests whether the characters at `at` spell `word`.
pub fn spells_at(chars: &Vec<char>, at: usize, word: &Vec<char>) -> (found: bool)
    requires
        at <= chars.len(),
    ensures
        found == (at + word.len() <= chars.len() && chars@.subrange(
            at as int,
            at + word.len(),
        ) == word@),
{
    if word.len() > chars.len() - at {
        return false;
    }
    let mut i: usize = 0;
    while i < word.len()
        invariant
            i <= word.len(),
            at + word.len() <= chars.len(),
            forall|k: int| 0 <= k < i ==> chars@[at + k] == word@[k],
        decreases word.len() - i,
    {
        if chars[at + i] != word[i] {
            proof {
                assert(chars@.subrange(at as int, at + word.len())[i as int] != word@[i as int]);
            }
            return false;
        }
        i = i + 1;
    }
    assert(chars@.subrange(at as int, at + word.len()) =~= word@);
    true
}

/// Position of the first occurrence of `word` in `text` at or after `from`.
pub open spec fn find_from(text: Seq<char>, word: Seq<char>, from: int) -> Option<int>
    decreases text.len() + 1 - from,
{
    if from < 0 || from + word.len() > text.len() {
        None
    } else if text.subrange(from, from + word.len()) == word {
        Some(from)
    } else {
        find_from(text, word, from + 1)
    }
}

/// Finds the first occurrence of `word` in `chars` at or after `from`.
pub fn find_word(chars: &Vec<char>, word: &Vec<char>, from: usize) -> (found: Option<usize>)
    requires
        from <= chars.len(),
    ensures
        match found {
            Some(at) => find_from(chars@, word@, from as int) == Some(at as int) && from <= at && at
                + word.len() <= chars.len(),
            None => find_from(chars@, word@, from as int) is None,
        },
{
    let mut at: usize = from;
    while at <= chars.len()
        invariant
            from <= at <= chars.len() + 1,
            at <= chars.len() ==> find_from(chars@, word@, from as int) == find_from(
                chars@,
                word@,
                at as int,
            ),
            at == chars.len() + 1 ==> find_from(chars@, word@, from as int) is None,
        decreases chars.len() + 1 - at,
    {
        if spells_at(chars, at, word) {
            return Some(at);
        }
        if at == chars.len() {
            proof {
                if word.len() == 0 {
                    assert(chars@.subrange(at as int, at + word.len()) =~= word@);
                }
            }
            return None;
        }
        at = at + 1;
    }
    None
}

/// The decimal digit of a value below ten.
pub open spec fn digit(value: nat) -> char {
    (48 + value) as char
}

/// `c` is a decimal digit.
pub open spec fn is_digit(c: char) -> bool {
    '0' <= c <= '9'
}

/// `value` in decimal, without leading zeros.
pub open spec fn decimal(value: nat) -> Seq<char>
    decreases value,
{
    if value < 10 {
        seq![digit(value)]
    } else {
        decimal(value / 10).push(digit(value % 10))
    }
}

fn digit_char(value: u64) -> (c: char)
    requires
        value < 10,
    ensures
        c == digit(value as nat),
{
    let code: u8 = 48 + (value as u8);
    code as char
}

/// Writes `value` in decimal.
pub fn u64_text(value: u64) -> (text: String)
    ensures
        text@ == decimal(value as nat),
    decreases value,
{
    if value < 10 {
        let mut text = String::new();
        text.push(digit_char(value));
        assert(text@ =~= seq![digit(value as nat)]);
        text
    } else {
        let mut text = u64_text(value / 10);
        text.push(digit_char(value % 10));
        text
    }
}

/// `text` is one or more decimal digits.
pub open spec fn is_digits(text: Seq<char>) -> bool {
    text.len() > 0 && forall|i: int| 0 <= i < text.len() ==> is_digit(#[trigger] text[i])
}

/// The number that a run of decimal digits stands for.
pub open spec fn digits_value(text: Seq<char>) -> nat
    decreases text.len(),
{
    if text.len() == 0 {
        0
    } else {
        digits_value(text.drop_last()) * 10 + (text.last() as nat - 48) as nat
    }
}

/// `text` without one leading plus sign.
pub open spec fn unsigned_part(text: Seq<char>) -> Seq<char> {
    if text.len() > 0 && text[0] == '+' {
        text.skip(1)
    } else {
        text
    }
}

/// The unsigned number written in `text`: digits with at most one leading plus
/// sign, no greater than `u64::MAX`.
pub open spec fn u64_value(text: Seq<char>) -> Option<u64> {
    let digits = unsigned_part(text);
    if is_digits(digits) && digits_value(digits) <= u64::MAX {
        Some(digits_value(digits) as u64)
    } else {
        None
    }
}

proof fn lemma_digits_prefix_le(text: Seq<char>, upto: int)
    requires
        0 <= upto <= text.len(),
        forall|i: int| 0 <= i < text.len() ==> is_digit(#[trigger] text[i]),
    ensures
        digits_value(text.take(upto)) <= digits_value(text),
    decreases text.len(),
{
    if upto == text.len() {
        assert(text.take(upto) =~= text);
    } else {
        lemma_digits_prefix_le(text.drop_last(), upto);
        assert(text.drop_last().take(upto) =~= text.take(upto));
        assert(is_digit(text.last()));
    }
}

/// Reads an unsigned number from `chars`, starting at `from` and ending before `to`.
pub fn read_u64(chars: &Vec<char>, from: usize, to: usize) -> (value: Option<u64>)
    requires
        from <= to <= chars.len(),
    ensures
        value == u64_value(chars@.subrange(from as int, to as int)),
{
    let ghost text = chars@.subrange(from as int, to as int);
    let mut start: usize = from;
    if from < to && chars[from] == '+' {
        start = from + 1;
    }
    let ghost digits = unsigned_part(text);
    assert(digits =~= chars@.subrange(start as int, to as int));
    if start == to {
        return None;
    }
    let mut value: u64 = 0;
    let mut i: usize = start;
    while i < to
        invariant
            start <= i <= to <= chars.len(),
            start < to,
            text == chars@.subrange(from as int, to as int),
            digits == chars@.subrange(start as int, to as int),
            digits == unsigned_part(text),
            forall|k: int| 0 <= k < i - start ==> is_digit(#[trigger] digits[k]),
            value == digits_value(digits.take(i - start)),
        decreases to - i,
    {
        let c: char = chars[i];
        assert(c == digits[i - start]);
        if c < '0' || c > '9' {
            assert(!is_digit(digits[i - start]));
            return None;
        }
        let d: u64 = (c as u64) - 48;
        let ghost next = digits.take(i - start + 1);
        assert(next.drop_last() =~= digits.take(i - start));
        assert(next.last() == c);
        let scaled: Option<u64> = value.checked_mul(10);
        let sum: Option<u64> = match scaled {
            Some(v) => v.checked_add(d),
            None => None,
        };
        match sum {
            Some(v) => {
                value = v;
            },
            None => {
                proof {
                    if is_digits(digits) {
                        lemma_digits_prefix_le(digits, i - start + 1);
                    }
                }
                return None;
            },
        }
        i = i + 1;
    }
    assert(digits.take(to - start) =~= digits);
    Some(value)
}

/// Reading back a number written in decimal gives the number.
pub proof fn law_decimal_round_trip(value: u64)
    ensures
        u64_value(decimal(value as nat)) == Some(value),
{
    lemma_decimal(value as nat);
    let text = decimal(value as nat);
    assert(is_digit(text[0]));
    assert(unsigned_part(text) == text);
}

pub(crate) proof fn lemma_decimal(value: nat)
    ensures
        is_digits(decimal(value)),
        digits_value(decimal(value)) == value,
    decreases value,
{
    let text = decimal(value);
    if value < 10 {
        assert(text.drop_last() =~= Seq::<char>::empty());
        assert(digits_value(text.drop_last()) == 0);
    } else {
        lemma_decimal(value / 10);
        assert(text.drop_last() =~= decimal(value / 10));
        assert(text.last() == digit(value % 10));
        assert forall|i: int| 0 <= i < text.len() implies is_digit(#[trigger] text[i]) by {
            if i < text.len() - 1 {
                assert(text[i] == decimal(value / 10)[i]);
            }
        }
    }
}

/// Different numbers are written differently in decimal.
pub proof fn law_decimal_injective(left: nat, right: nat)
    requires
        decimal(left) == decimal(right),
    ensures
        left == right,
{
    lemma_decimal(left);
    lemma_decimal(right);
}

/// `c` is a lowercase hexadecimal digit.
pub open spec fn is_hex(c: char) -> bool {
    is_digit(c) || 'a' <= c <= 'f'
}

/// `text` is a SHA-256 value in lowercase hexadecimal.
pub open spec fn is_sha256_text(text: Seq<char>) -> bool {
    text.len() == 64 && forall|i: int| 0 <= i < text.len() ==> is_hex(#[trigger] text[i])
}

/// Tests that `value` is a SHA-256 value in lowercase hexadecimal.
pub fn is_sha256(value: &str) -> (ok: bool)
    ensures
        ok == is_sha256_text(value@),
{
    let chars: Vec<char> = to_chars(value);
    if chars.len() != 64 {
        return false;
    }
    let mut i: usize = 0;
    while i < chars.len()
        invariant
            i <= chars.len(),
            chars@ == value@,
            forall|k: int| 0 <= k < i ==> is_hex(#[trigger] value@[k]),
        decreases chars.len() - i,
    {
        let c: char = chars[i];
        if !(('0' <= c && c <= '9') || ('a' <= c && c <= 'f')) {
            assert(!is_hex(value@[i as int]));
            return false;
        }
        i = i + 1;
    }
    true
}

/// The lowercase hexadecimal digit of a value below sixteen.
pub open spec fn hex_digit(value: int) -> char {
    if value < 10 {
        (48 + value) as char
    } else {
        (87 + value) as char
    }
}

/// `bytes` in lowercase hexadecimal, two digits for each byte.
pub open spec fn hex_text(bytes: Seq<u8>) -> Seq<char> {
    Seq::new(
        2 * bytes.len(),
        |i: int|
            if i % 2 == 0 {
                hex_digit(bytes[i / 2] as int / 16)
            } else {
                hex_digit(bytes[i / 2] as int % 16)
            },
    )
}

fn hex_char(value: u8) -> (c: char)
    requires
        value < 16,
    ensures
        c == hex_digit(value as int),
{
    if value < 10 {
        (48 + value) as char
    } else {
        (87 + value) as char
    }
}

/// Writes `bytes` in lowercase hexadecimal.
pub fn hex_bytes(bytes: &[u8]) -> (text: String)
    ensures
        text@ == hex_text(bytes@),
{
    let mut text = String::new();
    let mut i: usize = 0;
    while i < bytes.len()
        invariant
            i <= bytes.len(),
            text@ == hex_text(bytes@.take(i as int)),
        decreases bytes.len() - i,
    {
        let ghost before = text@;
        text.push(hex_char(bytes[i] / 16));
        text.push(hex_char(bytes[i] % 16));
        proof {
            let next = hex_text(bytes@.take(i + 1));
            assert(text@.len() == next.len());
            assert forall|k: int| 0 <= k < next.len() implies text@[k] == next[k] by {
                if k < before.len() {
                    assert(text@[k] == before[k]);
                    assert(bytes@.take(i as int)[k / 2] == bytes@.take(i + 1)[k / 2]);
                } else {
                    assert(k == 2 * i || k == 2 * i + 1);
                }
            }
            assert(text@ =~= next);
        }
        i = i + 1;
    }
    assert(bytes@.take(bytes.len() as int) =~= bytes@);
    text
}

/// The hexadecimal text of thirty-two bytes is a SHA-256 text.
pub proof fn law_hex_of_digest_is_sha256_text(bytes: Seq<u8>)
    requires
        bytes.len() == 32,
    ensures
        is_sha256_text(hex_text(bytes)),
{
    let text = hex_text(bytes);
    assert forall|i: int| 0 <= i < text.len() implies is_hex(#[trigger] text[i]) by {
        let b = bytes[i / 2] as int;
        assert(0 <= b / 16 < 16);
        assert(0 <= b % 16 < 16);
    }
}

pub(crate) proof fn lemma_hex_digit_injective(left: int, right: int)
    requires
        0 <= left < 16,
        0 <= right < 16,
        hex_digit(left) == hex_digit(right),
    ensures
        left == right,
{
    assert(hex_digit(left) as int == if left < 10 {
        48 + left
    } else {
        87 + left
    });
    assert(hex_digit(right) as int == if right < 10 {
        48 + right
    } else {
        87 + right
    });
}

/// Different byte strings have different hexadecimal texts.
pub proof fn law_hex_injective(left: Seq<u8>, right: Seq<u8>)
    requires
        hex_text(left) == hex_text(right),
    ensures
        left == right,
{
    assert(hex_text(left).len() == 2 * left.len());
    assert(hex_text(right).len() == 2 * right.len());
    assert forall|i: int| 0 <= i < left.len() implies left[i] == right[i] by {
        assert(hex_text(left)[2 * i] == hex_text(right)[2 * i]);
        assert(hex_text(left)[2 * i + 1] == hex_text(right)[2 * i + 1]);
        assert((2 * i) / 2 == i && (2 * i + 1) / 2 == i);
        assert((2 * i) % 2 == 0 && (2 * i + 1) % 2 == 1);
        assert(0 <= left[i] as int / 16 < 16 && 0 <= right[i] as int / 16 < 16);
        assert(0 <= left[i] as int % 16 < 16 && 0 <= right[i] as int % 16 < 16);
        assert(hex_text(left)[2 * i] == hex_digit(left[i] as int / 16));
        assert(hex_text(left)[2 * i + 1] == hex_digit(left[i] as int % 16));
        assert(hex_text(right)[2 * i] == hex_digit(right[i] as int / 16));
        assert(hex_text(right)[2 * i + 1] == hex_digit(right[i] as int % 16));
        lemma_hex_digit_injective(left[i] as int / 16, right[i] as int / 16);
        lemma_hex_digit_injective(left[i] as int % 16, right[i] as int % 16);
    }
    assert(left =~= right);
}

/// `part` behind its length.
pub open spec fn framed(part: Seq<char>) -> Seq<char> {
    decimal(part.len()) + seq![':'] + part
}

/// What stands behind a framed part can be told from the part: two texts that begin
/// with framed parts and are equal have equal parts and equal rests.
pub proof fn law_frames_are_told_apart(
    left: Seq<char>,
    left_rest: Seq<char>,
    right: Seq<char>,
    right_rest: Seq<char>,
)
    requires
        framed(left) + left_rest == framed(right) + right_rest,
    ensures
        left == right,
        left_rest == right_rest,
{
    let a = decimal(left.len());
    let b = decimal(right.len());
    let whole = framed(left) + left_rest;
    let other = framed(right) + right_rest;
    lemma_decimal(left.len());
    lemma_decimal(right.len());
    assert(whole[a.len() as int] == ':');
    assert(other[b.len() as int] == ':');
    if a.len() < b.len() {
        assert(other[a.len() as int] == b[a.len() as int]);
        assert(is_digit(b[a.len() as int]));
        assert(false);
    }
    if b.len() < a.len() {
        assert(whole[b.len() as int] == a[b.len() as int]);
        assert(is_digit(a[b.len() as int]));
        assert(false);
    }
    assert(a =~= whole.take(a.len() as int));
    assert(b =~= other.take(b.len() as int));
    law_decimal_injective(left.len(), right.len());
    let from = a.len() as int + 1;
    let to = from + left.len();
    assert(left =~= whole.subrange(from, to));
    assert(right =~= other.subrange(from, to));
    assert(left_rest =~= whole.skip(to));
    assert(right_rest =~= other.skip(to));
}

/// A cut text is the beginning of the text, as long as the limit allows.
pub proof fn law_cut_texts_are_beginnings(text: Seq<char>, limit: int)
    requires
        limit >= 0,
    ensures
        capped(text, limit).len() <= limit,
        text.len() <= limit ==> capped(text, limit) == text,
        text.len() > limit ==> capped(text, limit).len() == limit,
        forall|i: int|
            0 <= i < capped(text, limit).len() ==> #[trigger] capped(text, limit)[i] == text[i],
{
}

/// A word is found at the first place where the text spells it, and nowhere only where no
/// place spells it.
pub proof fn law_words_are_found_at_their_first_place(text: Seq<char>, word: Seq<char>, from: int)
    requires
        0 <= from,
    ensures
        find_from(text, word, from) matches Some(at) ==> {
            &&& from <= at
            &&& at + word.len() <= text.len()
            &&& text.subrange(at, at + word.len()) == word
            &&& forall|i: int|
                from <= i < at ==> #[trigger] text.subrange(i, i + word.len()) != word
        },
        find_from(text, word, from) is None ==> forall|i: int|
            from <= i && i + word.len() <= text.len() ==> #[trigger] text.subrange(
                i,
                i + word.len(),
            ) != word,
    decreases text.len() + 1 - from,
{
    if from + word.len() <= text.len() && text.subrange(from, from + word.len()) != word {
        law_words_are_found_at_their_first_place(text, word, from + 1);
        match find_from(text, word, from + 1) {
            Some(at) => {
                assert forall|i: int| from <= i < at implies #[trigger] text.subrange(
                    i,
                    i + word.len(),
                ) != word by {
                    if i > from {
                        assert(from + 1 <= i);
                    }
                }
            },
            None => {
                assert forall|i: int|
                    from <= i && i + word.len() <= text.len() implies #[trigger] text.subrange(
                    i,
                    i + word.len(),
                ) != word by {
                    if i > from {
                        assert(from + 1 <= i);
                    }
                }
            },
        }
    }
}

/// A number is written by its digits, the last of them last.
pub proof fn law_numbers_are_written_in_tens(value: nat, last: nat)
    requires
        last < 10,
    ensures
        decimal(last).len() == 1,
        decimal(last)[0] as nat == 48 + last,
        value > 0 ==> decimal(value * 10 + last) == decimal(value) + decimal(last),
{
    if value > 0 {
        assert((value * 10 + last) / 10 == value && (value * 10 + last) % 10 == last);
        assert(decimal(value).push(digit(last)) =~= decimal(value) + decimal(last));
    }
}

/// A further digit makes a number ten times as large and adds its own value; anything else
/// makes it no number.
pub proof fn law_numbers_are_read_in_tens(text: Seq<char>, c: char)
    requires
        u64_value(text) is Some,
    ensures
        ({
            let value = u64_value(text)->0 * 10 + (c as nat - 48);
            if '0' <= c <= '9' && value <= u64::MAX {
                u64_value(text.push(c)) is Some && u64_value(text.push(c))->0 == value
            } else {
                u64_value(text.push(c)) is None
            }
        }),
{
    let digits = unsigned_part(text);
    let longer = unsigned_part(text.push(c));
    assert(longer =~= digits.push(c));
    assert(longer.drop_last() =~= digits);
    assert(longer.last() == c);
    if is_digit(c) {
        assert forall|i: int| 0 <= i < longer.len() implies is_digit(#[trigger] longer[i]) by {
            if i < digits.len() {
                assert(longer[i] == digits[i]);
            }
        }
    } else {
        assert(!is_digit(longer[digits.len() as int]));
    }
}

/// Only a text with a digit is a number; a sign in front of it may be a plus.
pub proof fn law_signs_and_blanks_are_no_numbers(text: Seq<char>)
    ensures
        u64_value(Seq::empty()) is None,
        u64_value(seq!['+']) is None,
        text.len() > 0 && text[0] != '+' && !is_digit(text[0]) ==> u64_value(text) is None,
        text.len() > 0 && is_digit(text[0]) ==> u64_value(seq!['+'] + text) == u64_value(text),
{
    assert(seq!['+'].skip(1) =~= Seq::<char>::empty());
    if text.len() > 0 {
        assert((seq!['+'] + text).skip(1) =~= text);
    }
}

/// A hash is written in sixty-four small hexadecimal digits, and only such a text is one.
pub proof fn law_hashes_are_small_hexadecimal(text: Seq<char>)
    ensures
        is_sha256_text(text) <==> text.len() == 64 && forall|i: int|
            0 <= i < text.len() ==> '0' <= #[trigger] text[i] <= '9' || 'a' <= text[i] <= 'f',
{
}

/// The bytes of a text are written one after the other, each as two digits, the higher one
/// first.
pub proof fn law_bytes_are_written_one_by_one(bytes: Seq<u8>, byte: u8)
    ensures
        hex_text(bytes.push(byte)) == hex_text(bytes) + hex_text(seq![byte]),
        hex_text(seq![byte]).len() == 2,
        ({
            let high = hex_text(seq![byte])[0];
            let low = hex_text(seq![byte])[1];
            let high_value = if high <= '9' {
                high as int - '0' as int
            } else {
                high as int - 'a' as int + 10
            };
            let low_value = if low <= '9' {
                low as int - '0' as int
            } else {
                low as int - 'a' as int + 10
            };
            high_value * 16 + low_value == byte
        }),
{
    let all = hex_text(bytes.push(byte));
    let parts = hex_text(bytes) + hex_text(seq![byte]);
    assert(seq![byte][0] == byte);
    assert(all.len() == parts.len());
    assert forall|i: int| 0 <= i < all.len() implies all[i] == parts[i] by {
        if i < 2 * bytes.len() {
            assert(bytes.push(byte)[i / 2] == bytes[i / 2]);
        } else {
            let from = i - 2 * bytes.len();
            assert(from / 2 == 0 && i / 2 == bytes.len() && from % 2 == i % 2);
        }
    }
    assert(all =~= parts);
    assert(byte as int / 16 < 16 && byte as int % 16 < 16);
    assert(byte as int / 16 * 16 + byte as int % 16 == byte);
}

/// A text is as large as its characters are in UTF-8: one to four bytes each.
pub proof fn law_texts_are_measured_in_bytes(c: char, rest: Seq<char>)
    ensures
        utf8_len(Seq::empty()) == 0,
        utf8_len(seq![c] + rest) == utf8_len(rest) + if (c as u32) < 0x80 {
            1int
        } else if (c as u32) < 0x800 {
            2
        } else if (c as u32) < 0x1_0000 {
            3
        } else {
            4
        },
{
    let text = seq![c] + rest;
    assert(text.drop_first() =~= rest);
    assert(text[0] == c);
}

} // verus!
