//! Text primitives: splitting, comparing and decimal rendering.

use vstd::prelude::*;

verus! {

/// The pieces of `text` between the occurrences of `sep`, in order. There is always at least
/// one piece; adjacent separators enclose an empty one.
pub open spec fn split_on(text: Seq<char>, sep: char) -> Seq<Seq<char>>
    decreases text.len(),
{
    if text.len() == 0 {
        seq![Seq::<char>::empty()]
    } else {
        let before = split_on(text.drop_last(), sep);
        if text.last() == sep {
            before.push(Seq::empty())
        } else {
            before.drop_last().push(before.last().push(text.last()))
        }
    }
}

/// The texts that a list of pieces holds.
pub open spec fn piece_texts(pieces: Seq<Vec<char>>) -> Seq<Seq<char>> {
    Seq::new(pieces.len(), |i: int| pieces[i]@)
}

/// A decimal digit.
pub open spec fn is_digit(c: char) -> bool {
    '0' <= c <= '9'
}

/// A hexadecimal digit, in either case.
pub open spec fn is_hex_digit(c: char) -> bool {
    is_digit(c) || 'a' <= c <= 'f' || 'A' <= c <= 'F'
}

/// An ASCII letter or digit.
pub open spec fn is_alphanumeric(c: char) -> bool {
    is_digit(c) || 'a' <= c <= 'z' || 'A' <= c <= 'Z'
}

/// The text of one decimal digit.
pub open spec fn digit_text(digit: nat) -> Seq<char> {
    if digit == 0 {
        "0"@
    } else if digit == 1 {
        "1"@
    } else if digit == 2 {
        "2"@
    } else if digit == 3 {
        "3"@
    } else if digit == 4 {
        "4"@
    } else if digit == 5 {
        "5"@
    } else if digit == 6 {
        "6"@
    } else if digit == 7 {
        "7"@
    } else if digit == 8 {
        "8"@
    } else {
        "9"@
    }
}

/// The decimal digits of a natural number, without leading zeros.
pub open spec fn natural_text(n: nat) -> Seq<char>
    decreases n,
{
    if n < 10 {
        digit_text(n)
    } else {
        natural_text(n / 10) + digit_text(n % 10)
    }
}

/// An integer in decimal, with a minus sign in front of a negative one.
pub open spec fn decimal_text(n: int) -> Seq<char> {
    if n < 0 {
        "-"@ + natural_text((-n) as nat)
    } else {
        natural_text(n as nat)
    }
}

pub proof fn lemma_split_nonempty(text: Seq<char>, sep: char)
    ensures
        split_on(text, sep).len() >= 1,
    decreases text.len(),
{
    if text.len() > 0 {
        lemma_split_nonempty(text.drop_last(), sep);
    }
}

/// A text without separators is one piece.
pub proof fn lemma_split_absent(text: Seq<char>, sep: char)
    requires
        forall|k: int| 0 <= k < text.len() ==> #[trigger] text[k] != sep,
    ensures
        split_on(text, sep) == seq![text],
    decreases text.len(),
{
    if text.len() > 0 {
        lemma_split_absent(text.drop_last(), sep);
        assert(text.drop_last().push(text.last()) == text);
    } else {
        assert(text == Seq::<char>::empty());
    }
}

/// Splitting at a separator splits the text in front of it and the text behind it.
pub proof fn lemma_split_concat(front: Seq<char>, sep: char, back: Seq<char>)
    ensures
        split_on(front.push(sep) + back, sep) == split_on(front, sep) + split_on(back, sep),
    decreases back.len(),
{
    let whole = front.push(sep) + back;
    lemma_split_nonempty(front, sep);
    if back.len() == 0 {
        assert(whole == front.push(sep));
        assert(whole.drop_last() == front);
        assert(split_on(back, sep) == seq![Seq::<char>::empty()]);
        assert(split_on(whole, sep) == split_on(front, sep) + split_on(back, sep));
    } else {
        lemma_split_concat(front, sep, back.drop_last());
        lemma_split_nonempty(back.drop_last(), sep);
        assert(whole.drop_last() == front.push(sep) + back.drop_last());
        assert(whole.last() == back.last());
        let left = split_on(front, sep);
        let right = split_on(back.drop_last(), sep);
        assert((left + right).drop_last() == left + right.drop_last());
        assert((left + right).last() == right.last());
        assert(split_on(whole, sep) == left + split_on(back, sep));
    }
}

/// What holds of every character of every piece holds of every character but the separators.
pub proof fn lemma_split_chars(text: Seq<char>, sep: char, p: spec_fn(char) -> bool)
    requires
        forall|i: int, j: int|
            #![trigger split_on(text, sep)[i][j]]
            0 <= i < split_on(text, sep).len() && 0 <= j < split_on(text, sep)[i].len() ==> p(
                split_on(text, sep)[i][j],
            ),
    ensures
        forall|k: int| 0 <= k < text.len() ==> #[trigger] text[k] == sep || p(text[k]),
    decreases text.len(),
{
    if text.len() > 0 {
        let before = split_on(text.drop_last(), sep);
        let pieces = split_on(text, sep);
        lemma_split_nonempty(text.drop_last(), sep);
        assert forall|i: int, j: int|
            #![trigger before[i][j]]
            0 <= i < before.len() && 0 <= j < before[i].len() implies p(before[i][j]) by {
            assert(pieces[i][j] == before[i][j]);
        }
        lemma_split_chars(text.drop_last(), sep, p);
        assert forall|k: int| 0 <= k < text.len() implies #[trigger] text[k] == sep || p(
            text[k],
        ) by {
            if k == text.len() - 1 {
                if text[k] != sep {
                    let last = pieces.len() - 1;
                    assert(pieces[last][pieces[last].len() - 1] == text[k]);
                }
            } else {
                assert(text.drop_last()[k] == text[k]);
            }
        }
    }
}

/// Pieces of bounded length bound the length of the text.
pub proof fn lemma_split_length(text: Seq<char>, sep: char, bound: nat)
    requires
        forall|i: int|
            0 <= i < split_on(text, sep).len() ==> #[trigger] split_on(text, sep)[i].len() <= bound,
    ensures
        text.len() + 1 <= split_on(text, sep).len() * (bound + 1) + split_on(text, sep).last().len()
            - bound,
    decreases text.len(),
{
    let pieces = split_on(text, sep);
    if text.len() == 0 {
        assert(pieces.len() == 1);
        assert(1 * (bound + 1) == bound + 1) by (nonlinear_arith);
    } else {
        let before = split_on(text.drop_last(), sep);
        lemma_split_nonempty(text.drop_last(), sep);
        assert forall|i: int| 0 <= i < before.len() implies #[trigger] before[i].len() <= bound by {
            assert(pieces[i].len() >= before[i].len());
        }
        lemma_split_length(text.drop_last(), sep, bound);
        if text.last() == sep {
            assert((before.len() + 1) * (bound + 1) == before.len() * (bound + 1) + (bound + 1))
                by (nonlinear_arith);
        }
    }
}

/// Every piece but the last one costs at least a separator.
pub proof fn lemma_split_count(text: Seq<char>, sep: char)
    ensures
        split_on(text, sep).len() + split_on(text, sep).last().len() <= text.len() + 1,
    decreases text.len(),
{
    if text.len() > 0 {
        lemma_split_nonempty(text.drop_last(), sep);
        lemma_split_count(text.drop_last(), sep);
    }
}

/// A text without empty pieces neither begins nor ends with a separator, and no two separators
/// in it are adjacent.
pub proof fn lemma_split_no_empty_piece(text: Seq<char>, sep: char)
    requires
        forall|i: int|
            0 <= i < split_on(text, sep).len() ==> #[trigger] split_on(text, sep)[i].len() > 0,
    ensures
        text.len() > 0,
        text[0] != sep,
        text.last() != sep,
        forall|k: int| 0 <= k < text.len() - 1 && #[trigger] text[k] == sep ==> text[k + 1] != sep,
{
    let pieces = split_on(text, sep);
    if text.len() == 0 {
        assert(pieces[0].len() == 0);
    }
    if text[0] == sep {
        let back = text.skip(1);
        assert(text == Seq::<char>::empty().push(sep) + back);
        lemma_split_concat(Seq::empty(), sep, back);
        assert(pieces[0].len() == 0);
    }
    if text.last() == sep {
        assert(pieces[pieces.len() - 1].len() == 0);
    }
    assert forall|k: int|
        0 <= k < text.len() - 1 && #[trigger] text[k] == sep implies text[k + 1] != sep by {
        if text[k + 1] == sep {
            let front = text.take(k);
            let back = text.skip(k + 1);
            assert(text == front.push(sep) + back);
            lemma_split_concat(front, sep, back);
            assert(back == Seq::<char>::empty().push(sep) + back.skip(1));
            lemma_split_concat(Seq::empty(), sep, back.skip(1));
            let at = split_on(front, sep).len() as int;
            assert(pieces[at] == split_on(back, sep)[0]);
            assert(pieces[at].len() == 0);
        }
    }
}

/// The text of a digit is one character, a digit of that value.
proof fn lemma_digit_text(digit: nat)
    requires
        digit < 10,
    ensures
        digit_text(digit).len() == 1,
        is_digit(digit_text(digit)[0]),
        digit_text(digit)[0] as nat == '0' as nat + digit,
{
    reveal_strlit("0");
    reveal_strlit("1");
    reveal_strlit("2");
    reveal_strlit("3");
    reveal_strlit("4");
    reveal_strlit("5");
    reveal_strlit("6");
    reveal_strlit("7");
    reveal_strlit("8");
    reveal_strlit("9");
}

/// The decimal text of a natural number is a run of digits.
pub proof fn lemma_natural_text_digits(n: nat)
    ensures
        natural_text(n).len() > 0,
        forall|k: int| 0 <= k < natural_text(n).len() ==> is_digit(#[trigger] natural_text(n)[k]),
    decreases n,
{
    lemma_digit_text(n % 10);
    if n >= 10 {
        lemma_natural_text_digits(n / 10);
    }
}

/// A natural number below a hundred thousand has at most five digits.
pub proof fn lemma_natural_text_short(n: nat)
    requires
        n < 100_000,
    ensures
        natural_text(n).len() <= 5,
{
    reveal_with_fuel(natural_text, 5);
    lemma_digit_text(n % 10);
    lemma_digit_text(n / 10 % 10);
    lemma_digit_text(n / 10 / 10 % 10);
    lemma_digit_text(n / 10 / 10 / 10 % 10);
    lemma_digit_text(n / 10 / 10 / 10 / 10 % 10);
}

/// A number up to 255 has at most three digits.
pub proof fn lemma_octet_length(n: nat)
    requires
        n <= 255,
    ensures
        natural_text(n).len() <= 3,
{
    reveal_with_fuel(natural_text, 3);
    lemma_digit_text(n % 10);
    lemma_digit_text(n / 10 % 10);
    lemma_digit_text(n / 10 / 10 % 10);
}

/// The number that a run of decimal digits denotes.
pub open spec fn digits_value(digits: Seq<char>) -> nat
    decreases digits.len(),
{
    if digits.len() == 0 {
        0
    } else {
        digits_value(digits.drop_last()) * 10 + (digits.last() as nat - '0' as nat) as nat
    }
}

/// The decimal text of a number reads back as the number.
pub proof fn law_natural_text_reads_back(n: nat)
    ensures
        digits_value(natural_text(n)) == n,
    decreases n,
{
    reveal_with_fuel(digits_value, 2);
    lemma_digit_text(n % 10);
    if n >= 10 {
        law_natural_text_reads_back(n / 10);
        assert(natural_text(n).drop_last() == natural_text(n / 10));
    } else {
        assert(natural_text(n).drop_last() == Seq::<char>::empty());
    }
}

/// The digits, the hexadecimal digits and the letters, by their code points.
pub proof fn law_character_classes(c: char)
    ensures
        is_digit(c) <==> 48 <= c as nat <= 57,
        is_hex_digit(c) <==> 48 <= c as nat <= 57 || 65 <= c as nat <= 70 || 97 <= c as nat <= 102,
        is_alphanumeric(c) <==> 48 <= c as nat <= 57 || 65 <= c as nat <= 90 || 97 <= c as nat
            <= 122,
{
}

/// Pieces with a separator between each two of them.
pub open spec fn joined(pieces: Seq<Seq<char>>, sep: char) -> Seq<char>
    decreases pieces.len(),
{
    if pieces.len() == 0 {
        Seq::empty()
    } else if pieces.len() == 1 {
        pieces[0]
    } else {
        joined(pieces.drop_last(), sep).push(sep) + pieces.last()
    }
}

/// Joining undoes splitting, and no piece holds the separator.
pub proof fn law_join_undoes_split(text: Seq<char>, sep: char)
    ensures
        joined(split_on(text, sep), sep) == text,
        split_on(text, sep).len() >= 1,
        forall|i: int|
            0 <= i < split_on(text, sep).len() ==> !(#[trigger] split_on(text, sep)[i]).contains(
                sep,
            ),
    decreases text.len(),
{
    let pieces = split_on(text, sep);
    if text.len() == 0 {
        assert(joined(pieces, sep) == text);
    } else {
        let before = split_on(text.drop_last(), sep);
        law_join_undoes_split(text.drop_last(), sep);
        assert(text == text.drop_last().push(text.last()));
        if text.last() == sep {
            assert(pieces.drop_last() == before);
            assert(joined(pieces, sep) == text);
        } else {
            let last = before.last().push(text.last());
            assert(pieces.drop_last() == before.drop_last());
            assert(pieces.last() == last);
            assert(joined(pieces, sep) == joined(before, sep).push(text.last()));
            assert forall|i: int| 0 <= i < pieces.len() implies !(
            #[trigger] pieces[i]).contains(sep) by {
                if i < pieces.len() - 1 {
                    assert(pieces[i] == before[i]);
                } else {
                    assert(!before[before.len() - 1].contains(sep));
                    assert forall|k: int| 0 <= k < last.len() implies last[k] != sep by {
                        if k < last.len() - 1 {
                            assert(before.last().contains(before.last()[k]));
                        }
                    }
                }
            }
        }
    }
}

/// Splitting undoes joining, where no piece holds the separator.
pub proof fn law_split_undoes_join(pieces: Seq<Seq<char>>, sep: char)
    requires
        pieces.len() >= 1,
        forall|i: int| 0 <= i < pieces.len() ==> !(#[trigger] pieces[i]).contains(sep),
    ensures
        split_on(joined(pieces, sep), sep) == pieces,
    decreases pieces.len(),
{
    let last = pieces.last();
    assert(!pieces[pieces.len() - 1].contains(sep));
    assert forall|k: int| 0 <= k < last.len() implies #[trigger] last[k] != sep by {
        assert(last.contains(last[k]));
    }
    lemma_split_absent(last, sep);
    if pieces.len() == 1 {
        assert(pieces == seq![last]);
    } else {
        let front = pieces.drop_last();
        assert forall|i: int| 0 <= i < front.len() implies !(#[trigger] front[i]).contains(sep) by {
            assert(front[i] == pieces[i]);
        }
        law_split_undoes_join(front, sep);
        lemma_split_concat(joined(front, sep), sep, last);
        assert(front + seq![last] == pieces);
    }
}

/// A digit denotes how far it is from zero, and digits in front of others count for a power of
/// ten each.
pub proof fn law_digits_value(front: Seq<char>, back: Seq<char>, digit: char)
    requires
        is_digit(digit),
    ensures
        digits_value(Seq::empty()) == 0,
        digits_value(seq![digit]) == digit as nat - 48,
        digits_value(front + back) == digits_value(front) * vstd::arithmetic::power::pow(
            10,
            back.len(),
        ) + digits_value(back),
    decreases back.len(),
{
    reveal_with_fuel(digits_value, 2);
    reveal(vstd::arithmetic::power::pow);
    assert(seq![digit].drop_last() == Seq::<char>::empty());
    if back.len() == 0 {
        assert(front + back == front);
        assert(digits_value(front) * 1 == digits_value(front));
    } else {
        let rest = back.drop_last();
        law_digits_value(front, rest, digit);
        assert((front + back).drop_last() == front + rest);
        let a = digits_value(front) as int;
        let p = vstd::arithmetic::power::pow(10, rest.len());
        assert(vstd::arithmetic::power::pow(10, back.len()) == 10 * p);
        assert(a * (10 * p) == (a * p) * 10) by (nonlinear_arith);
    }
}

/// A number is written with digits alone, without a zero in front, and a run of digits without a
/// zero in front is what the number that it denotes is written as.
pub proof fn law_natural_text_is_canonical(n: nat, digits: Seq<char>)
    ensures
        natural_text(n).len() > 0,
        forall|k: int|
            0 <= k < natural_text(n).len() ==> 48 <= (#[trigger] natural_text(n)[k]) as nat <= 57,
        natural_text(n)[0] == '0' <==> n == 0,
        n == 0 ==> natural_text(n).len() == 1,
        digits.len() > 0 && (forall|k: int|
            0 <= k < digits.len() ==> is_digit(#[trigger] digits[k])) && (digits.len() > 1
            ==> digits[0] != '0') ==> natural_text(digits_value(digits)) == digits,
    decreases n, digits.len(),
{
    lemma_natural_text_digits(n);
    lemma_digit_text(n % 10);
    if n >= 10 {
        law_natural_text_is_canonical(n / 10, Seq::empty());
        assert(natural_text(n)[0] == natural_text(n / 10)[0]);
    }
    if digits.len() > 0 && (forall|k: int|
        0 <= k < digits.len() ==> is_digit(#[trigger] digits[k])) && (digits.len() > 1
        ==> digits[0] != '0') {
        lemma_canonical_digits(digits);
    }
}

proof fn lemma_canonical_digits(digits: Seq<char>)
    requires
        digits.len() > 0,
        forall|k: int| 0 <= k < digits.len() ==> is_digit(#[trigger] digits[k]),
        digits.len() > 1 ==> digits[0] != '0',
    ensures
        natural_text(digits_value(digits)) == digits,
        digits[0] != '0' ==> digits_value(digits) > 0,
    decreases digits.len(),
{
    let front = digits.drop_last();
    let last = (digits.last() as nat - '0' as nat) as nat;
    assert(is_digit(digits[digits.len() - 1]));
    lemma_digit_text(last);
    if digits.len() == 1 {
        assert(digits_value(front) == 0);
        assert(digit_text(last) == digits);
    } else {
        assert forall|k: int| 0 <= k < front.len() implies is_digit(#[trigger] front[k]) by {
            assert(front[k] == digits[k]);
        }
        lemma_canonical_digits(front);
        let n = digits_value(digits);
        assert(n / 10 == digits_value(front));
        assert(n % 10 == last);
        assert(natural_text(n) == front + digit_text(last));
        assert(front + digit_text(last) == digits);
    }
}

/// A minus sign stands in front of exactly the negative numbers, and what is left denotes how far
/// the number is from zero.
pub proof fn law_decimal_text(n: int)
    ensures
        decimal_text(n).len() > 0,
        decimal_text(n)[0] == '-' <==> n < 0,
        n < 0 ==> digits_value(decimal_text(n).drop_first()) == -n,
        n < 0 ==> decimal_text(n).drop_first() == natural_text((-n) as nat),
        n >= 0 ==> digits_value(decimal_text(n)) == n,
        n >= 0 ==> decimal_text(n) == natural_text(n as nat),
{
    reveal_strlit("-");
    if n < 0 {
        law_natural_text_reads_back((-n) as nat);
        assert(decimal_text(n).drop_first() == natural_text((-n) as nat));
    } else {
        law_natural_text_reads_back(n as nat);
        lemma_natural_text_digits(n as nat);
        assert(is_digit(natural_text(n as nat)[0]));
    }
}

/// The characters of a string slice.
pub fn chars_of(text: &str) -> (chars: Vec<char>)
    ensures
        chars@ == text@,
{
    let mut chars: Vec<char> = Vec::new();
    for c in it: text.chars()
        invariant
            chars@ == text@.take(it.index()),
            it.seq() == text@,
    {
        chars.push(c);
    }
    chars
}

/// Whether two string slices hold the same text.
pub fn same_text(left: &str, right: &str) -> (same: bool)
    ensures
        same == (left@ == right@),
{
    let a = left.as_bytes();
    let b = right.as_bytes();
    proof {
        vstd::utf8::encode_utf8_decode_utf8(left@);
        vstd::utf8::encode_utf8_decode_utf8(right@);
    }
    if a.len() != b.len() {
        return false;
    }
    for i in 0..a.len()
        invariant
            a@ == vstd::utf8::encode_utf8(left@),
            b@ == vstd::utf8::encode_utf8(right@),
            a.len() == b.len(),
            a@.take(i as int) == b@.take(i as int),
    {
        if a[i] != b[i] {
            return false;
        }
        assert(a@.take(i + 1) == a@.take(i as int).push(a@[i as int]));
        assert(b@.take(i + 1) == b@.take(i as int).push(b@[i as int]));
    }
    assert(a@ == a@.take(a@.len() as int));
    assert(b@ == b@.take(b@.len() as int));
    true
}

/// Whether a character is a decimal digit.
pub fn is_digit_char(c: char) -> (yes: bool)
    ensures
        yes == is_digit(c),
{
    '0' <= c && c <= '9'
}

/// Whether a character is a hexadecimal digit.
pub fn is_hex_digit_char(c: char) -> (yes: bool)
    ensures
        yes == is_hex_digit(c),
{
    is_digit_char(c) || ('a' <= c && c <= 'f') || ('A' <= c && c <= 'F')
}

/// Whether a character is an ASCII letter or digit.
pub fn is_alphanumeric_char(c: char) -> (yes: bool)
    ensures
        yes == is_alphanumeric(c),
{
    is_digit_char(c) || ('a' <= c && c <= 'z') || ('A' <= c && c <= 'Z')
}

/// Whether a character occurs in a text.
pub fn has_char(text: &[char], wanted: char) -> (found: bool)
    ensures
        found == text@.contains(wanted),
{
    for i in 0..text.len()
        invariant
            forall|k: int| 0 <= k < i ==> text@[k] != wanted,
    {
        if text[i] == wanted {
            return true;
        }
    }
    false
}

/// The pieces of a text between the occurrences of a separator.
pub fn split(text: &[char], sep: char) -> (pieces: Vec<Vec<char>>)
    ensures
        piece_texts(pieces@) == split_on(text@, sep),
        pieces@.len() == split_on(text@, sep).len(),
        forall|i: int|
            0 <= i < pieces@.len() ==> (#[trigger] pieces@[i])@ == split_on(text@, sep)[i],
{
    let mut pieces: Vec<Vec<char>> = Vec::new();
    let mut piece: Vec<char> = Vec::new();
    for i in 0..text.len()
        invariant
            piece_texts(pieces@).push(piece@) == split_on(text@.take(i as int), sep),
    {
        let ghost before = piece_texts(pieces@);
        assert(text@.take(i + 1).drop_last() == text@.take(i as int));
        assert(before.push(piece@).drop_last() == before);
        if text[i] == sep {
            let full = piece;
            pieces.push(full);
            piece = Vec::new();
            assert(piece_texts(pieces@) == before.push(full@));
        } else {
            piece.push(text[i]);
        }
    }
    assert(text@.take(text@.len() as int) == text@);
    let ghost before = piece_texts(pieces@);
    let ghost last = piece@;
    pieces.push(piece);
    assert(piece_texts(pieces@) == before.push(last));
    assert forall|i: int| 0 <= i < pieces@.len() implies (#[trigger] pieces@[i])@ == split_on(
        text@,
        sep,
    )[i] by {
        assert(piece_texts(pieces@)[i] == pieces@[i]@);
    }
    pieces
}

/// Renders a natural number in decimal.
pub fn natural(n: u64) -> (text: String)
    ensures
        text@ == natural_text(n as nat),
    decreases n,
{
    if n < 10 {
        digit(n)
    } else {
        let head = natural(n / 10);
        head.concat(digit(n % 10).as_str())
    }
}

/// Renders an integer in decimal.
pub fn decimal(n: i32) -> (text: String)
    ensures
        text@ == decimal_text(n as int),
{
    let wide: i64 = n as i64;
    if wide < 0 {
        "-".to_owned().concat(natural((-wide) as u64).as_str())
    } else {
        natural(wide as u64)
    }
}

fn digit(n: u64) -> (text: String)
    requires
        n < 10,
    ensures
        text@ == digit_text(n as nat),
{
    let text: &str = match n {
        0 => "0",
        1 => "1",
        2 => "2",
        3 => "3",
        4 => "4",
        5 => "5",
        6 => "6",
        7 => "7",
        8 => "8",
        _ => "9",
    };
    text.to_owned()
}

/// A text between double quotes, escaped as a Rust string literal.
pub uninterp spec fn debug_quoted(text: Seq<char>) -> Seq<char>;

/// Printable ASCII characters other than the double quote and the backslash.
pub open spec fn is_plain_text(text: Seq<char>) -> bool {
    forall|k: int|
        0 <= k < text.len() ==> ' ' <= #[trigger] text[k] <= '~' && text[k] != '"' && text[k]
            != '\\'
}

/// Quotes and escapes a text with `<str as Debug>::fmt`.
///
/// Trusted: the result is a function of the text alone, and it is the text itself between double
/// quotes where that is printable ASCII without a double quote or a backslash. Which other
/// characters are escaped, and how, is left to the standard library.
#[verifier::external_body]
pub(crate) fn debug_text(text: &str) -> (quoted: String)
    ensures
        quoted@ == debug_quoted(text@),
        is_plain_text(text@) ==> quoted@ == seq!['"'] + text@ + seq!['"'],
{
    format!("{:?}", text)
}

/// The text that a run of bytes encodes in UTF-8, with U+FFFD for what is not UTF-8 in it.
pub uninterp spec fn lossy_utf8(bytes: Seq<u8>) -> Seq<char>;

/// Decodes UTF-8 with `String::from_utf8_lossy`.
///
/// Trusted: the result is a function of the bytes alone, and it is what they encode where all of
/// them are UTF-8. How many replacement characters stand for bytes that are not is left to the
/// standard library.
#[verifier::external_body]
pub(crate) fn lossy_text(bytes: &[u8]) -> (text: String)
    ensures
        text@ == lossy_utf8(bytes@),
        vstd::utf8::valid_utf8(bytes@) ==> text@ == vstd::utf8::decode_utf8(bytes@),
{
    String::from_utf8_lossy(bytes).to_string()
}

} // verus!
