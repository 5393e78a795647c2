//! Reading numbers and text out of the values stored under metric keys, and rendering
//! values for error messages.

use vstd::prelude::*;
use vstd::string::*;
use vstd::utf8::{decode_utf8, valid_utf8};
use crate::text::{decimal_digits, decimal_string};

verus! {

/// An ASCII decimal digit.
pub open spec fn is_digit(c: char) -> bool {
    48 <= c as int <= 57
}

/// The value of a non-empty run of decimal digits.
pub open spec fn digits_value(s: Seq<char>) -> int
    decreases s.len(),
{
    if s.len() == 0 {
        0
    } else {
        digits_value(s.drop_last()) * 10 + (s.last() as int - 48)
    }
}

/// The integer written by `s`: an optional `+` or `-` sign followed by one or more ASCII
/// digits and nothing else; `None` for any other text.
pub open spec fn int_text_value(s: Seq<char>) -> Option<int> {
    let negative = s.len() > 0 && s[0] == '-';
    let body = if s.len() > 0 && (s[0] == '-' || s[0] == '+') {
        s.drop_first()
    } else {
        s
    };
    if body.len() > 0 && forall|i: int| 0 <= i < body.len() ==> is_digit(#[trigger] body[i]) {
        Some(
            if negative {
                -digits_value(body)
            } else {
                digits_value(body)
            },
        )
    } else {
        None
    }
}

/// The message of the error Rust's integer parsing gives for `s`, which is not an `i64`: an
/// empty text, a sign alone, or a sign followed by digits, read from the left until the first
/// character that is not a digit or the first digit at which the value leaves the range.
pub open spec fn int_parse_error_text(s: Seq<char>) -> Seq<char> {
    if s.len() == 0 {
        "cannot parse integer from empty string"@
    } else if s.len() == 1 && (s[0] == '+' || s[0] == '-') {
        "invalid digit found in string"@
    } else {
        let body = if s[0] == '+' || s[0] == '-' {
            s.drop_first()
        } else {
            s
        };
        digits_error_text(body, s[0] == '-', 0)
    }
}

/// The error message for the digits of `body` from position `k` on, the digits before `k`
/// being valid and in range; `negative` when the number has a minus sign.
pub open spec fn digits_error_text(body: Seq<char>, negative: bool, k: int) -> Seq<char>
    decreases body.len() - k,
{
    if k < 0 || k >= body.len() {
        Seq::empty()
    } else if !is_digit(body[k]) {
        "invalid digit found in string"@
    } else if !negative && digits_value(body.take(k + 1)) > i64::MAX {
        "number too large to fit in target type"@
    } else if negative && -digits_value(body.take(k + 1)) < i64::MIN {
        "number too small to fit in target type"@
    } else {
        digits_error_text(body, negative, k + 1)
    }
}

/// Parses a 64-bit signed integer with `str::parse::<i64>`: an optional sign followed by
/// ASCII digits, within the range of `i64`. On failure the error's message is returned:
/// the empty-string, invalid-digit, too-large or too-small message of `ParseIntError`.
#[verifier::external_body]
pub(crate) fn parse_i64(s: &str) -> (r: Result<i64, String>)
    ensures
        r is Ok <==> (int_text_value(s@) matches Some(v) && i64::MIN <= v <= i64::MAX),
        r matches Ok(v) ==> int_text_value(s@) == Some(v as int),
        r matches Err(m) ==> m@ == int_parse_error_text(s@),
{
    match s.parse::<i64>() {
        Ok(v) => Ok(v),
        Err(e) => Err(e.to_string()),
    }
}

/// The letter `c` is `lower` or its capital `upper`.
pub open spec fn same_letter(c: char, letters: (char, char)) -> bool {
    c == letters.0 || c == letters.1
}

/// The characters of `s` from position `i` on spell `word`, ignoring case.
pub open spec fn spells(s: Seq<char>, i: int, word: Seq<(char, char)>) -> bool {
    &&& 0 <= i <= s.len()
    &&& s.len() - i == word.len()
    &&& forall|k: int| 0 <= k < word.len() ==> same_letter(#[trigger] s[i + k], word[k])
}

/// The word `inf`, as pairs of small and capital letters.
pub open spec fn word_inf() -> Seq<(char, char)> {
    seq![('i', 'I'), ('n', 'N'), ('f', 'F')]
}

/// The word `infinity`, as pairs of small and capital letters.
pub open spec fn word_infinity() -> Seq<(char, char)> {
    seq![('i', 'I'), ('n', 'N'), ('f', 'F'), ('i', 'I'), ('n', 'N'), ('i', 'I'), ('t', 'T'), ('y', 'Y')]
}

/// The word `nan`, as pairs of small and capital letters.
pub open spec fn word_nan() -> Seq<(char, char)> {
    seq![('n', 'N'), ('a', 'A'), ('n', 'N')]
}

/// The number of consecutive digits in `s` starting at position `i`.
pub open spec fn digit_run(s: Seq<char>, i: int) -> int
    decreases s.len() - i,
{
    if 0 <= i < s.len() && is_digit(s[i]) {
        1 + digit_run(s, i + 1)
    } else {
        0
    }
}

/// One if `s` has a `+` or `-` at position `i`, else zero.
pub open spec fn sign_len(s: Seq<char>, i: int) -> int {
    if 0 <= i < s.len() && (s[i] == '+' || s[i] == '-') {
        1
    } else {
        0
    }
}

/// From position `i` on, `s` is empty or an exponent: `e` or `E`, an optional sign and
/// one or more digits.
pub open spec fn exponent_ok(s: Seq<char>, i: int) -> bool {
    i == s.len() || (0 <= i < s.len() && same_letter(s[i], ('e', 'E')) && {
        let j = i + 1 + sign_len(s, i + 1);
        digit_run(s, j) > 0 && j + digit_run(s, j) == s.len()
    })
}

/// From position `i` on, `s` is a decimal number: digits with an optional fraction part
/// (at least one digit in all), then an optional exponent.
pub open spec fn number_ok(s: Seq<char>, i: int) -> bool {
    let d1 = digit_run(s, i);
    let p = i + d1;
    if p < s.len() && s[p] == '.' {
        let d2 = digit_run(s, p + 1);
        d1 + d2 > 0 && exponent_ok(s, p + 1 + d2)
    } else {
        d1 > 0 && exponent_ok(s, p)
    }
}

/// `s` is text that Rust parses as a 64-bit float: an optional sign, then `inf`,
/// `infinity`, `nan` (in any case) or a decimal number with optional exponent.
pub open spec fn valid_float_text(s: Seq<char>) -> bool {
    let i = sign_len(s, 0);
    spells(s, i, word_inf()) || spells(s, i, word_infinity()) || spells(s, i, word_nan())
        || number_ok(s, i)
}

/// A run of digits from `i` to `n`, ended by the end of `s` or by a character that is not a
/// digit, is `n - i` digits long.
proof fn lemma_digit_run_block(s: Seq<char>, i: int, n: int)
    requires
        0 <= i <= n <= s.len(),
        forall|p: int| i <= p < n ==> is_digit(#[trigger] s[p]),
        n == s.len() || !is_digit(s[n]),
    ensures
        digit_run(s, i) == n - i,
    decreases n - i,
{
    if i < n {
        lemma_digit_run_block(s, i + 1, n);
    }
}

/// Rust reads a float written as digits, an optional fraction, and an exponent (`e` or `E`,
/// no sign, `+` or `-`, then digits), with an optional sign in front: every such text is a
/// float, whatever the digits.
pub proof fn lemma_exponent_forms(
    lead: Seq<char>,
    whole: Seq<char>,
    fraction: Seq<char>,
    e: char,
    sign: Seq<char>,
    exponent: Seq<char>,
)
    requires
        lead == Seq::<char>::empty() || lead == seq!['+'] || lead == seq!['-'],
        whole.len() > 0,
        forall|p: int| 0 <= p < whole.len() ==> '0' <= #[trigger] whole[p] <= '9',
        forall|p: int| 0 <= p < fraction.len() ==> '0' <= #[trigger] fraction[p] <= '9',
        e == 'e' || e == 'E',
        sign == Seq::<char>::empty() || sign == seq!['+'] || sign == seq!['-'],
        exponent.len() > 0,
        forall|p: int| 0 <= p < exponent.len() ==> '0' <= #[trigger] exponent[p] <= '9',
    ensures
        valid_float_text(lead + whole + seq![e] + sign + exponent),
        valid_float_text(lead + whole + seq!['.'] + fraction + seq![e] + sign + exponent),
{
    let l = lead.len() as int;
    let w = whole.len() as int;
    let f = fraction.len() as int;
    let g = sign.len() as int;
    let x = exponent.len() as int;
    let t = lead + whole + seq![e] + sign + exponent;
    assert(sign_len(t, 0) == l);
    assert forall|p: int| l <= p < l + w implies is_digit(#[trigger] t[p]) by {
        assert(t[p] == whole[p - l]);
    }
    lemma_digit_run_block(t, l, l + w);
    assert(t[l + w] == e);
    assert(sign_len(t, l + w + 1) == g);
    assert forall|p: int| l + w + 1 + g <= p < t.len() implies is_digit(#[trigger] t[p]) by {
        assert(t[p] == exponent[p - (l + w + 1 + g)]);
    }
    lemma_digit_run_block(t, l + w + 1 + g, t.len() as int);
    assert(exponent_ok(t, l + w));
    assert(number_ok(t, l));
    let u = lead + whole + seq!['.'] + fraction + seq![e] + sign + exponent;
    assert(sign_len(u, 0) == l);
    assert forall|p: int| l <= p < l + w implies is_digit(#[trigger] u[p]) by {
        assert(u[p] == whole[p - l]);
    }
    lemma_digit_run_block(u, l, l + w);
    assert(u[l + w] == '.');
    assert forall|p: int| l + w + 1 <= p < l + w + 1 + f implies is_digit(#[trigger] u[p]) by {
        assert(u[p] == fraction[p - (l + w + 1)]);
    }
    assert(u[l + w + 1 + f] == e);
    lemma_digit_run_block(u, l + w + 1, l + w + 1 + f);
    assert(sign_len(u, l + w + 1 + f + 1) == g);
    assert forall|p: int| l + w + 1 + f + 1 + g <= p < u.len() implies is_digit(#[trigger] u[p]) by {
        assert(u[p] == exponent[p - (l + w + 1 + f + 1 + g)]);
    }
    lemma_digit_run_block(u, l + w + 1 + f + 1 + g, u.len() as int);
    assert(exponent_ok(u, l + w + 1 + f));
    assert(number_ok(u, l));
}

/// Rust reads as a float, with an optional sign in front: digits, digits with a fraction part
/// (`5.`, `5.25`), a fraction part alone (`.25`), and `inf`, `infinity` or `nan` in any mix of
/// small and capital letters. It reads no empty text, no sign or point alone, and no exponent
/// without a number before it.
pub proof fn lemma_float_forms(
    lead: Seq<char>,
    whole: Seq<char>,
    fraction: Seq<char>,
    word: Seq<char>,
    e: char,
)
    requires
        lead == Seq::<char>::empty() || lead == seq!['+'] || lead == seq!['-'],
        whole.len() > 0,
        forall|p: int| 0 <= p < whole.len() ==> '0' <= #[trigger] whole[p] <= '9',
        forall|p: int| 0 <= p < fraction.len() ==> '0' <= #[trigger] fraction[p] <= '9',
        e == 'e' || e == 'E',
    ensures
        valid_float_text(lead + whole),
        valid_float_text(lead + whole + seq!['.'] + fraction),
        valid_float_text(lead + seq!['.'] + whole),
        word.len() == 3 && (word[0] == 'i' || word[0] == 'I') && (word[1] == 'n' || word[1] == 'N') && (
        word[2] == 'f' || word[2] == 'F') ==> valid_float_text(lead + word),
        word.len() == 3 && (word[0] == 'n' || word[0] == 'N') && (word[1] == 'a' || word[1] == 'A') && (
        word[2] == 'n' || word[2] == 'N') ==> valid_float_text(lead + word),
        !valid_float_text(lead),
        !valid_float_text(lead + seq!['.']),
        !valid_float_text(lead + seq![e] + whole),
{
    let l = lead.len() as int;
    let w = whole.len() as int;
    let f = fraction.len() as int;
    // digits alone
    let a = lead + whole;
    assert(sign_len(a, 0) == l);
    assert forall|p: int| l <= p < l + w implies is_digit(#[trigger] a[p]) by {
        assert(a[p] == whole[p - l]);
    }
    lemma_digit_run_block(a, l, l + w);
    assert(exponent_ok(a, l + w));
    assert(number_ok(a, l));
    // digits with a fraction part
    let b = lead + whole + seq!['.'] + fraction;
    assert(sign_len(b, 0) == l);
    assert forall|p: int| l <= p < l + w implies is_digit(#[trigger] b[p]) by {
        assert(b[p] == whole[p - l]);
    }
    lemma_digit_run_block(b, l, l + w);
    assert(b[l + w] == '.');
    assert forall|p: int| l + w + 1 <= p < b.len() implies is_digit(#[trigger] b[p]) by {
        assert(b[p] == fraction[p - (l + w + 1)]);
    }
    lemma_digit_run_block(b, l + w + 1, b.len() as int);
    assert(exponent_ok(b, b.len() as int));
    assert(number_ok(b, l));
    // a fraction part alone
    let c = lead + seq!['.'] + whole;
    assert(sign_len(c, 0) == l);
    assert(c[l] == '.');
    assert(!is_digit(c[l]));
    lemma_digit_run_block(c, l, l);
    assert forall|p: int| l + 1 <= p < c.len() implies is_digit(#[trigger] c[p]) by {
        assert(c[p] == whole[p - (l + 1)]);
    }
    lemma_digit_run_block(c, l + 1, c.len() as int);
    assert(exponent_ok(c, c.len() as int));
    assert(number_ok(c, l));
    // inf and nan
    let d = lead + word;
    if word.len() == 3 {
        assert(d[l] == word[0]);
        if word[0] != '+' && word[0] != '-' {
            assert(sign_len(d, 0) == l) by {
                if l == 0 {
                    assert(d[0] == word[0]);
                }
            }
        }
        assert(d.len() - l == 3);
        assert(d[l] == word[0] && d[l + 1] == word[1] && d[l + 2] == word[2]);
        assert(word_inf().len() == 3 && word_nan().len() == 3);
    }
    if word.len() == 3 && (word[0] == 'i' || word[0] == 'I') && (word[1] == 'n' || word[1] == 'N') && (
    word[2] == 'f' || word[2] == 'F') {
        assert forall|k: int| 0 <= k < word_inf().len() implies same_letter(#[trigger] d[l + k], word_inf()[k]) by {
            if k == 0 {
            } else if k == 1 {
            } else {
            }
        }
        assert(spells(d, l, word_inf()));
    }
    if word.len() == 3 && (word[0] == 'n' || word[0] == 'N') && (word[1] == 'a' || word[1] == 'A') && (
    word[2] == 'n' || word[2] == 'N') {
        assert forall|k: int| 0 <= k < word_nan().len() implies same_letter(#[trigger] d[l + k], word_nan()[k]) by {
            if k == 0 {
            } else if k == 1 {
            } else {
            }
        }
        assert(spells(d, l, word_nan()));
    }
    // the sign alone
    assert(lead.len() == l);
    assert(sign_len(lead, 0) == l);
    assert(digit_run(lead, l) == 0);
    assert(word_infinity().len() == 8);
    assert(!spells(lead, l, word_inf()) && !spells(lead, l, word_infinity()) && !spells(lead, l, word_nan()));
    // a point alone
    let g = lead + seq!['.'];
    assert(sign_len(g, 0) == l);
    assert(g[l] == '.');
    assert(!is_digit(g[l]));
    assert(digit_run(g, l) == 0);
    assert(digit_run(g, l + 1) == 0);
    assert(!spells(g, l, word_inf()) && !spells(g, l, word_infinity()) && !spells(g, l, word_nan()));
    // an exponent alone
    let h = lead + seq![e] + whole;
    assert(sign_len(h, 0) == l);
    assert(h[l] == e);
    assert(!is_digit(h[l]));
    assert(digit_run(h, l) == 0);
    assert(!same_letter(h[l], word_inf()[0]));
    assert(!same_letter(h[l], word_infinity()[0]));
    assert(!same_letter(h[l], word_nan()[0]));
    assert(!spells(h, l, word_inf()) && !spells(h, l, word_infinity()) && !spells(h, l, word_nan()));
}

/// The message of Rust's float parsing error for text that is not a float.
pub open spec fn float_error_text(s: Seq<char>) -> Seq<char> {
    if s.len() == 0 {
        "cannot parse float from empty string"@
    } else {
        "invalid float literal"@
    }
}

/// The characters of a string, one by one.
pub fn chars_of(s: &str) -> (v: Vec<char>)
    ensures
        v@ == s@,
{
    let n = s.unicode_len();
    let mut v: Vec<char> = Vec::new();
    let mut i: usize = 0;
    while i < n
        invariant
            n == s@.len(),
            i <= n,
            v@ == s@.take(i as int),
        decreases n - i,
    {
        let c = s.get_char(i);
        v.push(c);
        i = i + 1;
        proof {
            assert(v@ =~= s@.take(i as int));
        }
    }
    proof {
        assert(s@.take(n as int) =~= s@);
    }
    v
}

fn char_is_digit(c: char) -> (b: bool)
    ensures
        b == is_digit(c),
{
    '0' <= c && c <= '9'
}

fn count_digits(v: &Vec<char>, i: usize) -> (n: usize)
    requires
        i <= v@.len(),
    ensures
        n == digit_run(v@, i as int),
        i + n <= v@.len(),
{
    let mut j: usize = i;
    while j < v.len() && char_is_digit(v[j])
        invariant
            i <= j <= v@.len(),
            digit_run(v@, i as int) == (j - i) + digit_run(v@, j as int),
        decreases v@.len() - j,
    {
        j = j + 1;
    }
    j - i
}

fn spells_at(v: &Vec<char>, i: usize, word: &Vec<(char, char)>) -> (b: bool)
    requires
        i <= v@.len(),
    ensures
        b == spells(v@, i as int, word@),
{
    if v.len() - i != word.len() {
        return false;
    }
    let n = v.len();
    let mut k: usize = 0;
    while k < word.len()
        invariant
            n == v@.len(),
            i <= v@.len(),
            v@.len() - i == word@.len(),
            k <= word@.len(),
            forall|q: int| 0 <= q < k ==> same_letter(#[trigger] v@[i + q], word@[q]),
        decreases word@.len() - k,
    {
        let c = v[i + k];
        let (lower, upper) = word[k];
        if c != lower && c != upper {
            return false;
        }
        k = k + 1;
    }
    true
}

fn sign_length(v: &Vec<char>, i: usize) -> (n: usize)
    ensures
        n == sign_len(v@, i as int),
{
    if i < v.len() && (v[i] == '+' || v[i] == '-') {
        1
    } else {
        0
    }
}

fn exponent_at(v: &Vec<char>, i: usize) -> (b: bool)
    requires
        i <= v@.len(),
    ensures
        b == exponent_ok(v@, i as int),
{
    if i == v.len() {
        return true;
    }
    if v[i] != 'e' && v[i] != 'E' {
        return false;
    }
    let j = i + 1 + sign_length(v, i + 1);
    if j > v.len() {
        return false;
    }
    let d = count_digits(v, j);
    d > 0 && j + d == v.len()
}

/// Whether Rust parses `s` as a 64-bit float.
pub fn is_float_text(s: &String) -> (b: bool)
    ensures
        b == valid_float_text(s@),
{
    let v = chars_of(s.as_str());
    let i = sign_length(&v, 0);
    let inf = vec![('i', 'I'), ('n', 'N'), ('f', 'F')];
    let infinity = vec![('i', 'I'), ('n', 'N'), ('f', 'F'), ('i', 'I'), ('n', 'N'), ('i', 'I'), ('t', 'T'), ('y', 'Y')];
    let nan = vec![('n', 'N'), ('a', 'A'), ('n', 'N')];
    proof {
        assert(inf@ =~= word_inf());
        assert(infinity@ =~= word_infinity());
        assert(nan@ =~= word_nan());
    }
    if spells_at(&v, i, &inf) || spells_at(&v, i, &infinity) || spells_at(&v, i, &nan) {
        return true;
    }
    let d1 = count_digits(&v, i);
    let p = i + d1;
    if p < v.len() && v[p] == '.' {
        let d2 = count_digits(&v, p + 1);
        d1 + d2 > 0 && exponent_at(&v, p + 1 + d2)
    } else {
        d1 > 0 && exponent_at(&v, p)
    }
}

/// The message Rust's float parsing gives for text that is not a float.
pub fn float_error_message(s: &String) -> (m: String)
    ensures
        m@ == float_error_text(s@),
{
    if s.as_str().is_empty() {
        String::from_str("cannot parse float from empty string")
    } else {
        String::from_str("invalid float literal")
    }
}

/// The message of the error Rust's UTF-8 validation gives for `bytes`.
pub uninterp spec fn utf8_error_text(bytes: Seq<u8>) -> Seq<char>;

/// Decodes bytes as UTF-8 text with `std::str::from_utf8`: the text when the bytes are valid
/// UTF-8, else the error's message (named by the contract, its characters not stated).
#[verifier::external_body]
pub(crate) fn utf8_text(bytes: &[u8]) -> (r: Result<String, String>)
    ensures
        r is Ok <==> valid_utf8(bytes@),
        r matches Ok(s) ==> s@ == decode_utf8(bytes@),
        r matches Err(m) ==> m@ == utf8_error_text(bytes@),
{
    match std::str::from_utf8(bytes) {
        Ok(s) => Ok(s.to_string()),
        Err(e) => Err(e.to_string()),
    }
}

/// The text `Debug` gives a string: the string in double quotes, with escapes.
pub uninterp spec fn debug_text(s: Seq<char>) -> Seq<char>;

/// Formats a string as `Debug` shows it. The contract names the result without stating
/// its characters.
#[verifier::external_body]
pub(crate) fn debug_str(s: &str) -> (r: String)
    ensures
        r@ == debug_text(s@),
{
    format!("{:?}", s)
}

/// The bytes in decimal, separated by a comma and a space.
pub open spec fn byte_items_text(b: Seq<u8>) -> Seq<char>
    decreases b.len(),
{
    if b.len() == 0 {
        Seq::empty()
    } else if b.len() == 1 {
        decimal_digits(b[0] as nat)
    } else {
        byte_items_text(b.drop_last()) + ", "@ + decimal_digits(b.last() as nat)
    }
}

/// The text `Debug` gives a list of bytes, such as `[1, 22, 255]`.
pub open spec fn byte_list_text(b: Seq<u8>) -> Seq<char> {
    "["@ + byte_items_text(b) + "]"@
}

/// Formats bytes as `Debug` shows a list of bytes.
pub fn debug_bytes(b: &[u8]) -> (r: String)
    ensures
        r@ == byte_list_text(b@),
{
    let mut items = String::new();
    let mut i: usize = 0;
    while i < b.len()
        invariant
            i <= b@.len(),
            items@ == byte_items_text(b@.take(i as int)),
        decreases b@.len() - i,
    {
        let d = decimal_string(b[i] as u64);
        proof {
            assert(b@.take(i + 1).drop_last() =~= b@.take(i as int));
            assert(b@.take(i + 1).last() == b@[i as int]);
        }
        if i > 0 {
            items.append(", ");
        } else {
            assert(items@ =~= Seq::<char>::empty());
        }
        items.append(d.as_str());
        i = i + 1;
        proof {
            if i == 1 {
                assert(items@ =~= decimal_digits(b@[0] as nat));
            }
        }
    }
    proof {
        assert(b@.take(i as int) =~= b@);
    }
    let mut r = String::from_str("[");
    r.append(items.as_str());
    r.append("]");
    r
}

} // verus!
