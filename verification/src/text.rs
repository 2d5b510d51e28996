//! Decimal text of integers and the text of calendar dates, as the cache
//! keys spell them, with the facts that keep different keys apart.

use vstd::prelude::*;
use vstd::string::*;

verus! {

/// The character of one decimal digit.
pub open spec fn digit(d: int) -> char {
    if d == 0 {
        '0'
    } else if d == 1 {
        '1'
    } else if d == 2 {
        '2'
    } else if d == 3 {
        '3'
    } else if d == 4 {
        '4'
    } else if d == 5 {
        '5'
    } else if d == 6 {
        '6'
    } else if d == 7 {
        '7'
    } else if d == 8 {
        '8'
    } else {
        '9'
    }
}

/// Whether a character is one of the ten decimal digits.
pub open spec fn is_digit(c: char) -> bool {
    exists|d: int| 0 <= d <= 9 && c == #[trigger] digit(d)
}

/// The decimal digits of a natural number, without leading zeros.
pub open spec fn decimal(n: nat) -> Seq<char>
    decreases n,
{
    if n < 10 {
        seq![digit(n as int)]
    } else {
        decimal(n / 10).push(digit((n % 10) as int))
    }
}

/// The decimal text of an integer: a minus sign for a negative one, then its digits.
pub open spec fn int_text(i: int) -> Seq<char> {
    if i < 0 {
        seq!['-'] + decimal((-i) as nat)
    } else {
        decimal(i as nat)
    }
}

/// A number below one hundred in exactly two digits.
pub open spec fn two_digits(n: int) -> Seq<char> {
    seq![digit(n / 10), digit(n % 10)]
}

/// A number below ten thousand in exactly four digits.
pub open spec fn four_digits(n: int) -> Seq<char> {
    two_digits(n / 100) + two_digits(n % 100)
}

/// The text of a year: four digits from 0 to 9999, else a sign and at least four digits.
pub open spec fn year_text(year: int) -> Seq<char> {
    if 0 <= year <= 9999 {
        four_digits(year)
    } else if year > 9999 {
        seq!['+'] + decimal(year as nat)
    } else if year >= -9999 {
        seq!['-'] + four_digits(-year)
    } else {
        seq!['-'] + decimal((-year) as nat)
    }
}

/// The text of a calendar date: year, month and day, joined by hyphens.
pub open spec fn date_text(year: int, month: int, day: int) -> Seq<char> {
    year_text(year) + seq!['-'] + two_digits(month) + seq!['-'] + two_digits(day)
}

/// Whether `text` begins with `prefix`.
pub open spec fn starts_with(text: Seq<char>, prefix: Seq<char>) -> bool {
    prefix.len() <= text.len() && text.subrange(0, prefix.len() as int) == prefix
}

/// Whether no character of `text` is an underscore.
pub open spec fn no_underscore(text: Seq<char>) -> bool {
    forall|i: int| 0 <= i < text.len() ==> text[i] != '_'
}

/// Different digits have different characters.
pub proof fn lemma_digit_injective(a: int, b: int)
    requires
        0 <= a <= 9,
        0 <= b <= 9,
        digit(a) == digit(b),
    ensures
        a == b,
{
}

/// The digits of a number are digits, at least one of them, and two or more from ten on.
pub proof fn lemma_decimal_shape(n: nat)
    ensures
        decimal(n).len() >= 1,
        n >= 10 ==> decimal(n).len() >= 2,
        n >= 10000 ==> decimal(n).len() >= 5,
        forall|i: int| 0 <= i < decimal(n).len() ==> is_digit(#[trigger] decimal(n)[i]),
    decreases n,
{
    if n < 10 {
        assert(decimal(n)[0] == digit(n as int));
    } else {
        lemma_decimal_shape(n / 10);
        if n >= 10000 {
            lemma_decimal_shape(n / 10 / 10);
            lemma_decimal_shape(n / 10 / 10 / 10);
            lemma_decimal_shape(n / 10 / 10 / 10 / 10);
        }
        let head = decimal(n / 10);
        assert forall|i: int| 0 <= i < decimal(n).len() implies is_digit(
            #[trigger] decimal(n)[i],
        ) by {
            if i < head.len() {
                assert(decimal(n)[i] == head[i]);
            } else {
                assert(decimal(n)[i] == digit((n % 10) as int));
            }
        }
    }
}

/// Different numbers have different digits.
pub proof fn lemma_decimal_injective(a: nat, b: nat)
    requires
        decimal(a) == decimal(b),
    ensures
        a == b,
    decreases a,
{
    lemma_decimal_shape(a);
    lemma_decimal_shape(b);
    if a < 10 {
        assert(decimal(a)[0] == digit(a as int));
        assert(decimal(b)[0] == digit(b as int));
        lemma_digit_injective(a as int, b as int);
    } else {
        let head_a = decimal(a / 10);
        let head_b = decimal(b / 10);
        assert(decimal(a).last() == digit((a % 10) as int));
        assert(decimal(b).last() == digit((b % 10) as int));
        lemma_digit_injective((a % 10) as int, (b % 10) as int);
        assert(decimal(a).drop_last() =~= head_a);
        assert(decimal(b).drop_last() =~= head_b);
        lemma_decimal_injective(a / 10, b / 10);
    }
}

/// Different integers have different decimal texts.
pub proof fn lemma_int_text_injective(a: int, b: int)
    requires
        int_text(a) == int_text(b),
    ensures
        a == b,
{
    lemma_decimal_shape(if a < 0 { (-a) as nat } else { a as nat });
    lemma_decimal_shape(if b < 0 { (-b) as nat } else { b as nat });
    if a < 0 && b < 0 {
        let da = decimal((-a) as nat);
        let db = decimal((-b) as nat);
        assert(da =~= int_text(a).subrange(1, int_text(a).len() as int));
        assert(db =~= int_text(b).subrange(1, int_text(b).len() as int));
        lemma_decimal_injective((-a) as nat, (-b) as nat);
    } else if a >= 0 && b >= 0 {
        lemma_decimal_injective(a as nat, b as nat);
    } else if a < 0 {
        assert(int_text(a)[0] == '-');
        assert(is_digit(decimal(b as nat)[0]));
    } else {
        assert(int_text(b)[0] == '-');
        assert(is_digit(decimal(a as nat)[0]));
    }
}

/// Two digits spell one number below one hundred only.
pub proof fn lemma_two_digits_injective(a: int, b: int)
    requires
        0 <= a <= 99,
        0 <= b <= 99,
        two_digits(a) == two_digits(b),
    ensures
        a == b,
{
    assert(two_digits(a)[0] == digit(a / 10));
    assert(two_digits(b)[0] == digit(b / 10));
    assert(two_digits(a)[1] == digit(a % 10));
    assert(two_digits(b)[1] == digit(b % 10));
    lemma_digit_injective(a / 10, b / 10);
    lemma_digit_injective(a % 10, b % 10);
}

/// Four digits spell one number below ten thousand only.
pub proof fn lemma_four_digits_injective(a: int, b: int)
    requires
        0 <= a <= 9999,
        0 <= b <= 9999,
        four_digits(a) == four_digits(b),
    ensures
        a == b,
{
    assert(two_digits(a / 100) =~= four_digits(a).subrange(0, 2));
    assert(two_digits(b / 100) =~= four_digits(b).subrange(0, 2));
    assert(two_digits(a % 100) =~= four_digits(a).subrange(2, 4));
    assert(two_digits(b % 100) =~= four_digits(b).subrange(2, 4));
    lemma_two_digits_injective(a / 100, b / 100);
    lemma_two_digits_injective(a % 100, b % 100);
}

/// The text of a year has at least four characters; the first is a sign or a
/// digit, the others are digits.
pub proof fn lemma_year_text_shape(year: int)
    ensures
        year_text(year).len() >= 4,
        0 <= year <= 9999 ==> year_text(year).len() == 4,
        -9999 <= year < 0 ==> year_text(year).len() == 5,
        year > 9999 || year < -9999 ==> year_text(year).len() >= 6,
        0 <= year <= 9999 ==> is_digit(year_text(year)[0]),
        year > 9999 ==> year_text(year)[0] == '+',
        year < 0 ==> year_text(year)[0] == '-',
        forall|i: int| 1 <= i < year_text(year).len() ==> is_digit(#[trigger] year_text(year)[i]),
{
    let text = year_text(year);
    if 0 <= year <= 9999 {
        assert(text[0] == digit(year / 100 / 10));
        assert(text[1] == digit(year / 100 % 10));
        assert(text[2] == digit(year % 100 / 10));
        assert(text[3] == digit(year % 100 % 10));
    } else if year > 9999 {
        lemma_decimal_shape(year as nat);
        assert forall|i: int| 1 <= i < text.len() implies is_digit(#[trigger] text[i]) by {
            assert(text[i] == decimal(year as nat)[i - 1]);
        }
    } else if year >= -9999 {
        let n = -year;
        assert(text[1] == digit(n / 100 / 10));
        assert(text[2] == digit(n / 100 % 10));
        assert(text[3] == digit(n % 100 / 10));
        assert(text[4] == digit(n % 100 % 10));
    } else {
        lemma_decimal_shape((-year) as nat);
        assert forall|i: int| 1 <= i < text.len() implies is_digit(#[trigger] text[i]) by {
            assert(text[i] == decimal((-year) as nat)[i - 1]);
        }
    }
}

/// Different years have different texts.
pub proof fn lemma_year_text_injective(a: int, b: int)
    requires
        year_text(a) == year_text(b),
    ensures
        a == b,
{
    lemma_year_text_shape(a);
    lemma_year_text_shape(b);
    let text = year_text(a);
    if 0 <= a <= 9999 {
        assert(0 <= b <= 9999);
        lemma_four_digits_injective(a, b);
    } else if a > 9999 {
        assert(b > 9999);
        assert(decimal(a as nat) =~= text.subrange(1, text.len() as int));
        assert(decimal(b as nat) =~= text.subrange(1, text.len() as int));
        lemma_decimal_injective(a as nat, b as nat);
    } else if a >= -9999 {
        assert(-9999 <= b < 0);
        assert(four_digits(-a) =~= text.subrange(1, 5));
        assert(four_digits(-b) =~= text.subrange(1, 5));
        lemma_four_digits_injective(-a, -b);
    } else {
        assert(b < -9999);
        assert(decimal((-a) as nat) =~= text.subrange(1, text.len() as int));
        assert(decimal((-b) as nat) =~= text.subrange(1, text.len() as int));
        lemma_decimal_injective((-a) as nat, (-b) as nat);
    }
}

/// The text of a date holds no underscore and at least ten characters.
pub proof fn lemma_date_text_no_underscore(year: int, month: int, day: int)
    ensures
        no_underscore(date_text(year, month, day)),
        date_text(year, month, day).len() == year_text(year).len() + 6,
{
    lemma_year_text_shape(year);
    let head = year_text(year);
    let text = date_text(year, month, day);
    let n = head.len() as int;
    assert forall|i: int| 0 <= i < text.len() implies text[i] != '_' by {
        if i < n {
            assert(text[i] == head[i]);
            if i >= 1 {
                assert(is_digit(head[i]));
            }
        } else if i == n {
            assert(text[i] == '-');
        } else if i == n + 1 {
            assert(text[i] == digit(month / 10));
        } else if i == n + 2 {
            assert(text[i] == digit(month % 10));
        } else if i == n + 3 {
            assert(text[i] == '-');
        } else if i == n + 4 {
            assert(text[i] == digit(day / 10));
        } else {
            assert(text[i] == digit(day % 10));
        }
    }
}

/// Different dates have different texts.
pub proof fn lemma_date_text_injective(
    year_a: int,
    month_a: int,
    day_a: int,
    year_b: int,
    month_b: int,
    day_b: int,
)
    requires
        0 <= month_a <= 99,
        0 <= day_a <= 99,
        0 <= month_b <= 99,
        0 <= day_b <= 99,
        date_text(year_a, month_a, day_a) == date_text(year_b, month_b, day_b),
    ensures
        year_a == year_b,
        month_a == month_b,
        day_a == day_b,
{
    lemma_date_text_no_underscore(year_a, month_a, day_a);
    lemma_date_text_no_underscore(year_b, month_b, day_b);
    let text = date_text(year_a, month_a, day_a);
    let n = year_text(year_a).len() as int;
    assert(year_text(year_b).len() == n);
    assert(year_text(year_a) =~= text.subrange(0, n));
    assert(year_text(year_b) =~= text.subrange(0, n));
    lemma_year_text_injective(year_a, year_b);
    assert(two_digits(month_a) =~= text.subrange(n + 1, n + 3));
    assert(two_digits(month_b) =~= text.subrange(n + 1, n + 3));
    lemma_two_digits_injective(month_a, month_b);
    assert(two_digits(day_a) =~= text.subrange(n + 4, n + 6));
    assert(two_digits(day_b) =~= text.subrange(n + 4, n + 6));
    lemma_two_digits_injective(day_a, day_b);
}

/// A text without underscores, an underscore and a rest: the whole is cut
/// in one way only.
pub proof fn lemma_underscore_split(
    head_a: Seq<char>,
    rest_a: Seq<char>,
    head_b: Seq<char>,
    rest_b: Seq<char>,
)
    requires
        no_underscore(head_a),
        no_underscore(head_b),
        head_a + seq!['_'] + rest_a == head_b + seq!['_'] + rest_b,
    ensures
        head_a == head_b,
        rest_a == rest_b,
{
    let whole = head_a + seq!['_'] + rest_a;
    let other = head_b + seq!['_'] + rest_b;
    let a = head_a.len() as int;
    let b = head_b.len() as int;
    assert(whole[a] == '_');
    assert(other[b] == '_');
    if a < b {
        assert(other[a] == head_b[a]);
    } else if b < a {
        assert(whole[b] == head_a[b]);
    }
    assert(head_a =~= whole.subrange(0, a));
    assert(head_b =~= other.subrange(0, b));
    assert(rest_a =~= whole.subrange(a + 1, whole.len() as int));
    assert(rest_b =~= other.subrange(b + 1, other.len() as int));
}

/// The text of one decimal digit.
fn digit_str(d: u64) -> (text: &'static str)
    requires
        d <= 9,
    ensures
        text@ == seq![digit(d as int)],
{
    proof {
        reveal_strlit("0");
        reveal_strlit("1");
        reveal_strlit("2");
        reveal_strlit("3");
        reveal_strlit("4");
        reveal_strlit("5");
        reveal_strlit("6");
        reveal_strlit("7");
        reveal_strlit("8");
        reveal_strlit("9");
    }
    let text = if d == 0 {
        "0"
    } else if d == 1 {
        "1"
    } else if d == 2 {
        "2"
    } else if d == 3 {
        "3"
    } else if d == 4 {
        "4"
    } else if d == 5 {
        "5"
    } else if d == 6 {
        "6"
    } else if d == 7 {
        "7"
    } else if d == 8 {
        "8"
    } else {
        "9"
    };
    assert(text@ =~= seq![digit(d as int)]);
    text
}

/// Appends the decimal digits of `n` to `out`.
fn push_decimal(out: &mut String, n: u64)
    ensures
        final(out)@ == old(out)@ + decimal(n as nat),
    decreases n,
{
    if n >= 10 {
        push_decimal(out, n / 10);
    }
    out.append(digit_str(n % 10));
    assert(out@ =~= old(out)@ + decimal(n as nat));
}

/// The decimal text of an integer.
pub fn int_to_text(i: i64) -> (text: String)
    ensures
        text@ == int_text(i as int),
{
    let mut text = String::new();
    if i < 0 {
        proof {
            reveal_strlit("-");
        }
        text.append("-");
        let magnitude: u64 = ((-(i + 1)) as u64) + 1;
        push_decimal(&mut text, magnitude);
        assert(text@ =~= int_text(i as int));
    } else {
        push_decimal(&mut text, i as u64);
        assert(text@ =~= int_text(i as int));
    }
    text
}

/// Whether `text` begins with `prefix`.
pub fn text_starts_with(text: &str, prefix: &str) -> (found: bool)
    ensures
        found == starts_with(text@, prefix@),
{
    let text_len = text.unicode_len();
    let prefix_len = prefix.unicode_len();
    if prefix_len > text_len {
        return false;
    }
    crate::types::same_text(text.substring_char(0, prefix_len), prefix)
}

} // verus!
