//! Numbers as the upstream writes them: whole numbers in decimal digits,
//! and ratings with a fraction, kept in thousandths.

use vstd::prelude::*;
use vstd::string::StringExecFns;

verus! {

/// Whether the character is one of the ten decimal digits.
pub open spec fn is_digit(c: char) -> bool {
    '0' <= c <= '9'
}

/// The number that a decimal digit stands for.
pub open spec fn digit(c: char) -> int {
    c as int - '0' as int
}

/// Whether every character of the text is a decimal digit.
pub open spec fn all_digits(s: Seq<char>) -> bool {
    forall|i: int| 0 <= i < s.len() ==> is_digit(#[trigger] s[i])
}

/// The number that a text of decimal digits stands for; zero for no digit.
pub open spec fn decimal(s: Seq<char>) -> int
    decreases s.len(),
{
    if s.len() == 0 {
        0
    } else {
        decimal(s.drop_last()) * 10 + digit(s.last())
    }
}

/// The digit at a place of the text, and zero where the text has ended.
pub open spec fn digit_at(s: Seq<char>, i: int) -> int {
    if 0 <= i < s.len() {
        digit(s[i])
    } else {
        0
    }
}

/// The thousandths that the digits after a decimal point stand for; digits
/// beyond the third are dropped.
pub open spec fn thousandths(s: Seq<char>) -> int {
    digit_at(s, 0) * 100 + digit_at(s, 1) * 10 + digit_at(s, 2)
}

/// Whether the text begins with a sign.
pub open spec fn signed(s: Seq<char>) -> bool {
    s.len() > 0 && (s[0] == '-' || s[0] == '+')
}

/// The text without its sign.
pub open spec fn unsigned(s: Seq<char>) -> Seq<char> {
    if signed(s) {
        s.skip(1)
    } else {
        s
    }
}

/// A number with the sign that the text begins with.
pub open spec fn with_sign(s: Seq<char>, n: int) -> int {
    if s.len() > 0 && s[0] == '-' {
        -n
    } else {
        n
    }
}

/// A number, where it is one that sixty-four bits hold.
pub open spec fn fitting(n: int) -> Option<i64> {
    if i64::MIN <= n <= i64::MAX {
        Some(n as i64)
    } else {
        None
    }
}

/// The whole number that a text stands for: an optional sign, then one
/// decimal digit or more, and nothing else; none where the text is
/// anything else or the number lies outside sixty-four bits.
pub open spec fn int_of(s: Seq<char>) -> Option<i64> {
    let body = unsigned(s);
    if body.len() > 0 && all_digits(body) {
        fitting(with_sign(s, decimal(body)))
    } else {
        None
    }
}

/// Whether the text has its decimal point at `i`: only digits before it,
/// only digits after it, and a digit on one side at least.
pub open spec fn point_at(s: Seq<char>, i: int) -> bool {
    &&& 0 <= i < s.len()
    &&& s[i] == '.'
    &&& s.len() > 1
    &&& all_digits(s.take(i))
    &&& all_digits(s.skip(i + 1))
}

/// The rating that a text stands for, in thousandths: an optional sign,
/// then decimal digits with at most one decimal point among them, and
/// nothing else; none where the text is anything else or the thousandths
/// lie outside sixty-four bits. An exponent is something else: `1e1`
/// stands for no rating. Digits beyond the third behind the point are cut.
pub open spec fn rating_of(s: Seq<char>) -> Option<i64> {
    let body = unsigned(s);
    if body.len() > 0 && all_digits(body) {
        fitting(with_sign(s, decimal(body) * 1000))
    } else if exists|i: int| point_at(body, i) {
        let i = choose|i: int| point_at(body, i);
        fitting(with_sign(s, decimal(body.take(i)) * 1000 + thousandths(body.skip(i + 1))))
    } else {
        None
    }
}

/// A text of digits stands for no less than any of its beginnings.
pub proof fn lemma_decimal_grows(s: Seq<char>, k: int)
    requires
        all_digits(s),
        0 <= k <= s.len(),
    ensures
        0 <= decimal(s.take(k)) <= decimal(s),
    decreases s.len(),
{
    if k == s.len() {
        assert(s.take(k) =~= s);
        if s.len() > 0 {
            assert(all_digits(s.drop_last())) by {
                assert forall|i: int| 0 <= i < s.drop_last().len() implies is_digit(
                    #[trigger] s.drop_last()[i],
                ) by {
                    assert(s.drop_last()[i] == s[i]);
                }
            }
            lemma_decimal_grows(s.drop_last(), k - 1);
            assert(is_digit(s[s.len() - 1]));
        }
    } else {
        let front = s.drop_last();
        assert(all_digits(front)) by {
            assert forall|i: int| 0 <= i < front.len() implies is_digit(#[trigger] front[i]) by {
                assert(front[i] == s[i]);
            }
        }
        assert(front.take(k) =~= s.take(k));
        lemma_decimal_grows(front, k);
        lemma_decimal_grows(front, front.len() as int);
        assert(is_digit(s[s.len() - 1]));
    }
}

/// A text has its decimal point at one place at most.
pub proof fn lemma_point_unique(s: Seq<char>, i: int, j: int)
    requires
        point_at(s, i),
        point_at(s, j),
    ensures
        i == j,
{
    if i < j {
        assert(s.take(j)[i] == s[i]);
        assert(is_digit(s.take(j)[i]));
    } else if j < i {
        assert(s.take(i)[j] == s[j]);
        assert(is_digit(s.take(i)[j]));
    }
}

/// The number that a decimal digit stands for, and none for another character.
fn digit_of(c: char) -> (r: Option<u8>)
    ensures
        match r {
            Some(d) => is_digit(c) && d == digit(c),
            None => !is_digit(c),
        },
{
    if '0' <= c && c <= '9' {
        Some(((c as u32) - ('0' as u32)) as u8)
    } else {
        None
    }
}

/// Where the digits of a text begin: behind the sign, if it has one.
fn body_start(text: &str, len: usize) -> (start: usize)
    requires
        len == text@.len(),
    ensures
        start == if signed(text@) { 1int } else { 0int },
        unsigned(text@) == text@.skip(start as int),
        start <= len,
{
    if len == 0 {
        assert(text@.skip(0) =~= text@);
        0
    } else {
        let c: char = text.get_char(0);
        if c == '-' || c == '+' {
            1
        } else {
            assert(text@.skip(0) =~= text@);
            0
        }
    }
}

/// The magnitude, with the sign that the text begins with, where sixty-four bits hold it.
fn finish(text: &str, len: usize, magnitude: i128) -> (r: Option<i64>)
    requires
        len == text@.len(),
        0 <= magnitude <= 0x7fff_ffff_ffff_ffff_ffff_ffff_ffff,
    ensures
        r == fitting(with_sign(text@, magnitude as int)),
{
    let negative: bool = len > 0 && text.get_char(0) == '-';
    let value: i128 = if negative { -magnitude } else { magnitude };
    if value < i64::MIN as i128 || value > i64::MAX as i128 {
        None
    } else {
        Some(value as i64)
    }
}

/// The bound that a magnitude is held under while its digits are read.
pub const LIMIT: i128 = 0x8000_0000_0000_0000;

/// The whole number that `text` stands for.
pub fn parse_int(text: &str) -> (r: Option<i64>)
    ensures
        r == int_of(text@),
{
    let len: usize = text.unicode_len();
    let start: usize = body_start(text, len);
    let ghost body = unsigned(text@);
    if start == len {
        return None;
    }
    let mut i: usize = start;
    let mut acc: i128 = 0;
    assert(body.take(0) =~= Seq::<char>::empty());
    while i < len
        invariant
            start <= i <= len,
            len == text@.len(),
            body == text@.skip(start as int),
            body == unsigned(text@),
            all_digits(body.take(i - start)),
            acc == decimal(body.take(i - start)),
            0 <= acc <= LIMIT,
        decreases len - i,
    {
        let c: char = text.get_char(i);
        assert(body[i - start] == c);
        let d: u8 = match digit_of(c) {
            None => {
                assert(!is_digit(body[i - start]));
                return None;
            },
            Some(d) => d,
        };
        proof {
            let next = body.take(i - start + 1);
            assert(next.drop_last() =~= body.take(i - start));
            assert(next.last() == c);
            assert forall|j: int| 0 <= j < next.len() implies is_digit(#[trigger] next[j]) by {
                if j < i - start {
                    assert(next[j] == body.take(i - start)[j]);
                }
            }
        }
        acc = acc * 10 + d as i128;
        if acc > LIMIT {
            proof {
                if all_digits(body) {
                    lemma_decimal_grows(body, i - start + 1);
                }
            }
            return None;
        }
        i += 1;
    }
    assert(body.take(i - start) =~= body);
    finish(text, len, acc)
}

/// The rating that `text` stands for, in thousandths.
pub fn parse_rating(text: &str) -> (r: Option<i64>)
    ensures
        r == rating_of(text@),
{
    let len: usize = text.unicode_len();
    let start: usize = body_start(text, len);
    let ghost body = unsigned(text@);
    if start == len {
        assert(body.len() == 0);
        assert(forall|k: int| !point_at(body, k));
        return None;
    }
    let mut i: usize = start;
    let mut acc: i128 = 0;
    let mut at_point: bool = false;
    assert(body.take(0) =~= Seq::<char>::empty());
    while i < len && !at_point
        invariant
            start <= i <= len,
            len == text@.len(),
            body == text@.skip(start as int),
            body == unsigned(text@),
            body.len() > 0,
            all_digits(body.take(i - start)),
            acc == decimal(body.take(i - start)),
            0 <= acc <= LIMIT,
            at_point ==> i < len && body[i - start] == '.',
        decreases len - i + if at_point { 0int } else { 1int },
    {
        let c: char = text.get_char(i);
        assert(body[i - start] == c);
        if c == '.' {
            at_point = true;
        } else {
            let d: u8 = match digit_of(c) {
                None => {
                    proof {
                        lemma_no_rating(body, i - start);
                    }
                    return None;
                },
                Some(d) => d,
            };
            proof {
                let next = body.take(i - start + 1);
                assert(next.drop_last() =~= body.take(i - start));
                assert(next.last() == c);
                assert forall|j: int| 0 <= j < next.len() implies is_digit(#[trigger] next[j]) by {
                    if j < i - start {
                        assert(next[j] == body.take(i - start)[j]);
                    }
                }
            }
            acc = acc * 10 + d as i128;
            if acc > LIMIT {
                proof {
                    lemma_too_large(text@, body, i - start + 1);
                }
                return None;
            }
            i += 1;
        }
    }
    if !at_point {
        assert(body.take(i - start) =~= body);
        return finish(text, len, acc * 1000);
    }
    let ghost point: int = i - start;
    let ghost tail = body.skip(point + 1);
    if len - start == 1 {
        proof {
            assert forall|k: int| !point_at(body, k) by {}
            assert(!is_digit(body[0]));
        }
        return None;
    }
    let mut j: usize = i + 1;
    let mut fraction: i128 = 0;
    assert(tail.take(0) =~= Seq::<char>::empty());
    while j < len
        invariant
            i < j <= len,
            start <= i,
            len == text@.len(),
            body == text@.skip(start as int),
            body == unsigned(text@),
            point == i - start,
            tail == body.skip(point + 1),
            body[point] == '.',
            all_digits(body.take(point)),
            all_digits(tail.take(j - i - 1)),
            fraction == digit_at(tail.take(j - i - 1), 0) * 100 + digit_at(tail.take(j - i - 1), 1) * 10
                + digit_at(tail.take(j - i - 1), 2),
            0 <= fraction <= 999,
        decreases len - j,
    {
        let c: char = text.get_char(j);
        assert(tail[j - i - 1] == c);
        let d: u8 = match digit_of(c) {
            None => {
                proof {
                    assert forall|k: int| !point_at(body, k) by {
                        if point_at(body, k) {
                            if k < point {
                                assert(body.take(point)[k] == body[k]);
                            } else if k > point {
                                assert(body.take(k)[point] == body[point]);
                            } else {
                                assert(!is_digit(tail[j - i - 1]));
                            }
                        }
                    }
                    assert(!is_digit(body[point]));
                }
                return None;
            },
            Some(d) => d,
        };
        proof {
            let next = tail.take(j - i);
            assert forall|k: int| 0 <= k < next.len() implies is_digit(#[trigger] next[k]) by {
                if k < j - i - 1 {
                    assert(next[k] == tail.take(j - i - 1)[k]);
                }
            }
        }
        let place: usize = j - i - 1;
        if place == 0 {
            fraction = fraction + d as i128 * 100;
        } else if place == 1 {
            fraction = fraction + d as i128 * 10;
        } else if place == 2 {
            fraction = fraction + d as i128;
        }
        j += 1;
    }
    proof {
        assert(tail.take(j - i - 1) =~= tail);
        assert(point_at(body, point));
        let k = choose|k: int| point_at(body, k);
        lemma_point_unique(body, k, point);
        assert(!is_digit(body[point]));
    }
    finish(text, len, acc * 1000 + fraction)
}

/// A text with a character that is neither a digit nor a decimal point,
/// behind digits alone, stands for no rating.
proof fn lemma_no_rating(body: Seq<char>, at: int)
    requires
        0 <= at < body.len(),
        all_digits(body.take(at)),
        !is_digit(body[at]),
        body[at] != '.',
    ensures
        !all_digits(body),
        forall|k: int| !point_at(body, k),
{
    assert forall|k: int| !point_at(body, k) by {
        if point_at(body, k) {
            if k < at {
                assert(body.take(at)[k] == body[k]);
            } else if k > at {
                assert(body.take(k)[at] == body[at]);
            }
        }
    }
}

/// A text whose leading digits alone exceed the bound stands for no rating.
proof fn lemma_too_large(s: Seq<char>, body: Seq<char>, n: int)
    requires
        body == unsigned(s),
        0 < n <= body.len(),
        all_digits(body.take(n)),
        decimal(body.take(n)) > LIMIT,
    ensures
        rating_of(s) is None,
{
    if all_digits(body) {
        lemma_decimal_grows(body, n);
    } else if exists|i: int| point_at(body, i) {
        let i = choose|i: int| point_at(body, i);
        if i < n {
            assert(body.take(n)[i] == body[i]);
        }
        assert(body.take(i).take(n) =~= body.take(n));
        lemma_decimal_grows(body.take(i), n);
        let tail = body.skip(i + 1);
        assert(0 <= thousandths(tail)) by {
            if tail.len() > 0 {
                assert(is_digit(tail[0]));
            }
            if tail.len() > 1 {
                assert(is_digit(tail[1]));
            }
            if tail.len() > 2 {
                assert(is_digit(tail[2]));
            }
        }
    }
}

/// The decimal digit for a number below ten.
pub open spec fn digit_char(n: int) -> char {
    if n == 0 {
        '0'
    } else if n == 1 {
        '1'
    } else if n == 2 {
        '2'
    } else if n == 3 {
        '3'
    } else if n == 4 {
        '4'
    } else if n == 5 {
        '5'
    } else if n == 6 {
        '6'
    } else if n == 7 {
        '7'
    } else if n == 8 {
        '8'
    } else {
        '9'
    }
}

/// The decimal digits of a natural number, without leading zeros.
pub open spec fn digits_text(n: nat) -> Seq<char>
    decreases n,
{
    if n < 10 {
        seq![digit_char(n as int)]
    } else {
        digits_text(n / 10).push(digit_char((n % 10) as int))
    }
}

/// A whole number as a text: its digits, behind a minus sign where it is negative.
pub open spec fn int_text(n: int) -> Seq<char> {
    if n < 0 {
        seq!['-'] + digits_text((-n) as nat)
    } else {
        digits_text(n as nat)
    }
}

/// The digits of a number are digits, one at least, and stand for the number.
pub proof fn lemma_digits_text(n: nat)
    ensures
        digits_text(n).len() > 0,
        all_digits(digits_text(n)),
        decimal(digits_text(n)) == n,
    decreases n,
{
    let text = digits_text(n);
    if n < 10 {
        assert(text.drop_last() =~= Seq::<char>::empty());
        assert(decimal(text.drop_last()) == 0);
        assert(is_digit(text[0]));
    } else {
        lemma_digits_text(n / 10);
        let front = digits_text(n / 10);
        assert(text.drop_last() =~= front);
        assert forall|i: int| 0 <= i < text.len() implies is_digit(#[trigger] text[i]) by {
            if i < front.len() {
                assert(text[i] == front[i]);
            }
        }
    }
}

/// Writing and reading agree: the text that a whole number is written as
/// stands for that number.
pub proof fn lemma_written_is_read(n: i64)
    ensures
        int_of(int_text(n as int)) == Some(n),
{
    let text = int_text(n as int);
    if n < 0 {
        let digits = digits_text((-n) as nat);
        lemma_digits_text((-n) as nat);
        assert(text[0] == '-');
        assert(unsigned(text) =~= digits);
    } else {
        lemma_digits_text(n as nat);
        assert(is_digit(text[0]));
    }
}

/// Digits that were taken off a number from its low end, as the text that they end.
pub open spec fn low_digits(taken: Seq<u8>) -> Seq<char> {
    Seq::new(taken.len(), |i: int| digit_char(taken[taken.len() - 1 - i] as int))
}

/// The one-letter text of a decimal digit.
fn digit_text(d: u8) -> (r: &'static str)
    requires
        d < 10,
    ensures
        r@ == seq![digit_char(d as int)],
{
    proof {
        reveal_strlit("0");
        reveal_strlit("1");
        reveal_strlit("2");
        reveal_strlit("3");
        reveal_strlit("4");
        reveal_strlit("5");
        reveal_strlit("6");
        reveal_strlit("7");
        reveal_strlit("8");
        reveal_strlit("9");
    }
    let r: &'static str = if d == 0 {
        "0"
    } else if d == 1 {
        "1"
    } else if d == 2 {
        "2"
    } else if d == 3 {
        "3"
    } else if d == 4 {
        "4"
    } else if d == 5 {
        "5"
    } else if d == 6 {
        "6"
    } else if d == 7 {
        "7"
    } else if d == 8 {
        "8"
    } else {
        "9"
    };
    assert(r@ =~= seq![digit_char(d as int)]);
    r
}

/// A whole number as a text.
pub fn write_int(n: i64) -> (r: String)
    ensures
        r@ == int_text(n as int),
{
    let magnitude: u64 = if n < 0 { ((-(n as i128)) as u64) } else { n as u64 };
    let mut taken: Vec<u8> = Vec::new();
    taken.push((magnitude % 10) as u8);
    let mut rest: u64 = magnitude / 10;
    assert(digits_text(magnitude as nat) =~= (if rest > 0 {
        digits_text(rest as nat)
    } else {
        Seq::<char>::empty()
    }) + low_digits(taken@));
    while rest > 0
        invariant
            taken@.len() > 0,
            forall|i: int| 0 <= i < taken@.len() ==> (#[trigger] taken@[i]) < 10,
            digits_text(magnitude as nat) == (if rest > 0 {
                digits_text(rest as nat)
            } else {
                Seq::<char>::empty()
            }) + low_digits(taken@),
        decreases rest,
    {
        let ghost before = taken@;
        let d: u8 = (rest % 10) as u8;
        taken.push(d);
        let next: u64 = rest / 10;
        assert((if next > 0 {
            digits_text(next as nat)
        } else {
            Seq::<char>::empty()
        }) + low_digits(taken@) =~= digits_text(rest as nat) + low_digits(before));
        rest = next;
    }
    let mut out: String = String::new();
    if n < 0 {
        proof {
            reveal_strlit("-");
        }
        out.append("-");
        assert(out@ =~= seq!['-']);
    }
    let ghost sign = out@;
    let mut k: usize = taken.len();
    while k > 0
        invariant
            k <= taken@.len(),
            forall|i: int| 0 <= i < taken@.len() ==> (#[trigger] taken@[i]) < 10,
            out@ == sign + low_digits(taken@).take(taken@.len() - k),
        decreases k,
    {
        k -= 1;
        out.append(digit_text(taken[k]));
        assert(out@ =~= sign + low_digits(taken@).take(taken@.len() - k));
    }
    assert(low_digits(taken@).take(taken@.len() as int) =~= low_digits(taken@));
    assert(sign + low_digits(taken@) =~= int_text(n as int));
    out
}

} // verus!
