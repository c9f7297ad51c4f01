//! The year shown on the landing page, written in decimal with at least
//! four digits.

use vstd::prelude::*;

verus! {

/// The decimal digit character for `d`.
pub open spec fn digit_char(d: nat) -> char {
    if d == 0 { '0' }
    else if d == 1 { '1' }
    else if d == 2 { '2' }
    else if d == 3 { '3' }
    else if d == 4 { '4' }
    else if d == 5 { '5' }
    else if d == 6 { '6' }
    else if d == 7 { '7' }
    else if d == 8 { '8' }
    else { '9' }
}

/// The decimal digits of `n`, most significant first, without leading zeros.
pub open spec fn digits_of(n: nat) -> Seq<char>
    decreases n,
{
    if n < 10 {
        seq![digit_char(n)]
    } else {
        digits_of(n / 10).push(digit_char(n % 10))
    }
}

/// `s` with zeros put in front until it has at least four characters.
pub open spec fn pad_four(s: Seq<char>) -> Seq<char> {
    if s.len() < 4 {
        Seq::new((4 - s.len()) as nat, |i: int| '0') + s
    } else {
        s
    }
}

/// The text of year `y`: a minus sign for years before year zero, then the
/// magnitude in decimal with at least four digits.
pub open spec fn year_text_of(y: int) -> Seq<char> {
    if y < 0 {
        seq!['-'] + pad_four(digits_of((-y) as nat))
    } else {
        pad_four(digits_of(y as nat))
    }
}

fn digit_str(d: u64) -> (r: &'static str)
    requires
        d < 10,
    ensures
        r@ == seq![digit_char(d as nat)],
{
    proof {
        reveal_strlit("0");
        reveal_strlit("1");
        reveal_strlit("2");
        reveal_strlit("3");
        reveal_strlit("4");
        reveal_strlit("5");
        reveal_strlit("6");
        reveal_strlit("7");
        reveal_strlit("8");
        reveal_strlit("9");
    }
    if d == 0 { "0" }
    else if d == 1 { "1" }
    else if d == 2 { "2" }
    else if d == 3 { "3" }
    else if d == 4 { "4" }
    else if d == 5 { "5" }
    else if d == 6 { "6" }
    else if d == 7 { "7" }
    else if d == 8 { "8" }
    else { "9" }
}

fn digit_count(n: u64) -> (r: u64)
    ensures
        r as nat == digits_of(n as nat).len(),
        1 <= r <= n as nat + 1,
    decreases n,
{
    if n < 10 {
        1
    } else {
        let k = digit_count(n / 10);
        k + 1
    }
}

fn append_digits(out: &mut String, n: u64)
    ensures
        final(out)@ == old(out)@ + digits_of(n as nat),
    decreases n,
{
    if n >= 10 {
        append_digits(out, n / 10);
    }
    out.append(digit_str(n % 10));
    assert(final(out)@ =~= old(out)@ + digits_of(n as nat));
}

/// The number of digits of `n` is at most `k` when `n` is below ten to the `k`.
proof fn lemma_digits_len_bound(n: nat, k: nat)
    requires
        1 <= k,
        n < pow10(k),
    ensures
        1 <= digits_of(n).len() <= k,
    decreases k,
{
    if n >= 10 {
        assert(k >= 2) by {
            if k == 1 {
                reveal_with_fuel(pow10, 2);
            }
        }
        assert(n / 10 < pow10((k - 1) as nat));
        lemma_digits_len_bound(n / 10, (k - 1) as nat);
    }
}

/// Ten to the power `k`.
pub open spec fn pow10(k: nat) -> nat
    decreases k,
{
    if k == 0 { 1 } else { 10 * pow10((k - 1) as nat) }
}

/// The text of year `year`, as `year_text_of` describes it.
pub fn year_text(year: i32) -> (r: String)
    ensures
        r@ == year_text_of(year as int),
{
    let mut out = String::new();
    let magnitude: u64 = if year < 0 { (-(year as i64)) as u64 } else { year as u64 };
    if year < 0 {
        proof {
            reveal_strlit("-");
        }
        out.append("-");
    }
    let count = digit_count(magnitude);
    let mut i: u64 = count;
    while i < 4
        invariant
            count <= i <= 4 || (count >= 4 && i == count),
            count as nat == digits_of(magnitude as nat).len(),
            out@ == (if year < 0 { seq!['-'] } else { Seq::<char>::empty() }) + Seq::new(
                (i - count) as nat,
                |j: int| '0',
            ),
        decreases 4 - i,
    {
        proof {
            reveal_strlit("0");
        }
        out.append("0");
        i = i + 1;
    }
    append_digits(&mut out, magnitude);
    out
}

/// Every year from 0 to 9999 is written with exactly four digits, and a
/// year from 1000 on is written as its plain decimal digits.
pub proof fn lemma_year_text_four_digits(y: int)
    requires
        0 <= y <= 9999,
    ensures
        year_text_of(y).len() == 4,
        1000 <= y ==> year_text_of(y) == digits_of(y as nat),
        forall|i: int| 0 <= i < 4 ==> is_digit(#[trigger] year_text_of(y)[i]),
{
    assert(pow10(4) == 10000) by {
        reveal_with_fuel(pow10, 5);
    }
    lemma_digits_len_bound(y as nat, 4);
    if 1000 <= y {
        assert(pow10(3) == 1000) by {
            reveal_with_fuel(pow10, 4);
        }
        lemma_digits_len_lower(y as nat, 3);
    }
    lemma_digits_are_digits(y as nat);
}

/// Whether `c` is one of the ten decimal digit characters.
pub open spec fn is_digit(c: char) -> bool {
    '0' <= c && c <= '9'
}

proof fn lemma_digits_are_digits(n: nat)
    ensures
        forall|i: int| 0 <= i < digits_of(n).len() ==> is_digit(#[trigger] digits_of(n)[i]),
    decreases n,
{
    if n >= 10 {
        lemma_digits_are_digits(n / 10);
        assert forall|i: int| 0 <= i < digits_of(n).len() implies is_digit(
            #[trigger] digits_of(n)[i],
        ) by {
            if i < digits_of(n / 10).len() {
                assert(digits_of(n)[i] == digits_of(n / 10)[i]);
            }
        }
    }
}

/// A number of at least ten to the `k` has more than `k` digits.
proof fn lemma_digits_len_lower(n: nat, k: nat)
    requires
        pow10(k) <= n,
    ensures
        k < digits_of(n).len(),
    decreases k,
{
    if k > 0 {
        assert(pow10((k - 1) as nat) <= n / 10);
        lemma_digits_len_lower(n / 10, (k - 1) as nat);
    }
}

} // verus!
