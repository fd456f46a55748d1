use vstd::prelude::*;

verus! {

/// Relies on `String::push`: appends one character to the end of the string.
#[verifier::external_body]
pub(crate) fn push_char(s: &mut String, c: char)
    ensures
        final(s)@ == old(s)@.push(c),
{
    s.push(c);
}

/// Appends the characters of `t` to `s`.
pub(crate) fn push_str(s: &mut String, t: &str)
    ensures
        final(s)@ == old(s)@ + t@,
{
    s.append(t);
}

/// A string holding the characters of `s`.
pub(crate) fn text_of(s: &str) -> (r: String)
    ensures
        r@ == s@,
{
    let mut r = String::new();
    push_str(&mut r, s);
    assert(r@ =~= s@);
    r
}

/// The character of a decimal digit.
pub open spec fn digit_char(d: nat) -> char
    recommends
        d < 10,
{
    ((d + 48) as u8) as char
}

/// The decimal text of a natural number, without leading zeros.
pub open spec fn decimal(n: nat) -> Seq<char>
    decreases n,
{
    if n < 10 {
        seq![digit_char(n)]
    } else {
        decimal(n / 10).push(digit_char(n % 10))
    }
}

/// Writes a natural number in decimal.
pub fn decimal_string(n: u32) -> (r: String)
    ensures
        r@ == decimal(n as nat),
{
    // Digits from the least significant one.
    let mut digits: Vec<char> = Vec::new();
    let mut m: u32 = n;
    assert(pow10(0) == 1);
    assert(decimal(n as nat) =~= decimal(m as nat) + rev_digits(n as nat, 0));
    while m >= 10
        invariant
            forall|k: int|
                0 <= k < digits@.len() ==> #[trigger] digits@[k] == digit_char(
                    ((n as nat / pow10(k as nat)) % 10) as nat,
                ),
            m as nat == n as nat / pow10(digits@.len()),
            decimal(n as nat) == decimal(m as nat) + rev_digits(n as nat, digits@.len()),
        decreases m,
    {
        let d = m % 10;
        proof {
            lemma_pow10_step(n as nat, digits@.len());
            lemma_decimal_split(n as nat, m as nat, digits@.len());
        }
        digits.push(((d + 48) as u8) as char);
        m = m / 10;
    }
    let mut r = String::new();
    push_char(&mut r, ((m + 48) as u8) as char);
    assert(decimal(m as nat) =~= r@);
    let mut i: usize = digits.len();
    while i > 0
        invariant
            i <= digits@.len(),
            forall|k: int|
                0 <= k < digits@.len() ==> #[trigger] digits@[k] == digit_char(
                    ((n as nat / pow10(k as nat)) % 10) as nat,
                ),
            decimal(n as nat) == r@ + rev_digits(n as nat, i as nat),
        decreases i,
    {
        i = i - 1;
        let ghost before = r@;
        proof {
            lemma_rev_digits_peel(n as nat, i as nat);
        }
        push_char(&mut r, digits[i]);
        assert(before + rev_digits(n as nat, (i + 1) as nat) =~= r@ + rev_digits(n as nat, i as nat));
    }
    r
}

/// `10` to the power `k`.
pub open spec fn pow10(k: nat) -> nat
    decreases k,
{
    if k == 0 {
        1
    } else {
        10 * pow10((k - 1) as nat)
    }
}

/// The `k` lowest decimal digits of `n`, most significant first.
pub open spec fn rev_digits(n: nat, k: nat) -> Seq<char>
    decreases k,
{
    if k == 0 {
        Seq::empty()
    } else {
        seq![digit_char((n / pow10((k - 1) as nat)) % 10)] + rev_digits(n, (k - 1) as nat)
    }
}

proof fn lemma_pow10_pos(k: nat)
    ensures
        pow10(k) > 0,
    decreases k,
{
    if k > 0 {
        lemma_pow10_pos((k - 1) as nat);
    }
}

proof fn lemma_pow10_step(n: nat, k: nat)
    ensures
        n / pow10(k + 1) == (n / pow10(k)) / 10,
{
    lemma_pow10_pos(k);
    assert(pow10(k + 1) == 10 * pow10(k));
    vstd::arithmetic::div_mod::lemma_div_denominator(n as int, pow10(k) as int, 10);
    assert(pow10(k) * 10 == 10 * pow10(k)) by (nonlinear_arith);
}

proof fn lemma_decimal_split(n: nat, m: nat, k: nat)
    requires
        m == n / pow10(k),
        m >= 10,
        decimal(n) == decimal(m) + rev_digits(n, k),
    ensures
        decimal(n) == decimal(m / 10) + rev_digits(n, k + 1),
{
    assert(rev_digits(n, k + 1) == seq![digit_char(m % 10)] + rev_digits(n, k));
    assert(decimal(m) == decimal(m / 10).push(digit_char(m % 10)));
    assert(decimal(m) + rev_digits(n, k) =~= decimal(m / 10) + (seq![digit_char(m % 10)]
        + rev_digits(n, k)));
}

proof fn lemma_rev_digits_peel(n: nat, i: nat)
    ensures
        rev_digits(n, i + 1) == seq![digit_char((n / pow10(i)) % 10)] + rev_digits(n, i),
{
}

} // verus!
