use vstd::prelude::*;
use vstd::string::*;

verus! {

/// Fixed-point units per whole percent: a percentile is held to six decimal places.
pub const PERCENTILE_SCALE: u64 = 1_000_000;

/// The largest fixed-point percentile, 100%.
pub const PERCENTILE_MAX: u64 = 100_000_000;

/// Number of decimal places that a fixed-point percentile carries.
pub const FRACTION_DIGITS: u64 = 6;

pub open spec fn digit_char(d: nat) -> char {
    if d == 0 { '0' }
    else if d == 1 { '1' }
    else if d == 2 { '2' }
    else if d == 3 { '3' }
    else if d == 4 { '4' }
    else if d == 5 { '5' }
    else if d == 6 { '6' }
    else if d == 7 { '7' }
    else if d == 8 { '8' }
    else { '9' }
}

/// Decimal digits of `n`, without leading zeros.
pub open spec fn digits(n: nat) -> Seq<char>
    decreases n,
{
    if n < 10 {
        seq![digit_char(n)]
    } else {
        digits(n / 10) + seq![digit_char(n % 10)]
    }
}

/// The last `w` decimal digits of `n`, padded with leading zeros.
pub open spec fn padded(n: nat, w: nat) -> Seq<char>
    decreases w,
{
    if w == 0 {
        Seq::empty()
    } else {
        padded(n / 10, (w - 1) as nat) + seq![digit_char(n % 10)]
    }
}

/// `s` with its trailing `'0'` characters removed.
pub open spec fn strip_trailing_zeros(s: Seq<char>) -> Seq<char>
    decreases s.len(),
{
    if s.len() > 0 && s.last() == '0' {
        strip_trailing_zeros(s.drop_last())
    } else {
        s
    }
}

/// `s` with every `'.'` removed.
pub open spec fn strip_dot(s: Seq<char>) -> Seq<char>
    decreases s.len(),
{
    if s.len() == 0 {
        s
    } else if s.last() == '.' {
        strip_dot(s.drop_last())
    } else {
        strip_dot(s.drop_last()).push(s.last())
    }
}

/// The shortest decimal rendering of the fixed-point percentile `v`: the whole part, and a
/// dot followed by the fraction without trailing zeros when the fraction is not zero.
pub open spec fn decimal_str(v: nat) -> Seq<char> {
    let whole = v / (PERCENTILE_SCALE as nat);
    let frac = v % (PERCENTILE_SCALE as nat);
    if frac == 0 {
        digits(whole)
    } else {
        digits(whole) + seq!['.'] + strip_trailing_zeros(padded(frac, FRACTION_DIGITS as nat))
    }
}

/// The label of the fixed-point percentile `v`, already clamped to `[0, PERCENTILE_MAX]`.
pub open spec fn label_of(v: nat) -> Seq<char> {
    let whole = v / (PERCENTILE_SCALE as nat);
    let frac = v % (PERCENTILE_SCALE as nat);
    if v == 0 {
        seq!['m', 'i', 'n']
    } else if v == PERCENTILE_MAX as nat {
        seq!['m', 'a', 'x']
    } else if frac == 0 {
        seq!['p'] + digits(whole)
    } else {
        seq!['p'] + digits(whole) + strip_trailing_zeros(padded(frac, FRACTION_DIGITS as nat))
    }
}

/// A raw fixed-point percentile forced into `[0, PERCENTILE_MAX]`.
pub open spec fn clamp_percentile(p: int) -> nat {
    if p < 0 {
        0
    } else if p > PERCENTILE_MAX as int {
        PERCENTILE_MAX as nat
    } else {
        p as nat
    }
}

/// A labeled percentile.
///
/// The value is a percentage from 0 to 100 in fixed point, `PERCENTILE_SCALE` units to the
/// percent, and the label is the name under which the percentile shows up in snapshots.
#[derive(Debug, PartialEq, Eq, Hash)]
pub struct Percentile {
    label: String,
    value: u64,
}

impl Percentile {
    #[verifier::type_invariant]
    closed spec fn inv(&self) -> bool {
        &&& self.value <= PERCENTILE_MAX
        &&& self.label@ == label_of(self.value as nat)
    }

    pub open spec fn wf(&self) -> bool {
        &&& self.spec_value() <= PERCENTILE_MAX
        &&& self.spec_label() == label_of(self.spec_value())
    }

    pub closed spec fn spec_value(&self) -> nat {
        self.value as nat
    }

    pub closed spec fn spec_label(&self) -> Seq<char> {
        self.label@
    }

    /// Builds the percentile for the fixed-point value `p`, clamped to `[0, PERCENTILE_MAX]`.
    pub fn from_scaled(p: i64) -> (r: Percentile)
        ensures
            r.spec_value() == clamp_percentile(p as int),
            r.spec_label() == label_of(r.spec_value()),
    {
        let value: u64 = if p < 0 {
            0
        } else if p as u64 > PERCENTILE_MAX {
            PERCENTILE_MAX
        } else {
            p as u64
        };
        let label = make_label(value);
        Percentile { label, value }
    }

    /// Gets the standardized label for this percentile value.
    ///
    /// This follows the convention of `pXXX`, where `XXX` is the percentage with its decimal
    /// point removed: `p99` for the 99th percentile, `p999` for the 99.9th.  The 0th and
    /// 100th percentiles are `min` and `max`.
    pub fn label(&self) -> (r: &str)
        ensures
            r@ == self.spec_label(),
    {
        self.label.as_str()
    }

    /// Gets the percentile value, in units of `1 / PERCENTILE_SCALE` percent.
    pub fn percentile(&self) -> (r: u64)
        ensures
            r == self.spec_value(),
    {
        self.value
    }

    /// Gets the percentile as a quantile, in units of `1 / (100 * PERCENTILE_SCALE)`.
    ///
    /// The fixed-point quantile and the fixed-point percentile share their digits: only the
    /// unit differs by a factor of one hundred.
    pub fn as_quantile(&self) -> (r: u64)
        ensures
            r == self.spec_value(),
            r <= PERCENTILE_MAX,
    {
        proof {
            use_type_invariant(self);
        }
        self.value
    }
}

impl Clone for Percentile {
    fn clone(&self) -> (r: Percentile)
        ensures
            r.spec_value() == self.spec_value(),
            r.spec_label() == self.spec_label(),
    {
        proof {
            use_type_invariant(self);
        }
        Percentile { label: self.label.clone(), value: self.value }
    }
}

fn digit_str(d: u64) -> (r: &'static str)
    requires
        d < 10,
    ensures
        r@ == seq![digit_char(d as nat)],
{
    proof {
        reveal_strlit("0");
        reveal_strlit("1");
        reveal_strlit("2");
        reveal_strlit("3");
        reveal_strlit("4");
        reveal_strlit("5");
        reveal_strlit("6");
        reveal_strlit("7");
        reveal_strlit("8");
        reveal_strlit("9");
    }
    if d == 0 {
        "0"
    } else if d == 1 {
        "1"
    } else if d == 2 {
        "2"
    } else if d == 3 {
        "3"
    } else if d == 4 {
        "4"
    } else if d == 5 {
        "5"
    } else if d == 6 {
        "6"
    } else if d == 7 {
        "7"
    } else if d == 8 {
        "8"
    } else {
        "9"
    }
}

fn push_digits(s: &mut String, n: u64)
    ensures
        final(s)@ == old(s)@ + digits(n as nat),
    decreases n,
{
    if n < 10 {
        s.append(digit_str(n));
    } else {
        push_digits(s, n / 10);
        s.append(digit_str(n % 10));
        proof {
            assert(final(s)@ =~= old(s)@ + digits(n as nat));
        }
    }
}

fn push_padded(s: &mut String, n: u64, w: u64)
    ensures
        final(s)@ == old(s)@ + padded(n as nat, w as nat),
    decreases w,
{
    if w > 0 {
        push_padded(s, n / 10, w - 1);
        s.append(digit_str(n % 10));
        proof {
            assert(final(s)@ =~= old(s)@ + padded(n as nat, w as nat));
        }
    } else {
        proof {
            assert(final(s)@ =~= old(s)@ + padded(n as nat, w as nat));
        }
    }
}

proof fn lemma_padded_times_ten(n: nat, w: nat)
    ensures
        padded(n * 10, w + 1) == padded(n, w) + seq!['0'],
{
    assert((n * 10) / 10 == n) by (nonlinear_arith);
    assert((n * 10) % 10 == 0) by (nonlinear_arith);
    assert(digit_char(0) == '0');
}

proof fn lemma_strip_padded(n: nat, w: nat)
    requires
        n % 10 != 0,
        w > 0,
    ensures
        strip_trailing_zeros(padded(n, w)) == padded(n, w),
{
    let s = padded(n, w);
    assert(s.last() == digit_char(n % 10));
    assert(s.last() != '0');
}

/// Builds the label of a clamped fixed-point percentile.
fn make_label(v: u64) -> (r: String)
    requires
        v <= PERCENTILE_MAX,
    ensures
        r@ == label_of(v as nat),
{
    proof {
        reveal_strlit("min");
        reveal_strlit("max");
        reveal_strlit("p");
    }
    if v == 0 {
        return String::from_str("min");
    }
    if v == PERCENTILE_MAX {
        return String::from_str("max");
    }
    let mut s = String::from_str("p");
    let whole = v / PERCENTILE_SCALE;
    let frac = v % PERCENTILE_SCALE;
    push_digits(&mut s, whole);
    if frac != 0 {
        let mut f = frac;
        let mut w: u64 = FRACTION_DIGITS;
        assert(pow10(0) == 1);
        assert(pow10((FRACTION_DIGITS - w) as nat) == 1);
        assert(f as nat * pow10((FRACTION_DIGITS - w) as nat) == frac as nat);
        while f % 10 == 0
            invariant
                0 < f <= frac,
                0 < w <= FRACTION_DIGITS,
                frac < PERCENTILE_SCALE,
                strip_trailing_zeros(padded(frac as nat, FRACTION_DIGITS as nat))
                    == strip_trailing_zeros(padded(f as nat, w as nat)),
                f as nat * pow10((FRACTION_DIGITS - w) as nat) == frac as nat,
            decreases w,
        {
            let ghost f0 = f;
            let ghost w0 = w;
            proof {
                lemma_w_positive_after(f as nat, w as nat, frac as nat);
            }
            f = f / 10;
            w = w - 1;
            proof {
                assert(f0 == f * 10) by {
                    assert(f0 % 10 == 0);
                }
                lemma_padded_times_ten(f as nat, w as nat);
                assert(padded(f0 as nat, w0 as nat).drop_last() =~= padded(f as nat, w as nat));
                lemma_pow10_step((FRACTION_DIGITS - w0) as nat);
                assert(f as nat * pow10((FRACTION_DIGITS - w) as nat) == frac as nat) by (nonlinear_arith)
                    requires
                        f0 == f * 10,
                        f0 as nat * pow10((FRACTION_DIGITS - w0) as nat) == frac as nat,
                        pow10((FRACTION_DIGITS - w) as nat) == 10 * pow10((FRACTION_DIGITS - w0) as nat),
                ;
                assert(f > 0) by (nonlinear_arith)
                    requires
                        f0 == f * 10,
                        f0 > 0,
                ;
                assert(f <= frac) by (nonlinear_arith)
                    requires
                        f0 == f * 10,
                        f0 <= frac,
                ;
            }
        }
        proof {
            lemma_strip_padded(f as nat, w as nat);
        }
        push_padded(&mut s, f, w);
    }
    proof {
        assert(s@ =~= label_of(v as nat));
    }
    s
}

pub open spec fn pow10(e: nat) -> nat
    decreases e,
{
    if e == 0 {
        1
    } else {
        10 * pow10((e - 1) as nat)
    }
}

proof fn lemma_pow10_step(e: nat)
    ensures
        pow10(e + 1) == 10 * pow10(e),
{
}

/// While the trailing digits being dropped are zeros, at least one digit of a non-zero
/// fraction below `10^6` remains.
proof fn lemma_w_positive_after(f: nat, w: nat, frac: nat)
    requires
        0 < f,
        0 < w <= FRACTION_DIGITS,
        frac < PERCENTILE_SCALE,
        f * pow10((FRACTION_DIGITS - w) as nat) == frac,
        f % 10 == 0,
    ensures
        w > 1,
{
    if w == 1 {
        reveal_with_fuel(pow10, 6);
        assert(pow10(5) == 100000);
        assert(f >= 10);
        assert(f * 100000 >= 1000000) by (nonlinear_arith)
            requires
                f >= 10,
        ;
    }
}

proof fn lemma_strip_dot_concat(a: Seq<char>, b: Seq<char>)
    ensures
        strip_dot(a + b) == strip_dot(a) + strip_dot(b),
    decreases b.len(),
{
    if b.len() == 0 {
        assert(a + b =~= a);
        assert(strip_dot(a) + strip_dot(b) =~= strip_dot(a));
    } else {
        let ab = a + b;
        assert(ab.drop_last() =~= a + b.drop_last());
        assert(ab.last() == b.last());
        lemma_strip_dot_concat(a, b.drop_last());
        if b.last() == '.' {
        } else {
            assert(strip_dot(a) + strip_dot(b) =~= (strip_dot(a) + strip_dot(b.drop_last())).push(
                b.last(),
            ));
        }
    }
}

proof fn lemma_strip_dot_no_dot(s: Seq<char>)
    requires
        forall|i: int| 0 <= i < s.len() ==> s[i] != '.',
    ensures
        strip_dot(s) == s,
    decreases s.len(),
{
    if s.len() > 0 {
        lemma_strip_dot_no_dot(s.drop_last());
        assert(s.drop_last().push(s.last()) =~= s);
    }
}

proof fn lemma_digit_not_dot(d: nat)
    ensures
        digit_char(d) != '.',
{
}

proof fn lemma_digits_no_dot(n: nat)
    ensures
        forall|i: int| 0 <= i < digits(n).len() ==> digits(n)[i] != '.',
    decreases n,
{
    lemma_digit_not_dot(n);
    lemma_digit_not_dot(n % 10);
    if n >= 10 {
        lemma_digits_no_dot(n / 10);
        let a = digits(n / 10);
        let b = seq![digit_char(n % 10)];
        assert forall|i: int| 0 <= i < digits(n).len() implies digits(n)[i] != '.' by {
            if i < a.len() {
                assert(digits(n)[i] == a[i]);
            } else {
                assert(digits(n)[i] == b[i - a.len()]);
            }
        }
    }
}

proof fn lemma_padded_no_dot(n: nat, w: nat)
    ensures
        forall|i: int| 0 <= i < padded(n, w).len() ==> padded(n, w)[i] != '.',
    decreases w,
{
    if w > 0 {
        lemma_digit_not_dot(n % 10);
        lemma_padded_no_dot(n / 10, (w - 1) as nat);
        let a = padded(n / 10, (w - 1) as nat);
        let b = seq![digit_char(n % 10)];
        assert forall|i: int| 0 <= i < padded(n, w).len() implies padded(n, w)[i] != '.' by {
            if i < a.len() {
                assert(padded(n, w)[i] == a[i]);
            } else {
                assert(padded(n, w)[i] == b[i - a.len()]);
            }
        }
    }
}

proof fn lemma_strip_zeros_prefix(s: Seq<char>)
    ensures
        strip_trailing_zeros(s).len() <= s.len(),
        strip_trailing_zeros(s) =~= s.subrange(0, strip_trailing_zeros(s).len() as int),
    decreases s.len(),
{
    if s.len() > 0 && s.last() == '0' {
        lemma_strip_zeros_prefix(s.drop_last());
    }
}

/// Percentile labels round-trip: every percentile strictly between 0 and 100 keeps its value,
/// and its label is `"p"` followed by the decimal rendering of the percentile with its dot
/// removed.  (Its quantile, from `as_quantile`, is that value read in hundredths of the
/// percentile's unit, so the percentile divided by one hundred.)
pub proof fn lemma_label_round_trip(p: int)
    requires
        0 < p < PERCENTILE_MAX,
    ensures
        label_of(clamp_percentile(p)) == seq!['p'] + strip_dot(decimal_str(p as nat)),
        clamp_percentile(p) == p,
{
    let v = p as nat;
    let whole = v / (PERCENTILE_SCALE as nat);
    let frac = v % (PERCENTILE_SCALE as nat);
    lemma_digits_no_dot(whole);
    lemma_strip_dot_no_dot(digits(whole));
    if frac != 0 {
        let t = strip_trailing_zeros(padded(frac, FRACTION_DIGITS as nat));
        lemma_padded_no_dot(frac, FRACTION_DIGITS as nat);
        lemma_strip_zeros_prefix(padded(frac, FRACTION_DIGITS as nat));
        assert(forall|i: int| 0 <= i < t.len() ==> t[i] != '.') by {
            assert forall|i: int| 0 <= i < t.len() implies t[i] != '.' by {
                assert(t[i] == padded(frac, FRACTION_DIGITS as nat)[i]);
            }
        }
        lemma_strip_dot_no_dot(t);
        lemma_strip_dot_concat(digits(whole) + seq!['.'], t);
        lemma_strip_dot_concat(digits(whole), seq!['.']);
        assert(strip_dot(seq!['.']) =~= Seq::<char>::empty()) by {
            assert(seq!['.'].drop_last() =~= Seq::<char>::empty());
            assert(seq!['.'].last() == '.');
            assert(strip_dot(Seq::<char>::empty()) == Seq::<char>::empty());
        }
        assert(strip_dot(decimal_str(v)) =~= digits(whole) + t);
    }
}

/// Percentiles clamp: every value at or below zero is the minimum, labelled `"min"`, and
/// every value at or above one hundred percent is the maximum, labelled `"max"`.
pub proof fn lemma_clamped_labels(p: int)
    ensures
        p <= 0 ==> clamp_percentile(p) == 0 && label_of(clamp_percentile(p)) == seq!['m', 'i', 'n'],
        p >= PERCENTILE_MAX ==> clamp_percentile(p) == PERCENTILE_MAX && label_of(
            clamp_percentile(p),
        ) == seq!['m', 'a', 'x'],
{
}

} // verus!
