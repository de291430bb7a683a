//! Text building blocks for the exposition payload: decimal and fixed-point
//! rendering of integers and escaping of free-form strings.

use vstd::prelude::*;
use vstd::string::*;

verus! {

/// Appends one character to `out`.
///
/// Trusted: calls `String::push`, which appends the character to the end of
/// the string and leaves what was there before untouched.
#[verifier::external_body]
pub(crate) fn push_char(out: &mut String, c: char)
    ensures
        final(out)@ == old(out)@.push(c),
{
    out.push(c);
}

/// The character of the decimal digit `d`.
pub open spec fn digit_char(d: nat) -> char {
    if d == 0 {
        '0'
    } else if d == 1 {
        '1'
    } else if d == 2 {
        '2'
    } else if d == 3 {
        '3'
    } else if d == 4 {
        '4'
    } else if d == 5 {
        '5'
    } else if d == 6 {
        '6'
    } else if d == 7 {
        '7'
    } else if d == 8 {
        '8'
    } else {
        '9'
    }
}

/// The decimal numeral of `n`, without sign or leading zeros.
pub open spec fn decimal(n: nat) -> Seq<char>
    decreases n,
{
    if n < 10 {
        seq![digit_char(n)]
    } else {
        decimal(n / 10).push(digit_char(n % 10))
    }
}

/// Ten to the power `e`.
pub open spec fn pow10(e: nat) -> nat
    decreases e,
{
    if e == 0 {
        1
    } else {
        10 * pow10((e - 1) as nat)
    }
}

/// The digits of `frac` after the decimal point when `frac` counts units of
/// `10^-width`: zero-padded on the left to `width` places, with the zeros at
/// the right end left out. Empty when `frac` is zero.
pub open spec fn fraction_digits(frac: nat, width: nat) -> Seq<char>
    decreases width,
{
    if frac == 0 || width == 0 {
        Seq::<char>::empty()
    } else {
        let unit = pow10((width - 1) as nat);
        seq![digit_char(frac / unit)] + fraction_digits(frac % unit, (width - 1) as nat)
    }
}

/// The numeral of `n / 10^places` in the shortest exact form: the whole part,
/// then a point and the fraction only where the fraction is not zero.
pub open spec fn fixed_point(n: nat, places: nat) -> Seq<char> {
    let unit = pow10(places);
    if n % unit == 0 {
        decimal(n / unit)
    } else {
        decimal(n / unit).push('.') + fraction_digits(n % unit, places)
    }
}

/// What one character becomes in the payload: a backslash and a line feed are
/// always written as two characters, a double quote only inside a label value.
pub open spec fn escape_char(c: char, in_label: bool) -> Seq<char> {
    if c == '\\' {
        seq!['\\', '\\']
    } else if c == '\n' {
        seq!['\\', 'n']
    } else if in_label && c == '"' {
        seq!['\\', '"']
    } else {
        seq![c]
    }
}

/// `s` with every character escaped by [`escape_char`].
pub open spec fn escaped(s: Seq<char>, in_label: bool) -> Seq<char>
    decreases s.len(),
{
    if s.len() == 0 {
        Seq::<char>::empty()
    } else {
        escaped(s.drop_last(), in_label) + escape_char(s.last(), in_label)
    }
}

/// A power of ten is never zero.
pub proof fn lemma_pow10_positive(e: nat)
    ensures
        pow10(e) > 0,
    decreases e,
{
    if e > 0 {
        lemma_pow10_positive((e - 1) as nat);
    }
}

/// A larger exponent gives no smaller power of ten.
pub proof fn lemma_pow10_monotonic(a: nat, b: nat)
    requires
        a <= b,
    ensures
        pow10(a) <= pow10(b),
    decreases b,
{
    if a < b {
        lemma_pow10_monotonic(a, (b - 1) as nat);
        lemma_pow10_positive((b - 1) as nat);
    }
}

/// The largest power of ten that fits in 64 bits is `10^19`.
pub proof fn lemma_pow10_19()
    ensures
        pow10(19) == 10_000_000_000_000_000_000nat,
{
    reveal_with_fuel(pow10, 20);
}

fn digit_of(d: u64) -> (c: char)
    requires
        d < 10,
    ensures
        c == digit_char(d as nat),
{
    if d == 0 {
        '0'
    } else if d == 1 {
        '1'
    } else if d == 2 {
        '2'
    } else if d == 3 {
        '3'
    } else if d == 4 {
        '4'
    } else if d == 5 {
        '5'
    } else if d == 6 {
        '6'
    } else if d == 7 {
        '7'
    } else if d == 8 {
        '8'
    } else {
        '9'
    }
}

/// Appends the decimal numeral of `n` to `out`.
pub fn append_decimal(out: &mut String, n: u64)
    ensures
        final(out)@ == old(out)@ + decimal(n as nat),
    decreases n,
{
    if n < 10 {
        push_char(out, digit_of(n));
    } else {
        append_decimal(out, n / 10);
        push_char(out, digit_of(n % 10));
    }
}

/// Ten to the power `e` as a machine integer.
pub fn pow10_u64(e: u8) -> (p: u64)
    requires
        e <= 19,
    ensures
        p == pow10(e as nat),
{
    let mut p: u64 = 1;
    let mut i: u8 = 0;
    while i < e
        invariant
            i <= e <= 19,
            p == pow10(i as nat),
        decreases e - i,
    {
        proof {
            lemma_pow10_monotonic((i + 1) as nat, 19);
            lemma_pow10_19();
        }
        p = p * 10;
        i = i + 1;
    }
    p
}

fn append_fraction(out: &mut String, frac: u64, width: u8)
    requires
        width <= 19,
        frac < pow10(width as nat),
    ensures
        final(out)@ == old(out)@ + fraction_digits(frac as nat, width as nat),
    decreases width,
{
    if frac == 0 || width == 0 {
        return ;
    }
    let unit = pow10_u64(width - 1);
    proof {
        lemma_pow10_positive((width - 1) as nat);
        assert(frac / unit < 10) by (nonlinear_arith)
            requires
                frac < 10 * unit,
                unit > 0,
        ;
        assert(frac % unit < unit) by (nonlinear_arith)
            requires
                unit > 0,
        ;
    }
    push_char(out, digit_of(frac / unit));
    append_fraction(out, frac % unit, width - 1);
}

/// Appends the numeral of `n / 10^places` to `out`, as [`fixed_point`] gives it.
pub fn append_fixed_point(out: &mut String, n: u64, places: u8)
    requires
        places <= 19,
    ensures
        final(out)@ == old(out)@ + fixed_point(n as nat, places as nat),
{
    let unit = pow10_u64(places);
    proof {
        lemma_pow10_positive(places as nat);
        assert(n % unit < unit) by (nonlinear_arith)
            requires
                unit > 0,
        ;
    }
    append_decimal(out, n / unit);
    if n % unit != 0 {
        push_char(out, '.');
        append_fraction(out, n % unit, places);
    }
}

/// Appends `s` to `out` with every character escaped by [`escape_char`].
pub fn append_escaped(out: &mut String, s: &str, in_label: bool)
    ensures
        final(out)@ == old(out)@ + escaped(s@, in_label),
{
    let ghost before = out@;
    for c in it: s.chars()
        invariant
            it.seq() == s@,
            out@ == before + escaped(s@.take(it.index()), in_label),
    {
        proof {
            let i = it.index();
            assert(s@.take(i + 1).drop_last() =~= s@.take(i));
            assert(s@.take(i + 1).last() == c);
        }
        if c == '\\' {
            push_char(out, '\\');
            push_char(out, '\\');
        } else if c == '\n' {
            push_char(out, '\\');
            push_char(out, 'n');
        } else if in_label && c == '"' {
            push_char(out, '\\');
            push_char(out, '"');
        } else {
            push_char(out, c);
        }
        assert(out@ =~= before + escaped(s@.take(it.index() + 1), in_label));
    }
    assert(s@.take(s@.len() as int) =~= s@);
}

/// The decimal numeral of `n`, with a minus sign where `n` is negative.
pub open spec fn signed_decimal(n: int) -> Seq<char> {
    if n < 0 {
        seq!['-'] + decimal((-n) as nat)
    } else {
        decimal(n as nat)
    }
}

/// Appends the decimal numeral of `n` to `out`.
pub fn append_signed_decimal(out: &mut String, n: i32)
    ensures
        final(out)@ == old(out)@ + signed_decimal(n as int),
{
    let wide: i64 = n as i64;
    if wide < 0 {
        push_char(out, '-');
        append_decimal(out, (-wide) as u64);
        assert(out@ =~= old(out)@ + (seq!['-'] + decimal((-n) as nat)));
    } else {
        append_decimal(out, wide as u64);
    }
}

/// Whether `c` is white space: one of the characters with the Unicode
/// property `White_Space`.
pub open spec fn is_space(c: char) -> bool {
    ||| ('\u{9}' <= c && c <= '\u{d}')
    ||| c == ' '
    ||| c == '\u{85}'
    ||| c == '\u{a0}'
    ||| c == '\u{1680}'
    ||| ('\u{2000}' <= c && c <= '\u{200a}')
    ||| c == '\u{2028}'
    ||| c == '\u{2029}'
    ||| c == '\u{202f}'
    ||| c == '\u{205f}'
    ||| c == '\u{3000}'
}

/// `s` without the white space at its end.
pub open spec fn trimmed_end(s: Seq<char>) -> Seq<char>
    decreases s.len(),
{
    if s.len() > 0 && is_space(s.last()) {
        trimmed_end(s.drop_last())
    } else {
        s
    }
}

/// Whether `s` holds white space only.
pub open spec fn all_space(s: Seq<char>) -> bool {
    forall|i: int| 0 <= i < s.len() ==> is_space(#[trigger] s[i])
}

proof fn lemma_trim_run(kept: Seq<char>, run: Seq<char>)
    requires
        all_space(run),
        kept.len() == 0 || !is_space(kept.last()),
    ensures
        trimmed_end(kept + run) == kept,
    decreases run.len(),
{
    if run.len() == 0 {
        assert(kept + run =~= kept);
    } else {
        assert((kept + run).last() == run.last());
        assert((kept + run).drop_last() =~= kept + run.drop_last());
        lemma_trim_run(kept, run.drop_last());
    }
}

/// Tells whether `c` is white space.
pub fn is_space_char(c: char) -> (space: bool)
    ensures
        space == is_space(c),
{
    ('\u{9}' <= c && c <= '\u{d}') || c == ' ' || c == '\u{85}' || c == '\u{a0}' || c
        == '\u{1680}' || ('\u{2000}' <= c && c <= '\u{200a}') || c == '\u{2028}' || c
        == '\u{2029}' || c == '\u{202f}' || c == '\u{205f}' || c == '\u{3000}'
}

/// A copy of `s` without the white space at its end.
pub fn trim_end(s: &str) -> (out: String)
    ensures
        out@ == trimmed_end(s@),
{
    let mut kept = String::new();
    let mut run = String::new();
    for c in it: s.chars()
        invariant
            it.seq() == s@,
            kept@ + run@ == s@.take(it.index()),
            all_space(run@),
            kept@.len() == 0 || !is_space(kept@.last()),
    {
        let ghost i = it.index();
        assert(s@.take(i + 1) =~= s@.take(i).push(c));
        if is_space_char(c) {
            push_char(&mut run, c);
            assert(kept@ + run@ =~= s@.take(i + 1));
        } else {
            kept.append(run.as_str());
            push_char(&mut kept, c);
            run = String::new();
            assert(kept@ + run@ =~= s@.take(i + 1));
        }
    }
    proof {
        assert(s@.take(s@.len() as int) =~= s@);
        lemma_trim_run(kept@, run@);
    }
    kept
}

/// Whether `c` is an ASCII digit.
pub open spec fn is_digit_char(c: char) -> bool {
    '0' <= c && c <= '9'
}

/// Whether `s` is a numeral of the payload: digits, and at most one point,
/// which stands between digits.
pub open spec fn is_numeral(s: Seq<char>) -> bool {
    &&& s.len() > 0
    &&& is_digit_char(s[0])
    &&& is_digit_char(s.last())
    &&& forall|i: int| 0 <= i < s.len() ==> is_digit_char(#[trigger] s[i]) || s[i] == '.'
    &&& forall|i: int, j: int|
        0 <= i < j < s.len() && #[trigger] s[i] == '.' ==> #[trigger] s[j] != '.'
}

/// Whether `s` holds digits only.
pub open spec fn all_digit_chars(s: Seq<char>) -> bool {
    forall|i: int| 0 <= i < s.len() ==> is_digit_char(#[trigger] s[i])
}

/// A decimal numeral is one or more digits.
pub proof fn lemma_decimal_digits(n: nat)
    ensures
        decimal(n).len() > 0,
        all_digit_chars(decimal(n)),
    decreases n,
{
    if n >= 10 {
        lemma_decimal_digits(n / 10);
    }
}

/// The digits after the point are digits, and there is one at least where
/// the fraction is not zero.
pub proof fn lemma_fraction_digits(frac: nat, width: nat)
    requires
        frac < pow10(width),
    ensures
        all_digit_chars(fraction_digits(frac, width)),
        frac > 0 ==> fraction_digits(frac, width).len() > 0,
    decreases width,
{
    if frac != 0 && width != 0 {
        let unit = pow10((width - 1) as nat);
        lemma_pow10_positive((width - 1) as nat);
        assert(frac % unit < unit) by (nonlinear_arith)
            requires
                unit > 0,
        ;
        lemma_fraction_digits(frac % unit, (width - 1) as nat);
    }
}

/// Every value of the payload is a numeral: digits, with at most one point
/// between them.
pub proof fn lemma_fixed_point_numeral(n: nat, places: nat)
    ensures
        is_numeral(fixed_point(n, places)),
{
    let unit = pow10(places);
    lemma_pow10_positive(places);
    lemma_decimal_digits(n / unit);
    let whole = decimal(n / unit);
    if n % unit != 0 {
        assert(n % unit < unit) by (nonlinear_arith)
            requires
                unit > 0,
        ;
        lemma_fraction_digits(n % unit, places);
        let frac = fraction_digits(n % unit, places);
        let all = whole.push('.') + frac;
        assert forall|i: int| 0 <= i < all.len() implies is_digit_char(#[trigger] all[i]) || all[i]
            == '.' by {
            if i < whole.len() {
                assert(all[i] == whole[i]);
            } else if i > whole.len() {
                assert(all[i] == frac[i - whole.len() - 1]);
            }
        }
        assert forall|i: int, j: int| 0 <= i < j < all.len() && #[trigger] all[i]
            == '.' implies #[trigger] all[j] != '.' by {
            if i < whole.len() {
                assert(all[i] == whole[i]);
            } else if i > whole.len() {
                assert(all[i] == frac[i - whole.len() - 1]);
            }
            assert(all[j] == frac[j - whole.len() - 1]);
        }
        assert(all[0] == whole[0]);
        assert(all.last() == frac.last());
    }
}

/// Escaped text stays on one line: whatever the text, no line feed is left
/// in it, so no help text and no label value can break a line of the
/// payload.
pub proof fn lemma_escaped_on_one_line(s: Seq<char>, in_label: bool)
    ensures
        !escaped(s, in_label).contains('\n'),
    decreases s.len(),
{
    if s.len() > 0 {
        lemma_escaped_on_one_line(s.drop_last(), in_label);
        let head = escaped(s.drop_last(), in_label);
        let tail = escape_char(s.last(), in_label);
        assert forall|i: int| 0 <= i < (head + tail).len() implies (head + tail)[i] != '\n' by {
            if i < head.len() {
                assert(head.contains(head[i]));
            }
        }
    }
}

} // verus!
