//! Byte figures as the Developers screen shows them: grouped digits and a
//! unit that always names itself.
use vstd::prelude::*;

verus! {

/// The character for one decimal digit.
pub open spec fn digit_char(d: int) -> char {
    if d == 0 {
        '0'
    } else if d == 1 {
        '1'
    } else if d == 2 {
        '2'
    } else if d == 3 {
        '3'
    } else if d == 4 {
        '4'
    } else if d == 5 {
        '5'
    } else if d == 6 {
        '6'
    } else if d == 7 {
        '7'
    } else if d == 8 {
        '8'
    } else {
        '9'
    }
}

/// The decimal digits of `n`, most significant first, with no leading zero.
pub open spec fn decimal(n: nat) -> Seq<char>
    decreases n,
{
    if n < 10 {
        seq![digit_char(n as int)]
    } else {
        decimal(n / 10).push(digit_char((n % 10) as int))
    }
}

/// `digits` with a `,` before every run of three counted from the right.
pub open spec fn with_commas(digits: Seq<char>) -> Seq<char>
    decreases digits.len(),
{
    if digits.len() <= 3 {
        digits
    } else {
        with_commas(digits.take(digits.len() - 3)) + seq![','] + digits.skip(digits.len() - 3)
    }
}

/// A whole number written with digit grouping, its sign in front.
pub open spec fn grouped_spec(value: int) -> Seq<char> {
    if value < 0 {
        seq!['-'] + with_commas(decimal((-value) as nat))
    } else {
        with_commas(decimal(value as nat))
    }
}

/// Integer division that rounds toward zero, as Rust's `/` does.
pub open spec fn div_toward_zero(a: int, b: int) -> int {
    if a >= 0 {
        a / b
    } else {
        -((-a) / b)
    }
}

/// Three digits, zeros kept: the group after a separator.
spec fn three_digits(m: nat) -> Seq<char> {
    seq![digit_char((m / 100) as int), digit_char(((m / 10) % 10) as int), digit_char((m % 10) as int)]
}

/// Grouping by thousands, the way the implementation builds it.
spec fn grouped_by_thousands(n: nat) -> Seq<char>
    decreases n,
{
    if n < 1000 {
        decimal(n)
    } else {
        grouped_by_thousands(n / 1000) + seq![','] + three_digits(n % 1000)
    }
}

proof fn lemma_decimal_len(n: nat)
    ensures
        decimal(n).len() >= 1,
        n < 10 ==> decimal(n).len() == 1,
        n < 100 ==> decimal(n).len() <= 2,
        n < 1000 ==> decimal(n).len() <= 3,
    decreases n,
{
    if n >= 10 {
        lemma_decimal_len(n / 10);
    }
}

proof fn lemma_digit_arith(n: nat)
    requires
        n >= 1000,
    ensures
        (n / 10) / 10 == n / 100,
        (n / 100) / 10 == n / 1000,
        (n % 1000) / 100 == (n / 100) % 10,
        ((n % 1000) / 10) % 10 == (n / 10) % 10,
        (n % 1000) % 10 == n % 10,
        n / 10 >= 100,
        n / 100 >= 10,
{
    let a = n / 1000;
    let r = n % 1000;
    assert(n == 1000 * a + r && 0 <= r < 1000) by (nonlinear_arith)
        requires
            a == n / 1000,
            r == n % 1000,
    ;
    let b = r / 100;
    let c = (r / 10) % 10;
    let d = r % 10;
    assert(r == 100 * b + 10 * c + d && 0 <= b < 10 && 0 <= c < 10 && 0 <= d < 10)
        by (nonlinear_arith)
        requires
            0 <= r < 1000,
            b == r / 100,
            c == (r / 10) % 10,
            d == r % 10,
    ;
    assert(n / 10 == 100 * a + 10 * b + c && n % 10 == d) by (nonlinear_arith)
        requires
            n == 1000 * a + 100 * b + 10 * c + d,
            0 <= c < 10,
            0 <= d < 10,
            0 <= b < 10,
            a >= 0,
    ;
    assert(n / 100 == 10 * a + b) by (nonlinear_arith)
        requires
            n == 1000 * a + 100 * b + 10 * c + d,
            0 <= c < 10,
            0 <= d < 10,
            0 <= b < 10,
            a >= 0,
    ;
    assert((n / 10) / 10 == 10 * a + b && (n / 10) % 10 == c) by (nonlinear_arith)
        requires
            n / 10 == 100 * a + 10 * b + c,
            0 <= c < 10,
            0 <= b < 10,
            a >= 0,
    ;
    assert((n / 100) / 10 == a && (n / 100) % 10 == b) by (nonlinear_arith)
        requires
            n / 100 == 10 * a + b,
            0 <= b < 10,
            a >= 0,
    ;
    assert(n >= 1000 ==> a >= 1);
}

/// Peeling the last three digits off a number of four or more.
proof fn lemma_decimal_thousands(n: nat)
    requires
        n >= 1000,
    ensures
        decimal(n) == decimal(n / 1000) + three_digits(n % 1000),
{
    lemma_digit_arith(n);
    let a = decimal(n / 1000);
    assert(decimal(n / 100) == a.push(digit_char(((n / 100) % 10) as int)));
    assert(decimal(n / 10) == decimal(n / 100).push(digit_char(((n / 10) % 10) as int)));
    assert(decimal(n) == decimal(n / 10).push(digit_char((n % 10) as int)));
    assert(decimal(n) =~= decimal(n / 1000) + three_digits(n % 1000));
}

proof fn lemma_grouping_agrees(n: nat)
    ensures
        grouped_by_thousands(n) == with_commas(decimal(n)),
    decreases n,
{
    lemma_decimal_len(n);
    if n >= 1000 {
        lemma_decimal_thousands(n);
        lemma_grouping_agrees(n / 1000);
        lemma_decimal_len(n / 1000);
        let d = decimal(n);
        let a = decimal(n / 1000);
        let t = three_digits(n % 1000);
        assert(d.take(d.len() - 3) =~= a);
        assert(d.skip(d.len() - 3) =~= t);
    }
}

/// How byte figures are displayed. Tapping any memory row cycles this for all
/// of them, so the numbers stay comparable with each other.
#[derive(Copy, Clone, Debug, PartialEq, Eq, Structural)]
pub enum Units {
    Bytes,
    Kilobytes,
}

impl Default for Units {
    fn default() -> (u: Units)
        ensures
            u == Units::Kilobytes,
    {
        Units::Kilobytes
    }
}

impl Units {
    pub open spec fn spec_next(self) -> Units {
        match self {
            Units::Bytes => Units::Kilobytes,
            Units::Kilobytes => Units::Bytes,
        }
    }

    pub fn next(self) -> (u: Units)
        ensures
            u == self.spec_next(),
    {
        match self {
            Units::Bytes => Units::Kilobytes,
            Units::Kilobytes => Units::Bytes,
        }
    }

    /// The figure `format` writes for `bytes`: kilobytes are the nearest
    /// whole number, halves rounding up (`/` here is floor division).
    pub open spec fn spec_format(self, bytes: int) -> Seq<char> {
        match self {
            Units::Bytes => grouped_spec(bytes) + seq![' ', 'B'],
            Units::Kilobytes => grouped_spec((bytes + 512) / 1024) + seq![' ', 'K', 'B'],
        }
    }

    /// Formats a byte count, always with its unit so the two modes are never
    /// ambiguous. KB is rounded to nearest rather than truncated.
    pub fn format(self, bytes: i32) -> (s: String)
        ensures
            s@ == self.spec_format(bytes as int),
    {
        match self {
            Units::Bytes => {
                let mut out = grouped(bytes);
                proof {
                    reveal_strlit(" B");
                }
                out.append(" B");
                out
            },
            Units::Kilobytes => {
                let shifted = bytes as i64 + 512;
                let kb = if shifted >= 0 {
                    shifted / 1024
                } else {
                    -((-shifted + 1023) / 1024)
                };
                proof {
                    if shifted < 0 {
                        assert(kb == shifted / 1024) by (nonlinear_arith)
                            requires
                                shifted < 0,
                                kb == -((-shifted + 1023) / 1024),
                        {
                            let q = (-shifted + 1023) / 1024;
                            let r = (-shifted + 1023) % 1024;
                            assert(-shifted + 1023 == q * 1024 + r);
                            assert(0 <= r < 1024);
                            assert(shifted == -q * 1024 + (1023 - r));
                            vstd::arithmetic::div_mod::lemma_fundamental_div_mod_converse(
                                shifted as int,
                                1024,
                                -q,
                                1023 - r,
                            );
                        }
                    }
                }
                let mut out = grouped(kb as i32);
                proof {
                    reveal_strlit(" KB");
                }
                out.append(" KB");
                out
            },
        }
    }
}

/// The one-character string for a decimal digit.
fn digit_str(d: u32) -> (s: &'static str)
    requires
        d < 10,
    ensures
        s@ == seq![digit_char(d as int)],
{
    proof {
        reveal_strlit("0");
        reveal_strlit("1");
        reveal_strlit("2");
        reveal_strlit("3");
        reveal_strlit("4");
        reveal_strlit("5");
        reveal_strlit("6");
        reveal_strlit("7");
        reveal_strlit("8");
        reveal_strlit("9");
    }
    match d {
        0 => "0",
        1 => "1",
        2 => "2",
        3 => "3",
        4 => "4",
        5 => "5",
        6 => "6",
        7 => "7",
        8 => "8",
        _ => "9",
    }
}

/// Appends the decimal digits of `n`.
pub(crate) fn push_decimal(out: &mut String, n: u32)
    ensures
        final(out)@ == old(out)@ + decimal(n as nat),
    decreases n,
{
    if n >= 10 {
        push_decimal(out, n / 10);
    }
    out.append(digit_str(n % 10));
    assert(final(out)@ =~= old(out)@ + decimal(n as nat));
}

/// Appends three digits of `m`, keeping leading zeros.
fn push_three_digits(out: &mut String, m: u32)
    requires
        m < 1000,
    ensures
        final(out)@ == old(out)@ + three_digits(m as nat),
{
    out.append(digit_str(m / 100));
    out.append(digit_str((m / 10) % 10));
    out.append(digit_str(m % 10));
    assert(final(out)@ =~= old(out)@ + three_digits(m as nat));
}

/// Appends `n` grouped by thousands.
fn push_grouped(out: &mut String, n: u32)
    ensures
        final(out)@ == old(out)@ + grouped_by_thousands(n as nat),
    decreases n,
{
    if n < 1000 {
        push_decimal(out, n);
    } else {
        push_grouped(out, n / 1000);
        proof {
            reveal_strlit(",");
        }
        out.append(",");
        push_three_digits(out, n % 1000);
        assert(final(out)@ =~= old(out)@ + grouped_by_thousands(n as nat));
    }
}

/// A number as plain formatting writes it: its decimal digits, after a minus
/// sign when it is negative.
pub open spec fn plain_decimal(value: int) -> Seq<char> {
    if value < 0 {
        seq!['-'] + decimal((-value) as nat)
    } else {
        decimal(value as nat)
    }
}

/// Appends `value` as plain formatting writes it.
pub fn push_plain(out: &mut String, value: i32)
    ensures
        final(out)@ == old(out)@ + plain_decimal(value as int),
{
    if value < 0 {
        proof {
            reveal_strlit("-");
        }
        out.append("-");
        push_decimal(out, (-(value as i64)) as u32);
    } else {
        push_decimal(out, value as u32);
    }
    assert(final(out)@ =~= old(out)@ + plain_decimal(value as int));
}

/// Digit grouping, a separator every three digits from the right.
pub fn grouped(value: i32) -> (s: String)
    ensures
        s@ == grouped_spec(value as int),
{
    let magnitude: u32 = if value < 0 {
        (-(value as i64)) as u32
    } else {
        value as u32
    };
    let mut out = String::new();
    if value < 0 {
        proof {
            reveal_strlit("-");
        }
        out.append("-");
    }
    push_grouped(&mut out, magnitude);
    proof {
        lemma_grouping_agrees(magnitude as nat);
    }
    assert(out@ =~= grouped_spec(value as int));
    out
}

/// Cycling returns to where it started, so tapping a row twice is a no-op.
pub proof fn lemma_next_twice(u: Units)
    ensures
        u.spec_next().spec_next() == u,
        u.spec_next() != u,
{
}

/// Both scales name themselves: a formatted figure always ends in its unit,
/// and the digits in front are exactly the grouped reading.
pub proof fn lemma_format_names_unit(u: Units, bytes: int)
    ensures
        u == Units::Bytes ==> u.spec_format(bytes).take(u.spec_format(bytes).len() - 2)
            == grouped_spec(bytes),
        u == Units::Bytes ==> u.spec_format(bytes).skip(u.spec_format(bytes).len() - 2) == seq![' ', 'B'],
        u == Units::Kilobytes ==> u.spec_format(bytes).skip(u.spec_format(bytes).len() - 3)
            == seq![' ', 'K', 'B'],
{
    let f = u.spec_format(bytes);
    match u {
        Units::Bytes => {
            assert(f.take(f.len() - 2) =~= grouped_spec(bytes));
            assert(f.skip(f.len() - 2) =~= seq![' ', 'B']);
        },
        Units::Kilobytes => {
            assert(f.skip(f.len() - 3) =~= seq![' ', 'K', 'B']);
        },
    }
}

} // verus!
