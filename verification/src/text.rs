//! Building the text that logs, status lines and messages carry.
use vstd::prelude::*;

verus! {

/// The character of a decimal digit.
pub open spec fn digit(d: int) -> char {
    (48 + d) as char
}

/// A number in decimal, without leading zeros.
pub open spec fn decimal(n: nat) -> Seq<char>
    decreases n,
{
    if n < 10 {
        seq![digit(n as int)]
    } else {
        decimal(n / 10).push(digit((n % 10) as int))
    }
}

/// A number in decimal, with a minus sign where it is negative.
pub open spec fn signed_decimal(n: int) -> Seq<char> {
    if n < 0 {
        seq!['-'] + decimal((-n) as nat)
    } else {
        decimal(n as nat)
    }
}

/// The character of a hexadecimal digit, in lower case.
pub open spec fn hex_digit(d: int) -> char {
    if d < 10 {
        (48 + d) as char
    } else {
        (87 + d) as char
    }
}

/// A byte as two hexadecimal digits.
pub open spec fn hex_byte(b: u8) -> Seq<char> {
    seq![hex_digit(b as int / 16), hex_digit(b as int % 16)]
}

/// Append `n` in decimal.
pub fn push_decimal(out: &mut String, n: u64)
    ensures
        final(out)@ == old(out)@ + decimal(n as nat),
    decreases n,
{
    if n >= 10 {
        push_decimal(out, n / 10);
    }
    let d: usize = (n % 10) as usize;
    let digits = "0123456789";
    proof {
        reveal_strlit("0123456789");
    }
    out.append(digits.substring_char(d, d + 1));
    proof {
        assert(digits@.subrange(d as int, d + 1) =~= seq![digit(d as int)]);
        if n >= 10 {
            assert(decimal(n as nat / 10).push(digit(d as int)) =~= decimal(n as nat / 10)
                + seq![digit(d as int)]);
        }
        assert(out@ =~= old(out)@ + decimal(n as nat));
    }
}

/// Append `n` in decimal, with its sign.
pub fn push_signed(out: &mut String, n: i64)
    ensures
        final(out)@ == old(out)@ + signed_decimal(n as int),
{
    if n < 0 {
        out.append("-");
        proof {
            reveal_strlit("-");
        }
        let magnitude: u64 = (-(n as i128)) as u64;
        push_decimal(out, magnitude);
        assert("-"@ =~= seq!['-']);
        assert(out@ =~= old(out)@ + (seq!['-'] + decimal((-n) as nat)));
    } else {
        push_decimal(out, n as u64);
    }
}

/// Append a byte as two hexadecimal digits.
pub fn push_hex_byte(out: &mut String, b: u8)
    ensures
        final(out)@ == old(out)@ + hex_byte(b),
{
    let hi: usize = (b / 16) as usize;
    let lo: usize = (b % 16) as usize;
    let digits = "0123456789abcdef";
    proof {
        reveal_strlit("0123456789abcdef");
    }
    out.append(digits.substring_char(hi, hi + 1));
    out.append(digits.substring_char(lo, lo + 1));
    assert(digits@.subrange(hi as int, hi + 1) =~= seq![hex_digit(hi as int)]);
    assert(digits@.subrange(lo as int, lo + 1) =~= seq![hex_digit(lo as int)]);
    assert(out@ =~= old(out)@ + hex_byte(b));
}

/// The digits of `f` in `scale` parts, as they stand behind a decimal point:
/// without trailing zeros.
pub open spec fn fraction(f: nat, scale: nat) -> Seq<char>
    decreases scale,
{
    if f == 0 || scale < 10 {
        Seq::empty()
    } else {
        seq![digit((f / (scale / 10)) as int)] + fraction(f % (scale / 10), scale / 10)
    }
}

/// A number of units, each of `scale` parts, with its fraction where it has
/// one.
pub open spec fn with_fraction(parts: nat, scale: nat) -> Seq<char> {
    if parts % scale == 0 {
        decimal(parts / scale)
    } else {
        decimal(parts / scale) + seq!['.'] + fraction(parts % scale, scale)
    }
}

/// A time in the largest of the units seconds, milliseconds, microseconds and
/// nanoseconds that it has one of.
pub open spec fn duration_text(ns: nat) -> Seq<char> {
    if ns >= 1_000_000_000 {
        with_fraction(ns, 1_000_000_000) + "s"@
    } else if ns >= 1_000_000 {
        with_fraction(ns, 1_000_000) + "ms"@
    } else if ns >= 1_000 {
        with_fraction(ns, 1_000) + "µs"@
    } else {
        decimal(ns) + "ns"@
    }
}

fn push_with_fraction(out: &mut String, parts: u64, scale: u64)
    requires
        scale == 1_000 || scale == 1_000_000 || scale == 1_000_000_000,
    ensures
        final(out)@ == old(out)@ + with_fraction(parts as nat, scale as nat),
{
    push_decimal(out, parts / scale);
    let mut f: u64 = parts % scale;
    if f == 0 {
        return;
    }
    out.append(".");
    proof {
        reveal_strlit(".");
        assert("."@ =~= seq!['.']);
    }
    let ghost head = out@;
    let ghost all = fraction(f as nat, scale as nat);
    let mut unit: u64 = scale;
    let digits = "0123456789";
    assert(head + all =~= out@ + all);
    while f > 0 && unit >= 10
        invariant
            0 < unit <= 1_000_000_000,
            f < unit,
            unit == 1 || unit == 10 || unit == 100 || unit == 1_000 || unit == 10_000 || unit
                == 100_000 || unit == 1_000_000 || unit == 10_000_000 || unit == 100_000_000
                || unit == 1_000_000_000,
            digits@ == "0123456789"@,
            head + all == out@ + fraction(f as nat, unit as nat),
        decreases unit,
    {
        let tenth: u64 = unit / 10;
        assert(unit == 10 * tenth);
        assert(f / tenth < 10) by (nonlinear_arith)
            requires
                f < 10 * tenth,
                tenth > 0,
        ;
        let d: usize = (f / tenth) as usize;
        proof {
            reveal_strlit("0123456789");
        }
        let ghost before = out@;
        out.append(digits.substring_char(d, d + 1));
        proof {
            assert(digits@.subrange(d as int, d + 1) =~= seq![digit(d as int)]);
            assert(before + fraction(f as nat, unit as nat) =~= out@ + fraction(
                (f % (unit / 10)) as nat,
                (unit / 10) as nat,
            ));
        }
        f = f % (unit / 10);
        unit = unit / 10;
    }
    assert(fraction(f as nat, unit as nat) =~= Seq::<char>::empty());
    assert(out@ =~= head + all);
    assert(out@ =~= old(out)@ + with_fraction(parts as nat, scale as nat));
}

/// Append a time given in nanoseconds.
pub fn push_duration(out: &mut String, ns: u64)
    ensures
        final(out)@ == old(out)@ + duration_text(ns as nat),
{
    if ns >= 1_000_000_000 {
        push_with_fraction(out, ns, 1_000_000_000);
        out.append("s");
    } else if ns >= 1_000_000 {
        push_with_fraction(out, ns, 1_000_000);
        out.append("ms");
    } else if ns >= 1_000 {
        push_with_fraction(out, ns, 1_000);
        out.append("µs");
    } else {
        push_decimal(out, ns);
        out.append("ns");
    }
    assert(out@ =~= old(out)@ + duration_text(ns as nat));
}

/// A text as the standard library quotes it for people: in double quotes, with
/// what could be mistaken escaped.
pub uninterp spec fn debug_form(s: Seq<char>) -> Seq<char>;

/// Calls `format!` with `{:?}` on a string slice. The contract claims only that
/// what comes back is a function of the text: the form that `debug_form` names.
#[verifier::external_body]
pub(crate) fn quoted(s: &str) -> (q: String)
    ensures
        q@ == debug_form(s@),
{
    format!("{:?}", s)
}

/// `name` in the directory `dir`: a slash goes between them unless `dir` is
/// empty or ends in one.
pub open spec fn joined(dir: Seq<char>, name: Seq<char>) -> Seq<char> {
    if dir.len() == 0 || dir.last() == '/' {
        dir + name
    } else {
        dir + seq!['/'] + name
    }
}

/// The path of `name`, a relative path, in the directory `dir`.
pub fn join_path(dir: &str, name: &str) -> (path: String)
    ensures
        path@ == joined(dir@, name@),
{
    let mut path: String = String::from_str(dir);
    let n: usize = dir.unicode_len();
    if n > 0 && dir.get_char(n - 1) != '/' {
        path.append("/");
        proof {
            reveal_strlit("/");
            assert("/"@ =~= seq!['/']);
        }
    }
    path.append(name);
    path
}

/// Whether `s` starts with `prefix`.
pub fn starts_with(s: &str, prefix: &str) -> (r: bool)
    ensures
        r == prefix@.is_prefix_of(s@),
{
    let n: usize = prefix.unicode_len();
    if n > s.unicode_len() {
        return false;
    }
    let mut i: usize = 0;
    while i < n
        invariant
            i <= n,
            n == prefix@.len(),
            n <= s@.len(),
            forall|k: int| 0 <= k < i ==> s@[k] == prefix@[k],
        decreases n - i,
    {
        if s.get_char(i) != prefix.get_char(i) {
            assert(prefix@ != s@.subrange(0, n as int)) by {
                assert(s@.subrange(0, n as int)[i as int] == s@[i as int]);
            }
            return false;
        }
        i = i + 1;
    }
    assert(prefix@ =~= s@.subrange(0, n as int));
    true
}

/// Whether the two texts are the same.
pub fn same_text(a: &str, b: &str) -> (r: bool)
    ensures
        r == (a@ == b@),
{
    if a.unicode_len() != b.unicode_len() {
        return false;
    }
    let r: bool = starts_with(a, b);
    assert(a@.subrange(0, a@.len() as int) =~= a@);
    r
}

/// The value of a hexadecimal digit.
pub open spec fn hex_value(c: char) -> int {
    if c <= '9' {
        c as int - '0' as int
    } else {
        c as int - 'a' as int + 10
    }
}

/// Two hexadecimal digits read back as the byte, the high one first, and are
/// digits or small letters up to f.
pub proof fn law_a_hex_byte_reads_back(b: u8)
    ensures
        hex_byte(b).len() == 2,
        16 * hex_value(hex_byte(b)[0]) + hex_value(hex_byte(b)[1]) == b,
        forall|i: int|
            0 <= i < 2 ==> '0' <= (#[trigger] hex_byte(b)[i]) <= '9' || 'a' <= hex_byte(b)[i]
                <= 'f',
{
    assert(hex_value(hex_byte(b)[0]) == b as int / 16);
    assert(hex_value(hex_byte(b)[1]) == b as int % 16);
}

/// A path in a directory is the directory and then the name, with one slash
/// between them where there is a directory that does not end in one.
pub proof fn law_a_joined_path_has_one_slash(dir: Seq<char>, name: Seq<char>)
    ensures
        ({
            let path = joined(dir, name);
            let slash: int = if dir.len() == 0 || dir[dir.len() - 1] == '/' {
                0
            } else {
                1
            };
            &&& path.len() == dir.len() + slash + name.len()
            &&& path.take(dir.len() as int) == dir
            &&& path.skip(dir.len() + slash) == name
            &&& dir.len() > 0 ==> path[dir.len() + slash - 1] == '/'
        }),
{
    let path = joined(dir, name);
    assert(path.take(dir.len() as int) =~= dir);
    if dir.len() == 0 || dir.last() == '/' {
        assert(path.skip(dir.len() as int) =~= name);
    } else {
        assert(path.skip(dir.len() + 1int) =~= name);
    }
}

/// What digits behind a decimal point are worth, in parts of which there are
/// `scale` in a whole.
pub open spec fn fraction_value(digits: Seq<char>, scale: nat) -> int
    decreases digits.len(),
{
    if digits.len() == 0 {
        0
    } else {
        (digits[0] as int - '0' as int) * (scale / 10) + fraction_value(
            digits.drop_first(),
            scale / 10,
        )
    }
}

/// The digits behind the point are worth the fraction that they show, and the
/// last of them is not a zero.
pub proof fn law_a_fraction_reads_back(f: nat, scale: nat)
    requires
        f < scale,
        scale == 1 || scale == 10 || scale == 100 || scale == 1_000 || scale == 10_000 || scale
            == 100_000 || scale == 1_000_000 || scale == 10_000_000 || scale == 100_000_000 || scale
            == 1_000_000_000,
    ensures
        fraction_value(fraction(f, scale), scale) == f,
        f == 0 <==> fraction(f, scale).len() == 0,
        f > 0 ==> fraction(f, scale).last() != '0',
        forall|i: int|
            0 <= i < fraction(f, scale).len() ==> '0' <= (#[trigger] fraction(f, scale)[i]) <= '9',
    decreases scale,
{
    if f > 0 && scale >= 10 {
        let tenth = scale / 10;
        let d = f / tenth;
        let rest = f % tenth;
        assert(scale == 10 * tenth);
        assert(d < 10) by (nonlinear_arith)
            requires
                f < 10 * tenth,
                d == f / tenth,
                tenth > 0,
        ;
        vstd::arithmetic::div_mod::lemma_fundamental_div_mod(f as int, tenth as int);
        law_a_fraction_reads_back(rest, tenth);
        let all = fraction(f, scale);
        assert(all.drop_first() =~= fraction(rest, tenth));
        assert(all[0] as int - '0' as int == d);
        assert(d * tenth == tenth * d) by (nonlinear_arith);
        if rest == 0 {
            assert(d > 0) by (nonlinear_arith)
                requires
                    f == tenth * d + rest,
                    rest == 0,
                    f > 0,
            ;
            assert(all.len() == 1);
        } else {
            assert(all.last() == fraction(rest, tenth).last());
        }
        assert forall|i: int| 0 <= i < all.len() implies '0' <= (#[trigger] all[i]) <= '9' by {
            if i > 0 {
                assert(all[i] == fraction(rest, tenth)[i - 1]);
            }
        }
    }
}

/// A time is shown in the largest unit that it has one of: a second is a
/// thousand milliseconds, each a thousand microseconds, each a thousand
/// nanoseconds. Before the unit stand its whole units and its fraction.
pub proof fn law_a_duration_names_its_unit(whole: nat, f: nat)
    ensures
        f < 1_000_000_000 && whole > 0 ==> duration_text(whole * 1_000_000_000 + f) == decimal(
            whole,
        ) + (if f == 0 {
            Seq::empty()
        } else {
            seq!['.'] + fraction(f, 1_000_000_000)
        }) + "s"@,
        f < 1_000_000 && 0 < whole < 1_000 ==> duration_text(whole * 1_000_000 + f) == decimal(
            whole,
        ) + (if f == 0 {
            Seq::empty()
        } else {
            seq!['.'] + fraction(f, 1_000_000)
        }) + "ms"@,
        f < 1_000 && 0 < whole < 1_000 ==> duration_text(whole * 1_000 + f) == decimal(whole) + (
        if f == 0 {
            Seq::empty()
        } else {
            seq!['.'] + fraction(f, 1_000)
        }) + "\u{b5}s"@,
        whole < 1_000 ==> duration_text(whole) == decimal(whole) + "ns"@,
{
    lemma_units_and_parts(whole, f, 1_000_000_000);
    lemma_units_and_parts(whole, f, 1_000_000);
    lemma_units_and_parts(whole, f, 1_000);
}

proof fn lemma_units_and_parts(whole: nat, f: nat, scale: nat)
    requires
        scale == 1_000 || scale == 1_000_000 || scale == 1_000_000_000,
    ensures
        f < scale ==> with_fraction(whole * scale + f, scale) == decimal(whole) + (if f == 0 {
            Seq::empty()
        } else {
            seq!['.'] + fraction(f, scale)
        }),
{
    if f < scale {
        let parts = whole * scale + f;
        vstd::arithmetic::div_mod::lemma_fundamental_div_mod_converse(
            parts as int,
            scale as int,
            whole as int,
            f as int,
        );
        assert(with_fraction(parts, scale) =~= decimal(whole) + (if f == 0 {
            Seq::empty()
        } else {
            seq!['.'] + fraction(f, scale)
        }));
    }
}

/// `t` ends with `s`.
pub open spec fn ends_with(t: Seq<char>, s: Seq<char>) -> bool {
    t.len() >= s.len() && t.skip(t.len() - s.len()) == s
}

/// `t` begins with `s`.
pub open spec fn begins_with(t: Seq<char>, s: Seq<char>) -> bool {
    t.len() >= s.len() && t.take(s.len() as int) == s
}

/// What is put behind a text ends it, and the text begins it.
pub proof fn lemma_put_together(a: Seq<char>, b: Seq<char>)
    ensures
        begins_with(a + b, a),
        ends_with(a + b, b),
{
    assert((a + b).take(a.len() as int) =~= a);
    assert((a + b).skip(a.len() as int) =~= b);
}

} // verus!
