//! Sizes, counts and durations as people read them.

use crate::config::option_str_view;
use crate::path::{components, components_of, is_within, opens_with, texts};
use crate::text::{append_chars, append_str, chars_of, decimal, digit_char, push_decimal, text_of};
use vstd::prelude::*;

verus! {

/// The number of bytes in a kilobyte, as sizes are shown.
pub const KB: u64 = 1024;

/// The number of bytes in a megabyte.
pub const MB: u64 = 1024 * 1024;

/// The number of bytes in a gigabyte.
pub const GB: u64 = 1024 * 1024 * 1024;

/// The number of bytes in a terabyte.
pub const TB: u64 = 1024 * 1024 * 1024 * 1024;

/// The step in which floating-point numbers of 64 bits hold whole numbers
/// near `n`: they hold those below 2^53 exactly, and from there on every
/// doubling of the number doubles the step.
pub open spec fn float_step(n: nat) -> nat {
    if n < 0x20_0000_0000_0000 {
        1
    } else if n < 0x40_0000_0000_0000 {
        2
    } else if n < 0x80_0000_0000_0000 {
        4
    } else if n < 0x100_0000_0000_0000 {
        8
    } else if n < 0x200_0000_0000_0000 {
        16
    } else if n < 0x400_0000_0000_0000 {
        32
    } else if n < 0x800_0000_0000_0000 {
        64
    } else if n < 0x1000_0000_0000_0000 {
        128
    } else if n < 0x2000_0000_0000_0000 {
        256
    } else if n < 0x4000_0000_0000_0000 {
        512
    } else if n < 0x8000_0000_0000_0000 {
        1024
    } else {
        2048
    }
}

/// The quotient of `a` by `b`, rounded to the nearest whole number; to the
/// even one where two are equally near.
pub open spec fn rounded_quotient(a: nat, b: nat) -> nat {
    let q = a / b;
    let r = a % b;
    if 2 * r > b || (2 * r == b && q % 2 == 1) {
        q + 1
    } else {
        q
    }
}

/// The number of bytes as floating-point arithmetic of 64 bits takes it:
/// the nearest number that it can hold.
pub open spec fn as_float(bytes: u64) -> nat {
    let step = float_step(bytes as nat);
    rounded_quotient(bytes as nat, step) * step
}

/// The size in units with one decimal place, counted in tenths of the unit.
pub open spec fn tenths_of(bytes: u64, unit: u64) -> nat {
    rounded_quotient(as_float(bytes) * 10, unit as nat)
}

/// The size in units with two decimal places, counted in hundredths of the
/// unit.
pub open spec fn hundredths_of(bytes: u64, unit: u64) -> nat {
    rounded_quotient(as_float(bytes) * 100, unit as nat)
}

/// A number of tenths written with one decimal place.
pub open spec fn one_decimal(tenths: nat) -> Seq<char> {
    decimal(tenths / 10) + "."@ + seq![digit_char((tenths % 10) as int)]
}

/// A number of hundredths written with two decimal places.
pub open spec fn two_decimals(hundredths: nat) -> Seq<char> {
    decimal(hundredths / 100) + "."@ + seq![
        digit_char((hundredths / 10 % 10) as int),
        digit_char((hundredths % 10) as int),
    ]
}

/// A size as people read it: in bytes below a kilobyte, else in the largest
/// of kilobytes, megabytes, gigabytes and terabytes that it reaches, with
/// one decimal place.
pub open spec fn size_text(bytes: u64) -> Seq<char> {
    if bytes >= TB {
        one_decimal(tenths_of(bytes, TB)) + " TB"@
    } else if bytes >= GB {
        one_decimal(tenths_of(bytes, GB)) + " GB"@
    } else if bytes >= MB {
        one_decimal(tenths_of(bytes, MB)) + " MB"@
    } else if bytes >= KB {
        one_decimal(tenths_of(bytes, KB)) + " KB"@
    } else {
        decimal(bytes as nat) + " B"@
    }
}

/// The digits with a comma before every digit that has a multiple of three
/// digits from itself to the end, the first digit aside; here for the first
/// `n` digits.
pub open spec fn separated(digits: Seq<char>, n: int) -> Seq<char>
    decreases n,
{
    if n <= 0 {
        Seq::empty()
    } else {
        let before = separated(digits, n - 1);
        if n - 1 > 0 && (digits.len() - (n - 1)) % 3 == 0 {
            before + seq![',', digits[n - 1]]
        } else {
            before + seq![digits[n - 1]]
        }
    }
}

/// A count with commas between its thousands.
pub open spec fn number_text(n: u64) -> Seq<char> {
    separated(decimal(n as nat), decimal(n as nat).len() as int)
}

/// A duration as people read it: seconds below a minute, minutes and
/// seconds below an hour, else hours and minutes.
pub open spec fn duration_text(seconds: u64) -> Seq<char> {
    if seconds < 60 {
        decimal(seconds as nat) + "s"@
    } else if seconds < 3600 {
        decimal((seconds / 60) as nat) + "m "@ + decimal((seconds % 60) as nat) + "s"@
    } else {
        decimal((seconds / 3600) as nat) + "h "@ + decimal(((seconds % 3600) / 60) as nat) + "m"@
    }
}

fn step_of(n: u64) -> (r: u64)
    ensures
        r == float_step(n as nat),
        1 <= r <= 2048,
{
    if n < 0x20_0000_0000_0000 {
        1
    } else if n < 0x40_0000_0000_0000 {
        2
    } else if n < 0x80_0000_0000_0000 {
        4
    } else if n < 0x100_0000_0000_0000 {
        8
    } else if n < 0x200_0000_0000_0000 {
        16
    } else if n < 0x400_0000_0000_0000 {
        32
    } else if n < 0x800_0000_0000_0000 {
        64
    } else if n < 0x1000_0000_0000_0000 {
        128
    } else if n < 0x2000_0000_0000_0000 {
        256
    } else if n < 0x4000_0000_0000_0000 {
        512
    } else if n < 0x8000_0000_0000_0000 {
        1024
    } else {
        2048
    }
}

fn quotient_rounded(a: u128, b: u128) -> (r: u128)
    requires
        b > 0,
        a <= 0xffff_ffff_ffff_ffff_ffff,
        b <= 0xffff_ffff_ffff,
    ensures
        r == rounded_quotient(a as nat, b as nat),
        r <= a + 1,
{
    let q = a / b;
    let rest = a % b;
    proof {
        vstd::arithmetic::div_mod::lemma_fundamental_div_mod(a as int, b as int);
        vstd::arithmetic::div_mod::lemma_mod_pos_bound(a as int, b as int);
        vstd::arithmetic::div_mod::lemma_div_pos_is_pos(a as int, b as int);
        assert(q <= a) by (nonlinear_arith)
            requires
                a == b * q + rest,
                b > 0,
                q >= 0,
                rest >= 0,
        ;
    }
    if 2 * rest > b || (2 * rest == b && q % 2 == 1) {
        q + 1
    } else {
        q
    }
}

fn float_of(bytes: u64) -> (r: u128)
    ensures
        r == as_float(bytes),
        r <= 0x1_0000_0000_0000_0800,
{
    let step = step_of(bytes) as u128;
    let q = quotient_rounded(bytes as u128, step);
    proof {
        let n = bytes as int;
        let s = step as int;
        let d = n / s;
        vstd::arithmetic::div_mod::lemma_fundamental_div_mod(n, s);
        vstd::arithmetic::div_mod::lemma_mod_pos_bound(n, s);
        vstd::arithmetic::div_mod::lemma_div_pos_is_pos(n, s);
        assert(q <= d + 1);
        assert(q * s <= n + s) by (nonlinear_arith)
            requires
                q <= d + 1,
                s * d <= n,
                s > 0,
                q >= 0,
                d >= 0,
        ;
    }
    q * step
}

/// Appends a number of tenths written with one decimal place.
pub fn push_one_decimal(out: &mut Vec<char>, tenths: u128)
    requires
        tenths <= 0xffff_ffff_ffff_ffff_ffff,
        tenths / 10 <= u64::MAX,
    ensures
        final(out)@ == old(out)@ + one_decimal(tenths as nat),
{
    let ghost before = out@;
    push_decimal(out, (tenths / 10) as u64);
    append_str(out, ".");
    push_decimal(out, (tenths % 10) as u64);
    assert(decimal((tenths % 10) as nat) == seq![digit_char((tenths % 10) as int)]);
    assert(out@ == before + (decimal((tenths / 10) as nat) + "."@ + seq![
        digit_char((tenths % 10) as int),
    ]));
}

/// Appends a number of hundredths written with two decimal places.
pub fn push_two_decimals(out: &mut Vec<char>, hundredths: u128)
    requires
        hundredths <= 0xffff_ffff_ffff_ffff_ffff,
        hundredths / 100 <= u64::MAX,
    ensures
        final(out)@ == old(out)@ + two_decimals(hundredths as nat),
{
    let ghost before = out@;
    push_decimal(out, (hundredths / 100) as u64);
    append_str(out, ".");
    push_decimal(out, (hundredths / 10 % 10) as u64);
    push_decimal(out, (hundredths % 10) as u64);
    assert(decimal((hundredths / 10 % 10) as nat) == seq![
        digit_char((hundredths / 10 % 10) as int),
    ]);
    assert(decimal((hundredths % 10) as nat) == seq![digit_char((hundredths % 10) as int)]);
    assert(out@ == before + (decimal((hundredths / 100) as nat) + "."@ + seq![
        digit_char((hundredths / 10 % 10) as int),
        digit_char((hundredths % 10) as int),
    ]));
}

/// The size in units of at least 1024 bytes with one decimal place,
/// counted in tenths.
pub fn tenths(bytes: u64, unit: u64) -> (r: u128)
    requires
        unit >= 1024,
        unit <= TB,
    ensures
        r == tenths_of(bytes, unit),
        r / 10 <= u64::MAX,
        r <= 0xffff_ffff_ffff_ffff_ffff,
{
    let f = float_of(bytes);
    let r = quotient_rounded(f * 10, unit as u128);
    proof {
        let a = (f * 10) as int;
        let b = unit as int;
        vstd::arithmetic::div_mod::lemma_fundamental_div_mod(a, b);
        vstd::arithmetic::div_mod::lemma_mod_pos_bound(a, b);
        vstd::arithmetic::div_mod::lemma_div_pos_is_pos(a, b);
        assert(a / b <= a / 1024) by (nonlinear_arith)
            requires
                a == b * (a / b) + a % b,
                0 <= a % b,
                b >= 1024,
                a >= 0,
                a / b >= 0,
        ;
    }
    r
}

/// The size in units of at least 1024 bytes with two decimal places,
/// counted in hundredths.
pub fn hundredths(bytes: u64, unit: u64) -> (r: u128)
    requires
        unit >= 1024,
        unit <= TB,
    ensures
        r == hundredths_of(bytes, unit),
        r / 100 <= u64::MAX,
        r <= 0xffff_ffff_ffff_ffff_ffff,
{
    let f = float_of(bytes);
    let r = quotient_rounded(f * 100, unit as u128);
    proof {
        let a = (f * 100) as int;
        let b = unit as int;
        vstd::arithmetic::div_mod::lemma_fundamental_div_mod(a, b);
        vstd::arithmetic::div_mod::lemma_mod_pos_bound(a, b);
        vstd::arithmetic::div_mod::lemma_div_pos_is_pos(a, b);
        assert(a / b <= a / 1024) by (nonlinear_arith)
            requires
                a == b * (a / b) + a % b,
                0 <= a % b,
                b >= 1024,
                a >= 0,
                a / b >= 0,
        ;
    }
    r
}

/// A size as people read it, such as `1.5 KB`.
pub fn format_size(bytes: u64) -> (r: String)
    ensures
        r@ == size_text(bytes),
{
    let mut out: Vec<char> = Vec::new();
    assert(out@ + decimal(bytes as nat) == decimal(bytes as nat));
    if bytes >= TB {
        let t = tenths(bytes, TB);
        push_one_decimal(&mut out, t);
        assert(out@ == one_decimal(t as nat)) by {
            assert(Seq::<char>::empty() + one_decimal(t as nat) == one_decimal(t as nat));
        }
        append_str(&mut out, " TB");
    } else if bytes >= GB {
        let t = tenths(bytes, GB);
        push_one_decimal(&mut out, t);
        assert(out@ == one_decimal(t as nat)) by {
            assert(Seq::<char>::empty() + one_decimal(t as nat) == one_decimal(t as nat));
        }
        append_str(&mut out, " GB");
    } else if bytes >= MB {
        let t = tenths(bytes, MB);
        push_one_decimal(&mut out, t);
        assert(out@ == one_decimal(t as nat)) by {
            assert(Seq::<char>::empty() + one_decimal(t as nat) == one_decimal(t as nat));
        }
        append_str(&mut out, " MB");
    } else if bytes >= KB {
        let t = tenths(bytes, KB);
        push_one_decimal(&mut out, t);
        assert(out@ == one_decimal(t as nat)) by {
            assert(Seq::<char>::empty() + one_decimal(t as nat) == one_decimal(t as nat));
        }
        append_str(&mut out, " KB");
    } else {
        push_decimal(&mut out, bytes);
        append_str(&mut out, " B");
    }
    text_of(&out)
}

/// A count with commas between its thousands, such as `1,000,000`.
pub fn format_number(n: u64) -> (r: String)
    ensures
        r@ == number_text(n),
{
    let mut digits: Vec<char> = Vec::new();
    push_decimal(&mut digits, n);
    assert(digits@ == decimal(n as nat)) by {
        assert(Seq::<char>::empty() + decimal(n as nat) == decimal(n as nat));
    }
    let len = digits.len();
    let mut out: Vec<char> = Vec::new();
    let mut i: usize = 0;
    while i < len
        invariant
            i <= len,
            len == digits.len(),
            out@ == separated(digits@, i as int),
        decreases len - i,
    {
        let ghost before = out@;
        if i > 0 && (len - i) % 3 == 0 {
            out.push(',');
            out.push(digits[i]);
            assert(out@ == before + seq![',', digits@[i as int]]);
        } else {
            out.push(digits[i]);
            assert(out@ == before + seq![digits@[i as int]]);
        }
        i += 1;
    }
    text_of(&out)
}

/// A duration in seconds as people read it, such as `2m 5s`.
pub fn format_duration(seconds: u64) -> (r: String)
    ensures
        r@ == duration_text(seconds),
{
    let mut out: Vec<char> = Vec::new();
    if seconds < 60 {
        push_decimal(&mut out, seconds);
        assert(out@ == decimal(seconds as nat)) by {
            assert(Seq::<char>::empty() + decimal(seconds as nat) == decimal(seconds as nat));
        }
        append_str(&mut out, "s");
    } else if seconds < 3600 {
        push_decimal(&mut out, seconds / 60);
        assert(out@ == decimal((seconds / 60) as nat)) by {
            assert(Seq::<char>::empty() + decimal((seconds / 60) as nat) == decimal(
                (seconds / 60) as nat,
            ));
        }
        append_str(&mut out, "m ");
        push_decimal(&mut out, seconds % 60);
        append_str(&mut out, "s");
    } else {
        push_decimal(&mut out, seconds / 3600);
        assert(out@ == decimal((seconds / 3600) as nat)) by {
            assert(Seq::<char>::empty() + decimal((seconds / 3600) as nat) == decimal(
                (seconds / 3600) as nat,
            ));
        }
        append_str(&mut out, "h ");
        push_decimal(&mut out, (seconds % 3600) / 60);
        append_str(&mut out, "m");
    }
    text_of(&out)
}

/// The components with a `/` between each two.
pub open spec fn slashed(comps: Seq<Seq<char>>) -> Seq<char>
    decreases comps.len(),
{
    if comps.len() == 0 {
        Seq::empty()
    } else if comps.len() == 1 {
        comps[0]
    } else {
        slashed(comps.drop_last()) + seq!['/'] + comps.last()
    }
}

/// A path as people read it: a path in the home directory is written from
/// `~`, with its components below the home directory behind it; any other
/// path is written as it is.
pub open spec fn path_text(path: Seq<char>, home: Option<Seq<char>>) -> Seq<char> {
    match home {
        Some(h) => if is_within(path, h) {
            "~/"@ + slashed(components(path).skip(components(h).len() as int))
        } else {
            path
        },
        None => path,
    }
}

/// A path as people read it, with the home directory written as `~`.
pub fn format_path(path: &str, home: Option<&str>) -> (r: String)
    ensures
        r@ == path_text(path@, option_str_view(home)),
{
    let home = match home {
        Some(h) => h,
        None => {
            return text_of(&chars_of(path));
        },
    };
    let parts = components_of(path);
    let base = components_of(home);
    if !opens_with(&parts, &base) {
        return text_of(&chars_of(path));
    }
    let ghost rest = texts(parts@).skip(base.len() as int);
    let mut out: Vec<char> = Vec::new();
    append_str(&mut out, "~/");
    assert(out@ == "~/"@);
    let mut i: usize = base.len();
    assert(rest.take(0) == Seq::<Seq<char>>::empty());
    while i < parts.len()
        invariant
            base.len() <= i <= parts.len(),
            rest == texts(parts@).skip(base.len() as int),
            out@ == "~/"@ + slashed(rest.take(i - base.len())),
        decreases parts.len() - i,
    {
        let ghost k = i - base.len();
        proof {
            assert(rest.take(k + 1).drop_last() == rest.take(k));
            assert(rest.take(k + 1).last() == parts@[i as int]@);
            assert(rest.take(k + 1)[0] == rest[0]);
        }
        if i > base.len() {
            out.push('/');
            assert(out@ == "~/"@ + slashed(rest.take(k)) + seq!['/']);
        }
        append_chars(&mut out, &parts[i]);
        proof {
            if k == 0 {
                assert(slashed(rest.take(1)) == rest[0]);
                assert(slashed(rest.take(0)) == Seq::<char>::empty());
                assert("~/"@ + Seq::<char>::empty() + rest[0] == "~/"@ + rest[0]);
            } else {
                assert(out@ == "~/"@ + (slashed(rest.take(k)) + seq!['/'] + rest[k]));
            }
        }
        i += 1;
    }
    assert(rest.take(parts.len() - base.len()) == rest);
    text_of(&out)
}

} // verus!
