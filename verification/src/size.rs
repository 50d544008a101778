//! Sizes: what `du` reports, and how a size is shown.

use crate::text;
use vstd::prelude::*;
use vstd::string::*;
use vstd::utf8::*;

verus! {

/// `n` in units of `unit`, to the nearest whole number, and to the even one of two as near.
pub open spec fn rounded(n: nat, unit: nat) -> nat
    recommends
        unit > 0,
{
    let q = n / unit;
    let rest = n % unit;
    if 2 * rest < unit || (2 * rest == unit && q % 2 == 0) {
        q
    } else {
        q + 1
    }
}

/// The distance between neighbouring numbers of 53 significant bits around `n`.
pub open spec fn granule(n: nat) -> nat
    decreases n,
{
    if n < 0x20_0000_0000_0000 {
        1
    } else {
        2 * granule(n / 2)
    }
}

/// `n` to 53 significant bits.
pub open spec fn approximate(n: nat) -> nat {
    rounded(n, granule(n)) * granule(n)
}

/// The place of the unit in which a size is shown: bytes, or a higher power of 1024, up to the
/// fourth.
pub open spec fn unit_place(n: nat) -> nat {
    if n < 0x400 {
        0
    } else if n < 0x10_0000 {
        1
    } else if n < 0x4000_0000 {
        2
    } else if n < 0x100_0000_0000 {
        3
    } else {
        4
    }
}

/// The number of bytes in a unit.
pub open spec fn unit_size(place: nat) -> nat {
    if place == 0 {
        1
    } else if place == 1 {
        0x400
    } else if place == 2 {
        0x10_0000
    } else if place == 3 {
        0x4000_0000
    } else {
        0x100_0000_0000
    }
}

/// The name of a unit.
pub open spec fn unit_name(place: nat) -> Seq<char> {
    if place == 0 {
        "B"@
    } else if place == 1 {
        "KiB"@
    } else if place == 2 {
        "MiB"@
    } else if place == 3 {
        "GiB"@
    } else {
        "TiB"@
    }
}

/// The tenths of a unit in a size.
pub open spec fn tenths(n: nat) -> nat {
    rounded(10 * n, unit_size(unit_place(n)))
}

/// A size as it is shown: with one decimal, in the largest unit of which it holds one.
pub open spec fn shown(bytes: nat) -> Seq<char> {
    let n = approximate(bytes);
    text::decimal(tenths(n) / 10) + "."@ + text::decimal(tenths(n) % 10) + " "@ + unit_name(
        unit_place(n),
    )
}

/// The size that the output of `du` reports: its first word, where the whole is text and that word
/// is a number, and nothing otherwise.
pub open spec fn reported(output: Seq<u8>) -> u64 {
    if valid_utf8(output) {
        match text::number(text::run(text::trimmed_front(decode_utf8(output)))) {
            Some(n) => n,
            None => 0,
        }
    } else {
        0
    }
}

/// Finds the distance between neighbouring numbers of 53 significant bits around `n`.
fn granule_of(n: u64) -> (g: u64)
    ensures
        g == granule(n as nat),
        1 <= g <= 0x1000,
        g > 1 ==> 0x10_0000_0000_0000 * g <= n,
    decreases n,
{
    if n < 0x20_0000_0000_0000 {
        1
    } else {
        proof {
            reveal_with_fuel(granule, 13);
        }
        let half = granule_of(n / 2);
        2 * half
    }
}

/// Rounds a quotient.
fn round(n: u128, unit: u128) -> (r: u128)
    requires
        0 < unit <= 0x100_0000_0000,
        n < 0x1_0000_0000_0000_0000_0000,
    ensures
        r == rounded(n as nat, unit as nat),
{
    let q: u128 = n / unit;
    let rest: u128 = n % unit;
    assert(q <= n) by (nonlinear_arith)
        requires
            q == n / unit,
            unit > 0,
    ;
    if 2 * rest < unit || (2 * rest == unit && q % 2 == 0) {
        q
    } else {
        q + 1
    }
}

/// Shows a size.
pub fn human(bytes: u64) -> (r: String)
    ensures
        r@ == shown(bytes as nat),
{
    let g: u128 = granule_of(bytes) as u128;
    let q: u128 = round(bytes as u128, g);
    proof {
        rounded_is_near(bytes as nat, g as nat);
    }
    let n: u128 = q * g;
    let (place, unit, name): (u8, u128, &'static str) = if n < 0x400 {
        (0, 1, "B")
    } else if n < 0x10_0000 {
        (1, 0x400, "KiB")
    } else if n < 0x4000_0000 {
        (2, 0x10_0000, "MiB")
    } else if n < 0x100_0000_0000 {
        (3, 0x4000_0000, "GiB")
    } else {
        (4, 0x100_0000_0000, "TiB")
    };
    let t: u128 = round(10 * n, unit);
    proof {
        rounded_is_near((10 * n) as nat, unit as nat);
        assert(place == unit_place(n as nat));
        assert(t <= u64::MAX) by (nonlinear_arith)
            requires
                t * unit <= 10 * n + unit,
                n <= 0x1_0000_0000_0001_0000,
                unit >= 1,
                n >= 0x100_0000_0000 ==> unit == 0x100_0000_0000,
        ;
    }
    let count: u64 = t as u64;
    let mut out = text::to_decimal(count / 10);
    out.append(".");
    out.append(text::to_decimal(count % 10).as_str());
    out.append(" ");
    out.append(name);
    out
}

/// Rounding moves a number by less than a unit, and not at all where it is a multiple of it.
proof fn rounded_is_near(n: nat, unit: nat)
    requires
        unit > 0,
    ensures
        n - unit < rounded(n, unit) * unit <= n + unit,
        unit == 1 ==> rounded(n, unit) == n,
{
    let q = n / unit;
    assert(n == q * unit + n % unit) by (nonlinear_arith)
        requires
            unit > 0,
            q == n / unit,
    ;
    assert((q + 1) * unit == q * unit + unit) by (nonlinear_arith);
    assert(0 <= n % unit < unit) by (nonlinear_arith)
        requires
            unit > 0,
    ;
}

/// The size of what lies at a place: what `du` reports of a directory, and nothing of anything
/// else or where `du` could not run.
pub fn bytes(is_dir: bool, du: Option<Vec<u8>>) -> (r: u64)
    ensures
        r == (if is_dir {
            match du {
                Some(output) => reported(output@),
                None => 0,
            }
        } else {
            0
        }),
{
    if !is_dir {
        return 0;
    }
    match du {
        None => 0,
        Some(output) => match text::decode(output) {
            Err(_) => 0,
            Ok(s) => {
                let word = text::first_word(s.as_str());
                match text::parse_number(word.as_slice()) {
                    Some(n) => n,
                    None => 0,
                }
            },
        },
    }
}

/// Rounding takes the nearest whole number, and of two as near the even one.
pub proof fn rounding_takes_the_nearest(n: nat, unit: nat)
    requires
        unit > 0,
    ensures
        2 * (rounded(n, unit) * unit) <= 2 * n + unit,
        2 * n <= 2 * (rounded(n, unit) * unit) + unit,
        2 * (rounded(n, unit) * unit) == 2 * n + unit || 2 * n == 2 * (rounded(n, unit) * unit)
            + unit ==> rounded(n, unit) % 2 == 0,
{
    let q = n / unit;
    let rest = n % unit;
    assert(n == q * unit + rest) by (nonlinear_arith)
        requires
            unit > 0,
            q == n / unit,
            rest == n % unit,
    ;
    assert((q + 1) * unit == q * unit + unit) by (nonlinear_arith);
    assert(0 <= rest < unit) by (nonlinear_arith)
        requires
            unit > 0,
            rest == n % unit,
    ;
}

/// The distance between numbers of 53 significant bits is a power of two that keeps the quotient
/// within 53 bits, and one where the number fits.
pub proof fn granule_keeps_the_significant_bits(n: nat)
    ensures
        granule(n) >= 1,
        n < 0x20_0000_0000_0000 ==> granule(n) == 1 && approximate(n) == n,
        n >= 0x20_0000_0000_0000 ==> 0x10_0000_0000_0000 * granule(n) <= n
            < 0x20_0000_0000_0000 * granule(n),
    decreases n,
{
    if n >= 0x20_0000_0000_0000 {
        granule_keeps_the_significant_bits(n / 2);
        let g = granule(n / 2);
        assert(granule(n) == 2 * g);
        if n / 2 < 0x20_0000_0000_0000 {
            assert(g == 1);
        }
        assert(0x10_0000_0000_0000 * granule(n) <= n < 0x20_0000_0000_0000 * granule(n)) by (
            nonlinear_arith)
            requires
                granule(n) == 2 * g,
                n >= 0x20_0000_0000_0000,
                n / 2 < 0x20_0000_0000_0000 ==> g == 1,
                n / 2 >= 0x20_0000_0000_0000 ==> 0x10_0000_0000_0000 * g <= n / 2
                    < 0x20_0000_0000_0000 * g,
        ;
    } else {
        rounded_is_near(n, 1);
    }
}

/// A size is shown as tenths of a unit, rounded to the nearest, with the unit's name; the unit is the
/// largest power of 1024, up to the fourth, of which the size holds one, and bytes below that.
pub proof fn size_is_shown_in_its_unit(n: nat)
    requires
        n < 0x20_0000_0000_0000,
    ensures
        n < 1024 ==> shown(n) == text::decimal(rounded(10 * n, 1) / 10) + "."@ + text::decimal(
            rounded(10 * n, 1) % 10,
        ) + " "@ + "B"@,
        1024 <= n < 1024 * 1024 ==> shown(n) == text::decimal(rounded(10 * n, 1024) / 10) + "."@
            + text::decimal(rounded(10 * n, 1024) % 10) + " "@ + "KiB"@,
        1024 * 1024 <= n < 1024 * 1024 * 1024 ==> shown(n) == text::decimal(
            rounded(10 * n, 1024 * 1024) / 10,
        ) + "."@ + text::decimal(rounded(10 * n, 1024 * 1024) % 10) + " "@ + "MiB"@,
        1024 * 1024 * 1024 <= n < 1024 * 1024 * 1024 * 1024 ==> shown(n) == text::decimal(
            rounded(10 * n, 1024 * 1024 * 1024) / 10,
        ) + "."@ + text::decimal(rounded(10 * n, 1024 * 1024 * 1024) % 10) + " "@ + "GiB"@,
        n >= 1024 * 1024 * 1024 * 1024 ==> shown(n) == text::decimal(
            rounded(10 * n, 1024 * 1024 * 1024 * 1024) / 10,
        ) + "."@ + text::decimal(rounded(10 * n, 1024 * 1024 * 1024 * 1024) % 10) + " "@ + "TiB"@,
{
    granule_keeps_the_significant_bits(n);
}

/// A first word ends where white space comes.
proof fn run_stops(word: Seq<char>, rest: Seq<char>)
    requires
        forall|i: int| 0 <= i < word.len() ==> !text::is_space(#[trigger] word[i]),
        rest.len() > 0 ==> text::is_space(rest[0]),
    ensures
        text::run(word + rest) == word,
    decreases word.len(),
{
    let s = word + rest;
    if word.len() > 0 {
        assert forall|i: int| 0 <= i < word.skip(1).len() implies !text::is_space(
            #[trigger] word.skip(1)[i],
        ) by {
            assert(word.skip(1)[i] == word[i + 1]);
        }
        run_stops(word.skip(1), rest);
        assert(s.skip(1) =~= word.skip(1) + rest);
        assert(s[0] == word[0]);
        assert(seq![word[0]] + word.skip(1) =~= word);
    } else {
        assert(s =~= rest);
        assert(text::run(s) =~= word);
    }
}

/// The size that is written at the beginning of an output, with nothing or white space behind it, is
/// what is reported, whatever follows; an output that is no text reports nothing.
pub proof fn reported_size_is_what_is_written(n: u64, rest: Seq<char>, output: Seq<u8>)
    requires
        rest.len() > 0 ==> text::is_space(rest[0]),
    ensures
        reported(encode_utf8(text::decimal(n as nat) + rest)) == n,
        !valid_utf8(output) ==> reported(output) == 0,
        valid_utf8(output) && text::number(
            text::run(text::trimmed_front(decode_utf8(output))),
        ) is None ==> reported(output) == 0,
{
    let word = text::decimal(n as nat);
    let s = word + rest;
    encode_utf8_valid_utf8(s);
    encode_utf8_decode_utf8(s);
    text::written_number_reads_back(n as nat);
    text::number_reads_what_was_written(n);
    assert forall|i: int| 0 <= i < word.len() implies !text::is_space(#[trigger] word[i]) by {
        assert('0' <= word[i] <= '9');
    }
    assert(s[0] == word[0]);
    assert(text::trimmed_front(s) == s);
    run_stops(word, rest);
}

} // verus!
