//! Decimal rendering of counts and durations.

use vstd::prelude::*;

use crate::chars::string_from_chars;

verus! {

/// The character of a decimal digit.
pub open spec fn digit_char(d: nat) -> char
    recommends
        d < 10,
{
    ((d + 48) as u8) as char
}

/// The decimal representation of `n`, without leading zeros.
pub open spec fn decimal(n: nat) -> Seq<char>
    decreases n,
{
    if n < 10 {
        seq![digit_char(n)]
    } else {
        decimal(n / 10).push(digit_char(n % 10))
    }
}

/// `n` in decimal, padded with a leading zero to at least two digits.
pub open spec fn decimal_two(n: nat) -> Seq<char> {
    if n < 10 {
        seq!['0'].add(decimal(n))
    } else {
        decimal(n)
    }
}

fn digit(d: u64) -> (c: char)
    requires
        d < 10,
    ensures
        c == digit_char(d as nat),
{
    let b: u8 = (d as u8) + 48;
    b as char
}

fn push_decimal(n: u64, out: &mut Vec<char>)
    ensures
        final(out)@ == old(out)@ + decimal(n as nat),
    decreases n,
{
    if n >= 10 {
        push_decimal(n / 10, out);
    }
    out.push(digit(n % 10));
    proof {
        if n >= 10 {
            assert(decimal(n as nat) == decimal((n / 10) as nat).push(digit_char((n % 10) as nat)));
        }
    }
}

/// `n` written in decimal.
pub fn decimal_string(n: u64) -> (s: String)
    ensures
        s@ == decimal(n as nat),
{
    let mut out: Vec<char> = Vec::new();
    push_decimal(n, &mut out);
    assert(out@ =~= decimal(n as nat));
    string_from_chars(&out)
}

/// The label of a playback duration given in seconds: minutes, a colon,
/// and the seconds as two digits.
pub open spec fn duration_label_spec(seconds: nat) -> Seq<char> {
    decimal(seconds / 60) + seq![':'] + decimal_two(seconds % 60)
}

/// Formats a duration in seconds as `m:ss`.
pub fn duration_label(seconds: u64) -> (s: String)
    ensures
        s@ == duration_label_spec(seconds as nat),
{
    let mut out: Vec<char> = Vec::new();
    push_decimal(seconds / 60, &mut out);
    out.push(':');
    let secs = seconds % 60;
    if secs < 10 {
        out.push('0');
    }
    push_decimal(secs, &mut out);
    assert(out@ =~= duration_label_spec(seconds as nat));
    string_from_chars(&out)
}

/// The label of the avatars that did not fit: a plus sign and their number.
pub open spec fn overflow_label_spec(total: nat, shown_max: nat) -> Option<Seq<char>> {
    if total > shown_max {
        Some(seq!['+'] + decimal((total - shown_max) as nat))
    } else {
        None
    }
}

/// Of `total` avatars at most `shown_max` are drawn; the rest are summed up
/// as `+k`, and nothing is added when all fit.
pub fn overflow_label(total: usize, shown_max: usize) -> (r: Option<String>)
    ensures
        match r {
            Some(s) => overflow_label_spec(total as nat, shown_max as nat) == Some(s@),
            None => overflow_label_spec(total as nat, shown_max as nat) is None,
        },
{
    if total > shown_max {
        let mut out: Vec<char> = Vec::new();
        out.push('+');
        push_decimal((total - shown_max) as u64, &mut out);
        assert(out@ =~= seq!['+'] + decimal((total - shown_max) as nat));
        Some(string_from_chars(&out))
    } else {
        None
    }
}

/// The unit family that file sizes are written in.
pub enum DataSizeUnit {
    Bytes,
    Mibibytes,
    Bits,
}

/// The amount counted: bytes, or bits for the bit units.
pub open spec fn size_amount(bytes: nat, unit: DataSizeUnit) -> nat {
    match unit {
        DataSizeUnit::Bits => bytes * 8,
        _ => bytes,
    }
}

/// The largest step of 1024, up to the fourth, that the amount reaches.
pub open spec fn size_step(amount: nat) -> nat {
    if amount >= 1_099_511_627_776 {
        4
    } else if amount >= 1_073_741_824 {
        3
    } else if amount >= 1_048_576 {
        2
    } else if amount >= 1024 {
        1
    } else {
        0
    }
}

pub open spec fn size_label(unit: DataSizeUnit, step: nat) -> Seq<char> {
    match unit {
        DataSizeUnit::Bytes => if step == 0 { "B"@ } else if step == 1 { "KB"@ } else if step == 2 {
            "MB"@
        } else if step == 3 { "GB"@ } else { "TB"@ },
        DataSizeUnit::Mibibytes => if step == 0 { "B"@ } else if step == 1 { "KiB"@ } else if step == 2 {
            "MiB"@
        } else if step == 3 { "GiB"@ } else { "TiB"@ },
        DataSizeUnit::Bits => if step == 0 { "b"@ } else if step == 1 { "Kb"@ } else if step == 2 {
            "Mb"@
        } else if step == 3 { "Gb"@ } else { "Tb"@ },
    }
}

/// How a file size is written: the amount counted, how many times it is
/// divided by 1024, and the unit's label.
pub struct SizeParts {
    pub amount: u128,
    pub step: usize,
    pub label: String,
    /// The whole text where no division happens: the amount and the label.
    pub whole: Option<String>,
}

/// Splits a size in bytes into what its text is made of. Below 1024 the
/// text is the amount and the label; above, the amount is divided by
/// 1024 once per step, at most four times, and written with two decimals.
pub fn size_parts(bytes: u64, unit: &DataSizeUnit) -> (p: SizeParts)
    ensures
        p.amount == size_amount(bytes as nat, *unit),
        p.step == size_step(p.amount as nat),
        p.label@ == size_label(*unit, p.step as nat),
        match p.whole {
            Some(w) => p.step == 0 && w@ == decimal(p.amount as nat) + " "@ + p.label@,
            None => p.step != 0,
        },
{
    let amount: u128 = match unit {
        DataSizeUnit::Bits => bytes as u128 * 8,
        _ => bytes as u128,
    };
    let step: usize = if amount >= 1_099_511_627_776 {
        4
    } else if amount >= 1_073_741_824 {
        3
    } else if amount >= 1_048_576 {
        2
    } else if amount >= 1024 {
        1
    } else {
        0
    };
    let label = match unit {
        DataSizeUnit::Bytes => if step == 0 { String::from_str("B") } else if step == 1 {
            String::from_str("KB")
        } else if step == 2 { String::from_str("MB") } else if step == 3 {
            String::from_str("GB")
        } else { String::from_str("TB") },
        DataSizeUnit::Mibibytes => if step == 0 { String::from_str("B") } else if step == 1 {
            String::from_str("KiB")
        } else if step == 2 { String::from_str("MiB") } else if step == 3 {
            String::from_str("GiB")
        } else { String::from_str("TiB") },
        DataSizeUnit::Bits => if step == 0 { String::from_str("b") } else if step == 1 {
            String::from_str("Kb")
        } else if step == 2 { String::from_str("Mb") } else if step == 3 {
            String::from_str("Gb")
        } else { String::from_str("Tb") },
    };
    let whole = if step == 0 {
        let mut w = decimal_string(amount as u64);
        w.append(" ");
        w.append(label.as_str());
        Some(w)
    } else {
        None
    };
    SizeParts { amount, step, label, whole }
}

} // verus!
