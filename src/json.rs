//! Encoding of the JSON pieces that a trace is made of: decimal numbers,
//! microsecond timestamps and escaped string contents.
use vstd::prelude::*;

verus! {

/// The ASCII digit for `d`, where `d < 10`.
pub open spec fn digit(d: nat) -> u8 {
    (48 + d) as u8
}

/// The shortest decimal representation of `n`.
pub open spec fn decimal(n: nat) -> Seq<u8>
    decreases n,
{
    if n < 10 {
        seq![digit(n)]
    } else {
        decimal(n / 10).push(digit(n % 10))
    }
}

/// Appends the decimal representation of `n` to `out`.
pub fn write_decimal(out: &mut Vec<u8>, n: u128)
    ensures
        final(out)@ == old(out)@ + decimal(n as nat),
    decreases n,
{
    if n < 10 {
        out.push((48 + n) as u8);
        assert(decimal(n as nat) =~= seq![digit(n as nat)]);
    } else {
        write_decimal(out, n / 10);
        out.push((48 + n % 10) as u8);
        assert(decimal(n as nat) =~= decimal((n / 10) as nat).push(digit((n % 10) as nat)));
    }
}

/// The digits of a sub-microsecond remainder `r` (`0 < r < 1000`), as three
/// places after a decimal point with the trailing zeros left out.
pub open spec fn fraction(r: nat) -> Seq<u8> {
    if r % 100 == 0 {
        seq![digit(r / 100)]
    } else if r % 10 == 0 {
        seq![digit(r / 100), digit((r / 10) % 10)]
    } else {
        seq![digit(r / 100), digit((r / 10) % 10), digit(r % 10)]
    }
}

/// A duration of `ns` nanoseconds written in microseconds: the whole part, and
/// where there is a remainder, a point and its digits.
pub open spec fn micros(ns: nat) -> Seq<u8> {
    if ns % 1000 == 0 {
        decimal(ns / 1000)
    } else {
        decimal(ns / 1000) + seq![46u8] + fraction(ns % 1000)
    }
}

/// Appends `ns` nanoseconds, written in microseconds, to `out`.
pub fn write_micros(out: &mut Vec<u8>, ns: u128)
    ensures
        final(out)@ == old(out)@ + micros(ns as nat),
{
    write_decimal(out, ns / 1000);
    let r = ns % 1000;
    if r != 0 {
        out.push(46u8);
        out.push((48 + r / 100) as u8);
        if r % 100 != 0 {
            out.push((48 + (r / 10) % 10) as u8);
            if r % 10 != 0 {
                out.push((48 + r % 10) as u8);
            }
        }
    }
    assert(final(out)@ =~= old(out)@ + micros(ns as nat));
}

/// The lower-case hexadecimal digit for `d`, where `d < 16`.
pub open spec fn hex_digit(d: nat) -> u8 {
    if d < 10 {
        (48 + d) as u8
    } else {
        (87 + d) as u8
    }
}

/// How one byte of a string's contents is written inside a JSON string: a
/// quote and a backslash behind a backslash, a control character as a
/// `\u00XX` escape, any other byte as it is.
pub open spec fn escape_byte(b: u8) -> Seq<u8> {
    if b == 34 {
        seq![92u8, 34u8]
    } else if b == 92 {
        seq![92u8, 92u8]
    } else if b < 32 {
        seq![92u8, 117u8, 48u8, 48u8, hex_digit(b as nat / 16), hex_digit(b as nat % 16)]
    } else {
        seq![b]
    }
}

/// The contents `s` of a string, escaped for a JSON string.
pub open spec fn escaped(s: Seq<u8>) -> Seq<u8>
    decreases s.len(),
{
    if s.len() == 0 {
        Seq::empty()
    } else {
        escaped(s.drop_last()) + escape_byte(s.last())
    }
}

/// Appends the escaped form of `s` to `out`.
pub fn write_escaped(out: &mut Vec<u8>, s: &[u8])
    ensures
        final(out)@ == old(out)@ + escaped(s@),
{
    let ghost start = out@;
    let mut i: usize = 0;
    while i < s.len()
        invariant
            i <= s@.len(),
            out@ == start + escaped(s@.take(i as int)),
        decreases s@.len() - i,
    {
        let b = s[i];
        if b == 34u8 {
            out.push(92u8);
            out.push(34u8);
        } else if b == 92u8 {
            out.push(92u8);
            out.push(92u8);
        } else if b < 32 {
            out.push(92u8);
            out.push(117u8);
            out.push(48u8);
            out.push(48u8);
            out.push(48u8 + b / 16);
            let lo = b % 16;
            if lo < 10 {
                out.push(48u8 + lo);
            } else {
                out.push(97u8 + (lo - 10));
            }
        } else {
            out.push(b);
        }
        assert(s@.take(i + 1).drop_last() =~= s@.take(i as int));
        assert(out@ =~= start + escaped(s@.take(i + 1)));
        i = i + 1;
    }
    assert(s@.take(i as int) =~= s@);
}

/// Appends the bytes of `t` to `out`.
pub fn write_bytes(out: &mut Vec<u8>, t: &[u8])
    ensures
        final(out)@ == old(out)@ + t@,
{
    let ghost start = out@;
    let mut i: usize = 0;
    while i < t.len()
        invariant
            i <= t@.len(),
            out@ == start + t@.take(i as int),
        decreases t@.len() - i,
    {
        out.push(t[i]);
        assert(t@.take(i + 1) =~= t@.take(i as int).push(t@[i as int]));
        i = i + 1;
    }
    assert(t@.take(i as int) =~= t@);
}

} // verus!
