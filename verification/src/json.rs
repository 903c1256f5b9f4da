//! The JSON body of a status response, built byte by byte.
//!
//! The status response carries one length-prefixed string whose content is a
//! JSON object `{version:{name,protocol}, players:{max,online,sample},
//! description:{text}, enforcesSecureChat}`.  The functions here produce
//! that object directly as UTF-8 bytes: string fields are escaped (quote,
//! backslash, and control characters), numbers are printed in decimal, and
//! the keys are fixed literals.

use vstd::prelude::*;
use vstd::string::StringSliceAdditionalSpecFns;

verus! {

/// One byte of string content, escaped as JSON requires: quote and
/// backslash get a backslash, control bytes become a `\u00XX` sequence, and
/// every other byte (including the bytes of multi-byte UTF-8 sequences)
/// passes through.
pub open spec fn json_escape_byte(b: u8) -> Seq<u8> {
    if b == 0x22 {
        seq![0x5Cu8, 0x22u8]
    } else if b == 0x5C {
        seq![0x5Cu8, 0x5Cu8]
    } else if b < 0x20 {
        seq![0x5Cu8, 0x75u8, 0x30u8, 0x30u8, hex_digit((b / 16) as int), hex_digit((b % 16) as int)]
    } else {
        seq![b]
    }
}

/// The lower-case hexadecimal digit for a value below 16.
pub open spec fn hex_digit(d: int) -> u8 {
    if d < 10 {
        (0x30 + d) as u8
    } else {
        (0x57 + d) as u8
    }
}

pub open spec fn json_escaped(s: Seq<u8>) -> Seq<u8>
    decreases s.len(),
{
    if s.len() == 0 {
        Seq::empty()
    } else {
        json_escape_byte(s[0]) + json_escaped(s.skip(1))
    }
}

/// The decimal digits of a nonnegative number, most significant first.
pub open spec fn dec_nat(n: int) -> Seq<u8>
    decreases n,
{
    if n < 10 {
        seq![(0x30 + if n >= 0 {
            n
        } else {
            0
        }) as u8]
    } else {
        dec_nat(n / 10) + seq![(0x30 + n % 10) as u8]
    }
}

/// A signed number in decimal: a minus sign for negative values, then the
/// digits of the magnitude.
pub open spec fn dec_int(v: int) -> Seq<u8> {
    if v < 0 {
        seq![0x2Du8] + dec_nat(-v)
    } else {
        dec_nat(v)
    }
}

pub open spec fn json_bool(b: bool) -> Seq<u8> {
    if b {
        "true".spec_bytes()
    } else {
        "false".spec_bytes()
    }
}

/// Escaping a sequence one byte longer appends the escape of the last byte.
pub proof fn lemma_json_escaped_snoc(s: Seq<u8>, i: int)
    requires
        0 <= i < s.len(),
    ensures
        json_escaped(s.take(i + 1)) == json_escaped(s.take(i)) + json_escape_byte(s[i]),
    decreases i,
{
    if i == 0 {
        assert(s.take(1) =~= seq![s[0]]);
        assert(s.take(1).skip(1) =~= Seq::<u8>::empty());
        assert(s.take(0) =~= Seq::<u8>::empty());
        assert(json_escaped(s.take(1)) =~= json_escape_byte(s[0]));
    } else {
        lemma_json_escaped_snoc(s.skip(1), i - 1);
        assert(s.take(i + 1).skip(1) =~= s.skip(1).take(i));
        assert(s.take(i).skip(1) =~= s.skip(1).take(i - 1));
        assert(s.take(i + 1)[0] == s[0] && s.take(i)[0] == s[0]);
        assert(s.skip(1)[i - 1] == s[i]);
        assert(json_escaped(s.take(i + 1)) =~= json_escaped(s.take(i)) + json_escape_byte(s[i]));
    }
}

/// Appends the JSON escaping of `s` to `out`.
pub fn append_escaped(out: &mut Vec<u8>, s: &[u8])
    ensures
        final(out)@ == old(out)@ + json_escaped(s@),
{
    let mut i: usize = 0;
    while i < s.len()
        invariant
            i <= s@.len(),
            out@ == old(out)@ + json_escaped(s@.take(i as int)),
        decreases s@.len() - i,
    {
        let b = s[i];
        if b == 0x22 {
            out.push(0x5C);
            out.push(0x22);
        } else if b == 0x5C {
            out.push(0x5C);
            out.push(0x5C);
        } else if b < 0x20 {
            out.push(0x5C);
            out.push(0x75);
            out.push(0x30);
            out.push(0x30);
            let hi = b / 16;
            let lo = b % 16;
            out.push(if hi < 10 { 0x30 + hi } else { 0x57 + hi });
            out.push(if lo < 10 { 0x30 + lo } else { 0x57 + lo });
        } else {
            out.push(b);
        }
        i = i + 1;
        proof {
            lemma_json_escaped_snoc(s@, i - 1);
            assert(out@ =~= old(out)@ + json_escaped(s@.take(i as int)));
        }
    }
    proof {
        assert(s@.take(s@.len() as int) =~= s@);
    }
}

/// Appends the decimal form of `v` to `out`.
pub fn append_decimal(out: &mut Vec<u8>, v: i32)
    ensures
        final(out)@ == old(out)@ + dec_int(v as int),
{
    let mut m: u32;
    if v < 0 {
        out.push(0x2D);
        m = (-(v as i64)) as u32;
    } else {
        m = v as u32;
    }
    let ghost m0 = m as int;
    let mut tmp: Vec<u8> = Vec::new();
    while m >= 10
        invariant
            dec_nat(m0) == dec_nat(m as int) + tmp@.reverse(),
        decreases m,
    {
        let ghost tpre = tmp@;
        tmp.push(0x30 + (m % 10) as u8);
        proof {
            assert(tmp@ =~= tpre.push((0x30 + m % 10) as u8));
            assert(tmp@.reverse() =~= seq![(0x30 + (m as int) % 10) as u8] + tpre.reverse());
            assert(dec_nat(m as int) == dec_nat((m as int) / 10) + seq![
                (0x30 + (m as int) % 10) as u8,
            ]);
            assert(dec_nat(m as int) + tpre.reverse() =~= dec_nat((m as int) / 10)
                + tmp@.reverse());
        }
        m = m / 10;
    }
    let ghost mid = out@;
    out.push(0x30 + (m % 10) as u8);
    proof {
        assert((m as int) % 10 == m as int);
        assert(dec_nat(m as int) == seq![(0x30 + m as int) as u8]);
        assert(out@ =~= mid + dec_nat(m as int));
    }
    let mut j: usize = tmp.len();
    while j > 0
        invariant
            j <= tmp@.len(),
            out@ == mid + dec_nat(m as int) + tmp@.reverse().take(tmp@.len() - j),
        decreases j,
    {
        j = j - 1;
        out.push(tmp[j]);
        proof {
            assert(tmp@.reverse()[tmp@.len() - j - 1] == tmp@[j as int]);
            assert(out@ =~= mid + dec_nat(m as int) + tmp@.reverse().take(tmp@.len() - j));
        }
    }
    proof {
        assert(tmp@.reverse().take(tmp@.len() as int) =~= tmp@.reverse());
        assert(out@ =~= old(out)@ + dec_int(v as int));
    }
}

} // verus!
