//! Parsing the UCA conformance file format: a line of space-separated
//! hexadecimal code points makes one test string; blank lines, comment
//! lines, malformed lines, and lines holding surrogates yield nothing.

use vstd::prelude::*;

verus! {

/// The value of one hexadecimal digit, or -1.
pub open spec fn spec_hex_val(c: u8) -> int {
    if 0x30 <= c && c <= 0x39 {
        c - 0x30
    } else if 0x41 <= c && c <= 0x46 {
        c - 0x41 + 10
    } else if 0x61 <= c && c <= 0x66 {
        c - 0x61 + 10
    } else {
        -1
    }
}

/// Whether an accumulated token value may stand in a test string: it parsed,
/// it is a code point, and it is no surrogate.
pub open spec fn spec_token_ok(acc: int) -> bool {
    &&& acc >= 0
    &&& acc <= 0x10FFFF
    &&& !(0xD800 <= acc && acc <= 0xDFFF)
}

/// The parse of a line from position `i`, with the current token's value in
/// `acc` (-1 when it cannot parse), whether the token has digits in
/// `in_token`, and the code points found so far in `out`.
pub open spec fn spec_parse_from(line: Seq<u8>, i: int, acc: int, in_token: bool, out: Seq<u32>)
    -> Option<Seq<u32>>
    decreases line.len() - i,
{
    if i < 0 || i >= line.len() {
        if !in_token || !spec_token_ok(acc) {
            None
        } else {
            Some(out.push(acc as u32))
        }
    } else if line[i] == 0x20 {
        if !in_token || !spec_token_ok(acc) {
            None
        } else {
            spec_parse_from(line, i + 1, 0, false, out.push(acc as u32))
        }
    } else {
        let d = spec_hex_val(line[i]);
        let acc2: int = if acc < 0 || d < 0 {
            -1
        } else if acc * 16 + d > u32::MAX {
            -1
        } else {
            acc * 16 + d
        };
        spec_parse_from(line, i + 1, acc2, true, out)
    }
}

/// The test string a conformance line stands for: nothing for blank lines,
/// comment lines, malformed lines, and lines with surrogate code points.
pub open spec fn spec_parse_line(line: Seq<u8>) -> Option<Seq<u32>> {
    if line.len() == 0 || line[0] == 0x23 {
        None
    } else {
        spec_parse_from(line, 0, 0, false, Seq::<u32>::empty())
    }
}

/// The value of one hexadecimal digit, or -1 as 255.
fn hex_val(c: u8) -> (r: i16)
    ensures
        r as int == spec_hex_val(c),
{
    if 0x30 <= c && c <= 0x39 {
        (c - 0x30) as i16
    } else if 0x41 <= c && c <= 0x46 {
        (c - 0x41 + 10) as i16
    } else if 0x61 <= c && c <= 0x66 {
        (c - 0x61 + 10) as i16
    } else {
        -1
    }
}

/// Parse one line of a conformance file into the code points of its test
/// string, or nothing for a line that holds none.
pub fn parse_conformance_line(line: &[u8]) -> (r: Option<Vec<u32>>)
    ensures
        match r {
            Some(v) => spec_parse_line(line@) == Some(v@),
            None => spec_parse_line(line@) is None,
        },
{
    if line.len() == 0 {
        return None;
    }
    if line[0] == 0x23 {
        return None;
    }
    let mut out: Vec<u32> = Vec::new();
    let mut acc: u32 = 0;
    let mut bad: bool = false;
    let mut in_token: bool = false;
    let mut i: usize = 0;
    while i < line.len()
        invariant
            0 <= i <= line@.len(),
            line@.len() == line.len(),
            spec_parse_from(line@, 0, 0, false, Seq::<u32>::empty()) == spec_parse_from(
                line@,
                i as int,
                if bad {
                    -1int
                } else {
                    acc as int
                },
                in_token,
                out@,
            ),
        decreases line@.len() - i,
    {
        let c = line[i];
        if c == 0x20 {
            if !in_token || bad || acc > 0x10FFFF || (0xD800 <= acc && acc <= 0xDFFF) {
                return None;
            }
            out.push(acc);
            acc = 0;
            in_token = false;
        } else {
            let d = hex_val(c);
            if bad || d < 0 {
                bad = true;
            } else {
                let wide: u64 = (acc as u64) * 16 + (d as u64);
                if wide > u32::MAX as u64 {
                    bad = true;
                } else {
                    acc = wide as u32;
                }
            }
            in_token = true;
        }
        i = i + 1;
    }
    if !in_token || bad || acc > 0x10FFFF || (0xD800 <= acc && acc <= 0xDFFF) {
        return None;
    }
    out.push(acc);
    Some(out)
}

} // verus!
