//! Reading the listing that the assembler prints: from its lines to the bytes of the
//! instructions.

use vstd::prelude::*;
use vstd::slice::{slice_subrange, slice_to_vec};
use vstd::utf8::valid_utf8;
use crate::number::{parse_hex, parse_hex_spec};
use crate::text::{
    all_space, has_prefix, line_span, lines, lines_from, starts_with, string_from_utf8,
    trim_bounds,
};

verus! {

/// What ends a line of assembly text.
pub const LINE_ENDLING: &'static str = "\n";

/// Why a text could not be turned into instructions.
#[derive(Clone, Copy, Debug, PartialEq, Eq)]
pub enum AsmError {
    /// The assembler did not exit with zero.
    AssemblerInvocationFailed,
    /// A line of the listing is not valid UTF-8, has fewer than three fields, or its third
    /// field is no hexadecimal number of 32 bits.
    ListingParseError,
}

/// A byte that separates the fields of a line: space, tab, line feed, form feed or carriage
/// return.
pub open spec fn is_blank(b: u8) -> bool {
    b == 0x20 || b == 0x09 || b == 0x0a || b == 0x0c || b == 0x0d
}

/// The first index at or after `from` whose byte is no separator (with `blank` true) or is
/// one (with `blank` false); the length of `s` when there is none.
pub open spec fn skip_run(s: Seq<u8>, from: int, blank: bool) -> int
    decreases s.len() - from,
{
    if from < 0 || from >= s.len() {
        s.len() as int
    } else if is_blank(s[from]) != blank {
        from
    } else {
        skip_run(s, from + 1, blank)
    }
}

/// Where field `k` of a line begins: fields are the runs of bytes between separators.
pub open spec fn field_start(s: Seq<u8>, k: nat) -> int
    decreases k,
{
    if k == 0 {
        skip_run(s, 0, true)
    } else {
        skip_run(s, skip_run(s, field_start(s, (k - 1) as nat), false), true)
    }
}

/// Field `k` of a line, when the line has that many fields.
pub open spec fn field(s: Seq<u8>, k: nat) -> Option<Seq<u8>> {
    let start = field_start(s, k);
    if 0 <= start < s.len() {
        Some(s.subrange(start, skip_run(s, start, false)))
    } else {
        None
    }
}

fn run_end(s: &[u8], from: usize, blank: bool) -> (r: usize)
    requires
        from <= s@.len(),
    ensures
        r == skip_run(s@, from as int, blank),
        from <= r <= s@.len(),
{
    let mut i: usize = from;
    while i < s.len() && (s[i] == 0x20 || s[i] == 0x09 || s[i] == 0x0a || s[i] == 0x0c || s[i]
        == 0x0d) == blank
        invariant
            from <= i <= s@.len(),
            skip_run(s@, from as int, blank) == skip_run(s@, i as int, blank),
        decreases s@.len() - i,
    {
        i += 1;
    }
    i
}

/// The bounds of field `k` of `line`.
fn nth_field(line: &[u8], k: usize) -> (r: Option<(usize, usize)>)
    ensures
        match r {
            Some((a, b)) => a <= b <= line@.len() && field(line@, k as nat) == Some(
                line@.subrange(a as int, b as int),
            ),
            None => field(line@, k as nat) is None,
        },
{
    let mut start: usize = run_end(line, 0, true);
    let mut i: usize = 0;
    while i < k
        invariant
            i <= k,
            start <= line@.len(),
            start == field_start(line@, i as nat),
        decreases k - i,
    {
        let word_end: usize = run_end(line, start, false);
        start = run_end(line, word_end, true);
        i += 1;
    }
    if start >= line.len() {
        return None;
    }
    let end: usize = run_end(line, start, false);
    Some((start, end))
}

/// The four bytes of an instruction word, most significant first.
pub open spec fn instruction_bytes(v: u32) -> Seq<u8> {
    seq![
        (v / 0x100_0000) as u8,
        (v / 0x1_0000 % 0x100) as u8,
        (v / 0x100 % 0x100) as u8,
        (v % 0x100) as u8,
    ]
}

/// What a line of the listing holds.
pub enum LineCode {
    /// Nothing: a line of white space, or a header.
    Skip,
    /// An instruction.
    Word(u32),
    /// Something else.
    Bad,
}

/// The header lines of a listing begin so.
pub open spec fn header_mark() -> Seq<u8> {
    seq![0x41u8, 0x41u8, 0x52u8, 0x43u8, 0x48u8, 0x36u8, 0x34u8]
}

/// Reads one line: its third field is the instruction, in hexadecimal.
pub open spec fn line_code(line: Seq<u8>) -> LineCode {
    if !valid_utf8(line) {
        LineCode::Bad
    } else if all_space(line) || has_prefix(line, header_mark()) {
        LineCode::Skip
    } else {
        match field(line, 2) {
            None => LineCode::Bad,
            Some(f) => match parse_hex_spec(f, u32::MAX as int) {
                Some(v) => LineCode::Word(v as u32),
                None => LineCode::Bad,
            },
        }
    }
}

/// The instructions of a listing, in the order of its lines, each as its four bytes; none
/// when some line is bad.
pub open spec fn listing_code(ls: Seq<Seq<u8>>) -> Option<Seq<u8>>
    decreases ls.len(),
{
    if ls.len() == 0 {
        Some(Seq::empty())
    } else {
        match (line_code(ls[0]), listing_code(ls.drop_first())) {
            (LineCode::Bad, _) => None,
            (_, None) => None,
            (LineCode::Skip, Some(rest)) => Some(rest),
            (LineCode::Word(v), Some(rest)) => Some(instruction_bytes(v) + rest),
        }
    }
}

/// `acc` followed by what `rest` holds.
pub open spec fn prepend(acc: Seq<u8>, rest: Option<Seq<u8>>) -> Option<Seq<u8>> {
    match rest {
        Some(r) => Some(acc + r),
        None => None,
    }
}

fn read_line(line: &[u8]) -> (r: LineCode)
    ensures
        r == line_code(line@),
{
    if string_from_utf8(slice_to_vec(line)).is_none() {
        return LineCode::Bad;
    }
    let (a, b) = trim_bounds(line);
    let mark: [u8; 7] = [0x41, 0x41, 0x52, 0x43, 0x48, 0x36, 0x34];
    assert(mark@ =~= header_mark());
    if a == b || starts_with(line, mark.as_slice()) {
        return LineCode::Skip;
    }
    match nth_field(line, 2) {
        None => LineCode::Bad,
        Some((start, end)) => match parse_hex(slice_subrange(line, start, end), u32::MAX as u64) {
            Some(v) => LineCode::Word(v as u32),
            None => LineCode::Bad,
        },
    }
}

/// Reads the instructions off a listing.
pub fn read_bytes_from(listing: &[u8]) -> (r: Result<Vec<u8>, AsmError>)
    ensures
        match listing_code(lines(listing@)) {
            Some(code) => r is Ok && r->Ok_0@ == code,
            None => r == Err::<Vec<u8>, AsmError>(AsmError::ListingParseError),
        },
{
    let mut bytes: Vec<u8> = Vec::new();
    let mut pos: usize = 0;
    while pos < listing.len()
        invariant
            pos <= listing@.len(),
            listing_code(lines(listing@)) == prepend(
                bytes@,
                listing_code(lines_from(listing@, pos as int)),
            ),
        decreases listing@.len() - pos,
    {
        let span = line_span(listing, pos);
        let line = slice_subrange(listing, span.start, span.end);
        let ghost rest = lines_from(listing@, span.next as int);
        proof {
            assert((seq![line@] + rest)[0] == line@);
            assert((seq![line@] + rest).drop_first() =~= rest);
        }
        match read_line(line) {
            LineCode::Bad => {
                return Err(AsmError::ListingParseError);
            },
            LineCode::Skip => {},
            LineCode::Word(v) => {
                let ghost before = bytes@;
                bytes.push((v / 0x100_0000) as u8);
                bytes.push((v / 0x1_0000 % 0x100) as u8);
                bytes.push((v / 0x100 % 0x100) as u8);
                bytes.push((v % 0x100) as u8);
                proof {
                    assert(bytes@ =~= before + instruction_bytes(v));
                    match listing_code(rest) {
                        Some(r) => {
                            assert(before + (instruction_bytes(v) + r) =~= bytes@ + r);
                        },
                        None => {},
                    }
                }
            },
        }
        pos = span.next;
    }
    proof {
        assert(bytes@ + Seq::<u8>::empty() =~= bytes@);
    }
    Ok(bytes)
}

/// The instruction bytes that an assembler run produced: those of its listing when it
/// exited with zero.
pub fn asm_to_be_bytes(exit_code: i32, listing: &[u8]) -> (r: Result<Vec<u8>, AsmError>)
    ensures
        exit_code != 0 ==> r == Err::<Vec<u8>, AsmError>(AsmError::AssemblerInvocationFailed),
        exit_code == 0 ==> match listing_code(lines(listing@)) {
            Some(code) => r is Ok && r->Ok_0@ == code,
            None => r == Err::<Vec<u8>, AsmError>(AsmError::ListingParseError),
        },
{
    if exit_code == 0 {
        read_bytes_from(listing)
    } else {
        Err(AsmError::AssemblerInvocationFailed)
    }
}

} // verus!
