//! The memory map of a process, as its `maps` table lists it: where a shared object is
//! loaded and under which path.

use vstd::prelude::*;
use vstd::slice::{slice_subrange, slice_to_vec};
use vstd::string::StringSliceAdditionalSpecFns;
use vstd::utf8::{
    decode_utf8, encode_utf8, encode_utf8_valid_utf8, is_char_boundary,
    is_char_boundary_iff_not_is_continuation_byte, is_char_boundary_start_end_of_seq,
    is_continuation_byte, valid_utf8, valid_utf8_split,
};
use crate::number::{parse_hex, parse_hex_spec};
use crate::text::{
    contains, ends_with, find_byte, find_in, has_suffix, index_of, lemma_index_of, line_span, lines,
    lines_from, string_from_utf8, CR, LF,
};

verus! {

/// The load address that stands for "no offset": an executable mapped there has base zero.
pub const STATIC_BASE: usize = 0x8000;

/// The first of `ls` that contains `frag`.
pub open spec fn first_line_with(ls: Seq<Seq<u8>>, frag: Seq<u8>) -> Option<Seq<u8>>
    decreases ls.len(),
{
    if ls.len() == 0 {
        None
    } else if contains(ls[0], frag) {
        Some(ls[0])
    } else {
        first_line_with(ls.drop_first(), frag)
    }
}

/// The start address that a line of the table gives: the hexadecimal number before the
/// first `-`, with `STATIC_BASE` read as zero.
pub open spec fn base_of_line(line: Seq<u8>) -> Option<usize> {
    let end = index_of(line, 0x2d, 0);
    if end >= line.len() {
        None
    } else {
        match parse_hex_spec(line.subrange(0, end), usize::MAX as int) {
            Some(v) => Some(
                if v == STATIC_BASE {
                    0usize
                } else {
                    v as usize
                },
            ),
            None => None,
        }
    }
}

/// The path that a line of the table gives: the line from its first `/` on.
pub open spec fn path_of_line(line: Seq<u8>) -> Option<Seq<u8>> {
    let start = index_of(line, 0x2f, 0);
    if start >= line.len() {
        None
    } else {
        Some(line.subrange(start, line.len() as int))
    }
}

/// The base of the first mapping whose line contains `so_path`.
pub open spec fn so_base_spec(maps: Seq<u8>, so_path: Seq<u8>) -> Option<usize> {
    match first_line_with(lines(maps), so_path) {
        Some(line) => base_of_line(line),
        None => None,
    }
}

/// The file name of a shared object: `name`, with `.so` added unless it ends so.
pub open spec fn lib_name(name: Seq<u8>) -> Seq<u8> {
    if has_suffix(name, seq![0x2eu8, 0x73u8, 0x6fu8]) {
        name
    } else {
        name + seq![0x2eu8, 0x73u8, 0x6fu8]
    }
}

/// The path in the first mapping whose line contains the file name of `name`.
pub open spec fn so_path_spec(maps: Seq<u8>, name: Seq<u8>) -> Option<Seq<u8>> {
    match first_line_with(lines(maps), lib_name(name)) {
        Some(line) => path_of_line(line),
        None => None,
    }
}

/// Where the first line that contains `frag` lies in `maps`.
fn find_line(maps: &[u8], frag: &[u8]) -> (r: Option<(usize, usize)>)
    ensures
        match r {
            Some((a, b)) => a <= b <= maps@.len() && first_line_with(lines(maps@), frag@) == Some(
                maps@.subrange(a as int, b as int),
            ) && (b < maps@.len() ==> maps@[b as int] == LF || maps@[b as int] == CR),
            None => first_line_with(lines(maps@), frag@) is None,
        },
{
    let mut pos: usize = 0;
    while pos < maps.len()
        invariant
            pos <= maps@.len(),
            first_line_with(lines(maps@), frag@) == first_line_with(
                lines_from(maps@, pos as int),
                frag@,
            ),
        decreases maps@.len() - pos,
    {
        let span = line_span(maps, pos);
        let line = slice_subrange(maps, span.start, span.end);
        let ghost rest = lines_from(maps@, span.next as int);
        proof {
            assert((seq![line@] + rest)[0] == line@);
            assert((seq![line@] + rest).drop_first() =~= rest);
            lemma_index_of(maps@, LF, pos as int);
        }
        if find_in(line, frag) {
            return Some((span.start, span.end));
        }
        pos = span.next;
    }
    None
}

/// A piece of valid UTF-8 that begins and ends where an ASCII byte or an end of the text
/// stands is valid UTF-8 itself.
proof fn lemma_piece_valid(s: Seq<u8>, a: int, b: int)
    requires
        valid_utf8(s),
        0 <= a <= b <= s.len(),
        a < s.len() ==> s[a] < 0x80,
        b < s.len() ==> s[b] < 0x80,
    ensures
        valid_utf8(s.subrange(a, b)),
{
    assert forall|x: u8| x < 0x80 implies !is_continuation_byte(x) by {
        assert(x < 0x80 ==> x & 0xC0 != 0x80) by (bit_vector);
    }
    if b < s.len() {
        is_char_boundary_iff_not_is_continuation_byte(s, b);
    } else {
        is_char_boundary_start_end_of_seq(s);
    }
    valid_utf8_split(s, b);
    let p = s.subrange(0, b);
    if a < b {
        is_char_boundary_iff_not_is_continuation_byte(p, a);
    } else {
        is_char_boundary_start_end_of_seq(p);
    }
    valid_utf8_split(p, a);
    assert(p.subrange(a, p.len() as int) =~= s.subrange(a, b));
}

/// A process, with a reading of its `maps` table; `None` stands for a table that could
/// not be read.
pub struct ProcessWrapper {
    target: i32,
    maps: Option<String>,
}

impl ProcessWrapper {
    pub closed spec fn spec_target(&self) -> i32 {
        self.target
    }

    /// The bytes of the table, when it was read.
    pub closed spec fn spec_maps(&self) -> Option<Seq<u8>> {
        match self.maps {
            Some(m) => Some(encode_utf8(m@)),
            None => None,
        }
    }

    pub fn new(pid: i32, maps: Option<String>) -> (r: ProcessWrapper)
        ensures
            r.spec_target() == pid,
            r.spec_maps() == match maps {
                Some(m) => Some(encode_utf8(m@)),
                None => None,
            },
    {
        ProcessWrapper { target: pid, maps }
    }

    #[verifier::when_used_as_spec(spec_target)]
    pub fn target(&self) -> (r: i32)
        ensures
            r == self.spec_target(),
    {
        self.target
    }

    /// The load address of the first mapping whose line contains `so_path`. A mapping at
    /// `STATIC_BASE` counts as loaded at zero. There is none when the table was not read, no
    /// line contains `so_path`, or the first such line does not begin with a hexadecimal
    /// address followed by `-`.
    pub fn get_so_base(&self, so_path: &str) -> (r: Option<usize>)
        ensures
            r == match self.spec_maps() {
                Some(maps) => so_base_spec(maps, so_path.spec_bytes()),
                None => None,
            },
    {
        let maps = match &self.maps {
            Some(m) => m.as_str().as_bytes(),
            None => {
                return None;
            },
        };
        let (a, b) = match find_line(maps, so_path.as_bytes()) {
            Some(span) => span,
            None => {
                return None;
            },
        };
        let line = slice_subrange(maps, a, b);
        let end: usize = find_byte(line, 0x2d, 0);
        if end >= line.len() {
            return None;
        }
        match parse_hex(slice_subrange(line, 0, end), usize::MAX as u64) {
            Some(v) => {
                if v == STATIC_BASE as u64 {
                    Some(0)
                } else {
                    Some(v as usize)
                }
            },
            None => None,
        }
    }

    /// The path of the shared object `name`: what the first line that contains its file
    /// name holds from the first `/` on. There is none when the table was not read, no line
    /// contains the file name, or the first such line holds no `/`.
    pub fn get_so_path(&self, name: &str) -> (r: Option<String>)
        ensures
            match self.spec_maps() {
                Some(maps) => match so_path_spec(maps, name.spec_bytes()) {
                    Some(path) => r is Some && r->Some_0@ == decode_utf8(path) && encode_utf8(
                        r->Some_0@,
                    ) == path,
                    None => r is None,
                },
                None => r is None,
            },
    {
        let maps = match &self.maps {
            Some(m) => m.as_str().as_bytes(),
            None => {
                return None;
            },
        };
        let name_bytes = name.as_bytes();
        let mut wanted: Vec<u8> = slice_to_vec(name_bytes);
        let dot_so: [u8; 3] = [0x2e, 0x73, 0x6f];
        assert(dot_so@ =~= seq![0x2eu8, 0x73u8, 0x6fu8]);
        if !ends_with(name_bytes, dot_so.as_slice()) {
            wanted.extend_from_slice(dot_so.as_slice());
        }
        assert(wanted@ == lib_name(name.spec_bytes()));
        let (a, b) = match find_line(maps, wanted.as_slice()) {
            Some(span) => span,
            None => {
                return None;
            },
        };
        let line = slice_subrange(maps, a, b);
        let start: usize = find_byte(line, 0x2f, 0);
        if start >= line.len() {
            return None;
        }
        let path = slice_to_vec(slice_subrange(line, start, line.len()));
        proof {
            let m = self.maps->Some_0@;
            encode_utf8_valid_utf8(m);
            lemma_index_of(line@, 0x2f, 0);
            assert(line@[start as int] == maps@[a + start]);
            lemma_piece_valid(maps@, a + start, b as int);
            assert(path@ =~= maps@.subrange(a + start, b as int));
            vstd::utf8::decode_utf8_encode_utf8(path@);
        }
        string_from_utf8(path)
    }
}

} // verus!
