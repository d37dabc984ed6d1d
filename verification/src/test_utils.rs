//! What the end-to-end tests of the supervisor share: captured output as
//! lines and switches read from the environment.

pub mod nginx;
pub mod sigscript;

use vstd::prelude::*;
use vstd::slice::*;
use vstd::string::*;
use vstd::utf8::{decode_utf8, valid_utf8};
use crate::text::{
    ascii_lowered, decode, lemma_line_len_is, lemma_texts_push, pieces, same_text, texts,
    to_ascii_lowercase,
};

verus! {

/// Whether every piece is valid UTF-8.
pub open spec fn all_valid(parts: Seq<Seq<u8>>) -> bool {
    forall|i: int| 0 <= i < parts.len() ==> valid_utf8(#[trigger] parts[i])
}

/// Every piece decoded.
pub open spec fn all_decoded(parts: Seq<Seq<u8>>) -> Seq<Seq<char>> {
    Seq::new(parts.len(), |i: int| decode_utf8(parts[i]))
}

/// The lines of captured output: its pieces between line feeds as text,
/// without the last piece where that is empty. None where a piece is not
/// valid UTF-8.
pub open spec fn lines_of(bytes: Seq<u8>) -> Option<Seq<Seq<char>>> {
    let parts = pieces(bytes);
    if !all_valid(parts) {
        None
    } else if parts.last().len() == 0 {
        Some(all_decoded(parts.drop_last()))
    } else {
        Some(all_decoded(parts))
    }
}

/// The lines of `bytes`, as text. None where `bytes` hold a line that is
/// not valid UTF-8.
pub fn lines(bytes: &Vec<u8>) -> (r: Option<Vec<String>>)
    ensures
        match r {
            Some(lines) => lines_of(bytes@) == Some(texts(lines@)),
            None => lines_of(bytes@) is None,
        },
{
    let all = bytes.as_slice();
    let mut lines: Vec<String> = Vec::new();
    let mut start: usize = 0;
    let mut i: usize = 0;
    let ghost mut done: Seq<Seq<u8>> = Seq::empty();
    assert(all@.skip(0) == all@);
    while i < all.len()
        invariant
            start <= i <= all.len(),
            all@ == bytes@,
            pieces(bytes@) == done + pieces(all@.skip(start as int)),
            all_valid(done),
            texts(lines@) == all_decoded(done),
            forall|j: int| start <= j < i ==> #[trigger] all@[j] != 10,
        decreases all.len() - i,
    {
        if all[i] == 10 {
            let ghost rest = all@.skip(start as int);
            proof {
                lemma_line_len_is(rest, (i - start) as nat);
                assert(rest.take(i - start) == all@.subrange(start as int, i as int));
                assert(rest.skip(i - start + 1) == all@.skip(i + 1));
            }
            let piece = slice_subrange(all, start, i);
            match decode(piece) {
                Some(line) => {
                    let ghost before = lines@;
                    lines.push(line);
                    proof {
                        lemma_texts_push(before, line);
                        done = done.push(piece@);
                    }
                },
                None => {
                    proof {
                        let parts = pieces(bytes@);
                        assert(parts[done.len() as int] == piece@);
                    }
                    return None;
                },
            }
            start = i + 1;
        }
        i = i + 1;
    }
    let ghost rest = all@.skip(start as int);
    proof {
        lemma_line_len_is(rest, rest.len());
    }
    let piece = slice_subrange(all, start, all.len());
    match decode(piece) {
        Some(last) => {
            if last.as_str().is_empty() {
                Some(lines)
            } else {
                let ghost before = lines@;
                lines.push(last);
                proof {
                    lemma_texts_push(before, last);
                }
                Some(lines)
            }
        },
        None => {
            None
        },
    }
}

/// Whether `s` says yes: `true`, `yes`, `1`, `on`, `enable` or `enabled`,
/// in any mix of upper and lower case.
pub open spec fn says_yes(s: Seq<char>) -> bool {
    let low = ascii_lowered(s);
    low == "true"@ || low == "yes"@ || low == "1"@ || low == "on"@ || low == "enable"@ || low
        == "enabled"@
}

/// Whether `s` says no: `false`, `no`, `0`, `off`, `disable` or `disabled`,
/// in any mix of upper and lower case.
pub open spec fn says_no(s: Seq<char>) -> bool {
    let low = ascii_lowered(s);
    low == "false"@ || low == "no"@ || low == "0"@ || low == "off"@ || low == "disable"@ || low
        == "disabled"@
}

/// Whether `s` says yes.
pub fn truthy(s: &str) -> (b: bool)
    ensures
        b == says_yes(s@),
{
    let low = to_ascii_lowercase(s);
    let low = low.as_str();
    same_text(low, "true") || same_text(low, "yes") || same_text(low, "1") || same_text(low, "on")
        || same_text(low, "enable") || same_text(low, "enabled")
}

/// Reads a switch: whether `s` says yes or no, or neither.
pub fn str_to_bool(s: &str) -> (r: Option<bool>)
    ensures
        r == if says_yes(s@) {
            Some(true)
        } else if says_no(s@) {
            Some(false)
        } else {
            None
        },
{
    if truthy(s) {
        return Some(true);
    }
    let low = to_ascii_lowercase(s);
    let low = low.as_str();
    if same_text(low, "false") || same_text(low, "no") || same_text(low, "0") || same_text(
        low,
        "off",
    ) || same_text(low, "disable") || same_text(low, "disabled") {
        Some(false)
    } else {
        None
    }
}

} // verus!
