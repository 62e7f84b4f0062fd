use vstd::prelude::*;
use vstd::string::*;
use vstd::slice::*;
use vstd::utf8::encode_utf8;

verus! {

/// The line and the column of the byte offset `target`, found by walking
/// the bytes of a text from `i` on, where the walk stands in line `line`
/// (counted from 0) at column `col`, and `at` offsets have been counted.
///
/// Offsets count the bytes of each line and one closing slot behind it, in
/// place of its line end. A line ends with a line feed, or with a carriage
/// return and a line feed; the last line may end with the text. The line of
/// a position is counted from 1, its column from 2.
pub open spec fn locate_from(text: Seq<u8>, target: int, i: int, line: int, col: int, at: int) -> Option<
    (int, int),
>
    decreases text.len() - i,
{
    if i < 0 || i >= text.len() {
        if text.len() > 0 && text[text.len() - 1] != 10 && at == target {
            Some((line + 1, col + 2))
        } else {
            None
        }
    } else if text[i] == 13 && i + 1 < text.len() && text[i + 1] == 10 {
        locate_from(text, target, i + 1, line, col, at)
    } else if at == target {
        Some((line + 1, col + 2))
    } else if text[i] == 10 {
        locate_from(text, target, i + 1, line + 1, 0, at + 1)
    } else {
        locate_from(text, target, i + 1, line, col + 1, at + 1)
    }
}

/// The line and the column of a byte offset in a text, if the text has the
/// offset.
pub open spec fn position_of(text: Seq<u8>, target: int) -> Option<(int, int)> {
    locate_from(text, target, 0, 0, 0, 0)
}

/// The line and the column of a byte offset in a text, if the text has the
/// offset.
pub fn locate(target: usize, text: &str) -> (r: Option<(usize, usize)>)
    requires
        text.spec_bytes().len() + 2 <= usize::MAX,
    ensures
        match r {
            Some(p) => position_of(text.spec_bytes(), target as int) == Some(
                (p.0 as int, p.1 as int),
            ),
            None => position_of(text.spec_bytes(), target as int) is None,
        },
{
    let bytes = text.as_bytes();
    let n = bytes.len();
    let ghost all = text.spec_bytes();
    let mut i: usize = 0;
    let mut line: usize = 0;
    let mut col: usize = 0;
    let mut at: usize = 0;
    while i < n
        invariant
            all == text.spec_bytes(),
            bytes@ == all,
            n == all.len(),
            n + 2 <= usize::MAX,
            0 <= i <= n,
            line <= i,
            col <= i,
            at <= i,
            position_of(all, target as int) == locate_from(
                all,
                target as int,
                i as int,
                line as int,
                col as int,
                at as int,
            ),
        decreases n - i,
    {
        let b = bytes[i];
        if b == 13 && i + 1 < n && bytes[i + 1] == 10 {
            i += 1;
        } else if at == target {
            return Some((line + 1, col + 2));
        } else if b == 10 {
            line += 1;
            col = 0;
            at += 1;
            i += 1;
        } else {
            col += 1;
            at += 1;
            i += 1;
        }
    }
    if n > 0 && bytes[n - 1] != 10 && at == target {
        Some((line + 1, col + 2))
    } else {
        None
    }
}

/// The line and the column of a byte offset that the text has.
pub fn find_relative_pos(target: usize, f: String) -> (r: (usize, usize))
    requires
        encode_utf8(f@).len() + 2 <= usize::MAX,
        position_of(encode_utf8(f@), target as int) is Some,
    ensures
        position_of(encode_utf8(f@), target as int) == Some((r.0 as int, r.1 as int)),
{
    locate(target, f.as_str()).unwrap()
}

} // verus!
