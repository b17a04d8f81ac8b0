//! Splitting an entry's text into the runs that a query matched and those
//! it did not, for the results list.
use vstd::prelude::*;
use crate::strings::{bytes_of, next_boundary, next_char_boundary, safe_slice, slice_at_char_boundaries};

verus! {

/// The end of the match before match `i`, or `0` for the first.
pub open spec fn end_before(ranges: Seq<(u32, u32)>, i: int) -> int {
    if i == 0 {
        0
    } else {
        ranges[i - 1].1 as int
    }
}

/// Splits `text` by the byte ranges of its matches, in order: for each match
/// the text between the previous match and it, unmatched, then the match
/// itself, matched; last the rest of the text after the final match. Every
/// run is cut at character boundaries.
pub fn match_segments<'a>(text: &'a str, ranges: &Vec<(u32, u32)>) -> (r: Vec<(&'a str, bool)>)
    ensures
        r.len() == 2 * ranges.len() + 1,
        forall|i: int|
            0 <= i < ranges.len() ==> {
                &&& bytes_of((#[trigger] r[2 * i]).0) == safe_slice(
                    bytes_of(text),
                    end_before(ranges@, i),
                    ranges[i].0 as int,
                )
                &&& !r[2 * i].1
                &&& bytes_of(r[2 * i + 1].0) == safe_slice(
                    bytes_of(text),
                    ranges[i].0 as int,
                    ranges[i].1 as int,
                )
                &&& r[2 * i + 1].1
            },
        bytes_of(r[2 * ranges.len() as int].0) == bytes_of(text).subrange(
            next_boundary(bytes_of(text), end_before(ranges@, ranges.len() as int)),
            bytes_of(text).len() as int,
        ),
        !r[2 * ranges.len() as int].1,
{
    let mut out: Vec<(&'a str, bool)> = Vec::new();
    let mut last_match_end: usize = 0;
    let mut i: usize = 0;
    while i < ranges.len()
        invariant
            i <= ranges.len(),
            out.len() == 2 * i,
            last_match_end as int == end_before(ranges@, i as int),
            forall|k: int|
                0 <= k < i ==> {
                    &&& bytes_of((#[trigger] out[2 * k]).0) == safe_slice(
                        bytes_of(text),
                        end_before(ranges@, k),
                        ranges[k].0 as int,
                    )
                    &&& !out[2 * k].1
                    &&& bytes_of(out[2 * k + 1].0) == safe_slice(
                        bytes_of(text),
                        ranges[k].0 as int,
                        ranges[k].1 as int,
                    )
                    &&& out[2 * k + 1].1
                },
        decreases ranges.len() - i,
    {
        let (start, end) = ranges[i];
        out.push((slice_at_char_boundaries(text, last_match_end, start as usize), false));
        out.push((slice_at_char_boundaries(text, start as usize, end as usize), true));
        last_match_end = end as usize;
        i += 1;
    }
    let from = next_char_boundary(text, last_match_end);
    out.push((text.split_at(from).1, false));
    out
}

} // verus!
