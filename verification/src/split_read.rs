//! Reading one file with two readers: the first reads from the start, the second from
//! the middle of the file.
use vstd::prelude::*;

verus! {

/// Where the second reader starts: half the file's size, rounded down.
pub fn half_point(file_size: u64) -> (middle: u64)
    ensures
        middle == file_size / 2,
{
    file_size / 2
}

/// Whether the first reader goes on with a line: it does when the line's length in
/// bytes, plus one for its end, reaches no further than `middle`, and on a line that
/// could not be read (`None`), which counts as length zero.
pub fn first_reader_keeps(line_len: Option<usize>, middle: u64) -> (keep: bool)
    ensures
        keep == match line_len {
            Some(n) => n + 1 <= middle,
            None => true,
        },
{
    match line_len {
        Some(n) => {
            let n: u64 = n as u64;
            n < middle
        },
        None => true,
    }
}

} // verus!
