//! Reader for the per-device I/O accounting table of the operating system.
//!
//! The table is text, one device per line, the fields of a line separated by
//! white space. The third field names the device, the sixth counts the
//! sectors read from it and the tenth the sectors written to it.

use vstd::prelude::*;
use crate::text::{chars_of, char_is_whitespace, is_whitespace, parse_u64, parse_u64_range};

verus! {

/// Fewest fields of a line that describes a device.
pub const MIN_FIELDS: usize = 11;

/// Position of the device name among the fields of a line.
pub const NAME_FIELD: usize = 2;

/// Position of the count of sectors read.
pub const SECTORS_READ_FIELD: usize = 5;

/// Position of the count of sectors written.
pub const SECTORS_WRITTEN_FIELD: usize = 9;

/// The fields of a line: its maximal runs of characters that are not white
/// space, in order. Read character by character, white space closes a field,
/// and any other character extends the open field or opens a new one.
pub open spec fn fields(line: Seq<char>) -> Seq<Seq<char>>
    decreases line.len(),
{
    if line.len() == 0 {
        Seq::empty()
    } else {
        let init = line.drop_last();
        let c = line.last();
        let before = fields(init);
        if is_whitespace(c) {
            before
        } else if init.len() > 0 && !is_whitespace(init.last()) {
            before.drop_last().push(before.last().push(c))
        } else {
            before.push(seq![c])
        }
    }
}

/// Length of the first line of `text`: the number of characters before its
/// first line feed, or all of them if it has none.
pub open spec fn line_len(text: Seq<char>) -> nat
    decreases text.len(),
{
    if text.len() == 0 || text[0] == '\n' {
        0
    } else {
        1 + line_len(text.skip(1))
    }
}

/// Whether the fields `row` describe the device called `device`.
pub open spec fn is_row_of(row: Seq<Seq<char>>, device: Seq<char>) -> bool {
    row.len() >= 11 && row[2] == device
}

/// The sectors read and written that a device's row reports, or `None` if
/// either count is no unsigned 64-bit decimal number.
pub open spec fn row_counters(row: Seq<Seq<char>>) -> Option<(u64, u64)> {
    match (parse_u64(row[5]), parse_u64(row[9])) {
        (Some(read), Some(written)) => Some((read, written)),
        _ => None,
    }
}

/// The sectors read and written that `table` reports for `device`: those of
/// the first line that describes the device. `None` if no line does, or if
/// that line's counts cannot be read.
pub open spec fn disk_stats(table: Seq<char>, device: Seq<char>) -> Option<(u64, u64)>
    decreases table.len(),
{
    let n = line_len(table);
    let row = fields(table.take(n as int));
    if is_row_of(row, device) {
        row_counters(row)
    } else if n >= table.len() {
        None
    } else {
        disk_stats(table.skip(n as int + 1), device)
    }
}

/// Every field has at least one character, and none of its characters is
/// white space. So no line describes a device without a name.
pub proof fn lemma_fields_are_words(line: Seq<char>)
    ensures
        forall|k: int|
            0 <= k < fields(line).len() ==> {
                &&& (#[trigger] fields(line)[k]).len() > 0
                &&& forall|i: int|
                    0 <= i < fields(line)[k].len() ==> !is_whitespace(
                        #[trigger] fields(line)[k][i],
                    )
            },
        line.len() > 0 && !is_whitespace(line.last()) ==> fields(line).len() > 0,
        !is_row_of(fields(line), Seq::empty()),
    decreases line.len(),
{
    if line.len() > 0 {
        let init = line.drop_last();
        let c = line.last();
        let before = fields(init);
        lemma_fields_are_words(init);
        if !is_whitespace(c) {
            if init.len() > 0 && !is_whitespace(init.last()) {
                let grown = before.last().push(c);
                assert forall|k: int| 0 <= k < fields(line).len() implies {
                    &&& (#[trigger] fields(line)[k]).len() > 0
                    &&& forall|i: int|
                        0 <= i < fields(line)[k].len() ==> !is_whitespace(
                            #[trigger] fields(line)[k][i],
                        )
                } by {
                    if k < before.len() - 1 {
                        assert(fields(line)[k] == before[k]);
                    } else {
                        assert(fields(line)[k] == grown);
                        assert forall|i: int| 0 <= i < grown.len() implies !is_whitespace(
                            #[trigger] grown[i],
                        ) by {
                            if i < before.last().len() {
                                assert(grown[i] == before.last()[i]);
                            }
                        }
                    }
                }
            } else {
                assert forall|k: int| 0 <= k < fields(line).len() implies {
                    &&& (#[trigger] fields(line)[k]).len() > 0
                    &&& forall|i: int|
                        0 <= i < fields(line)[k].len() ==> !is_whitespace(
                            #[trigger] fields(line)[k][i],
                        )
                } by {
                    if k < before.len() {
                        assert(fields(line)[k] == before[k]);
                    }
                }
            }
        }
    }
}

/// The first line of a text ends where its first line feed stands.
proof fn lemma_line_len(text: Seq<char>, n: int)
    requires
        0 <= n <= text.len(),
        forall|j: int| 0 <= j < n ==> text[j] != '\n',
        n == text.len() || text[n] == '\n',
    ensures
        line_len(text) == n,
    decreases n,
{
    if n > 0 {
        lemma_line_len(text.skip(1), n - 1);
    }
}

/// End of the line of `chars` that begins at `from`.
fn line_end(chars: &Vec<char>, from: usize) -> (end: usize)
    requires
        from <= chars.len(),
    ensures
        from <= end <= chars.len(),
        end - from == line_len(chars@.skip(from as int)),
{
    let mut end: usize = from;
    while end < chars.len() && chars[end] != '\n'
        invariant
            from <= end <= chars.len(),
            forall|j: int| from <= j < end ==> chars@[j] != '\n',
        decreases chars.len() - end,
    {
        end += 1;
    }
    proof {
        lemma_line_len(chars@.skip(from as int), end - from);
    }
    end
}

/// Whether `ranges` marks, in `chars`, exactly the fields `parts`.
spec fn marks(chars: Seq<char>, ranges: Seq<(usize, usize)>, parts: Seq<Seq<char>>) -> bool {
    &&& ranges.len() == parts.len()
    &&& forall|k: int|
        0 <= k < ranges.len() ==> {
            &&& (#[trigger] ranges[k]).0 <= ranges[k].1 <= chars.len()
            &&& chars.subrange(ranges[k].0 as int, ranges[k].1 as int) == parts[k]
        }
}

/// Where the fields of `chars[from..to]` begin and end.
fn split_fields(chars: &Vec<char>, from: usize, to: usize) -> (ranges: Vec<(usize, usize)>)
    requires
        from <= to <= chars.len(),
    ensures
        marks(chars@, ranges@, fields(chars@.subrange(from as int, to as int))),
{
    let mut ranges: Vec<(usize, usize)> = Vec::new();
    let mut i: usize = from;
    let mut open: bool = false;
    while i < to
        invariant
            from <= i <= to <= chars.len(),
            marks(chars@, ranges@, fields(chars@.subrange(from as int, i as int))),
            open == (i > from && !is_whitespace(chars@[i - 1])),
            open ==> ranges.len() > 0 && ranges@.last().1 == i,
            forall|k: int| 0 <= k < ranges.len() ==> (#[trigger] ranges@[k]).1 <= i,
        decreases to - i,
    {
        let c: char = chars[i];
        let ghost line = chars@.subrange(from as int, i as int);
        let ghost next = chars@.subrange(from as int, i + 1);
        let ghost before = fields(line);
        proof {
            assert(next.drop_last() =~= line);
            assert(next.last() == c);
            if i > from {
                assert(line.last() == chars@[i - 1]);
            }
        }
        if char_is_whitespace(c) {
            open = false;
        } else if open {
            let last: usize = ranges.len() - 1;
            let begin: usize = ranges[last].0;
            let ghost old_ranges = ranges@;
            ranges[last] = (begin, i + 1);
            proof {
                let after = before.drop_last().push(before.last().push(c));
                assert(fields(next) == after);
                assert forall|k: int| 0 <= k < ranges.len() implies {
                    &&& (#[trigger] ranges@[k]).0 <= ranges@[k].1 <= chars@.len()
                    &&& chars@.subrange(ranges@[k].0 as int, ranges@[k].1 as int) == after[k]
                } by {
                    if k < last {
                        assert(ranges@[k] == old_ranges[k]);
                    } else {
                        assert(old_ranges[k].1 == i);
                        assert(chars@.subrange(begin as int, i + 1) =~= chars@.subrange(
                            begin as int,
                            i as int,
                        ).push(c));
                    }
                }
            }
        } else {
            ranges.push((i, i + 1));
            open = true;
            proof {
                let after = before.push(seq![c]);
                assert(fields(next) == after);
                assert(chars@.subrange(i as int, i + 1) =~= seq![c]);
            }
        }
        i += 1;
    }
    ranges
}

/// Whether `chars[from..to]` spells `word`.
fn range_equals(chars: &Vec<char>, from: usize, to: usize, word: &Vec<char>) -> (b: bool)
    requires
        from <= to <= chars.len(),
    ensures
        b == (chars@.subrange(from as int, to as int) == word@),
{
    if to - from != word.len() {
        return false;
    }
    let mut i: usize = 0;
    while i < word.len()
        invariant
            from <= to <= chars.len(),
            to - from == word.len(),
            i <= word.len(),
            forall|j: int| 0 <= j < i ==> chars@[from + j] == word@[j],
        decreases word.len() - i,
    {
        if chars[from + i] != word[i] {
            assert(chars@.subrange(from as int, to as int)[i as int] != word@[i as int]);
            return false;
        }
        i += 1;
    }
    assert(chars@.subrange(from as int, to as int) =~= word@);
    true
}

/// Looks up, in the text of the accounting table, the cumulative counts of
/// sectors read from and written to `device`.
pub fn read_disk_stats(table: &str, device: &str) -> (counters: Option<(u64, u64)>)
    ensures
        counters == disk_stats(table@, device@),
{
    let chars = chars_of(table);
    let name = chars_of(device);
    let mut pos: usize = 0;
    assert(chars@.skip(0) =~= table@);
    loop
        invariant
            pos <= chars.len(),
            name@ == device@,
            disk_stats(table@, device@) == disk_stats(chars@.skip(pos as int), name@),
        decreases chars.len() - pos,
    {
        let end = line_end(&chars, pos);
        let row = split_fields(&chars, pos, end);
        let ghost rest = chars@.skip(pos as int);
        assert(rest.take(end - pos) =~= chars@.subrange(pos as int, end as int));
        if row.len() >= MIN_FIELDS {
            let name_at = row[NAME_FIELD];
            if range_equals(&chars, name_at.0, name_at.1, &name) {
                let read_at = row[SECTORS_READ_FIELD];
                let written_at = row[SECTORS_WRITTEN_FIELD];
                let read = parse_u64_range(&chars, read_at.0, read_at.1);
                let written = parse_u64_range(&chars, written_at.0, written_at.1);
                return match (read, written) {
                    (Some(r), Some(w)) => Some((r, w)),
                    _ => None,
                };
            }
        }
        if end >= chars.len() {
            return None;
        }
        assert(rest.skip(end - pos + 1) =~= chars@.skip(end + 1));
        pos = end + 1;
    }
}

} // verus!
