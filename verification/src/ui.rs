//! Computations of the display that do not depend on the terminal.

use vstd::prelude::*;
use vstd::string::StringSliceAdditionalSpecFns;
use vstd::utf8::{decode_utf8, encode_utf8_decode_utf8, is_char_boundary};

verus! {

/// Largest width of the help window, in columns.
pub const POPUP_WIDTH: u16 = 50;

/// Largest height of the help window, in rows.
pub const POPUP_HEIGHT: u16 = 20;

/// Columns and rows that stay free around the help window.
pub const POPUP_MARGIN: u16 = 4;

/// The character that marks a text as cut.
pub open spec fn ellipsis() -> Seq<char> {
    seq!['\u{2026}']
}

/// `a - b`, or zero where `b` is the larger.
pub open spec fn minus_or_zero(a: int, b: int) -> int {
    if a >= b {
        a - b
    } else {
        0
    }
}

/// The smaller of two numbers.
pub open spec fn smaller(a: int, b: int) -> int {
    if a <= b {
        a
    } else {
        b
    }
}

/// Size of the help window on a screen of `width` columns: as wide as
/// the limit allows, with the margin left free.
pub open spec fn popup_extent(limit: int, screen: int) -> int {
    smaller(limit, minus_or_zero(screen, 4))
}

/// The largest of `samples`, and at least `floor`.
pub open spec fn largest_or(samples: Seq<u64>, floor: u64) -> u64
    decreases samples.len(),
{
    if samples.len() == 0 {
        floor
    } else if samples.last() > largest_or(samples.drop_last(), floor) {
        samples.last()
    } else {
        largest_or(samples.drop_last(), floor)
    }
}

/// Whether `text` can be cut to `max` bytes: it is short enough as it is,
/// or a character ends just before the place of the mark.
pub open spec fn can_truncate(text: &str, max: usize) -> bool {
    text.spec_bytes().len() <= max || (max >= 1 && is_char_boundary(
        text.spec_bytes(),
        max - 1,
    ))
}

/// Cuts `text` to at most `max` bytes before the mark: a text of up to `max`
/// bytes is kept, a longer one is cut after `max - 1` bytes and the mark is
/// put behind it.
pub fn truncate_str(text: &str, max: usize) -> (cut: String)
    requires
        can_truncate(text, max),
    ensures
        cut@ == if text.spec_bytes().len() <= max {
            text@
        } else {
            decode_utf8(text.spec_bytes().subrange(0, max - 1)) + ellipsis()
        },
{
    if text.as_bytes().len() <= max {
        String::from_str(text)
    } else {
        let (head, _) = text.split_at(max - 1);
        proof {
            encode_utf8_decode_utf8(head@);
            assert(head.spec_bytes() == text.spec_bytes().subrange(0, max - 1));
            assert(decode_utf8(text.spec_bytes().subrange(0, max - 1)) == head@);
            reveal_strlit("\u{2026}");
            assert("\u{2026}"@ =~= ellipsis());
        }
        let mut cut = String::from_str(head);
        cut.append("\u{2026}");
        assert(cut@ =~= head@ + ellipsis());
        cut
    }
}

/// Place and size of the help window on a screen of `width` columns and
/// `height` rows: left edge, top edge, width and height. The window is at
/// most fifty by twenty, leaves four columns and rows free, and stands in
/// the middle.
pub fn popup_area(width: u16, height: u16) -> (area: (u16, u16, u16, u16))
    ensures
        area.2 == popup_extent(50, width as int),
        area.3 == popup_extent(20, height as int),
        area.0 == (width - area.2) / 2,
        area.1 == (height - area.3) / 2,
        area.0 + area.2 <= width,
        area.1 + area.3 <= height,
{
    let free_width: u16 = if width >= POPUP_MARGIN {
        width - POPUP_MARGIN
    } else {
        0
    };
    let free_height: u16 = if height >= POPUP_MARGIN {
        height - POPUP_MARGIN
    } else {
        0
    };
    let popup_width: u16 = if POPUP_WIDTH <= free_width {
        POPUP_WIDTH
    } else {
        free_width
    };
    let popup_height: u16 = if POPUP_HEIGHT <= free_height {
        POPUP_HEIGHT
    } else {
        free_height
    };
    ((width - popup_width) / 2, (height - popup_height) / 2, popup_width, popup_height)
}

/// Upper end of the scale of a throughput graph: the largest sample, and
/// at least one.
pub fn sparkline_max(samples: &Vec<u64>) -> (top: u64)
    ensures
        top == largest_or(samples@, 1),
        top >= 1,
        forall|i: int| 0 <= i < samples@.len() ==> samples@[i] <= top,
{
    let mut top: u64 = 1;
    let mut i: usize = 0;
    assert(samples@.take(0) =~= Seq::<u64>::empty());
    while i < samples.len()
        invariant
            i <= samples.len(),
            top == largest_or(samples@.take(i as int), 1),
            top >= 1,
            forall|k: int| 0 <= k < i ==> samples@[k] <= top,
        decreases samples.len() - i,
    {
        assert(samples@.take(i + 1).drop_last() =~= samples@.take(i as int));
        if samples[i] > top {
            top = samples[i];
        }
        i += 1;
    }
    assert(samples@.take(samples.len() as int) =~= samples@);
    top
}

} // verus!
