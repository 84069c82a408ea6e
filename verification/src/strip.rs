//! The decorative color strip: one block glyph per entry of a fixed
//! eight-color palette, then a color reset and a newline.
//!
//! The palette and the glyph text are fixed here; the caller owns the
//! terminal and interleaves the color-control writes, skipping a glyph
//! whose color cannot be set and always restoring the default color.

use vstd::prelude::*;

verus! {

/// The palette entries, in their fixed order.
#[derive(Clone, Copy, PartialEq, Eq, Structural, Debug)]
pub enum StripColor {
    Black,
    Red,
    Green,
    Yellow,
    Blue,
    Magenta,
    Cyan,
    White,
}

pub open spec fn spec_palette() -> Seq<StripColor> {
    seq![
        StripColor::Black,
        StripColor::Red,
        StripColor::Green,
        StripColor::Yellow,
        StripColor::Blue,
        StripColor::Magenta,
        StripColor::Cyan,
        StripColor::White,
    ]
}

/// The strip's visible text, color control aside: one block glyph per
/// palette entry, then the newline.
pub open spec fn spec_strip_text() -> Seq<char> {
    seq!['█', '█', '█', '█', '█', '█', '█', '█', '\n']
}

/// The colors to paint, in order: exactly the eight palette entries.
pub fn color_strip_colors() -> (v: Vec<StripColor>)
    ensures
        v@ == spec_palette(),
        v@.len() == 8,
{
    let mut v: Vec<StripColor> = Vec::new();
    v.push(StripColor::Black);
    v.push(StripColor::Red);
    v.push(StripColor::Green);
    v.push(StripColor::Yellow);
    v.push(StripColor::Blue);
    v.push(StripColor::Magenta);
    v.push(StripColor::Cyan);
    v.push(StripColor::White);
    proof {
        assert(v@ =~= spec_palette());
    }
    v
}

/// The glyph painted for one palette entry.
pub fn strip_glyph() -> (c: char)
    ensures
        c == '█',
{
    '█'
}

/// The strip's visible text, for checking a rendered strip against.
pub fn strip_text() -> (s: String)
    ensures
        s@ == spec_strip_text(),
{
    let mut s = String::new();
    let mut i: usize = 0;
    while i < 8
        invariant
            0 <= i <= 8,
            s@ =~= spec_strip_text().take(i as int),
        decreases 8 - i,
    {
        s.push('█');
        i += 1;
    }
    s.push('\n');
    proof {
        assert(s@ =~= spec_strip_text());
    }
    s
}

/// The strip shows one glyph for each palette entry, and nothing else
/// before its newline.
pub proof fn lemma_strip_glyphs_match_palette()
    ensures
        spec_strip_text().len() == spec_palette().len() + 1,
        spec_strip_text().last() == '\n',
        forall|i: int|
            0 <= i < spec_palette().len() ==> #[trigger] spec_strip_text()[i] == '█',
{
}

} // verus!
