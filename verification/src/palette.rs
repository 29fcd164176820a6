//! The fixed eight-glyph palette, ordered by increasing visual height.

use vstd::prelude::*;

verus! {

/// The eight block-height glyphs, indexed 0..8, from one-eighth height
/// to full height. The order is part of the output contract.
pub open spec fn palette() -> Seq<char> {
    seq!['\u{2581}', '\u{2582}', '\u{2583}', '\u{2584}', '\u{2585}', '\u{2586}', '\u{2587}', '\u{2588}']
}

/// The glyph emitted for an absent sample in sparse mode.
pub open spec fn blank() -> char {
    ' '
}

/// Returns the one-character string holding the palette glyph at `idx`.
pub fn glyph_str(idx: usize) -> (g: &'static str)
    requires
        idx < 8,
    ensures
        g@ == seq![palette()[idx as int]],
{
    let g: &'static str = match idx {
        0 => "\u{2581}",
        1 => "\u{2582}",
        2 => "\u{2583}",
        3 => "\u{2584}",
        4 => "\u{2585}",
        5 => "\u{2586}",
        6 => "\u{2587}",
        _ => "\u{2588}",
    };
    proof {
        reveal_strlit("\u{2581}");
        reveal_strlit("\u{2582}");
        reveal_strlit("\u{2583}");
        reveal_strlit("\u{2584}");
        reveal_strlit("\u{2585}");
        reveal_strlit("\u{2586}");
        reveal_strlit("\u{2587}");
        reveal_strlit("\u{2588}");
        assert(g@ =~= seq![palette()[idx as int]]);
    }
    g
}

/// Returns the one-character string holding the blank glyph.
pub fn blank_str() -> (g: &'static str)
    ensures
        g@ == seq![blank()],
{
    let g: &'static str = " ";
    proof {
        reveal_strlit(" ");
        assert(g@ =~= seq![blank()]);
    }
    g
}

} // verus!
