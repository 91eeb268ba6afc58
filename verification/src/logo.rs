//! The desktop wallpaper: the `░` pattern with a big "TDK" in the middle,
//! drawn with quadrant blocks at twice the cell resolution.
//!
//! The letters are a 1-bit bitmap, `#` = ink. The renderer packs each 2x2
//! block of bitmap pixels into one quadrant character, so the letter block
//! is half as wide and half as tall as the bitmap, rounded up, and it is
//! centred on the desktop.

use vstd::prelude::*;
use vstd::string::StringSliceAdditionalSpecFns;

verus! {

#[verifier::external_type_specification]
#[verifier::external_body]
pub struct ExDrawBuffer(turbo_vision::core::draw::DrawBuffer);

#[verifier::external_type_specification]
#[verifier::external_body]
pub struct ExAttr(turbo_vision::core::palette::Attr);

#[verifier::external_type_specification]
#[verifier::external_body]
pub struct ExTvColor(turbo_vision::core::palette::TvColor);

#[verifier::external_type_specification]
#[verifier::external_body]
pub struct ExPaletteChainNode(turbo_vision::core::palette_chain::PaletteChainNode);

/// The cells of a draw buffer, in order, each as its character and its
/// attribute.
pub uninterp spec fn draw_buffer_cells(buf: turbo_vision::core::draw::DrawBuffer) -> Seq<
    (char, turbo_vision::core::palette::Attr),
>;

/// `DrawBuffer::move_char(pos, ch, attr, count)`: the cells from `pos` up to
/// `pos + count`, as far as the buffer reaches, become `(ch, attr)`; the
/// others and the length stay as they were. The crate computes `pos + count`
/// with `+`, so that sum must fit in a `usize`.
#[verifier::external_body]
fn fill_cells(
    buf: &mut turbo_vision::core::draw::DrawBuffer,
    pos: usize,
    ch: char,
    attr: turbo_vision::core::palette::Attr,
    count: usize,
)
    requires
        pos + count <= usize::MAX,
    ensures
        draw_buffer_cells(*final(buf)).len() == draw_buffer_cells(*old(buf)).len(),
        forall|i: int|
            0 <= i < draw_buffer_cells(*old(buf)).len() ==> #[trigger] draw_buffer_cells(
                *final(buf),
            )[i] == (if pos <= i < pos + count {
                (ch, attr)
            } else {
                draw_buffer_cells(*old(buf))[i]
            }),
{
    buf.move_char(pos, ch, attr, count);
}

/// `DrawBuffer::put_char(pos, ch, attr)`: the cell at `pos`, if the buffer
/// has one there, becomes `(ch, attr)`; nothing else changes.
#[verifier::external_body]
fn put_cell(
    buf: &mut turbo_vision::core::draw::DrawBuffer,
    pos: usize,
    ch: char,
    attr: turbo_vision::core::palette::Attr,
)
    ensures
        draw_buffer_cells(*final(buf)) == (if pos < draw_buffer_cells(*old(buf)).len() {
            draw_buffer_cells(*old(buf)).update(pos as int, (ch, attr))
        } else {
            draw_buffer_cells(*old(buf))
        }),
{
    buf.put_char(pos, ch, attr);
}

/// The colour `TvColor::from_u8(n)` gives: the sixteen palette colours by
/// the low four bits of `n` (7 is `LightGray`, 8 is `DarkGray`).
pub uninterp spec fn tv_color_from_byte(n: u8) -> turbo_vision::core::palette::TvColor;

/// The colour `TvColor::Rgb { r, g, b }`.
pub uninterp spec fn tv_rgb(r: u8, g: u8, b: u8) -> turbo_vision::core::palette::TvColor;

/// The attribute `Attr::new(fg, bg)` builds: those two colours, no style.
pub uninterp spec fn attr_with_colors(
    fg: turbo_vision::core::palette::TvColor,
    bg: turbo_vision::core::palette::TvColor,
) -> turbo_vision::core::palette::Attr;

/// The desktop's attribute, light gray on dark gray: the value of
/// `colors::DESKTOP`.
pub open spec fn desktop_attr_spec() -> turbo_vision::core::palette::Attr {
    attr_with_colors(tv_color_from_byte(7), tv_color_from_byte(8))
}

/// The letters' attribute, navy (`Rgb { 0, 0, 96 }`) on dark gray.
pub open spec fn letters_attr_spec() -> turbo_vision::core::palette::Attr {
    attr_with_colors(tv_rgb(0, 0, 96), tv_color_from_byte(8))
}

/// `TvColor::from_u8(n)`: the palette colour of the low four bits of `n`.
#[verifier::external_body]
fn tv_color(n: u8) -> (color: turbo_vision::core::palette::TvColor)
    ensures
        color == tv_color_from_byte(n),
{
    turbo_vision::core::palette::TvColor::from_u8(n)
}

/// `Attr::new(fg, bg)`: the attribute of those two colours.
#[verifier::external_body]
fn attr_new(
    fg: turbo_vision::core::palette::TvColor,
    bg: turbo_vision::core::palette::TvColor,
) -> (attr: turbo_vision::core::palette::Attr)
    ensures
        attr == attr_with_colors(fg, bg),
{
    turbo_vision::core::palette::Attr::new(fg, bg)
}

/// `TvColor::Rgb { r, g, b }`, a true-color value.
#[verifier::external_body]
fn rgb_color(r: u8, g: u8, b: u8) -> (color: turbo_vision::core::palette::TvColor)
    ensures
        color == tv_rgb(r, g, b),
{
    turbo_vision::core::palette::TvColor::Rgb { r, g, b }
}

/// "TDK" as a 1-bit bitmap, `#` = ink: Arial Black rasterised to 116 x 36
/// pixels. Two bitmap pixels per cell in each direction. Every row is the
/// same width and the row count is even.
pub const BITMAP: [&'static str; 36] = [
    "##################################.....######################.................###########...........###############.",
    "##################################.....#########################..............###########..........###############..",
    "##################################.....##########################.............###########.........###############...",
    "##################################.....############################...........###########.........##############....",
    "##################################.....#############################..........###########........##############.....",
    "##################################.....#############################..........###########.......##############......",
    "##################################.....##############################.........###########......##############.......",
    "##################################.....###############################........###########.....##############........",
    "............###########................###########....################........###########....##############.........",
    "............###########................###########........#############.......###########....#############..........",
    "............###########................###########.........############.......###########...##############..........",
    "............###########................###########.........############.......###########..##############...........",
    "............###########................###########..........###########.......###########.##############............",
    "............###########................###########..........############......#########################.............",
    "............###########................###########..........############......#########################.............",
    "............###########................###########...........###########......##########################............",
    "............###########................###########...........###########......##########################............",
    "............###########................###########...........###########......###########################...........",
    "............###########................###########...........###########......###########################...........",
    "............###########................###########...........###########......############################..........",
    "............###########................###########...........###########......#############################.........",
    "............###########................###########..........############......#############################.........",
    "............###########................###########..........############......################.#############........",
    "............###########................###########..........############......###############...############........",
    "............###########................###########..........###########.......##############....#############.......",
    "............###########................###########.........############.......##############.....#############......",
    "............###########................###########........#############.......#############......#############......",
    "............###########................###########.....###############........############........#############.....",
    "............###########................###############################........###########.........#############.....",
    "............###########................##############################.........###########..........#############....",
    "............###########................#############################..........###########..........##############...",
    "............###########................#############################..........###########...........#############...",
    "............###########................############################...........###########...........##############..",
    "............###########................##########################.............###########............##############.",
    "............###########................########################...............###########.............#############.",
    "............###########................#####################..................###########.............##############",
];

/// The byte that marks an inked pixel.
pub const INK: u8 = 35;

/// The wallpaper character shown wherever no letter is drawn.
pub const WALLPAPER: char = '\u{2591}';

/// Is bitmap pixel `(x, y)` ink? Out of range counts as blank.
pub open spec fn ink_at(x: int, y: int) -> bool {
    &&& 0 <= y < BITMAP@.len()
    &&& 0 <= x < BITMAP@[y].spec_bytes().len()
    &&& BITMAP@[y].spec_bytes()[x] == INK
}

/// The widest of the first `n` bitmap rows, in bytes.
pub open spec fn widest_row(n: int) -> nat
    decreases n,
{
    if n <= 0 {
        0
    } else {
        let w = BITMAP@[n - 1].len() as nat;
        let rest = widest_row(n - 1);
        if w > rest {
            w
        } else {
            rest
        }
    }
}

/// Width of the letter block in cells: the widest bitmap row, halved and
/// rounded up.
pub open spec fn letters_width() -> int {
    (widest_row(BITMAP@.len() as int) as int + 1) / 2
}

/// Height of the letter block in cells: the bitmap's row count, halved and
/// rounded up.
pub open spec fn letters_height() -> int {
    (BITMAP@.len() as int + 1) / 2
}

/// The quadrant index of the 2x2 pixel group whose top-left pixel is
/// `(px, py)`: bit 1 = top-left, 2 = top-right, 4 = bottom-left,
/// 8 = bottom-right.
pub open spec fn quadrant_bits(px: int, py: int) -> int {
    (if ink_at(px, py) { 1int } else { 0 }) + (if ink_at(px + 1, py) { 2int } else { 0 }) + (
    if ink_at(px, py + 1) { 4int } else { 0 }) + (if ink_at(px + 1, py + 1) { 8int } else { 0 })
}

/// The quadrant block character for a 2x2 pixel group. Index 0 is the blank
/// group, where the wallpaper shows instead.
pub open spec fn quadrant_glyph(bits: int) -> char {
    if bits == 1 {
        '\u{2598}'
    } else if bits == 2 {
        '\u{259D}'
    } else if bits == 3 {
        '\u{2580}'
    } else if bits == 4 {
        '\u{2596}'
    } else if bits == 5 {
        '\u{258C}'
    } else if bits == 6 {
        '\u{259E}'
    } else if bits == 7 {
        '\u{259B}'
    } else if bits == 8 {
        '\u{2597}'
    } else if bits == 9 {
        '\u{259A}'
    } else if bits == 10 {
        '\u{2590}'
    } else if bits == 11 {
        '\u{259C}'
    } else if bits == 12 {
        '\u{2584}'
    } else if bits == 13 {
        '\u{2599}'
    } else if bits == 14 {
        '\u{259F}'
    } else if bits == 15 {
        '\u{2588}'
    } else {
        ' '
    }
}

/// Whether the block element `c` inks quadrant `q` of its cell (0 upper
/// left, 1 upper right, 2 lower left, 3 lower right), as its Unicode name
/// says: U+2598 QUADRANT UPPER LEFT, U+259D QUADRANT UPPER RIGHT, U+2596
/// QUADRANT LOWER LEFT, U+2597 QUADRANT LOWER RIGHT, U+2580 UPPER HALF BLOCK,
/// U+2584 LOWER HALF BLOCK, U+258C LEFT HALF BLOCK, U+2590 RIGHT HALF BLOCK,
/// U+2588 FULL BLOCK, and U+2599, U+259A, U+259B, U+259C, U+259E, U+259F,
/// the quadrants that name their three or two inked corners.
pub open spec fn block_covers(c: char, q: int) -> bool {
    if q == 0 {
        c == '\u{2598}' || c == '\u{2580}' || c == '\u{258C}' || c == '\u{2588}' || c
            == '\u{2599}' || c == '\u{259A}' || c == '\u{259B}' || c == '\u{259C}'
    } else if q == 1 {
        c == '\u{259D}' || c == '\u{2580}' || c == '\u{2590}' || c == '\u{2588}' || c
            == '\u{259B}' || c == '\u{259C}' || c == '\u{259E}' || c == '\u{259F}'
    } else if q == 2 {
        c == '\u{2596}' || c == '\u{2584}' || c == '\u{258C}' || c == '\u{2588}' || c
            == '\u{2599}' || c == '\u{259B}' || c == '\u{259E}' || c == '\u{259F}'
    } else if q == 3 {
        c == '\u{2597}' || c == '\u{2584}' || c == '\u{2590}' || c == '\u{2588}' || c
            == '\u{2599}' || c == '\u{259A}' || c == '\u{259C}' || c == '\u{259F}'
    } else {
        false
    }
}

/// Bit `q` (0 to 3) of `bits`.
pub open spec fn bit_set(bits: int, q: int) -> bool {
    if q == 0 {
        bits % 2 == 1
    } else if q == 1 {
        (bits / 2) % 2 == 1
    } else if q == 2 {
        (bits / 4) % 2 == 1
    } else {
        (bits / 8) % 2 == 1
    }
}

/// The letter glyph drawn at column `x` of desktop row `row`, on a desktop of
/// `width` x `height` cells, or `None` where the wallpaper shows: outside the
/// centred letter block, on a blank 2x2 group, and everywhere when the block
/// does not fit.
pub open spec fn logo_glyph(width: int, height: int, row: int, x: int) -> Option<char> {
    let lw = letters_width();
    let lh = letters_height();
    let x0 = (width - lw) / 2;
    let y0 = (height - lh) / 2;
    if lw > width || lh > height || row < y0 || row >= y0 + lh || x < x0 || x >= x0 + lw {
        None
    } else {
        let bits = quadrant_bits((x - x0) * 2, (row - y0) * 2);
        if bits == 0 {
            None
        } else {
            Some(quadrant_glyph(bits))
        }
    }
}

/// The cell shown at column `x` of desktop row `row`: a letter glyph in
/// `letters`, or the wallpaper in `wallpaper`.
pub open spec fn desktop_cell(
    width: int,
    height: int,
    row: int,
    x: int,
    wallpaper: turbo_vision::core::palette::Attr,
    letters: turbo_vision::core::palette::Attr,
) -> (char, turbo_vision::core::palette::Attr) {
    match logo_glyph(width, height, row, x) {
        Some(c) => (c, letters),
        None => (WALLPAPER, wallpaper),
    }
}

/// The cells of a buffer holding `cells` after desktop row `row` was rendered
/// into it: the first `width` cells show the desktop, the rest keep what they
/// held.
pub open spec fn rendered_row(
    cells: Seq<(char, turbo_vision::core::palette::Attr)>,
    width: int,
    height: int,
    row: int,
    wallpaper: turbo_vision::core::palette::Attr,
    letters: turbo_vision::core::palette::Attr,
) -> Seq<(char, turbo_vision::core::palette::Attr)> {
    Seq::new(
        cells.len(),
        |x: int|
            if x < width {
                desktop_cell(width, height, row, x, wallpaper, letters)
            } else {
                cells[x]
            },
    )
}


/// The letters are centred: when the block fits, it starts at
/// `((width - lw) / 2, (height - lh) / 2)`, lies wholly on the desktop, its
/// left and right margins (and its top and bottom ones) differ by at most one
/// cell, and no letter is drawn outside it.
pub proof fn lemma_letters_are_centred(width: int, height: int, row: int, x: int)
    requires
        letters_width() <= width,
        letters_height() <= height,
    ensures
        ({
            let x0 = (width - letters_width()) / 2;
            let y0 = (height - letters_height()) / 2;
            &&& 0 <= x0
            &&& x0 + letters_width() <= width
            &&& 0 <= (width - x0 - letters_width()) - x0 <= 1
            &&& 0 <= y0
            &&& y0 + letters_height() <= height
            &&& 0 <= (height - y0 - letters_height()) - y0 <= 1
            &&& (row < y0 || row >= y0 + letters_height() || x < x0 || x >= x0
                + letters_width()) ==> logo_glyph(width, height, row, x) is None
        }),
{
}

/// A desktop too small for the letters shows only wallpaper.
pub proof fn lemma_small_desktop_shows_only_wallpaper(width: int, height: int, row: int, x: int)
    requires
        letters_width() > width || letters_height() > height,
    ensures
        logo_glyph(width, height, row, x) is None,
{
}

/// A letter cell always shows one of the fifteen non-blank quadrant blocks,
/// never a blank: the wallpaper shows through blank 2x2 groups.
pub proof fn lemma_letter_cells_are_quadrant_blocks(width: int, height: int, row: int, x: int)
    ensures
        logo_glyph(width, height, row, x) matches Some(c) ==> c != ' ' && c != WALLPAPER,
{
    let lw = letters_width();
    let lh = letters_height();
    let x0 = (width - lw) / 2;
    let y0 = (height - lh) / 2;
    if !(lw > width || lh > height || row < y0 || row >= y0 + lh || x < x0 || x >= x0 + lw) {
        let bits = quadrant_bits((x - x0) * 2, (row - y0) * 2);
        assert(0 <= bits < 16);
    }
}

/// The glyph for a non-blank 2x2 group inks exactly the quadrants whose
/// bits are set: bit 1 the upper left, 2 the upper right, 4 the lower left,
/// 8 the lower right.
pub proof fn lemma_quadrant_glyph_inks_its_bits(bits: int)
    requires
        1 <= bits < 16,
    ensures
        forall|q: int| 0 <= q < 4 ==> #[trigger] block_covers(quadrant_glyph(bits), q) == bit_set(bits, q),
{
    assert(bits == 1 || bits == 2 || bits == 3 || bits == 4 || bits == 5 || bits == 6 || bits == 7
        || bits == 8 || bits == 9 || bits == 10 || bits == 11 || bits == 12 || bits == 13 || bits
        == 14 || bits == 15);
}

/// Each letter cell shows its 2x2 group of bitmap pixels: where the block
/// fits and the cell lies in it, the cell shows wallpaper exactly when none
/// of the four pixels is ink, and otherwise a block that inks exactly the
/// quadrants whose pixels are ink.
pub proof fn lemma_letter_cells_show_the_bitmap(width: int, height: int, row: int, x: int)
    requires
        letters_width() <= width,
        letters_height() <= height,
        (height - letters_height()) / 2 <= row < (height - letters_height()) / 2 + letters_height(),
        (width - letters_width()) / 2 <= x < (width - letters_width()) / 2 + letters_width(),
    ensures
        ({
            let px = (x - (width - letters_width()) / 2) * 2;
            let py = (row - (height - letters_height()) / 2) * 2;
            let inked = ink_at(px, py) || ink_at(px + 1, py) || ink_at(px, py + 1) || ink_at(
                px + 1,
                py + 1,
            );
            &&& logo_glyph(width, height, row, x) is None <==> !inked
            &&& logo_glyph(width, height, row, x) matches Some(c) ==> {
                &&& block_covers(c, 0) == ink_at(px, py)
                &&& block_covers(c, 1) == ink_at(px + 1, py)
                &&& block_covers(c, 2) == ink_at(px, py + 1)
                &&& block_covers(c, 3) == ink_at(px + 1, py + 1)
            }
        }),
{
    let px = (x - (width - letters_width()) / 2) * 2;
    let py = (row - (height - letters_height()) / 2) * 2;
    let bits = quadrant_bits(px, py);
    assert(0 <= bits < 16);
    if bits != 0 {
        lemma_quadrant_glyph_inks_its_bits(bits);
        assert(block_covers(quadrant_glyph(bits), 0) == bit_set(bits, 0));
        assert(block_covers(quadrant_glyph(bits), 1) == bit_set(bits, 1));
        assert(block_covers(quadrant_glyph(bits), 2) == bit_set(bits, 2));
        assert(block_covers(quadrant_glyph(bits), 3) == bit_set(bits, 3));
    }
}

/// One corner of a rectangle, in cells.
#[derive(Clone, Copy, Debug, PartialEq, Eq, Structural)]
pub struct Point {
    pub x: i16,
    pub y: i16,
}

/// A rectangle in its owner's coordinates: `a` is the top-left corner
/// (inclusive), `b` the bottom-right one (exclusive).
#[derive(Clone, Copy, Debug, PartialEq, Eq, Structural)]
pub struct Bounds {
    pub a: Point,
    pub b: Point,
}

/// A length along one axis, clamped to 0 when the far edge lies before the
/// near one.
pub open spec fn clamped_extent(near: i16, far: i16) -> int {
    if far - near > 0 {
        far - near
    } else {
        0
    }
}

/// A full-desktop view: the wallpaper with the logo centred on it. It is
/// inert: no options, no focus, no event handling, and it grows with the
/// desktop.
pub struct Logo {
    bounds: Bounds,
    state: u16,
    palette_chain: Option<turbo_vision::core::palette_chain::PaletteChainNode>,
}

impl Logo {
    /// The rectangle the view covers.
    pub closed spec fn spec_bounds(&self) -> Bounds {
        self.bounds
    }

    /// The view's state flags.
    pub closed spec fn spec_state(&self) -> u16 {
        self.state
    }

    /// The palette-chain node the view was given.
    pub closed spec fn spec_palette_chain(&self) -> Option<
        turbo_vision::core::palette_chain::PaletteChainNode,
    > {
        self.palette_chain
    }

    /// A logo view covering `bounds` (desktop-relative: pass `0,0,w,h`), with
    /// no state flags and no palette chain.
    pub fn new(bounds: Bounds) -> (logo: Self)
        ensures
            logo.spec_bounds() == bounds,
            logo.spec_state() == 0,
            logo.spec_palette_chain() is None,
    {
        Logo { bounds, state: 0, palette_chain: None }
    }

    /// The rectangle the view covers.
    pub fn bounds(&self) -> (bounds: Bounds)
        ensures
            bounds == self.spec_bounds(),
    {
        self.bounds
    }

    /// Moves or resizes the view; nothing else changes.
    pub fn set_bounds(&mut self, bounds: Bounds)
        ensures
            final(self).spec_bounds() == bounds,
            final(self).spec_state() == old(self).spec_state(),
            final(self).spec_palette_chain() == old(self).spec_palette_chain(),
    {
        self.bounds = bounds;
    }

    /// The view's state flags.
    pub fn state(&self) -> (state: u16)
        ensures
            state == self.spec_state(),
    {
        self.state
    }

    /// Replaces the view's state flags; nothing else changes.
    pub fn set_state(&mut self, state: u16)
        ensures
            final(self).spec_state() == state,
            final(self).spec_bounds() == old(self).spec_bounds(),
            final(self).spec_palette_chain() == old(self).spec_palette_chain(),
    {
        self.state = state;
    }

    /// Gives the view its palette-chain node; nothing else changes.
    pub fn set_palette_chain(
        &mut self,
        node: Option<turbo_vision::core::palette_chain::PaletteChainNode>,
    )
        ensures
            final(self).spec_palette_chain() == node,
            final(self).spec_bounds() == old(self).spec_bounds(),
            final(self).spec_state() == old(self).spec_state(),
    {
        self.palette_chain = node;
    }

    /// The palette-chain node the view was given, if any.
    pub fn get_palette_chain(&self) -> (node: Option<
        &turbo_vision::core::palette_chain::PaletteChainNode,
    >)
        ensures
            node is Some <==> self.spec_palette_chain() is Some,
            node matches Some(n) ==> self.spec_palette_chain() == Some(*n),
    {
        match &self.palette_chain {
            Some(n) => Some(n),
            None => None,
        }
    }

    /// The size of the area the view draws, in cells: `(width, height)`,
    /// each clamped to 0 where the rectangle is inverted. The extents are
    /// computed in `i16`, so they must fit there.
    pub fn draw_size(&self) -> (size: (usize, usize))
        requires
            i16::MIN <= self.spec_bounds().b.x - self.spec_bounds().a.x <= i16::MAX,
            i16::MIN <= self.spec_bounds().b.y - self.spec_bounds().a.y <= i16::MAX,
        ensures
            size.0 == clamped_extent(self.spec_bounds().a.x, self.spec_bounds().b.x),
            size.1 == clamped_extent(self.spec_bounds().a.y, self.spec_bounds().b.y),
    {
        let w = self.bounds.b.x - self.bounds.a.x;
        let h = self.bounds.b.y - self.bounds.a.y;
        let width: usize = if w > 0 {
            w as usize
        } else {
            0
        };
        let height: usize = if h > 0 {
            h as usize
        } else {
            0
        };
        (width, height)
    }

    /// Where desktop row `row` of the view goes on the terminal: the view's
    /// left edge, `row` lines below its top edge. Rows are those of
    /// `draw_size`, so the same extents must fit in `i16`.
    pub fn line_origin(&self, row: usize) -> (origin: (i16, i16))
        requires
            self.spec_bounds().b.y - self.spec_bounds().a.y <= i16::MAX,
            row < clamped_extent(self.spec_bounds().a.y, self.spec_bounds().b.y),
        ensures
            origin.0 == self.spec_bounds().a.x,
            origin.1 == self.spec_bounds().a.y + row,
    {
        let dy = row as i16;
        (self.bounds.a.x, self.bounds.a.y + dy)
    }

    /// Size of the letter block, in cells: `(width, height)`.
    pub fn letters_size() -> (size: (usize, usize))
        ensures
            size.0 == letters_width(),
            size.1 == letters_height(),
            letters_width() * 2 <= usize::MAX + 1,
    {
        let mut widest: usize = 0;
        let mut i: usize = 0;
        while i < BITMAP.len()
            invariant
                0 <= i <= BITMAP@.len(),
                widest == widest_row(i as int),
            decreases BITMAP@.len() - i,
        {
            let w = BITMAP[i].len();
            if w > widest {
                widest = w;
            }
            i = i + 1;
        }
        let rows = BITMAP.len();
        (widest / 2 + widest % 2, rows / 2 + rows % 2)
    }

    /// Is bitmap pixel `(x, y)` ink? Out of range counts as blank.
    fn ink(x: usize, y: usize) -> (inked: bool)
        ensures
            inked == ink_at(x as int, y as int),
    {
        if y < BITMAP.len() {
            let row = BITMAP[y].as_bytes();
            x < row.len() && row[x] == INK
        } else {
            false
        }
    }

    /// The quadrant index of the 2x2 pixel group whose top-left pixel is
    /// `(px, py)`.
    fn quadrant_index(px: usize, py: usize) -> (bits: usize)
        requires
            px < usize::MAX,
            py < usize::MAX,
        ensures
            bits == quadrant_bits(px as int, py as int),
            bits < 16,
            bit_set(bits as int, 0) == ink_at(px as int, py as int),
            bit_set(bits as int, 1) == ink_at(px + 1, py as int),
            bit_set(bits as int, 2) == ink_at(px as int, py + 1),
            bit_set(bits as int, 3) == ink_at(px + 1, py + 1),
    {
        let tl: usize = if Self::ink(px, py) { 1 } else { 0 };
        let tr: usize = if Self::ink(px + 1, py) { 1 } else { 0 };
        let bl: usize = if Self::ink(px, py + 1) { 1 } else { 0 };
        let br: usize = if Self::ink(px + 1, py + 1) { 1 } else { 0 };
        let bits = tl | tr << 1usize | bl << 2usize | br << 3usize;
        assert(bits == tl + 2 * tr + 4 * bl + 8 * br) by (bit_vector)
            requires
                tl <= 1,
                tr <= 1,
                bl <= 1,
                br <= 1,
                bits == tl | tr << 1usize | bl << 2usize | br << 3usize,
        ;
        bits
    }

    /// The quadrant block character for a 2x2 pixel group.
    fn quadrant(bits: usize) -> (glyph: char)
        requires
            bits < 16,
        ensures
            glyph == quadrant_glyph(bits as int),
            bits != 0 ==> forall|q: int|
                0 <= q < 4 ==> #[trigger] block_covers(glyph, q) == bit_set(bits as int, q),
    {
        proof {
            if bits != 0 {
                lemma_quadrant_glyph_inks_its_bits(bits as int);
            }
        }
        match bits {
            1 => '\u{2598}',
            2 => '\u{259D}',
            3 => '\u{2580}',
            4 => '\u{2596}',
            5 => '\u{258C}',
            6 => '\u{259E}',
            7 => '\u{259B}',
            8 => '\u{2597}',
            9 => '\u{259A}',
            10 => '\u{2590}',
            11 => '\u{259C}',
            12 => '\u{2584}',
            13 => '\u{2599}',
            14 => '\u{259F}',
            15 => '\u{2588}',
            _ => ' ',
        }
    }

    /// Renders one desktop row into `buf` with the given attributes: the
    /// wallpaper in `wallpaper` everywhere, and the matching slice of the
    /// letters in `letters` if `row` falls inside the centred block.
    fn paint_row(
        width: usize,
        height: usize,
        row: usize,
        buf: &mut turbo_vision::core::draw::DrawBuffer,
        wallpaper: turbo_vision::core::palette::Attr,
        letters: turbo_vision::core::palette::Attr,
    )
        ensures
            draw_buffer_cells(*final(buf)) == rendered_row(
                draw_buffer_cells(*old(buf)),
                width as int,
                height as int,
                row as int,
                wallpaper,
                letters,
            ),
    {
        let ghost cells0 = draw_buffer_cells(*buf);
        fill_cells(buf, 0, WALLPAPER, wallpaper, width);
        let ghost cells1 = draw_buffer_cells(*buf);
        let (lw, lh) = Self::letters_size();
        if lw > width || lh > height {
            assert(draw_buffer_cells(*buf) =~= rendered_row(
                cells0, width as int, height as int, row as int, wallpaper, letters));
            return;
        }
        let x0 = (width - lw) / 2;
        let y0 = (height - lh) / 2;
        if row < y0 || row >= y0 + lh {
            assert(draw_buffer_cells(*buf) =~= rendered_row(
                cells0, width as int, height as int, row as int, wallpaper, letters));
            return;
        }
        let py = (row - y0) * 2;
        let mut i: usize = 0;
        while i < lw
            invariant
                lw == letters_width(),
                lh == letters_height(),
                lw <= width,
                lh <= height,
                lw * 2 <= usize::MAX + 1,
                x0 == (width - lw) / 2,
                y0 == (height - lh) / 2,
                y0 <= row < y0 + lh,
                py == (row - y0) * 2,
                0 <= i <= lw,
                draw_buffer_cells(*buf).len() == cells0.len(),
                forall|x: int|
                    0 <= x < cells0.len() ==> #[trigger] draw_buffer_cells(*buf)[x] == (if x
                        < width {
                        if x0 <= x < x0 + i {
                            desktop_cell(
                                width as int,
                                height as int,
                                row as int,
                                x,
                                wallpaper,
                                letters,
                            )
                        } else {
                            (WALLPAPER, wallpaper)
                        }
                    } else {
                        cells0[x]
                    }),
            decreases lw - i,
        {
            let px = i * 2;
            let bits = Self::quadrant_index(px, py);
            if bits != 0 {
                let glyph = Self::quadrant(bits);
                put_cell(buf, x0 + i, glyph, letters);
            }
            assert(logo_glyph(width as int, height as int, row as int, (x0 + i) as int) == (if bits
                == 0 {
                None
            } else {
                Some(quadrant_glyph(bits as int))
            }));
            i = i + 1;
        }
        assert(draw_buffer_cells(*buf) =~= rendered_row(
            cells0, width as int, height as int, row as int, wallpaper, letters));
    }

    /// Renders one desktop row into `buf`: the wallpaper in the desktop's
    /// attribute everywhere, and the matching slice of the letters (navy on
    /// dark gray) if `row` falls inside the centred block. Cells past `width`
    /// keep what they held. Pure: the row depends only on `width`, `height`
    /// and `row`.
    pub fn render_row(
        width: usize,
        height: usize,
        row: usize,
        buf: &mut turbo_vision::core::draw::DrawBuffer,
    )
        ensures
            draw_buffer_cells(*final(buf)) == rendered_row(
                draw_buffer_cells(*old(buf)),
                width as int,
                height as int,
                row as int,
                desktop_attr_spec(),
                letters_attr_spec(),
            ),
    {
        // Palette colours 7 and 8 are light gray and dark gray: the wallpaper
        // takes `colors::DESKTOP`, the letters are navy on the same gray.
        let wallpaper = attr_new(tv_color(7), tv_color(8));
        let letters = attr_new(rgb_color(0, 0, 96), tv_color(8));
        Self::paint_row(width, height, row, buf, wallpaper, letters);
    }
}

} // verus!
