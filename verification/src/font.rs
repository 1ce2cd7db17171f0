//! The console font
//!
//! Characters are drawn from an 8 by 16 bitmap font: sixteen bytes per
//! glyph, one per pixel row, the leftmost pixel in the top bit. Drawing a
//! glyph turns each row into pixels of the foreground or background
//! colour; the caller writes the rows into the framebuffer.

use vstd::prelude::*;

verus! {

/// Glyph width in pixels.
pub const WIDTH: usize = 8;

/// Glyph height in pixels.
pub const HEIGHT: usize = 16;

/// Bytes per glyph in the font data.
pub const BYTES_PER_GLYPH: usize = 16;

/// Whether column `column` of a glyph row with bits `bits` is set.
pub open spec fn bit_set(bits: u8, column: int) -> bool {
    (bits >> (7 - column) as u8) & 1 != 0
}

/// The pixels of one glyph row: foreground where a bit is set,
/// background elsewhere.
pub fn row_pixels(bits: u8, fg: u32, bg: u32) -> (r: Vec<u32>)
    ensures
        r@.len() == WIDTH,
        forall|c: int| 0 <= c < WIDTH ==> #[trigger] r@[c] == if bit_set(bits, c) { fg } else { bg },
{
    let mut pixels: Vec<u32> = Vec::new();
    let mut column: usize = 0;
    while column < WIDTH
        invariant
            column <= WIDTH,
            pixels@.len() == column,
            forall|c: int| 0 <= c < column ==> #[trigger] pixels@[c] == if bit_set(bits, c) { fg } else { bg },
        decreases WIDTH - column,
    {
        let shift = (7 - column) as u8;
        let set = (bits >> shift) & 1 != 0;
        pixels.push(if set { fg } else { bg });
        column = column + 1;
    }
    pixels
}

/// The rows to draw for character `ch` at `x`, `y` (its top left corner)
/// on a framebuffer `fb_width` by `fb_height` pixels, from the font data
/// `font`: each screen row and its pixels, top to bottom. A glyph that
/// would not fit entirely is not drawn at all.
pub fn render_glyph(
    font: &[u8],
    fb_width: usize,
    fb_height: usize,
    x: usize,
    y: usize,
    ch: u8,
    fg: u32,
    bg: u32,
) -> (r: Vec<(usize, Vec<u32>)>)
    requires
        font@.len() >= 256 * BYTES_PER_GLYPH,
    ensures
        x + WIDTH > fb_width || y + HEIGHT > fb_height ==> r@.len() == 0,
        x + WIDTH <= fb_width && y + HEIGHT <= fb_height ==> {
            &&& r@.len() == HEIGHT
            &&& forall|row: int| 0 <= row < HEIGHT ==> {
                let (screen_row, pixels) = #[trigger] r@[row];
                let bits = font@[ch * BYTES_PER_GLYPH + row];
                &&& screen_row == y + row
                &&& pixels@.len() == WIDTH
                &&& forall|c: int| 0 <= c < WIDTH ==> #[trigger] pixels@[c] == if bit_set(bits, c) { fg } else { bg }
            }
        },
{
    let mut out: Vec<(usize, Vec<u32>)> = Vec::new();
    let fits = x <= fb_width && fb_width - x >= WIDTH && y <= fb_height && fb_height - y >= HEIGHT;
    if !fits {
        return out;
    }
    let offset = ch as usize * BYTES_PER_GLYPH;
    let mut row: usize = 0;
    while row < HEIGHT
        invariant
            font@.len() >= 256 * BYTES_PER_GLYPH,
            offset == ch * BYTES_PER_GLYPH,
            y + HEIGHT <= fb_height,
            row <= HEIGHT,
            out@.len() == row,
            forall|k: int| 0 <= k < row ==> {
                let (screen_row, pixels) = #[trigger] out@[k];
                let bits = font@[ch * BYTES_PER_GLYPH + k];
                &&& screen_row == y + k
                &&& pixels@.len() == WIDTH
                &&& forall|c: int| 0 <= c < WIDTH ==> #[trigger] pixels@[c] == if bit_set(bits, c) { fg } else { bg }
            },
        decreases HEIGHT - row,
    {
        let pixels = row_pixels(font[offset + row], fg, bg);
        out.push((y + row, pixels));
        row = row + 1;
    }
    out
}

/// Width in pixels of the framebuffer the panic message is drawn on.
pub const PANIC_FB_WIDTH: usize = 640;

/// Height in pixels of the framebuffer the panic message is drawn on.
pub const PANIC_FB_HEIGHT: usize = 480;

/// Where the panic writer draws the byte `b` and where it moves to:
/// a line feed starts a new text line; any other byte is drawn at the
/// position and the position advances, wrapping to a new line before a
/// glyph would run past the right edge.
pub open spec fn panic_step(x: usize, y: usize, b: u8) -> (Option<(usize, usize, u8)>, usize, usize) {
    if b == 0x0A {
        (None, 0, (y + HEIGHT) as usize)
    } else if x + 2 * WIDTH > PANIC_FB_WIDTH {
        (Some((x, y, b)), 0, (y + HEIGHT) as usize)
    } else {
        (Some((x, y, b)), (x + WIDTH) as usize, y)
    }
}

/// The glyphs drawn for `bytes` from `x`, `y`, and the position after.
pub open spec fn panic_run(x: usize, y: usize, bytes: Seq<u8>) -> (Seq<(usize, usize, u8)>, usize, usize)
    decreases bytes.len(),
{
    if bytes.len() == 0 {
        (Seq::empty(), x, y)
    } else {
        let (drawn, x1, y1) = panic_run(x, y, bytes.drop_last());
        let (glyph, x2, y2) = panic_step(x1, y1, bytes.last());
        (match glyph {
            Some(g) => drawn.push(g),
            None => drawn,
        }, x2, y2)
    }
}

/// Writes text straight onto the framebuffer when the kernel panics,
/// with no console: the pixel position of the next glyph.
pub struct DirectConsoleWriter {
    pub x: usize,
    pub y: usize,
}

impl DirectConsoleWriter {
    /// A writer at the top left corner.
    pub fn new() -> (r: Self)
        ensures
            r.x == 0 && r.y == 0,
    {
        DirectConsoleWriter { x: 0, y: 0 }
    }

    /// Writes `s`: returns the glyphs to draw, each with its position, and
    /// moves the position on. See `panic_step`.
    pub fn write_str(&mut self, s: &[u8]) -> (r: Vec<(usize, usize, u8)>)
        requires
            old(self).x + WIDTH <= PANIC_FB_WIDTH,
            old(self).y + HEIGHT * (s@.len() + 1) <= usize::MAX,
        ensures
            (r@, final(self).x, final(self).y) == panic_run(old(self).x, old(self).y, s@),
            final(self).x + WIDTH <= PANIC_FB_WIDTH,
    {
        let mut out: Vec<(usize, usize, u8)> = Vec::new();
        let mut i: usize = 0;
        while i < s.len()
            invariant
                i <= s@.len(),
                self.x + WIDTH <= PANIC_FB_WIDTH,
                self.y + HEIGHT * (s@.len() - i + 1) <= usize::MAX,
                (out@, self.x, self.y) == panic_run(old(self).x, old(self).y, s@.subrange(0, i as int)),
            decreases s@.len() - i,
        {
            let b = s[i];
            proof {
                assert(s@.subrange(0, i + 1).drop_last() =~= s@.subrange(0, i as int));
                assert(HEIGHT * (s@.len() - i + 1) == HEIGHT * (s@.len() - (i + 1) + 1) + HEIGHT) by (nonlinear_arith);
            }
            if b == 0x0A {
                self.x = 0;
                self.y = self.y + HEIGHT;
            } else {
                out.push((self.x, self.y, b));
                self.x = self.x + WIDTH;
                if self.x + WIDTH > PANIC_FB_WIDTH {
                    self.x = 0;
                    self.y = self.y + HEIGHT;
                }
            }
            i = i + 1;
        }
        assert(s@.subrange(0, s@.len() as int) =~= s@);
        out
    }
}

} // verus!
