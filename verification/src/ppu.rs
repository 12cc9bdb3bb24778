use vstd::prelude::*;

verus! {

/// Width of the screen in pixels.
pub const SCREEN_WIDTH: usize = 160;

/// Height of the screen in pixels.
pub const SCREEN_HEIGHT: usize = 144;

/// Number of pixels on the screen.
pub const SCREEN_PIXELS: usize = 23040;

/// Clock cycles that one scanline lasts.
pub const CYCLES_PER_LINE: u32 = 456;

/// Index of the last scanline, the end of vertical blank.
pub const LAST_LINE: u8 = 153;

/// Offset in video memory of the background tile map at 0x9800.
pub const TILE_MAP_OFFSET: usize = 0x1800;

/// The picture processing unit.
pub struct PPU {
    pub framebuffer: [u32; SCREEN_PIXELS],
    pub line: u8,
    pub cycle: u32,
    /// LCD control register.
    pub lcdc: u8,
    /// LCD status register.
    pub stat: u8,
    pub ly: u8,
}

/// The abstract state of the picture processing unit.
pub struct PpuState {
    pub framebuffer: Seq<u32>,
    pub line: u8,
    pub cycle: u32,
    pub lcdc: u8,
    pub stat: u8,
    pub ly: u8,
}

impl View for PPU {
    type V = PpuState;

    open spec fn view(&self) -> PpuState {
        PpuState {
            framebuffer: self.framebuffer@,
            line: self.line,
            cycle: self.cycle,
            lcdc: self.lcdc,
            stat: self.stat,
            ly: self.ly,
        }
    }
}

/// The colour number (0 to 3) of pixel `bit` of a tile row whose two bit planes are `lo`
/// and `hi`: bit `bit` of `hi` is its high bit, bit `bit` of `lo` its low bit.
pub open spec fn color_number(hi: u8, lo: u8, bit: int) -> u8 {
    (((hi >> bit as u8) & 1) * 2 + ((lo >> bit as u8) & 1)) as u8
}

/// The ARGB colour of a colour number: white, light grey, dark grey, black.
pub open spec fn shade(n: u8) -> u32 {
    if n == 0 {
        0xFFFFFFFF
    } else if n == 1 {
        0xFFAAAAAA
    } else if n == 2 {
        0xFF555555
    } else if n == 3 {
        0xFF000000
    } else {
        0xFFFF00FF
    }
}

/// The background pixel at column `x` of line `y`, drawn from the tile map at 0x9800 and
/// the tile data at 0x8000 (16 bytes a tile, two bytes a row).
pub open spec fn background_pixel(vram: Seq<u8>, y: int, x: int) -> u32 {
    let tile_id = vram[TILE_MAP_OFFSET + (y / 8) * 32 + x / 8];
    let tile_addr = tile_id * 16;
    let row = y % 8;
    let lo = vram[tile_addr + row * 2];
    let hi = vram[tile_addr + row * 2 + 1];
    shade(color_number(hi, lo, 7 - x % 8))
}

/// The background of line `y`.
pub open spec fn background_line(vram: Seq<u8>, y: int) -> Seq<u32> {
    Seq::new(160, |x: int| background_pixel(vram, y, x))
}

/// Top row of sprite `i` on the screen (its OAM y minus 16).
pub open spec fn sprite_top(oam: Seq<u8>, i: int) -> int {
    oam[4 * i] - 16
}

/// Leftmost column of sprite `i` on the screen (its OAM x minus 8).
pub open spec fn sprite_left(oam: Seq<u8>, i: int) -> int {
    oam[4 * i + 1] - 8
}

/// Whether sprite `i`, eight rows high, covers line `y`.
pub open spec fn sprite_on_line(oam: Seq<u8>, i: int, y: int) -> bool {
    sprite_top(oam, i) <= y < sprite_top(oam, i) + 8
}

/// The row of sprite `i`'s tile that line `y` shows, upside down when attribute bit 6 is set.
pub open spec fn sprite_row(oam: Seq<u8>, i: int, y: int) -> int {
    if oam[4 * i + 3] & 0x40 != 0 {
        7 - (y - sprite_top(oam, i))
    } else {
        y - sprite_top(oam, i)
    }
}

/// The line buffer `row` after the pixels of sprite `i` with loop index below `n` are drawn:
/// pixel `k` of the tile row goes to column left + k, or left + 7 - k when attribute bit 5
/// mirrors the sprite, and colour number 0 is transparent.
pub open spec fn draw_sprite_upto(
    row: Seq<u32>,
    vram: Seq<u8>,
    oam: Seq<u8>,
    i: int,
    y: int,
    n: int,
) -> Seq<u32> {
    let tile_addr = oam[4 * i + 2] * 16;
    let r = sprite_row(oam, i, y);
    let lo = vram[tile_addr + r * 2];
    let hi = vram[tile_addr + r * 2 + 1];
    let flip = oam[4 * i + 3] & 0x20 != 0;
    Seq::new(
        row.len(),
        |px: int|
            {
                let d = px - sprite_left(oam, i);
                let k = if flip {
                    7 - d
                } else {
                    d
                };
                if 0 <= d < 8 && k < n && color_number(hi, lo, 7 - k) != 0 {
                    shade(color_number(hi, lo, 7 - k))
                } else {
                    row[px]
                }
            },
    )
}

/// The line buffer `row` after sprites `i` onward are drawn in OAM order, until ten sprites
/// on the line have been drawn (`count` of them already were).
pub open spec fn draw_sprites(
    row: Seq<u32>,
    vram: Seq<u8>,
    oam: Seq<u8>,
    y: int,
    i: int,
    count: int,
) -> Seq<u32>
    decreases 40 - i,
{
    if i >= 40 || count >= 10 {
        row
    } else if sprite_on_line(oam, i, y) {
        draw_sprites(draw_sprite_upto(row, vram, oam, i, y, 8), vram, oam, y, i + 1, count + 1)
    } else {
        draw_sprites(row, vram, oam, y, i + 1, count)
    }
}

/// Whether the sprite scan of line `y`, from entry `i` with `count` sprites found, reads only
/// entries that the sprite table holds; the scan stops after entry 39 or at the tenth sprite.
pub open spec fn sprite_scan_ok(oam: Seq<u8>, y: int, i: int, count: int) -> bool
    decreases 40 - i,
{
    if i >= 40 || count >= 10 {
        true
    } else {
        &&& 4 * i + 3 < oam.len()
        &&& sprite_scan_ok(
            oam,
            y,
            i + 1,
            if sprite_on_line(oam, i, y) {
                count + 1
            } else {
                count
            },
        )
    }
}

/// Whether drawing line `y` reads only bytes that `vram` and `oam` hold: the background reads
/// the tile map up to 0x1813 + 32 * (y / 8) and tile data below 0x1000.
pub open spec fn render_ok(vram: Seq<u8>, oam: Seq<u8>, y: int) -> bool {
    &&& vram.len() > 0x1813 + 32 * (y / 8)
    &&& sprite_scan_ok(oam, y, 0, 0)
}

/// A full video RAM and sprite table can be drawn on every visible line.
pub proof fn lemma_full_memories_render_ok(vram: Seq<u8>, oam: Seq<u8>, y: int)
    requires
        vram.len() >= 0x2000,
        oam.len() >= 0xA0,
        0 <= y < 144,
    ensures
        render_ok(vram, oam, y),
{
    lemma_full_table_scan_ok(oam, y, 0, 0);
}

proof fn lemma_full_table_scan_ok(oam: Seq<u8>, y: int, i: int, count: int)
    requires
        oam.len() >= 0xA0,
        0 <= i,
    ensures
        sprite_scan_ok(oam, y, i, count),
    decreases 40 - i,
{
    if i < 40 && count < 10 {
        lemma_full_table_scan_ok(oam, y, i + 1, count + 1);
        lemma_full_table_scan_ok(oam, y, i + 1, count);
    }
}

/// The pixels of line `y`: the background with the sprites over it.
pub open spec fn scanline(vram: Seq<u8>, oam: Seq<u8>, y: int) -> Seq<u32> {
    draw_sprites(background_line(vram, y), vram, oam, y, 0, 0)
}

/// The frame buffer `fb` with line `y` replaced by `line`.
pub open spec fn with_line(fb: Seq<u32>, y: int, line: Seq<u32>) -> Seq<u32> {
    Seq::new(
        fb.len(),
        |i: int|
            if y * 160 <= i < y * 160 + 160 {
                line[i - y * 160]
            } else {
                fb[i]
            },
    )
}

impl PpuState {
    /// The frame buffer holds the whole screen and the line counter stays within a frame.
    pub open spec fn inv(self) -> bool {
        &&& self.framebuffer.len() == SCREEN_PIXELS
        &&& self.line <= LAST_LINE
    }

    /// The state after power-on: a frame buffer of zeros, every counter and register zero.
    pub open spec fn initial() -> PpuState {
        PpuState {
            framebuffer: Seq::new(SCREEN_PIXELS as nat, |i: int| 0u32),
            line: 0,
            cycle: 0,
            lcdc: 0,
            stat: 0,
            ly: 0,
        }
    }

    /// The state after `cycles` more clock cycles: when a whole scanline's worth has gone
    /// by, a visible line is rendered and the line counter moves on, wrapping after 153.
    pub open spec fn step(self, cycles: u32, vram: Seq<u8>, oam: Seq<u8>) -> PpuState {
        let c = self.cycle + cycles;
        if c >= CYCLES_PER_LINE {
            let fb = if self.line < SCREEN_HEIGHT {
                with_line(self.framebuffer, self.line as int, scanline(vram, oam, self.line as int))
            } else {
                self.framebuffer
            };
            let next = self.line + 1;
            PpuState {
                framebuffer: fb,
                line: if next > LAST_LINE {
                    0
                } else {
                    next as u8
                },
                cycle: (c - CYCLES_PER_LINE) as u32,
                ..self
            }
        } else {
            PpuState { cycle: c as u32, ..self }
        }
    }
}

/// A step keeps the frame buffer whole and the line counter within the frame; it spends
/// exactly the cycles it is given, 456 of them per line it moves on, moving at most one line,
/// from 153 back to 0; and of the frame buffer it rewrites only the line it leaves.
pub proof fn lemma_step_laws(p: PpuState, cycles: u32, vram: Seq<u8>, oam: Seq<u8>)
    requires
        p.inv(),
        p.cycle + cycles <= u32::MAX,
    ensures
        p.step(cycles, vram, oam).inv(),
        p.step(cycles, vram, oam).cycle + (if p.step(cycles, vram, oam).line == p.line {
            0
        } else {
            CYCLES_PER_LINE
        }) == p.cycle + cycles,
        p.step(cycles, vram, oam).line == p.line || p.step(cycles, vram, oam).line == (p.line
            + 1) % 154,
        forall|i: int|
            0 <= i < SCREEN_PIXELS && !(p.line * 160 <= i < p.line * 160 + 160) ==> #[trigger] p.step(
                cycles,
                vram,
                oam,
            ).framebuffer[i] == p.framebuffer[i],
{
}

/// Whether `c` is one of the four shades of the screen.
pub open spec fn is_shade(c: u32) -> bool {
    c == 0xFFFFFFFF || c == 0xFFAAAAAA || c == 0xFF555555 || c == 0xFF000000
}

proof fn lemma_color_number_range(hi: u8, lo: u8, bit: int)
    ensures
        color_number(hi, lo, bit) <= 3,
{
    let b = bit as u8;
    assert(((hi >> b) & 1) <= 1 && ((lo >> b) & 1) <= 1) by (bit_vector);
}

proof fn lemma_draw_sprite_shades(row: Seq<u32>, vram: Seq<u8>, oam: Seq<u8>, i: int, y: int, n: int)
    requires
        forall|x: int| 0 <= x < row.len() ==> is_shade(#[trigger] row[x]),
    ensures
        draw_sprite_upto(row, vram, oam, i, y, n).len() == row.len(),
        forall|x: int|
            0 <= x < row.len() ==> is_shade(#[trigger] draw_sprite_upto(row, vram, oam, i, y, n)[x]),
{
    let tile_addr = oam[4 * i + 2] * 16;
    let r = sprite_row(oam, i, y);
    let lo = vram[tile_addr + r * 2];
    let hi = vram[tile_addr + r * 2 + 1];
    assert forall|x: int| 0 <= x < row.len() implies is_shade(
        #[trigger] draw_sprite_upto(row, vram, oam, i, y, n)[x],
    ) by {
        let d = x - sprite_left(oam, i);
        let k = if oam[4 * i + 3] & 0x20 != 0 {
            7 - d
        } else {
            d
        };
        lemma_color_number_range(hi, lo, 7 - k);
    }
}

proof fn lemma_draw_sprites_shades(
    row: Seq<u32>,
    vram: Seq<u8>,
    oam: Seq<u8>,
    y: int,
    i: int,
    count: int,
)
    requires
        forall|x: int| 0 <= x < row.len() ==> is_shade(#[trigger] row[x]),
    ensures
        draw_sprites(row, vram, oam, y, i, count).len() == row.len(),
        forall|x: int|
            0 <= x < row.len() ==> is_shade(#[trigger] draw_sprites(row, vram, oam, y, i, count)[x]),
    decreases 40 - i,
{
    if i < 40 && count < 10 {
        if sprite_on_line(oam, i, y) {
            lemma_draw_sprite_shades(row, vram, oam, i, y, 8);
            lemma_draw_sprites_shades(
                draw_sprite_upto(row, vram, oam, i, y, 8),
                vram,
                oam,
                y,
                i + 1,
                count + 1,
            );
        } else {
            lemma_draw_sprites_shades(row, vram, oam, y, i + 1, count);
        }
    }
}

/// Every pixel of a drawn line is one of the four shades.
pub proof fn lemma_scanline_shades(vram: Seq<u8>, oam: Seq<u8>, y: int)
    ensures
        scanline(vram, oam, y).len() == 160,
        forall|x: int| 0 <= x < 160 ==> is_shade(#[trigger] scanline(vram, oam, y)[x]),
{
    let bg = background_line(vram, y);
    assert forall|x: int| 0 <= x < 160 implies is_shade(#[trigger] bg[x]) by {
        let tile_id = vram[TILE_MAP_OFFSET + (y / 8) * 32 + x / 8];
        let tile_addr = tile_id * 16;
        let row = y % 8;
        lemma_color_number_range(vram[tile_addr + row * 2 + 1], vram[tile_addr + row * 2], 7 - x % 8);
    }
    lemma_draw_sprites_shades(bg, vram, oam, y, 0, 0);
}

/// When a step draws a line, every pixel of that line is one of the four shades and no other
/// line changes.
pub proof fn lemma_step_draws_shades(p: PpuState, cycles: u32, vram: Seq<u8>, oam: Seq<u8>)
    requires
        p.inv(),
        p.cycle + cycles >= CYCLES_PER_LINE,
        p.line < SCREEN_HEIGHT,
    ensures
        forall|i: int|
            p.line * 160 <= i < p.line * 160 + 160 ==> is_shade(
                #[trigger] p.step(cycles, vram, oam).framebuffer[i],
            ),
        forall|i: int|
            0 <= i < SCREEN_PIXELS && !(p.line * 160 <= i < p.line * 160 + 160) ==> #[trigger] p.step(
                cycles,
                vram,
                oam,
            ).framebuffer[i] == p.framebuffer[i],
{
    lemma_scanline_shades(vram, oam, p.line as int);
    let line = scanline(vram, oam, p.line as int);
    assert forall|i: int| p.line * 160 <= i < p.line * 160 + 160 implies is_shade(
        #[trigger] p.step(cycles, vram, oam).framebuffer[i],
    ) by {
        assert(is_shade(line[i - p.line * 160]));
    }
}

/// How many of the first `n` sprite entries cover line `y`.
pub open spec fn covering_count(oam: Seq<u8>, y: int, n: int) -> int
    decreases n,
{
    if n <= 0 {
        0
    } else {
        covering_count(oam, y, n - 1) + if sprite_on_line(oam, n - 1, y) {
            1int
        } else {
            0int
        }
    }
}

proof fn lemma_draw_sprites_prefix(
    row: Seq<u32>,
    vram: Seq<u8>,
    oam: Seq<u8>,
    oam2: Seq<u8>,
    y: int,
    n: int,
    i: int,
)
    requires
        0 <= i <= n <= 40,
        covering_count(oam, y, n) >= 10,
        oam.len() >= 4 * n,
        oam2.len() >= 4 * n,
        forall|k: int| 0 <= k < 4 * n ==> oam[k] == oam2[k],
    ensures
        draw_sprites(row, vram, oam, y, i, covering_count(oam, y, i)) == draw_sprites(
            row,
            vram,
            oam2,
            y,
            i,
            covering_count(oam, y, i),
        ),
    decreases n - i,
{
    let c = covering_count(oam, y, i);
    if i == n {
    } else if c >= 10 {
    } else {
        assert(oam[4 * i] == oam2[4 * i]);
        assert(oam[4 * i + 1] == oam2[4 * i + 1]);
        assert(oam[4 * i + 2] == oam2[4 * i + 2]);
        assert(oam[4 * i + 3] == oam2[4 * i + 3]);
        assert(covering_count(oam, y, i + 1) == c + if sprite_on_line(oam, i, y) {
            1int
        } else {
            0int
        });
        if sprite_on_line(oam, i, y) {
            let drawn = draw_sprite_upto(row, vram, oam, i, y, 8);
            assert(drawn =~= draw_sprite_upto(row, vram, oam2, i, y, 8));
            lemma_draw_sprites_prefix(drawn, vram, oam, oam2, y, n, i + 1);
        } else {
            lemma_draw_sprites_prefix(row, vram, oam, oam2, y, n, i + 1);
        }
    }
}

/// At most ten sprites are drawn on a line, the first ten in OAM order that cover it: once the
/// first `n` entries hold ten that cover the line, the entries after them do not change what
/// the line shows.
pub proof fn lemma_ten_sprite_limit(vram: Seq<u8>, oam: Seq<u8>, oam2: Seq<u8>, y: int, n: int)
    requires
        0 <= n <= 40,
        covering_count(oam, y, n) >= 10,
        oam.len() >= 4 * n,
        oam2.len() >= 4 * n,
        forall|k: int| 0 <= k < 4 * n ==> oam[k] == oam2[k],
    ensures
        scanline(vram, oam, y) == scanline(vram, oam2, y),
{
    lemma_draw_sprites_prefix(background_line(vram, y), vram, oam, oam2, y, n, 0);
}

proof fn lemma_color_number(hi: u8, lo: u8, bit: u8)
    requires
        bit < 8,
    ensures
        (((hi >> bit) & 1) << 1 | ((lo >> bit) & 1)) == color_number(hi, lo, bit as int),
        color_number(hi, lo, bit as int) <= 3,
{
    assert((((hi >> bit) & 1) << 1 | ((lo >> bit) & 1)) == ((hi >> bit) & 1) * 2 + ((lo >> bit)
        & 1) && ((hi >> bit) & 1) <= 1 && ((lo >> bit) & 1) <= 1) by (bit_vector);
}

/// Whether bit `i` (0 the lowest) of `v` is set.
pub open spec fn bit_set(v: u8, i: int) -> bool {
    (v >> i as u8) & 1 == 1
}

/// The colour of a pixel whose colour number has high bit `hi` and low bit `lo`: white for
/// 0, light grey for 1, dark grey for 2, black for 3.
pub open spec fn pixel_colour(hi: bool, lo: bool) -> u32 {
    if hi && lo {
        0xFF000000
    } else if hi {
        0xFF555555
    } else if lo {
        0xFFAAAAAA
    } else {
        0xFFFFFFFF
    }
}

/// Drawing sprites from entry `i` on changes nothing when no entry from `i` on covers the line.
proof fn lemma_no_sprites(row: Seq<u32>, vram: Seq<u8>, oam: Seq<u8>, y: int, i: int, count: int)
    requires
        0 <= i,
        forall|k: int| i <= k < 40 ==> !#[trigger] sprite_on_line(oam, k, y),
    ensures
        draw_sprites(row, vram, oam, y, i, count) == row,
    decreases 40 - i,
{
    if i < 40 && count < 10 {
        lemma_no_sprites(row, vram, oam, y, i + 1, count);
    }
}

proof fn lemma_pixel_colour(hi: u8, lo: u8, bit: u8)
    requires
        bit < 8,
    ensures
        shade(color_number(hi, lo, bit as int)) == pixel_colour(
            bit_set(hi, bit as int),
            bit_set(lo, bit as int),
        ),
{
    assert(((hi >> bit) & 1) <= 1 && ((lo >> bit) & 1) <= 1) by (bit_vector);
}

/// When a step finishes a visible line that no sprite covers, each pixel of that line
/// shows the background: for column x of line y, the tile number is the byte at
/// 0x1800 + 32 * (y / 8) + x / 8 of video RAM, the tile's row y % 8 is the two bytes at
/// 16 * tile + 2 * (y % 8) (low bit plane) and the one after it (high bit plane), and the
/// pixel takes bit 7 - x % 8 of each plane: 3 black, 2 dark grey, 1 light grey, 0 white.
pub proof fn lemma_background_pixel(p: PpuState, cycles: u32, vram: Seq<u8>, oam: Seq<u8>, x: int)
    requires
        p.inv(),
        p.line < 144,
        p.cycle + cycles >= 456,
        vram.len() >= 0x2000,
        oam.len() >= 0xA0,
        0 <= x < 160,
        forall|i: int| 0 <= i < 40 ==> !#[trigger] sprite_on_line(oam, i, p.line as int),
    ensures
        ({
            let y = p.line as int;
            let tile = vram[0x1800 + 32 * (y / 8) + x / 8];
            let lo = vram[16 * tile + 2 * (y % 8)];
            let hi = vram[16 * tile + 2 * (y % 8) + 1];
            let b = 7 - x % 8;
            p.step(cycles, vram, oam).framebuffer[160 * y + x] == pixel_colour(
                bit_set(hi, b),
                bit_set(lo, b),
            )
        }),
{
    let y = p.line as int;
    lemma_no_sprites(background_line(vram, y), vram, oam, y, 0, 0);
    let tile = vram[0x1800 + 32 * (y / 8) + x / 8];
    let lo = vram[16 * tile + 2 * (y % 8)];
    let hi = vram[16 * tile + 2 * (y % 8) + 1];
    lemma_pixel_colour(hi, lo, (7 - x % 8) as u8);
    assert(scanline(vram, oam, y)[x] == background_pixel(vram, y, x));
    assert(y * 160 <= 160 * y + x < y * 160 + 160);
}

/// Drawing sprites from entry 0 up to entry `i` changes nothing when none of them covers
/// the line.
proof fn lemma_skip_to_sprite(row: Seq<u32>, vram: Seq<u8>, oam: Seq<u8>, y: int, k: int, i: int)
    requires
        0 <= k <= i <= 40,
        forall|j: int| k <= j < i ==> !#[trigger] sprite_on_line(oam, j, y),
    ensures
        draw_sprites(row, vram, oam, y, k, 0) == draw_sprites(row, vram, oam, y, i, 0),
    decreases i - k,
{
    if k < i {
        lemma_skip_to_sprite(row, vram, oam, y, k + 1, i);
    }
}

proof fn lemma_attribute_bits(a: u8)
    ensures
        (a & 0x40 != 0) == bit_set(a, 6),
        (a & 0x20 != 0) == bit_set(a, 5),
{
    assert((a & 0x40 != 0) == ((a >> 6u8) & 1 == 1)) by (bit_vector);
    assert((a & 0x20 != 0) == ((a >> 5u8) & 1 == 1)) by (bit_vector);
}

/// When a step finishes a visible line y that exactly one sprite i covers, the pixels in
/// that sprite's eight columns show the sprite over the background. The sprite's top row is
/// its OAM y minus 16 and its left column its OAM x minus 8; it shows tile row y - top, or
/// 7 - (y - top) when attribute bit 6 turns it upside down, from the tile numbered by its
/// third OAM byte (16 bytes a tile, two a row); column px shows pixel px - left of that row,
/// counted from bit 7, or the mirror image when attribute bit 5 is set. A pixel of colour
/// number 0 is transparent and leaves the background; the others take their shade.
pub proof fn lemma_sprite_pixel(
    p: PpuState,
    cycles: u32,
    vram: Seq<u8>,
    oam: Seq<u8>,
    i: int,
    px: int,
)
    requires
        p.inv(),
        p.line < 144,
        p.cycle + cycles >= 456,
        vram.len() >= 0x2000,
        oam.len() >= 0xA0,
        0 <= i < 40,
        0 <= px < 160,
        sprite_on_line(oam, i, p.line as int),
        forall|j: int| 0 <= j < 40 && j != i ==> !#[trigger] sprite_on_line(oam, j, p.line as int),
        oam[4 * i + 1] - 8 <= px < oam[4 * i + 1],
    ensures
        ({
            let y = p.line as int;
            let top = oam[4 * i] - 16;
            let attr = oam[4 * i + 3];
            let row = if bit_set(attr, 6) {
                7 - (y - top)
            } else {
                y - top
            };
            let d = px - (oam[4 * i + 1] - 8);
            let k = if bit_set(attr, 5) {
                7 - d
            } else {
                d
            };
            let tile = oam[4 * i + 2];
            let lo = vram[16 * tile + 2 * row];
            let hi = vram[16 * tile + 2 * row + 1];
            let b = 7 - k;
            let pix = p.step(cycles, vram, oam).framebuffer[160 * y + px];
            &&& (bit_set(hi, b) || bit_set(lo, b)) ==> pix == pixel_colour(
                bit_set(hi, b),
                bit_set(lo, b),
            )
            &&& !(bit_set(hi, b) || bit_set(lo, b)) ==> pix == background_pixel(vram, y, px)
        }),
{
    let y = p.line as int;
    let bg = background_line(vram, y);
    lemma_skip_to_sprite(bg, vram, oam, y, 0, i);
    let drawn = draw_sprite_upto(bg, vram, oam, i, y, 8);
    lemma_no_sprites(drawn, vram, oam, y, i + 1, 1);
    assert(scanline(vram, oam, y) == drawn);
    let attr = oam[4 * i + 3];
    lemma_attribute_bits(attr);
    let top = oam[4 * i] - 16;
    let row = sprite_row(oam, i, y);
    let d = px - sprite_left(oam, i);
    let k = if attr & 0x20 != 0 {
        7 - d
    } else {
        d
    };
    let tile = oam[4 * i + 2];
    let lo = vram[tile * 16 + row * 2];
    let hi = vram[tile * 16 + row * 2 + 1];
    lemma_pixel_colour(hi, lo, (7 - k) as u8);
    lemma_color_number(hi, lo, (7 - k) as u8);
    assert(color_number(hi, lo, 7 - k) == 0 <==> !(bit_set(hi, 7 - k) || bit_set(lo, 7 - k)))
        by {
        let bb = (7 - k) as u8;
        assert(((hi >> bb) & 1) <= 1 && ((lo >> bb) & 1) <= 1) by (bit_vector);
    }
    assert(y * 160 <= 160 * y + px < y * 160 + 160);
}

impl PPU {
    pub fn new() -> (r: Self)
        ensures
            r@ == PpuState::initial(),
    {
        let r = PPU {
            framebuffer: [0u32; SCREEN_PIXELS],
            line: 0,
            cycle: 0,
            lcdc: 0,
            stat: 0,
            ly: 0,
        };
        assert(r@.framebuffer =~= PpuState::initial().framebuffer);
        r
    }

    /// Advances the unit by `cycles` clock cycles, reading tiles from `vram` (0x8000-0x9FFF)
    /// and sprite attributes from `oam` (0xFE00-0xFE9F).
    pub fn step(&mut self, cycles: u32, vram: &[u8], oam: &[u8])
        requires
            old(self).cycle + cycles <= u32::MAX,
            old(self).cycle + cycles >= CYCLES_PER_LINE ==> old(self).line < 255,
            old(self).cycle + cycles >= CYCLES_PER_LINE && old(self).line < SCREEN_HEIGHT
                ==> render_ok(vram@, oam@, old(self).line as int),
        ensures
            final(self)@ == old(self)@.step(cycles, vram@, oam@),
    {
        self.cycle += cycles;

        if self.cycle >= CYCLES_PER_LINE {
            self.cycle -= CYCLES_PER_LINE;

            if self.line < 144 {
                self.render_scanline(vram, oam);
            }

            self.line += 1;

            if self.line > LAST_LINE {
                // back to the top after vertical blank
                self.line = 0;
            }
        }
    }

    fn render_scanline(&mut self, vram: &[u8], oam: &[u8])
        requires
            old(self).line < 144,
            render_ok(vram@, oam@, old(self).line as int),
        ensures
            final(self).framebuffer@ == with_line(
                old(self).framebuffer@,
                old(self).line as int,
                scanline(vram@, oam@, old(self).line as int),
            ),
            final(self).line == old(self).line,
            final(self).cycle == old(self).cycle,
            final(self).lcdc == old(self).lcdc,
            final(self).stat == old(self).stat,
            final(self).ly == old(self).ly,
    {
        let ghost s0 = *self;
        let y = self.line as usize;
        let tile_data_base: usize = 0;
        let tile_map_base: usize = 0x1800;
        let ghost fb0 = self.framebuffer@;
        let ghost bg = background_line(vram@, y as int);
        // Background
        for x in 0..160usize
            invariant
                y < 144,
                vram@.len() > 0x1813 + 32 * (y / 8),
                self.framebuffer@.len() == SCREEN_PIXELS,
                self.line == y,
                self.cycle == s0.cycle,
                self.lcdc == s0.lcdc,
                self.stat == s0.stat,
                self.ly == s0.ly,
                tile_data_base == 0,
                tile_map_base == 0x1800,
                bg == background_line(vram@, y as int),
                forall|i: int|
                    0 <= i < SCREEN_PIXELS ==> #[trigger] self.framebuffer@[i] == if y * 160 <= i
                        < y * 160 + x {
                        bg[i - y * 160]
                    } else {
                        fb0[i]
                    },
        {
            let tile_x = x / 8;
            let tile_y = y / 8;
            let tile_index_addr = tile_map_base + tile_y * 32 + tile_x;
            let tile_id = vram[tile_index_addr];
            let tile_addr = tile_data_base + (tile_id as usize) * 16;
            let row = y % 8;
            let lo = vram[tile_addr + row * 2];
            let hi = vram[tile_addr + row * 2 + 1];
            let bit = (7 - (x % 8)) as u8;
            proof {
                lemma_color_number(hi, lo, bit);
            }
            let color_num = ((hi >> bit) & 1) << 1 | ((lo >> bit) & 1);
            let color: u32 = match color_num {
                0 => 0xFFFFFFFF,  // white
                1 => 0xFFAAAAAA,  // light grey
                2 => 0xFF555555,  // dark grey
                3 => 0xFF000000,  // black
                _ => 0xFFFF00FF,  // magenta: no such colour
            };
            assert(color == bg[x as int]);
            self.framebuffer[y * 160 + x] = color;
        }
        assert(self.framebuffer@ =~= with_line(fb0, y as int, bg));
        assert(self.framebuffer@.subrange(y * 160, y * 160 + 160) =~= bg);
        let ghost target = scanline(vram@, oam@, y as int);
        // Sprites
        let mut sprites_on_line: usize = 0;
        let mut i: usize = 0;
        while i < 40
            invariant_except_break
                i <= 40,
            invariant
                y < 144,
                vram@.len() > 0x1813 + 32 * (y / 8),
                sprite_scan_ok(oam@, y as int, i as int, sprites_on_line as int),
                self.framebuffer@.len() == SCREEN_PIXELS,
                self.line == y,
                self.cycle == s0.cycle,
                self.lcdc == s0.lcdc,
                self.stat == s0.stat,
                self.ly == s0.ly,
                tile_data_base == 0,
                sprites_on_line <= i,
                target == scanline(vram@, oam@, y as int),
                self.framebuffer@ == with_line(
                    fb0,
                    y as int,
                    self.framebuffer@.subrange(y * 160, y * 160 + 160),
                ),
                draw_sprites(
                    self.framebuffer@.subrange(y * 160, y * 160 + 160),
                    vram@,
                    oam@,
                    y as int,
                    i as int,
                    sprites_on_line as int,
                ) == target,
            ensures
                self.framebuffer@.subrange(y * 160, y * 160 + 160) == target,
                self.framebuffer@ == with_line(fb0, y as int, target),
            decreases 40 - i,
        {
            if sprites_on_line >= 10 {
                break;
            }
            let base = i * 4;
            let y_pos = oam[base] as i32 - 16;
            let x_pos = oam[base + 1] as i32 - 8;
            let tile_index = oam[base + 2] as usize;
            let attributes = oam[base + 3];
            let sprite_height: i32 = 8;
            if y as i32 >= y_pos && ((y as i32) < y_pos + sprite_height) {
                sprites_on_line += 1;
                let line = if (attributes & 0x40) != 0 {
                    sprite_height - 1 - (y as i32 - y_pos)
                } else {
                    y as i32 - y_pos
                } as usize;
                let tile_addr = tile_data_base + tile_index * 16;
                let lo = vram[tile_addr + line * 2];
                let hi = vram[tile_addr + line * 2 + 1];
                let ghost row0 = self.framebuffer@.subrange(y * 160, y * 160 + 160);
                let mut x: i32 = 0;
                while x < 8
                    invariant
                        0 <= x <= 8,
                        y < 144,
                        4 * i + 3 < oam@.len(),
                        vram@.len() > 0x1000,
                        i < 40,
                        row0.len() == 160,
                        self.line == y,
                        self.cycle == s0.cycle,
                        self.lcdc == s0.lcdc,
                        self.stat == s0.stat,
                        self.ly == s0.ly,
                        base == i * 4,
                        x_pos == sprite_left(oam@, i as int),
                        attributes == oam@[4 * i + 3],
                        tile_addr == oam@[4 * i + 2] * 16,
                        line == sprite_row(oam@, i as int, y as int),
                        lo == vram@[tile_addr + line * 2],
                        hi == vram@[tile_addr + line * 2 + 1],
                        self.framebuffer@.len() == SCREEN_PIXELS,
                        self.framebuffer@ == with_line(
                            fb0,
                            y as int,
                            self.framebuffer@.subrange(y * 160, y * 160 + 160),
                        ),
                        self.framebuffer@.subrange(y * 160, y * 160 + 160) == draw_sprite_upto(
                            row0,
                            vram@,
                            oam@,
                            i as int,
                            y as int,
                            x as int,
                        ),
                    decreases 8 - x,
                {
                    let ghost before = self.framebuffer@.subrange(y * 160, y * 160 + 160);
                    let pixel_x = if (attributes & 0x20) != 0 {
                        x_pos + (7 - x)
                    } else {
                        x_pos + x
                    };
                    if pixel_x < 0 || pixel_x >= 160 {
                        x += 1;
                        assert(self.framebuffer@.subrange(y * 160, y * 160 + 160)
                            =~= draw_sprite_upto(row0, vram@, oam@, i as int, y as int, x as int));
                        continue;
                    }
                    let bit = (7 - x) as u8;
                    proof {
                        lemma_color_number(hi, lo, bit);
                    }
                    let color_num = ((hi >> bit) & 1) << 1 | ((lo >> bit) & 1);
                    if color_num == 0 {
                        x += 1;
                        assert(self.framebuffer@.subrange(y * 160, y * 160 + 160)
                            =~= draw_sprite_upto(row0, vram@, oam@, i as int, y as int, x as int));
                        continue;
                    }
                    let color: u32 = match color_num {
                        1 => 0xFFAAAAAA,  // light grey
                        2 => 0xFF555555,  // dark grey
                        3 => 0xFF000000,  // black
                        _ => 0xFFFF00FF,  // magenta: no such colour
                    };
                    assert(color == shade(color_num));
                    self.framebuffer[y * 160 + pixel_x as usize] = color;
                    proof {
                        let new_row = self.framebuffer@.subrange(y * 160, y * 160 + 160);
                        let want = draw_sprite_upto(row0, vram@, oam@, i as int, y as int, x + 1);
                        assert forall|p: int| 0 <= p < 160 implies new_row[p] == want[p] by {
                            if p != pixel_x {
                                assert(new_row[p] == before[p]);
                            } else {
                                assert(new_row[p] == color);
                                assert(p - x_pos == if attributes & 0x20 != 0 { 7 - x } else { x as int });
                            }
                        }
                        assert(new_row =~= want);
                    }
                    x += 1;
                    assert(self.framebuffer@ =~= with_line(
                        fb0,
                        y as int,
                        self.framebuffer@.subrange(y * 160, y * 160 + 160),
                    ));
                }
            }
            i += 1;
        }
    }
}

} // verus!
