use rusty_emulator::ppu::PPU;

#[test]
fn new_is_blank() {
    let p = PPU::new();
    assert_eq!(p.framebuffer.len(), 160 * 144);
    assert_eq!((p.line, p.cycle, p.lcdc, p.stat, p.ly), (0, 0, 0, 0, 0));
}

#[test]
fn line_advances_every_456_cycles() {
    let vram = vec![0u8; 0x2000];
    let oam = vec![0u8; 0xA0];
    let mut p = PPU::new();
    p.step(455, &vram, &oam);
    assert_eq!((p.line, p.cycle), (0, 455));
    p.step(3, &vram, &oam);
    assert_eq!((p.line, p.cycle), (1, 2));
}

#[test]
fn line_wraps_after_153() {
    let vram = vec![0u8; 0x2000];
    let oam = vec![0u8; 0xA0];
    let mut p = PPU::new();
    for _ in 0..153 {
        p.step(456, &vram, &oam);
    }
    assert_eq!(p.line, 153);
    p.step(456, &vram, &oam);
    assert_eq!(p.line, 0);
}

#[test]
fn background_colours() {
    let mut vram = vec![0u8; 0x2000];
    let oam = vec![0u8; 0xA0];
    // tile 1 row 0: low plane 0b0101_0101, high plane 0b0011_0011
    vram[16] = 0x55;
    vram[17] = 0x33;
    // tile map entry for column 1 of the first tile row
    vram[0x1801] = 1;
    let mut p = PPU::new();
    p.step(456, &vram, &oam);
    // column 0..8: tile 0, all zero -> white
    assert_eq!(p.framebuffer[0], 0xFFFFFFFF);
    // column 8: bit 7 of lo = 0, of hi = 0 -> 0
    assert_eq!(p.framebuffer[8], 0xFFFFFFFF);
    // column 9: bit 6: lo 1, hi 0 -> 1 light grey
    assert_eq!(p.framebuffer[9], 0xFFAAAAAA);
    // column 10: bit 5: lo 0, hi 1 -> 2 dark grey
    assert_eq!(p.framebuffer[10], 0xFF555555);
    // column 11: bit 4: lo 1, hi 1 -> 3 black
    assert_eq!(p.framebuffer[11], 0xFF000000);
    // only line 0 was drawn
    assert_eq!(p.framebuffer[160 + 9], 0);
}

#[test]
fn sprite_drawn_over_background() {
    let mut vram = vec![0u8; 0x2000];
    let mut oam = vec![0u8; 0xA0];
    // tile 2 row 0: colour 1 in the leftmost pixel only
    vram[32] = 0x80;
    vram[33] = 0x00;
    // sprite 0 at screen (x=4, y=0), tile 2
    oam[0] = 16;
    oam[1] = 12;
    oam[2] = 2;
    oam[3] = 0;
    let mut p = PPU::new();
    p.step(456, &vram, &oam);
    assert_eq!(p.framebuffer[4], 0xFFAAAAAA);
    // transparent pixels leave the background
    assert_eq!(p.framebuffer[5], 0xFFFFFFFF);
}

#[test]
fn mirrored_sprite() {
    let mut vram = vec![0u8; 0x2000];
    let mut oam = vec![0u8; 0xA0];
    vram[32] = 0x80;
    vram[33] = 0x80;
    oam[0] = 16;
    oam[1] = 12;
    oam[2] = 2;
    oam[3] = 0x20;
    let mut p = PPU::new();
    p.step(456, &vram, &oam);
    assert_eq!(p.framebuffer[4], 0xFFFFFFFF);
    assert_eq!(p.framebuffer[11], 0xFF000000);
}

#[test]
fn no_rendering_during_vertical_blank() {
    let mut vram = vec![0u8; 0x2000];
    let oam = vec![0u8; 0xA0];
    vram[0] = 0xFF;
    vram[1] = 0xFF;
    let mut p = PPU::new();
    p.line = 144;
    p.step(456, &vram, &oam);
    assert_eq!(p.line, 145);
    assert!(p.framebuffer.iter().all(|&x| x == 0));
}

#[test]
fn at_most_ten_sprites_per_line() {
    let mut vram = vec![0u8; 0x2000];
    let mut oam = vec![0u8; 0xA0];
    vram[32] = 0xFF;
    vram[33] = 0xFF;
    for i in 0..11 {
        oam[4 * i] = 16;
        oam[4 * i + 1] = (8 + 8 * i) as u8;
        oam[4 * i + 2] = 2;
    }
    let mut p = PPU::new();
    p.step(456, &vram, &oam);
    assert_eq!(p.framebuffer[9 * 8], 0xFF000000);
    assert_eq!(p.framebuffer[10 * 8], 0xFFFFFFFF);
}

#[test]
fn short_memories_suffice_for_the_lines_they_cover() {
    // Line 0 reads the tile map only up to 0x1813, and an empty sprite table is never read
    // past its first ten entries when ten sprites are on the line.
    let vram = vec![0u8; 0x1814];
    let mut oam = vec![0u8; 40];
    for i in 0..10 {
        oam[4 * i] = 16;
    }
    let mut p = PPU::new();
    p.step(456, &vram, &oam);
    assert_eq!(p.line, 1);
    assert_eq!(p.framebuffer[0], 0xFFFFFFFF);
}
