use rusty_emulator::cart::Cart;
use rusty_emulator::mmu::{is_in_bounds, MMU};

fn rom(mbc_type: u8) -> Vec<u8> {
    let mut rom = Vec::new();
    for i in 0..0x10000usize {
        rom.push((i / 0x4000) as u8 + 0x10);
    }
    rom[0x147] = mbc_type;
    rom[0x150] = 0xAB;
    rom
}

fn bus() -> MMU {
    MMU::new(Cart::new(rom(0x01)))
}

#[test]
fn boot_area_reads_boot_rom_then_cartridge() {
    let mmu = bus();
    assert_eq!(mmu.read_byte(0x0000), 0x00);
    assert_eq!(mmu.read_byte(0x00FF), 0x00);
    assert_eq!(mmu.read_byte(0x0100), 0x10);
    assert_eq!(mmu.read_byte(0x0150), 0xAB);
    assert_eq!(mmu.read_byte(0x4000), 0x11);
}

#[test]
fn ram_reads_back_writes() {
    let mut mmu = bus();
    for &addr in [0x8000u16, 0x9FFF, 0xA000, 0xBFFF, 0xC000, 0xDFFF, 0xFE00, 0xFE9F].iter() {
        mmu.write_byte(addr, 0x5A);
        assert_eq!(mmu.read_byte(addr), 0x5A);
    }
    mmu.write_byte(0x8001, 0x77);
    assert_eq!(mmu.read_byte(0x8000), 0x5A);
    assert_eq!(mmu.read_byte(0x8001), 0x77);
}

#[test]
fn io_page() {
    let mut mmu = bus();
    assert_eq!(mmu.read_byte(0xFF40), 0);
    mmu.write_byte(0xFF40, 0x91);
    assert_eq!(mmu.read_byte(0xFF40), 0x91);
    mmu.write_byte(0xFF41, 0x05);
    assert_eq!(mmu.read_byte(0xFF41), 0x05);
    mmu.write_byte(0xFF44, 0x33);
    assert_eq!(mmu.read_byte(0xFF44), 0x90);
    mmu.write_byte(0xFF80, 0x12);
    assert_eq!(mmu.read_byte(0xFF80), 0xFF);
    assert_eq!(mmu.read_byte(0xFFFF), 0xFF);
}

#[test]
fn writes_to_rom_switch_bank() {
    let mut mmu = bus();
    mmu.write_byte(0x2000, 3);
    assert_eq!(mmu.read_byte(0x4000), 0x13);
    assert_eq!(mmu.read_byte(0x0150), 0xAB);
}

#[test]
fn fetch_is_little_endian_and_advances() {
    let mut mmu = bus();
    mmu.write_byte(0xC000, 0x34);
    mmu.write_byte(0xC001, 0x12);
    mmu.write_byte(0xC002, 0x99);
    let mut pc: u16 = 0xC000;
    assert_eq!(mmu.fetch_word(&mut pc), 0x1234);
    assert_eq!(pc, 0xC002);
    assert_eq!(mmu.fetch_byte(&mut pc), 0x99);
    assert_eq!(pc, 0xC003);
}

#[test]
fn echo_and_sprite_tail_are_not_readable() {
    let mmu = bus();
    assert!(!mmu.can_read(0xE000));
    assert!(!mmu.can_read(0xFDFF));
    assert!(!mmu.can_read(0xFEA0));
    assert!(mmu.can_read(0xDFFF));
    assert!(mmu.can_read(0xFE9F));
    assert!(mmu.can_read(0xFF00));
}

#[test]
fn framebuffer_starts_blank() {
    let mmu = bus();
    let fb = mmu.get_framebuffer();
    assert_eq!(fb.len(), 160 * 144);
    assert!(fb.iter().all(|&p| p == 0));
}

#[test]
fn ppu_runs_on_video_ram() {
    let mut mmu = bus();
    // tile 0, row 0: colour 3 in every pixel
    mmu.write_byte(0x8000, 0xFF);
    mmu.write_byte(0x8001, 0xFF);
    mmu.step_ppu(456);
    let fb = mmu.get_framebuffer();
    assert_eq!(fb[0], 0xFF000000);
    assert_eq!(fb[159], 0xFF000000);
    assert_eq!(fb[160], 0);
}

#[test]
fn bounds_of_routed_memory() {
    assert!(is_in_bounds(0x0000));
    assert!(is_in_bounds(0xDFFF));
    assert!(!is_in_bounds(0xE000));
    assert!(!is_in_bounds(0xFDFF));
    assert!(is_in_bounds(0xFE00));
    assert!(!is_in_bounds(0xFEA0));
    assert!(is_in_bounds(0xFF00));
}

#[test]
fn ppu_counter_room() {
    let mmu = bus();
    assert!(mmu.can_step_ppu(u32::MAX));
    let mut mmu = bus();
    mmu.step_ppu(100);
    assert!(!mmu.can_step_ppu(u32::MAX));
    assert!(mmu.can_step_ppu(u32::MAX - 100));
}
