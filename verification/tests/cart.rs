use rusty_emulator::cart::Cart;

/// A ROM image of `banks` 16 KiB banks whose bytes name their bank, with the given type.
fn image(banks: usize, mbc_type: u8) -> Vec<u8> {
    let mut rom = Vec::new();
    for bank in 0..banks {
        for _ in 0..0x4000 {
            rom.push(bank as u8);
        }
    }
    rom[0x147] = mbc_type;
    rom
}

#[test]
fn bank_zero_and_default_bank_one() {
    let cart = Cart::new(image(4, 0x01));
    assert_eq!(cart.read(0x0000), 0);
    assert_eq!(cart.read(0x3FFF), 0);
    assert_eq!(cart.read(0x4000), 1);
    assert_eq!(cart.read(0x7FFF), 1);
}

#[test]
fn mbc1_selects_bank() {
    let mut cart = Cart::new(image(4, 0x01));
    cart.write(0x2000, 3);
    assert_eq!(cart.read(0x4000), 3);
    cart.write(0x3FFF, 2);
    assert_eq!(cart.read(0x5123), 2);
}

#[test]
fn mbc1_bank_zero_selects_bank_one() {
    let mut cart = Cart::new(image(4, 0x03));
    cart.write(0x2000, 2);
    cart.write(0x2000, 0);
    assert_eq!(cart.read(0x4000), 1);
    cart.write(0x2000, 0x20);
    assert_eq!(cart.read(0x4000), 1);
}

#[test]
fn mbc1_uses_low_five_bits() {
    let mut cart = Cart::new(image(4, 0x02));
    cart.write(0x2000, 0xE2);
    assert_eq!(cart.read(0x4000), 2);
}

#[test]
fn writes_outside_bank_register_are_ignored() {
    let mut cart = Cart::new(image(4, 0x01));
    cart.write(0x1FFF, 3);
    cart.write(0x4000, 3);
    assert_eq!(cart.read(0x4000), 1);
}

#[test]
fn rom_only_ignores_bank_select() {
    let mut cart = Cart::new(image(4, 0x00));
    cart.write(0x2000, 3);
    assert_eq!(cart.read(0x4000), 1);
}

#[test]
fn bank_past_end_of_image_reads_ff() {
    let mut cart = Cart::new(image(2, 0x01));
    cart.write(0x2000, 5);
    assert_eq!(cart.read(0x4000), 0xFF);
}

#[test]
fn addresses_above_rom_read_ff() {
    let cart = Cart::new(image(2, 0x00));
    assert_eq!(cart.read(0x8000), 0xFF);
    assert_eq!(cart.read(0xFFFF), 0xFF);
}

#[test]
fn can_read_short_image() {
    let cart = Cart::new(vec![0u8; 0x200]);
    assert!(cart.can_read(0x01FF));
    assert!(!cart.can_read(0x0200));
    assert!(cart.can_read(0x4000));
}
