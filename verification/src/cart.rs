use vstd::prelude::*;

verus! {

/// A cartridge: its ROM image and the state of its memory bank controller.
pub struct Cart {
    pub rom: Vec<u8>,
    rom_bank: usize,
    mbc_type: u8,
}

/// The abstract state of a cartridge.
pub struct CartState {
    pub rom: Seq<u8>,
    /// The ROM bank mapped at 0x4000-0x7FFF.
    pub rom_bank: usize,
    /// The controller type, from header byte 0x147.
    pub mbc_type: u8,
}

/// Offset of the cartridge-type byte in the ROM header.
pub const MBC_TYPE_OFFSET: usize = 0x147;

impl CartState {
    /// The selected bank is one of the 31 banks that the 5-bit bank register can name.
    pub open spec fn inv(self) -> bool {
        1 <= self.rom_bank <= 0x1F
    }

    /// The cartridge as it is after power-on: bank 1 selected.
    pub open spec fn initial(rom: Seq<u8>) -> CartState
        recommends
            rom.len() > MBC_TYPE_OFFSET,
    {
        CartState { rom, rom_bank: 1, mbc_type: rom[MBC_TYPE_OFFSET as int] }
    }

    /// Whether the controller is an MBC1 (types 0x01 to 0x03).
    pub open spec fn is_mbc1(self) -> bool {
        self.mbc_type == 0x01 || self.mbc_type == 0x02 || self.mbc_type == 0x03
    }

    /// Index into the ROM image of a byte in the switchable bank.
    pub open spec fn banked_index(self, addr: u16) -> int {
        self.rom_bank * 0x4000 + (addr - 0x4000)
    }

    /// A read succeeds everywhere but in bank 0 beyond the end of a short ROM image.
    pub open spec fn read_ok(self, addr: u16) -> bool {
        addr <= 0x3FFF ==> addr < self.rom.len()
    }

    /// Bank 0 at 0x0000-0x3FFF, the selected bank at 0x4000-0x7FFF (0xFF beyond the
    /// image), and 0xFF elsewhere.
    pub open spec fn read(self, addr: u16) -> u8 {
        if addr <= 0x3FFF {
            self.rom[addr as int]
        } else if addr <= 0x7FFF {
            if self.banked_index(addr) < self.rom.len() {
                self.rom[self.banked_index(addr)]
            } else {
                0xFF
            }
        } else {
            0xFF
        }
    }

    /// On an MBC1 a write to 0x2000-0x3FFF selects the bank named by the low five bits of
    /// the value, bank 0 standing for bank 1; every other write changes nothing.
    pub open spec fn write(self, addr: u16, value: u8) -> CartState {
        if self.is_mbc1() && 0x2000 <= addr <= 0x3FFF {
            let bank = value & 0x1F;
            CartState { rom_bank: if bank == 0 { 1 } else { bank as usize }, ..self }
        } else {
            self
        }
    }
}

impl View for Cart {
    type V = CartState;

    closed spec fn view(&self) -> CartState {
        CartState { rom: self.rom@, rom_bank: self.rom_bank, mbc_type: self.mbc_type }
    }
}

impl Cart {
    /// Builds a cartridge from its ROM image; the image must hold the header byte 0x147.
    pub fn new(rom: Vec<u8>) -> (r: Self)
        requires
            rom@.len() > MBC_TYPE_OFFSET,
        ensures
            r@ == CartState::initial(rom@),
            r@.inv(),
    {
        let mbc_type = rom[MBC_TYPE_OFFSET];
        let r = Self { rom, rom_bank: 1, mbc_type };
        r
    }

    /// Whether a read of `addr` succeeds.
    pub fn can_read(&self, addr: u16) -> (r: bool)
        ensures
            r == self@.read_ok(addr),
    {
        addr > 0x3FFF || (addr as usize) < self.rom.len()
    }

    pub fn read(&self, addr: u16) -> (r: u8)
        requires
            self@.inv(),
            self@.read_ok(addr),
        ensures
            r == self@.read(addr),
    {
        if addr <= 0x3FFF {
            // Bank 0
            self.rom[addr as usize]
        } else if addr <= 0x7FFF {
            // Switchable bank
            let bank_offset = self.rom_bank * 0x4000;
            let index = bank_offset + (addr as usize - 0x4000);
            if index < self.rom.len() {
                self.rom[index]
            } else {
                0xFF
            }
        } else {
            0xFF
        }
    }

    pub fn write(&mut self, addr: u16, value: u8)
        requires
            old(self)@.inv(),
        ensures
            final(self)@ == old(self)@.write(addr, value),
            final(self)@.inv(),
    {
        match self.mbc_type {
            // ROM only
            0x00 => {},
            // MBC1
            0x01 | 0x02 | 0x03 => {
                if 0x2000 <= addr && addr <= 0x3FFF {
                    // Bank select
                    let mut bank = (value & 0x1F) as usize;
                    if bank == 0 {
                        bank = 1;
                    }
                    proof {
                        assert(value & 0x1F <= 0x1F) by (bit_vector);
                    }
                    self.rom_bank = bank;
                }
            },
            _ => {},
        }
    }
}

} // verus!
