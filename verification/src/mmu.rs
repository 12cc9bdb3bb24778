use vstd::prelude::*;

use crate::bits::lemma_word_bits;
use crate::cart::{Cart, CartState};
use crate::ppu::{PpuState, PPU};

verus! {

pub const PAGE_SIZE: usize = 0x100;

pub const NUM_PAGES: usize = 256;

/// Region codes of the page table.
pub const ROM: u8 = 0;

pub const VRAM: u8 = 1;

pub const CRAM: u8 = 2;

pub const WRAM: u8 = 3;

pub const OAM: u8 = 4;

pub const HRAM: u8 = 5;

pub const IO: u8 = 6;

pub const CART: u8 = 7;

/// The memory bus: it routes each 16-bit address to the cartridge, a RAM, or an I/O register.
pub struct MMU {
    cart: Cart,
    ppu: PPU,
    boot: [u8; 0x100],
    cram: [u8; 0x2000],
    wram: [u8; 0x2000],
    vram: [u8; 0x2000],
    oam: [u8; 0xA0],
    hram: [u8; 0x80],
    /// Region of each 256-byte page, for fast lookup.
    page: [u8; NUM_PAGES],
    boot_enabled: bool,
    serial_data: u8,
    serial_control: u8,
}

/// The abstract state of the memory bus.
pub struct MmuState {
    pub cart: CartState,
    pub ppu: PpuState,
    pub boot: Seq<u8>,
    pub cram: Seq<u8>,
    pub wram: Seq<u8>,
    pub vram: Seq<u8>,
    pub oam: Seq<u8>,
    pub hram: Seq<u8>,
    pub page: Seq<u8>,
    pub boot_enabled: bool,
    pub serial_data: u8,
    pub serial_control: u8,
}

/// The region that page `p` (addresses p*256 to p*256+255) is routed to, judged by the
/// first address of the page.
pub open spec fn page_region(p: int) -> u8 {
    let base = p * 256;
    if base <= 0x7FFF {
        ROM
    } else if base <= 0x9FFF {
        VRAM
    } else if base <= 0xBFFF {
        CRAM
    } else if base <= 0xDFFF {
        WRAM
    } else if base <= 0xFDFF {
        WRAM
    } else if 0xFE00 <= base <= 0xFE9F {
        OAM
    } else if 0xFF80 <= base <= 0xFFFF {
        HRAM
    } else {
        IO
    }
}

/// A sequence of `n` zero bytes.
pub open spec fn zeros(n: nat) -> Seq<u8> {
    Seq::new(n, |i: int| 0u8)
}

/// Whether an access to `addr` stays inside the memory it is routed to: the echo of work RAM
/// (0xE000-0xFDFF) is routed to the 8 KiB work RAM with an offset beyond its end, and
/// 0xFEA0-0xFEFF to the 160-byte sprite table likewise.
pub open spec fn in_bounds(addr: u16) -> bool {
    !(0xE000 <= addr < 0xFE00) && !(0xFEA0 <= addr < 0xFF00)
}

/// Whether an access to `addr` stays inside the memory it is routed to.
pub fn is_in_bounds(addr: u16) -> (r: bool)
    ensures
        r == in_bounds(addr),
{
    !(0xE000 <= addr && addr < 0xFE00) && !(0xFEA0 <= addr && addr < 0xFF00)
}

impl MmuState {
    pub open spec fn inv(self) -> bool {
        &&& self.cart.inv()
        &&& self.ppu.inv()
        &&& self.boot.len() == 0x100
        &&& self.cram.len() == 0x2000
        &&& self.wram.len() == 0x2000
        &&& self.vram.len() == 0x2000
        &&& self.oam.len() == 0xA0
        &&& self.hram.len() == 0x80
        &&& self.page.len() == NUM_PAGES
        &&& forall|p: int| 0 <= p < NUM_PAGES ==> #[trigger] self.page[p] == page_region(p)
    }

    /// The bus at power-on around cartridge `cart`: all RAM zero, boot ROM mapped.
    pub open spec fn initial(cart: CartState) -> MmuState {
        MmuState {
            cart,
            ppu: PpuState::initial(),
            boot: zeros(0x100),
            cram: zeros(0x2000),
            wram: zeros(0x2000),
            vram: zeros(0x2000),
            oam: zeros(0xA0),
            hram: zeros(0x80),
            page: Seq::new(NUM_PAGES as nat, |p: int| page_region(p)),
            boot_enabled: true,
            serial_data: 0,
            serial_control: 0,
        }
    }

    /// Whether reading `addr` succeeds.
    pub open spec fn read_ok(self, addr: u16) -> bool {
        &&& in_bounds(addr)
        &&& (addr < 0x8000 && !(addr < 0x100 && self.boot_enabled)) ==> self.cart.read_ok(addr)
    }

    /// The byte at `addr`: boot ROM then cartridge below 0x8000, video RAM, cartridge RAM,
    /// work RAM, sprite table, then the I/O page, where LCDC and STAT read back and LY
    /// always reads 0x90.
    pub open spec fn read(self, addr: u16) -> u8 {
        if addr < 0x8000 {
            if addr < 0x100 && self.boot_enabled {
                self.boot[addr as int]
            } else {
                self.cart.read(addr)
            }
        } else if addr < 0xA000 {
            self.vram[addr - 0x8000]
        } else if addr < 0xC000 {
            self.cram[addr - 0xA000]
        } else if addr < 0xFE00 {
            self.wram[addr - 0xC000]
        } else if addr < 0xFF00 {
            self.oam[addr - 0xFE00]
        } else if addr == 0xFF40 {
            self.ppu.lcdc
        } else if addr == 0xFF41 {
            self.ppu.stat
        } else if addr == 0xFF44 {
            0x90
        } else {
            0xFF
        }
    }

    /// The bus after writing `value` to `addr`: below 0x8000 it goes to the cartridge
    /// controller; the RAMs store it; in the I/O page LCDC, STAT and LY take it and the rest
    /// ignore it.
    pub open spec fn write(self, addr: u16, value: u8) -> MmuState {
        if addr < 0x8000 {
            MmuState { cart: self.cart.write(addr, value), ..self }
        } else if addr < 0xA000 {
            MmuState { vram: self.vram.update(addr - 0x8000, value), ..self }
        } else if addr < 0xC000 {
            MmuState { cram: self.cram.update(addr - 0xA000, value), ..self }
        } else if addr < 0xFE00 {
            MmuState { wram: self.wram.update(addr - 0xC000, value), ..self }
        } else if addr < 0xFF00 {
            MmuState { oam: self.oam.update(addr - 0xFE00, value), ..self }
        } else if addr == 0xFF40 {
            MmuState { ppu: PpuState { lcdc: value, ..self.ppu }, ..self }
        } else if addr == 0xFF41 {
            MmuState { ppu: PpuState { stat: value, ..self.ppu }, ..self }
        } else if addr == 0xFF44 {
            MmuState { ppu: PpuState { ly: value, ..self.ppu }, ..self }
        } else {
            self
        }
    }

    /// The bus after the video unit has run `cycles` clock cycles.
    pub open spec fn step_ppu(self, cycles: u32) -> MmuState {
        MmuState { ppu: self.ppu.step(cycles, self.vram, self.oam), ..self }
    }
}

/// Every write keeps the bus well formed.
pub proof fn lemma_write_inv(m: MmuState, addr: u16, value: u8)
    requires
        m.inv(),
        in_bounds(addr),
    ensures
        m.write(addr, value).inv(),
{
    assert(value & 0x1F <= 0x1F) by (bit_vector);
}

/// Whether `addr` is memory that stores what is written to it: video RAM, cartridge RAM,
/// work RAM, the sprite table, and the LCDC and STAT registers.
pub open spec fn stores_writes(addr: u16) -> bool {
    ||| 0x8000 <= addr < 0xE000
    ||| 0xFE00 <= addr < 0xFEA0
    ||| addr == 0xFF40
    ||| addr == 0xFF41
}

/// A read of an address that stores writes gives back the value last written there.
pub proof fn lemma_read_after_write(m: MmuState, addr: u16, value: u8)
    requires
        m.inv(),
        stores_writes(addr),
    ensures
        m.write(addr, value).read_ok(addr),
        m.write(addr, value).read(addr) == value,
{
}

/// A write to video RAM, cartridge RAM, work RAM, the sprite table or the I/O page changes
/// no other address that can be accessed, and none stops being readable.
pub proof fn lemma_write_elsewhere(m: MmuState, addr: u16, value: u8, other: u16)
    requires
        m.inv(),
        in_bounds(addr),
        addr >= 0x8000,
        in_bounds(other),
        other != addr,
    ensures
        m.write(addr, value).read(other) == m.read(other),
        m.write(addr, value).read_ok(other) == m.read_ok(other),
{
}

/// A write below 0x8000 goes to the cartridge controller: it can change only what the
/// switchable bank at 0x4000-0x7FFF shows.
pub proof fn lemma_write_to_cartridge(m: MmuState, addr: u16, value: u8, other: u16)
    requires
        m.inv(),
        addr < 0x8000,
        !(0x4000 <= other < 0x8000),
    ensures
        m.write(addr, value).read(other) == m.read(other),
        m.write(addr, value).read_ok(other) == m.read_ok(other),
{
}

/// On an MBC1 cartridge, writing `value` to 0x2000-0x3FFF maps bank `value & 0x1F` (bank 1
/// for 0) at 0x4000-0x7FFF: its byte `k` is byte bank * 0x4000 + k of the image, 0xFF past
/// the end of it.
pub proof fn lemma_bank_switch(m: MmuState, addr: u16, value: u8, k: u16)
    requires
        m.inv(),
        m.cart.is_mbc1(),
        0x2000 <= addr < 0x4000,
        k < 0x4000,
    ensures
        ({
            let bank: int = if value & 0x1F == 0 {
                1
            } else {
                (value & 0x1F) as int
            };
            let i = bank * 0x4000 + k;
            m.write(addr, value).read((0x4000 + k) as u16) == if i < m.cart.rom.len() {
                m.cart.rom[i]
            } else {
                0xFF
            }
        }),
{
}

/// A cartridge without a controller ignores every write.
pub proof fn lemma_rom_only_ignores_writes(m: MmuState, addr: u16, value: u8)
    requires
        m.cart.mbc_type == 0,
        addr < 0x8000,
    ensures
        m.write(addr, value) == m,
{
}

/// The video RAM and sprite table that the picture unit draws from are the bytes at
/// 0x8000-0x9FFF and 0xFE00-0xFE9F of the bus: byte k of video RAM is what the bus reads at
/// 0x8000 + k, a write there replaces exactly that byte, and likewise for the sprite table;
/// LCDC (0xFF40) and STAT (0xFF41) read back what was written, and LY (0xFF44) always
/// reads 0x90.
pub proof fn lemma_video_memory_on_bus(m: MmuState, k: int, value: u8)
    requires
        m.inv(),
    ensures
        0 <= k < 0x2000 ==> m.read((0x8000 + k) as u16) == m.vram[k] && m.write(
            (0x8000 + k) as u16,
            value,
        ).vram == m.vram.update(k, value) && m.write((0x8000 + k) as u16, value).oam == m.oam,
        0 <= k < 0xA0 ==> m.read((0xFE00 + k) as u16) == m.oam[k] && m.write(
            (0xFE00 + k) as u16,
            value,
        ).oam == m.oam.update(k, value) && m.write((0xFE00 + k) as u16, value).vram == m.vram,
        m.write(0xFF40, value).ppu.lcdc == value && m.write(0xFF40, value).read(0xFF40) == value,
        m.write(0xFF41, value).ppu.stat == value && m.write(0xFF41, value).read(0xFF41) == value,
        m.read(0xFF44) == 0x90,
{
}

/// The first 0x4000 bytes of the cartridge image appear at 0x0000-0x3FFF, except that the
/// boot ROM covers 0x0000-0x00FF while it is enabled; work RAM byte k appears at 0xC000 + k
/// and cartridge RAM byte k at 0xA000 + k.
pub proof fn lemma_fixed_regions(m: MmuState, a: u16, k: int)
    requires
        m.inv(),
    ensures
        a < 0x4000 && !(a < 0x100 && m.boot_enabled) && a < m.cart.rom.len() ==> m.read(a)
            == m.cart.rom[a as int],
        a < 0x100 && m.boot_enabled ==> m.read(a) == m.boot[a as int],
        0 <= k < 0x2000 ==> m.read((0xC000 + k) as u16) == m.wram[k] && m.read(
            (0xA000 + k) as u16,
        ) == m.cram[k],
{
}

impl View for MMU {
    type V = MmuState;

    closed spec fn view(&self) -> MmuState {
        MmuState {
            cart: self.cart@,
            ppu: self.ppu@,
            boot: self.boot@,
            cram: self.cram@,
            wram: self.wram@,
            vram: self.vram@,
            oam: self.oam@,
            hram: self.hram@,
            page: self.page@,
            boot_enabled: self.boot_enabled,
            serial_data: self.serial_data,
            serial_control: self.serial_control,
        }
    }
}

impl MMU {
    pub fn new(cart: Cart) -> (r: Self)
        requires
            cart@.inv(),
        ensures
            r@ == MmuState::initial(cart@),
            r@.inv(),
    {
        let mut mmu = Self {
            cart,
            ppu: PPU::new(),
            boot: [0u8; 0x100],
            cram: [0u8; 0x2000],
            wram: [0u8; 0x2000],
            vram: [0u8; 0x2000],
            oam: [0u8; 0xA0],
            hram: [0u8; 0x80],
            page: [0u8; NUM_PAGES],
            boot_enabled: true,
            serial_data: 0,
            serial_control: 0,
        };
        mmu.init_pages();
        assert(mmu@.boot =~= zeros(0x100));
        assert(mmu@.cram =~= zeros(0x2000));
        assert(mmu@.wram =~= zeros(0x2000));
        assert(mmu@.vram =~= zeros(0x2000));
        assert(mmu@.oam =~= zeros(0xA0));
        assert(mmu@.hram =~= zeros(0x80));
        assert(mmu@.page =~= MmuState::initial(mmu@.cart).page);
        mmu
    }

    fn init_pages(&mut self)
        ensures
            forall|p: int| 0 <= p < NUM_PAGES ==> #[trigger] final(self).page@[p] == page_region(p),
            final(self).cart@ == old(self).cart@,
            final(self).ppu@ == old(self).ppu@,
            final(self).boot@ == old(self).boot@,
            final(self).cram@ == old(self).cram@,
            final(self).wram@ == old(self).wram@,
            final(self).vram@ == old(self).vram@,
            final(self).oam@ == old(self).oam@,
            final(self).hram@ == old(self).hram@,
            final(self).boot_enabled == old(self).boot_enabled,
            final(self).serial_data == old(self).serial_data,
            final(self).serial_control == old(self).serial_control,
    {
        let ghost s0 = *self;
        for i in 0..NUM_PAGES
            invariant
                forall|p: int| 0 <= p < i ==> #[trigger] self.page@[p] == page_region(p),
                self.cart@ == s0.cart@,
                self.ppu@ == s0.ppu@,
                self.boot@ == s0.boot@,
                self.cram@ == s0.cram@,
                self.wram@ == s0.wram@,
                self.vram@ == s0.vram@,
                self.oam@ == s0.oam@,
                self.hram@ == s0.hram@,
                self.boot_enabled == s0.boot_enabled,
                self.serial_data == s0.serial_data,
                self.serial_control == s0.serial_control,
        {
            let base = (i as u16) << 8;
            assert(base == i * 256) by {
                let iu: u16 = i as u16;
                assert((iu << 8u16) == iu * 256) by (bit_vector)
                    requires
                        iu < 256,
                ;
            }
            let region = if base <= 0x7FFF {
                ROM
            } else if base <= 0x9FFF {
                VRAM
            } else if base <= 0xBFFF {
                CRAM
            } else if base <= 0xDFFF {
                WRAM
            } else if base <= 0xFDFF {
                WRAM  // echo of work RAM
            } else if 0xFE00 <= base && base <= 0xFE9F {
                OAM
            } else if 0xFF80 <= base {
                HRAM
            } else {
                IO
            };
            self.page[i] = region;
        }
    }

    /// Whether a read of `addr` succeeds.
    pub fn can_read(&self, addr: u16) -> (r: bool)
        ensures
            r == self@.read_ok(addr),
    {
        is_in_bounds(addr) && (!(addr < 0x8000 && !(addr < 0x100 && self.boot_enabled))
            || self.cart.can_read(addr))
    }

    pub fn read_byte(&self, addr: u16) -> (r: u8)
        requires
            self@.inv(),
            self@.read_ok(addr),
        ensures
            r == self@.read(addr),
    {
        proof {
            lemma_word_bits();
        }
        let page = self.page[(addr >> 8) as usize];
        assert(page == page_region((addr / 256) as int));
        match page {
            0 => {
                if addr < 0x100 && self.boot_enabled {
                    return self.boot[addr as usize];
                }
                self.cart.read(addr)
            },
            1 => self.vram[(addr - 0x8000) as usize],
            2 => self.cram[(addr - 0xA000) as usize],
            3 => self.wram[(addr - 0xC000) as usize],
            4 => self.oam[(addr - 0xFE00) as usize],
            5 => self.hram[(addr - 0xFF80) as usize],
            6 => {
                if addr == 0xFF40 {
                    self.ppu.lcdc
                } else if addr == 0xFF41 {
                    self.ppu.stat
                } else if addr == 0xFF44 {
                    0x90
                } else {
                    0xFF
                }
            },
            _ => self.cart.read(addr),
        }
    }

    pub fn write_byte(&mut self, addr: u16, value: u8)
        requires
            old(self)@.inv(),
            in_bounds(addr),
        ensures
            final(self)@ == old(self)@.write(addr, value),
            final(self)@.inv(),
    {
        proof {
            lemma_word_bits();
        }
        let page = self.page[(addr >> 8) as usize];
        assert(page == page_region((addr / 256) as int));
        match page {
            1 => self.vram[(addr - 0x8000) as usize] = value,
            2 => self.cram[(addr - 0xA000) as usize] = value,
            3 => self.wram[(addr - 0xC000) as usize] = value,
            4 => self.oam[(addr - 0xFE00) as usize] = value,
            5 => self.hram[(addr - 0xFF80) as usize] = value,
            6 => {
                if addr == 0xFF40 {
                    self.ppu.lcdc = value;
                } else if addr == 0xFF41 {
                    self.ppu.stat = value;
                } else if addr == 0xFF44 {
                    self.ppu.ly = value;
                }
            },
            _ => {
                if addr < 0x8000 {
                    self.cart.write(addr, value);
                }
            },
        }
    }

    /// Reads the byte at `*pc` and moves `*pc` past it.
    pub fn fetch_byte(&mut self, pc: &mut u16) -> (r: u8)
        requires
            old(self)@.inv(),
            *old(pc) < 0xFFFF,
            old(self)@.read_ok(*old(pc)),
        ensures
            r == old(self)@.read(*old(pc)),
            *final(pc) == *old(pc) + 1,
            final(self)@ == old(self)@,
    {
        let byte = self.read_byte(*pc);
        *pc += 1;
        byte
    }

    /// Reads the little-endian word at `*pc` and moves `*pc` past it.
    pub fn fetch_word(&mut self, pc: &mut u16) -> (r: u16)
        requires
            old(self)@.inv(),
            *old(pc) < 0xFFFE,
            old(self)@.read_ok(*old(pc)),
            old(self)@.read_ok((*old(pc) + 1) as u16),
        ensures
            r == old(self)@.read(*old(pc)) + 256 * old(self)@.read((*old(pc) + 1) as u16),
            *final(pc) == *old(pc) + 2,
            final(self)@ == old(self)@,
    {
        proof {
            lemma_word_bits();
        }
        let low = self.fetch_byte(pc) as u16;
        let high = self.fetch_byte(pc) as u16;
        (high << 8) | low
    }

    /// Runs the video unit for `cycles` clock cycles over the current video RAM and sprite
    /// table.
    pub fn step_ppu(&mut self, cycles: u32)
        requires
            old(self)@.inv(),
            old(self)@.ppu.cycle + cycles <= u32::MAX,
        ensures
            final(self)@ == old(self)@.step_ppu(cycles),
            final(self)@.inv(),
    {
        let vram: &[u8] = &self.vram;
        let oam: &[u8] = &self.oam;
        proof {
            if self.ppu.line < 144 {
                crate::ppu::lemma_full_memories_render_ok(vram@, oam@, self.ppu.line as int);
            }
        }
        self.ppu.step(cycles, vram, oam);
    }

    /// Whether the video unit's cycle counter has room for `cycles` more.
    pub fn can_step_ppu(&self, cycles: u32) -> (r: bool)
        ensures
            r == (self@.ppu.cycle + cycles <= u32::MAX),
    {
        self.ppu.cycle <= u32::MAX - cycles
    }

    pub fn get_framebuffer(&self) -> (r: &[u32])
        ensures
            r@ == self@.ppu.framebuffer,
    {
        self.ppu.framebuffer.as_slice()
    }
}

} // verus!
