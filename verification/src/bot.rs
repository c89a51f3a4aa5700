//! The guest side of the device windows: handles that a robot program
//! uses to reach its devices, each holding the address of its window.
//! The accesses themselves are volatile reads and writes on the guest; here
//! the handles compute where they go and what bytes they carry.
use vstd::prelude::*;

use crate::hart::{f32_is_nan, is_nan_bits};
use crate::io::IOMemoryLayout;

verus! {

/// Address of the first device window.
pub const IO_BASE: usize = 4;

/// Address of the first device page of the racing memory map.
pub const SLOT1: usize = 0x100;

/// Address of the second device page.
pub const SLOT2: usize = 0x200;

/// Address of the third device page.
pub const SLOT3: usize = 0x300;

/// Address of the fourth device page.
pub const SLOT4: usize = 0x400;

/// Address of the fifth device page.
pub const SLOT5: usize = 0x500;

/// Address of the sixth device page.
pub const SLOT6: usize = 0x600;

/// The console: each character is written as a 32-bit code at `addr`.
#[derive(Debug, Clone, Copy, PartialEq, Eq)]
pub struct Log {
    pub addr: usize,
}

/// The radar: one byte per sector from `addr`.
#[derive(Debug, Clone, Copy, PartialEq, Eq)]
pub struct Radar {
    pub addr: usize,
}

/// Driving commands: speed at `addr`, heading two bytes later, each a
/// big-endian 16-bit value.
#[derive(Debug, Clone, Copy, PartialEq, Eq)]
pub struct Driving {
    pub addr: usize,
}

impl Log {
    /// Width of the console window: one `char`.
    pub const MEM_WIDTH: u32 = 4;

    /// The console whose window starts at `slot`.
    pub fn bind(slot: usize) -> (r: Self)
        ensures
            r.addr == slot,
    {
        Self { addr: slot }
    }

    /// The 32-bit words that writing `text` to the console writes, in
    /// order: each character's code once, and nothing else.
    pub fn write_codes(text: &Vec<char>) -> (r: Vec<u32>)
        ensures
            r@ == text@.map_values(|c: char| c as u32),
    {
        let mut codes: Vec<u32> = Vec::new();
        let mut i: usize = 0;
        while i < text.len()
            invariant
                i <= text@.len(),
                codes@ == text@.subrange(0, i as int).map_values(|c: char| c as u32),
            decreases text@.len() - i,
        {
            codes.push(text[i] as u32);
            i = i + 1;
            assert(codes@ =~= text@.subrange(0, i as int).map_values(|c: char| c as u32));
        }
        assert(text@.subrange(0, text@.len() as int) =~= text@);
        codes
    }

    /// The 32-bit words that logging `line` writes, in order: its characters,
    /// then a newline.
    pub fn line_codes(line: &Vec<char>) -> (r: Vec<u32>)
        ensures
            r@ == line@.map_values(|c: char| c as u32).push('\n' as u32),
    {
        let mut codes = Self::write_codes(line);
        codes.push('\n' as u32);
        codes
    }
}

impl Radar {
    /// Width of the radar window.
    pub const MEM_WIDTH: u32 = 16;

    /// Number of sectors.
    pub const SECTOR_COUNT: u8 = 16;

    /// Address of the byte that holds `sector`'s value.
    pub fn sector_addr(&self, sector: u8) -> (r: usize)
        requires
            sector < Self::SECTOR_COUNT,
            self.addr + Self::SECTOR_COUNT <= usize::MAX,
        ensures
            r == self.addr + sector,
    {
        self.addr + sector as usize
    }
}

impl Driving {
    /// Width of the driving window: two 16-bit values.
    pub const MEM_WIDTH: u32 = 4;

    /// Where setting the speed to `speed` writes, and the bytes it writes.
    pub fn speed_write(&self, speed: u16) -> (r: (usize, [u8; 2]))
        ensures
            r.0 == self.addr,
            r.1@ == speed.encode(),
    {
        let bytes = [(speed / 256) as u8, (speed % 256) as u8];
        assert(bytes@ =~= speed.encode());
        (self.addr, bytes)
    }

    /// Where setting the heading to `heading` writes, and the bytes it
    /// writes.
    pub fn heading_write(&self, heading: u16) -> (r: (usize, [u8; 2]))
        requires
            self.addr + 2 <= usize::MAX,
        ensures
            r.0 == self.addr + 2,
            r.1@ == heading.encode(),
    {
        let bytes = [(heading / 256) as u8, (heading % 256) as u8];
        assert(bytes@ =~= heading.encode());
        (self.addr + 2, bytes)
    }
}

/// The racing car radar of a program: for each of the four nearest other
/// cars, x at `addr + 8 * i` and y four bytes later, as 32-bit float bit
/// patterns.
#[derive(Debug, Clone, Copy, PartialEq, Eq)]
pub struct CarRadar {
    pub addr: usize,
}

/// A car position read from the radar: none when either coordinate is
/// NaN.
pub open spec fn decoded_position(x: u32, y: u32) -> Option<(u32, u32)> {
    if f32_is_nan(x) || f32_is_nan(y) {
        None
    } else {
        Some((x, y))
    }
}

impl CarRadar {
    /// Width of the radar window: eight 32-bit values.
    pub const MEM_WIDTH: u32 = 32;

    /// The radar whose window starts at `slot`.
    pub fn bind(slot: usize) -> (r: Self)
        ensures
            r.addr == slot,
    {
        Self { addr: slot }
    }

    /// Addresses of car `index`'s x and y.
    pub fn coordinate_addrs(&self, index: usize) -> (r: (usize, usize))
        requires
            index < 4,
            self.addr + Self::MEM_WIDTH <= usize::MAX,
        ensures
            r.0 == self.addr + 8 * index,
            r.1 == self.addr + 8 * index + 4,
    {
        (self.addr + 8 * index, self.addr + 8 * index + 4)
    }

    /// The four positions held by the radar's eight words, nearest first.
    pub fn positions(words: [u32; 8]) -> (r: [Option<(u32, u32)>; 4])
        ensures
            forall|i: int| 0 <= i < 4 ==> #[trigger] r@[i] == decoded_position(words@[2 * i], words@[2 * i + 1]),
    {
        let mut r: [Option<(u32, u32)>; 4] = [None, None, None, None];
        let mut i: usize = 0;
        while i < 4
            invariant
                i <= 4,
                r@.len() == 4,
                forall|j: int| 0 <= j < i ==> #[trigger] r@[j] == decoded_position(words@[2 * j], words@[2 * j + 1]),
            decreases 4 - i,
        {
            let x = words[2 * i];
            let y = words[2 * i + 1];
            r[i] = if is_nan_bits(x) || is_nan_bits(y) {
                None
            } else {
                Some((x, y))
            };
            i = i + 1;
        }
        r
    }

    /// The position of car `index`, none past the fourth.
    pub fn position(words: [u32; 8], index: usize) -> (r: Option<(u32, u32)>)
        ensures
            r == (if index < 4 {
                decoded_position(words@[2 * index], words@[2 * index + 1])
            } else {
                None
            }),
    {
        if index >= 4 {
            return None;
        }
        let x = words[2 * index];
        let y = words[2 * index + 1];
        if is_nan_bits(x) || is_nan_bits(y) {
            None
        } else {
            Some((x, y))
        }
    }
}

/// The racing car controls of a program: accelerator, brake and steering,
/// each a 32-bit float bit pattern at its own address.
#[derive(Debug, Clone, Copy, PartialEq, Eq)]
pub struct CarControls {
    pub accelerator: usize,
    pub brake: usize,
    pub steering: usize,
}

impl CarControls {
    /// The controls whose window starts at `slot`: accelerator, brake and
    /// steering four bytes apart.
    pub fn bind(slot: usize) -> (r: Self)
        requires
            slot + 8 <= usize::MAX,
        ensures
            r.accelerator == slot,
            r.brake == slot + 4,
            r.steering == slot + 8,
    {
        Self { accelerator: slot, brake: slot + 4, steering: slot + 8 }
    }
}

/// The racing car state of a program: speed, position, forward direction
/// and target point, each coordinate a 32-bit float bit pattern.
#[derive(Debug, Clone, Copy, PartialEq, Eq)]
pub struct CarState {
    pub speed: usize,
    pub position: (usize, usize),
    pub forward: (usize, usize),
    pub target: (usize, usize),
}

impl CarState {
    /// The state whose window starts at `slot`: speed, then x and y of the
    /// position, the forward direction and the target, four bytes apart.
    pub fn bind(slot: usize) -> (r: Self)
        requires
            slot + 0x18 <= usize::MAX,
        ensures
            r.speed == slot,
            r.position.0 == slot + 0x04 && r.position.1 == slot + 0x08,
            r.forward.0 == slot + 0x0C && r.forward.1 == slot + 0x10,
            r.target.0 == slot + 0x14 && r.target.1 == slot + 0x18,
    {
        Self {
            speed: slot,
            position: (slot + 0x04, slot + 0x08),
            forward: (slot + 0x0C, slot + 0x10),
            target: (slot + 0x14, slot + 0x18),
        }
    }
}

/// The spline query of a program: it writes `t` and reads back the point
/// of the track's centre line there, and the largest `t`.
#[derive(Debug, Clone, Copy, PartialEq, Eq)]
pub struct SplineQuery {
    pub t: usize,
    pub x: usize,
    pub y: usize,
    pub t_max: usize,
}

impl SplineQuery {
    /// The query whose window starts at `slot`: `t`, x, y and the largest
    /// `t`, four bytes apart.
    pub fn bind(slot: usize) -> (r: Self)
        requires
            slot + 0x0C <= usize::MAX,
        ensures
            r.t == slot,
            r.x == slot + 0x04,
            r.y == slot + 0x08,
            r.t_max == slot + 0x0C,
    {
        Self { t: slot, x: slot + 0x04, y: slot + 0x08, t_max: slot + 0x0C }
    }
}

/// The track radar of a program: seven distances to the track's borders,
/// as 32-bit float bit patterns four bytes apart from `addr`.
#[derive(Debug, Clone, Copy, PartialEq, Eq)]
pub struct TrackRadar {
    pub addr: usize,
}

impl TrackRadar {
    /// Number of rays.
    pub const RAYS: usize = 7;

    /// The radar whose window starts at `slot`.
    pub fn bind(slot: usize) -> (r: Self)
        ensures
            r.addr == slot,
    {
        Self { addr: slot }
    }

    /// Address of ray `index`'s distance.
    pub fn distance_addr(&self, index: usize) -> (r: usize)
        requires
            index < 7,
            self.addr + 0x18 <= usize::MAX,
        ensures
            r == self.addr + 4 * index,
    {
        self.addr + 4 * index
    }

    /// The distance of ray `index` among the seven read, NaN past the
    /// last ray.
    pub fn distance(words: [u32; 7], index: usize) -> (r: u32)
        ensures
            r == (if index < 7 {
                words@[index as int]
            } else {
                crate::devices::NAN_BITS
            }),
    {
        if index >= Self::RAYS {
            return crate::devices::NAN_BITS;
        }
        words[index]
    }
}

/// The robot's devices, laid out one after the other from [`IO_BASE`]:
/// the console, then the radar, then driving.
pub fn get_devices() -> (r: (Log, Radar, Driving))
    ensures
        r.0.addr == IO_BASE,
        r.1.addr == IO_BASE + Log::MEM_WIDTH,
        r.2.addr == IO_BASE + Log::MEM_WIDTH + Radar::MEM_WIDTH,
{
    (
        Log::bind(IO_BASE),
        Radar { addr: IO_BASE + Log::MEM_WIDTH as usize },
        Driving { addr: IO_BASE + Log::MEM_WIDTH as usize + Radar::MEM_WIDTH as usize },
    )
}

/// The console of the racing memory map, in the first device page.
pub fn log() -> (r: Log)
    ensures
        r.addr == SLOT1,
{
    Log::bind(SLOT1)
}

} // verus!
