//! The race car's memory-mapped devices. Each holds a small window of
//! little-endian 32-bit registers; values that are floating point on the
//! host are exchanged here as their IEEE-754 bit patterns.
use vstd::prelude::*;

use crate::memory::{byte_of, le_store, le_word, read_le, write_le, RamLike};

verus! {

/// Bit pattern of the quiet NaN that marks a missing value.
pub const NAN_BITS: u32 = 0x7fc0_0000;

/// A load from a register window: an access that does not fit reads 0, an
/// unsupported width fails.
pub open spec fn reg_load(data: Seq<u8>, addr: u32, size: u32) -> Result<u32, ()> {
    if size == 8 {
        if addr < data.len() {
            Ok(data[addr as int] as u32)
        } else {
            Ok(0)
        }
    } else if size == 16 {
        if addr + 1 < data.len() {
            Ok(le_word(data, addr as int, 2))
        } else {
            Ok(0)
        }
    } else if size == 32 {
        if addr + 3 < data.len() {
            Ok(le_word(data, addr as int, 4))
        } else {
            Ok(0)
        }
    } else {
        Err(())
    }
}

/// A store into a writable register window: an access that does not fit,
/// or an unsupported width, fails and changes nothing.
pub open spec fn reg_store(data: Seq<u8>, addr: u32, size: u32, value: u32) -> (Seq<u8>, Result<(), ()>) {
    if size == 8 && addr < data.len() {
        (le_store(data, addr as int, 1, value), Ok(()))
    } else if size == 16 && addr + 1 < data.len() {
        (le_store(data, addr as int, 2, value), Ok(()))
    } else if size == 32 && addr + 3 < data.len() {
        (le_store(data, addr as int, 4, value), Ok(()))
    } else {
        (data, Err(()))
    }
}

/// The bytes of the 32-bit words `ws`, each little-endian, one after the
/// other.
pub open spec fn words_le(ws: Seq<u32>) -> Seq<u8> {
    Seq::new(4 * ws.len(), |i: int| byte_of(ws[i / 4], i % 4))
}

fn reg_read(data: &[u8], addr: u32, size: u32) -> (r: Result<u32, ()>)
    ensures
        r == reg_load(data@, addr, size),
{
    let len = data.len() as u64;
    let a = addr as u64;
    match size {
        8 => if a < len {
            Ok(data[addr as usize] as u32)
        } else {
            Ok(0)
        },
        16 => if a + 1 < len {
            Ok(read_le(data, addr as usize, 2))
        } else {
            Ok(0)
        },
        32 => if a + 3 < len {
            Ok(read_le(data, addr as usize, 4))
        } else {
            Ok(0)
        },
        _ => Err(()),
    }
}

fn reg_write(data: &mut [u8], addr: u32, size: u32, value: u32) -> (r: Result<(), ()>)
    ensures
        (final(data)@, r) == reg_store(old(data)@, addr, size, value),
{
    let len = data.len() as u64;
    let a = addr as u64;
    if size == 8 && a < len {
        write_le(data, addr as usize, 1, value);
        Ok(())
    } else if size == 16 && a + 1 < len {
        write_le(data, addr as usize, 2, value);
        Ok(())
    } else if size == 32 && a + 3 < len {
        write_le(data, addr as usize, 4, value);
        Ok(())
    } else {
        Err(())
    }
}

/// Writes `ws` into `data` as consecutive little-endian words from index 0.
fn write_words(data: &mut [u8], ws: &[u32])
    requires
        old(data)@.len() == 4 * ws@.len(),
    ensures
        final(data)@ == words_le(ws@),
{
    let n = ws.len();
    let total = data.len();
    let mut i: usize = 0;
    while i < n
        invariant
            i <= n,
            n == ws@.len(),
            total == 4 * n,
            data@.len() == 4 * n,
            forall|j: int| 0 <= j < 4 * i ==> #[trigger] data@[j] == byte_of(ws@[j / 4], j % 4),
        decreases n - i,
    {
        let ghost before = data@;
        write_le(data, 4 * i, 4, ws[i]);
        assert forall|j: int| 0 <= j < 4 * (i + 1) implies #[trigger] data@[j] == byte_of(ws@[j / 4], j % 4) by {
            if j < 4 * i {
                assert(data@[j] == before[j]);
            }
        }
        i = i + 1;
    }
    assert(data@ =~= words_le(ws@));
}

/// The car's state for the program, read-only: speed, position x and y,
/// forward x and y.
pub struct CarStateDevice {
    pub data: [u8; 20],
}

impl Default for CarStateDevice {
    fn default() -> (r: Self)
        ensures
            r.data@ == Seq::new(20, |i: int| 0u8),
    {
        let r = Self { data: [0u8; 20] };
        assert(r.data@ =~= Seq::new(20, |i: int| 0u8));
        r
    }
}

impl CarStateDevice {
    /// Writes the full car state (bit patterns of the host's values).
    pub fn update(&mut self, speed: u32, position: (u32, u32), forward: (u32, u32))
        ensures
            final(self).data@ == words_le(seq![speed, position.0, position.1, forward.0, forward.1]),
    {
        let ws = [speed, position.0, position.1, forward.0, forward.1];
        assert(ws@ =~= seq![speed, position.0, position.1, forward.0, forward.1]);
        write_words(&mut self.data, &ws);
    }
}

impl RamLike for CarStateDevice {
    type Model = Seq<u8>;

    open spec fn model(&self) -> Seq<u8> {
        self.data@
    }

    open spec fn spec_load(m: Seq<u8>, addr: u32, size: u32) -> Result<u32, ()> {
        reg_load(m, addr, size)
    }

    /// The program cannot write the car state: stores succeed and change
    /// nothing.
    open spec fn spec_store(m: Seq<u8>, addr: u32, size: u32, value: u32) -> (Seq<u8>, Result<(), ()>) {
        (m, Ok(()))
    }

    fn load(&self, addr: u32, size: u32) -> (r: Result<u32, ()>) {
        reg_read(&self.data, addr, size)
    }

    fn store(&mut self, _addr: u32, _size: u32, _value: u32) -> (r: Result<(), ()>) {
        Ok(())
    }
}

/// The controls that the program sets: accelerator, brake, steering.
pub struct CarControlsDevice {
    pub data: [u8; 12],
}

impl Default for CarControlsDevice {
    fn default() -> (r: Self)
        ensures
            r.data@ == Seq::new(12, |i: int| 0u8),
    {
        let r = Self { data: [0u8; 12] };
        assert(r.data@ =~= Seq::new(12, |i: int| 0u8));
        r
    }
}

impl CarControlsDevice {
    /// Bit pattern of the accelerator value set by the program.
    pub fn accelerator(&self) -> (r: u32)
        ensures
            r == le_word(self.data@, 0, 4),
    {
        read_le(&self.data, 0, 4)
    }

    /// Bit pattern of the brake value set by the program.
    pub fn brake(&self) -> (r: u32)
        ensures
            r == le_word(self.data@, 4, 4),
    {
        read_le(&self.data, 4, 4)
    }

    /// Bit pattern of the steering value set by the program.
    pub fn steering(&self) -> (r: u32)
        ensures
            r == le_word(self.data@, 8, 4),
    {
        read_le(&self.data, 8, 4)
    }
}

impl RamLike for CarControlsDevice {
    type Model = Seq<u8>;

    open spec fn model(&self) -> Seq<u8> {
        self.data@
    }

    open spec fn spec_load(m: Seq<u8>, addr: u32, size: u32) -> Result<u32, ()> {
        reg_load(m, addr, size)
    }

    open spec fn spec_store(m: Seq<u8>, addr: u32, size: u32, value: u32) -> (Seq<u8>, Result<(), ()>) {
        reg_store(m, addr, size, value)
    }

    fn load(&self, addr: u32, size: u32) -> (r: Result<u32, ()>) {
        reg_read(&self.data, addr, size)
    }

    fn store(&mut self, addr: u32, size: u32, value: u32) -> (r: Result<(), ()>) {
        reg_write(&mut self.data, addr, size, value)
    }
}

/// Distances to the track borders along seven forward rays, read-only
/// (NaN where a ray hits nothing).
pub struct TrackRadarDevice {
    pub data: [u8; 28],
}

impl Default for TrackRadarDevice {
    fn default() -> (r: Self)
        ensures
            r.data@ == Seq::new(28, |i: int| 0u8),
    {
        let r = Self { data: [0u8; 28] };
        assert(r.data@ =~= Seq::new(28, |i: int| 0u8));
        r
    }
}

impl TrackRadarDevice {
    /// Writes the seven ray distances (bit patterns), ray 0 first.
    pub fn update(&mut self, distances: [u32; 7])
        ensures
            final(self).data@ == words_le(distances@),
    {
        write_words(&mut self.data, &distances);
    }
}

impl RamLike for TrackRadarDevice {
    type Model = Seq<u8>;

    open spec fn model(&self) -> Seq<u8> {
        self.data@
    }

    open spec fn spec_load(m: Seq<u8>, addr: u32, size: u32) -> Result<u32, ()> {
        reg_load(m, addr, size)
    }

    /// Stores succeed and change nothing.
    open spec fn spec_store(m: Seq<u8>, addr: u32, size: u32, value: u32) -> (Seq<u8>, Result<(), ()>) {
        (m, Ok(()))
    }

    fn load(&self, addr: u32, size: u32) -> (r: Result<u32, ()>) {
        reg_read(&self.data, addr, size)
    }

    fn store(&mut self, _addr: u32, _size: u32, _value: u32) -> (r: Result<(), ()>) {
        Ok(())
    }
}

/// Positions of up to four nearest other cars, nearest first, read-only:
/// x then y for each, NaN for both where there is no car.
pub struct CarRadarDevice {
    pub data: [u8; 32],
}

impl Default for CarRadarDevice {
    fn default() -> (r: Self)
        ensures
            r.data@ == Seq::new(32, |i: int| 0u8),
    {
        let r = Self { data: [0u8; 32] };
        assert(r.data@ =~= Seq::new(32, |i: int| 0u8));
        r
    }
}

/// The eight words of the car radar for `positions`.
pub open spec fn radar_words(positions: Seq<Option<(u32, u32)>>) -> Seq<u32> {
    Seq::new(
        8,
        |k: int|
            match positions[k / 2] {
                Some(p) => if k % 2 == 0 {
                    p.0
                } else {
                    p.1
                },
                None => NAN_BITS,
            },
    )
}

impl CarRadarDevice {
    /// Writes the nearest cars' positions (bit patterns of x and y).
    pub fn update(&mut self, nearest_positions: [Option<(u32, u32)>; 4])
        ensures
            final(self).data@ == words_le(radar_words(nearest_positions@)),
    {
        let mut ws = [0u32; 8];
        let mut i: usize = 0;
        while i < 4
            invariant
                i <= 4,
                ws@.len() == 8,
                forall|k: int| 0 <= k < 2 * i ==> #[trigger] ws@[k] == radar_words(nearest_positions@)[k],
            decreases 4 - i,
        {
            match nearest_positions[i] {
                Some(pos) => {
                    ws[2 * i] = pos.0;
                    ws[2 * i + 1] = pos.1;
                },
                None => {
                    ws[2 * i] = NAN_BITS;
                    ws[2 * i + 1] = NAN_BITS;
                },
            }
            i = i + 1;
        }
        assert(ws@ =~= radar_words(nearest_positions@));
        write_words(&mut self.data, &ws);
    }
}

impl RamLike for CarRadarDevice {
    type Model = Seq<u8>;

    open spec fn model(&self) -> Seq<u8> {
        self.data@
    }

    open spec fn spec_load(m: Seq<u8>, addr: u32, size: u32) -> Result<u32, ()> {
        reg_load(m, addr, size)
    }

    /// Stores succeed and change nothing.
    open spec fn spec_store(m: Seq<u8>, addr: u32, size: u32, value: u32) -> (Seq<u8>, Result<(), ()>) {
        (m, Ok(()))
    }

    fn load(&self, addr: u32, size: u32) -> (r: Result<u32, ()>) {
        reg_read(&self.data, addr, size)
    }

    fn store(&mut self, _addr: u32, _size: u32, _value: u32) -> (r: Result<(), ()>) {
        Ok(())
    }
}

} // verus!
