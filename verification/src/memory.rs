//! Byte-addressed memories: the [`RamLike`] interface, the emulator's DRAM,
//! the memory-mapped I/O router [`Mmu`] and the log output device.
use vstd::prelude::*;

verus! {

/// A little-endian memory that the hart reads and writes with 8-, 16- and
/// 32-bit accesses. `size` is the access width in bits.
///
/// Implementations describe their contents by a model; `load` and `store`
/// behave as `spec_load` and `spec_store` say of that model.
pub trait RamLike {
    /// The abstract contents of the memory.
    type Model;

    spec fn model(&self) -> Self::Model;

    /// What a load of `size` bits at `addr` returns.
    spec fn spec_load(m: Self::Model, addr: u32, size: u32) -> Result<u32, ()>;

    /// The contents after a store, and what the store returns.
    spec fn spec_store(m: Self::Model, addr: u32, size: u32, value: u32) -> (Self::Model, Result<(), ()>);

    fn load(&self, addr: u32, size: u32) -> (r: Result<u32, ()>)
        ensures
            r == Self::spec_load(self.model(), addr, size),
    ;

    fn store(&mut self, addr: u32, size: u32, value: u32) -> (r: Result<(), ()>)
        ensures
            (final(self).model(), r) == Self::spec_store(old(self).model(), addr, size, value),
    ;
}

/// Number of bytes of an access of `size` bits; 0 for unsupported sizes.
pub open spec fn width_of(size: u32) -> int {
    if size == 8 {
        1
    } else if size == 16 {
        2
    } else if size == 32 {
        4
    } else {
        0
    }
}

/// The little-endian value of the `w` bytes of `s` starting at `a`.
pub open spec fn le_word(s: Seq<u8>, a: int, w: int) -> u32 {
    if w == 1 {
        s[a] as u32
    } else if w == 2 {
        (s[a] + s[a + 1] * 256) as u32
    } else {
        (s[a] + s[a + 1] * 256 + s[a + 2] * 0x10000 + s[a + 3] * 0x1000000) as u32
    }
}

/// Byte `k` (0 = least significant) of `v`.
pub open spec fn byte_of(v: u32, k: int) -> u8 {
    if k == 0 {
        (v % 256) as u8
    } else if k == 1 {
        ((v / 256) % 256) as u8
    } else if k == 2 {
        ((v / 0x10000) % 256) as u8
    } else {
        ((v / 0x1000000) % 256) as u8
    }
}

/// `s` with the low `w` bytes of `v` written little-endian at `a`.
pub open spec fn le_store(s: Seq<u8>, a: int, w: int, v: u32) -> Seq<u8> {
    if w == 1 {
        s.update(a, byte_of(v, 0))
    } else if w == 2 {
        s.update(a, byte_of(v, 0)).update(a + 1, byte_of(v, 1))
    } else {
        s.update(a, byte_of(v, 0)).update(a + 1, byte_of(v, 1)).update(a + 2, byte_of(v, 2)).update(
            a + 3,
            byte_of(v, 3),
        )
    }
}

/// Whether an access of `size` bits at `addr` lies within `len` bytes.
pub open spec fn access_ok(len: int, addr: u32, size: u32) -> bool {
    width_of(size) != 0 && addr + width_of(size) <= len
}

/// Load from a plain byte array: out-of-range or unsupported accesses fail.
pub open spec fn bytes_load(s: Seq<u8>, addr: u32, size: u32) -> Result<u32, ()> {
    if access_ok(s.len() as int, addr, size) {
        Ok(le_word(s, addr as int, width_of(size)))
    } else {
        Err(())
    }
}

/// Store into a plain byte array: out-of-range or unsupported accesses fail
/// and change nothing.
pub open spec fn bytes_store(s: Seq<u8>, addr: u32, size: u32, value: u32) -> (Seq<u8>, Result<(), ()>) {
    if access_ok(s.len() as int, addr, size) {
        (le_store(s, addr as int, width_of(size), value), Ok(()))
    } else {
        (s, Err(()))
    }
}

/// Reads `w` little-endian bytes of `data` at `index`.
pub fn read_le(data: &[u8], index: usize, w: usize) -> (r: u32)
    requires
        w == 1 || w == 2 || w == 4,
        index + w <= data@.len(),
    ensures
        r == le_word(data@, index as int, w as int),
{
    if w == 1 {
        data[index] as u32
    } else if w == 2 {
        let b0 = data[index];
        let b1 = data[index + 1];
        assert(((b0 as u32) | ((b1 as u32) << 8)) == (b0 + b1 * 256) as u32) by (bit_vector);
        (b0 as u32) | ((b1 as u32) << 8)
    } else {
        let b0 = data[index];
        let b1 = data[index + 1];
        let b2 = data[index + 2];
        let b3 = data[index + 3];
        assert(((b0 as u32) | ((b1 as u32) << 8) | ((b2 as u32) << 16) | ((b3 as u32) << 24)) == (b0 + b1
            * 256 + b2 * 0x10000 + b3 * 0x1000000) as u32) by (bit_vector);
        (b0 as u32) | ((b1 as u32) << 8) | ((b2 as u32) << 16) | ((b3 as u32) << 24)
    }
}

/// Writes the low `w` bytes of `value` little-endian into `data` at `index`.
pub fn write_le(data: &mut [u8], index: usize, w: usize, value: u32)
    requires
        w == 1 || w == 2 || w == 4,
        index + w <= old(data)@.len(),
    ensures
        final(data)@ == le_store(old(data)@, index as int, w as int, value),
{
    assert((value & 0xff) as u8 == byte_of(value, 0)) by (bit_vector);
    assert(((value >> 8) & 0xff) as u8 == byte_of(value, 1)) by (bit_vector);
    assert(((value >> 16) & 0xff) as u8 == byte_of(value, 2)) by (bit_vector);
    assert(((value >> 24) & 0xff) as u8 == byte_of(value, 3)) by (bit_vector);
    let ghost len = old(data)@.len();
    let n = data.len();
    assert(index + w <= n);
    data[index] = (value & 0xff) as u8;
    assert(data@.len() == len);
    if w >= 2 {
        data[index + 1] = ((value >> 8) & 0xff) as u8;
    }
    if w == 4 {
        data[index + 2] = ((value >> 16) & 0xff) as u8;
        data[index + 3] = ((value >> 24) & 0xff) as u8;
    }
}

/// Number of bytes of an access of `size` bits, when `size` is supported.
fn access_width(size: u32) -> (r: Option<usize>)
    ensures
        match r {
            Some(w) => w as int == width_of(size) && w != 0,
            None => width_of(size) == 0,
        },
{
    match size {
        8 => Some(1usize),
        16 => Some(2usize),
        32 => Some(4usize),
        _ => None,
    }
}

/// Default (minimum) DRAM size: 64 KiB.
pub const DRAM_SIZE: u32 = 0x10000;

/// Room reserved above the loaded ELF segments for the stack: 256 KiB.
pub const STACK_HEADROOM: u32 = 0x40000;

/// The emulated random access memory.
#[derive(Debug)]
pub struct Dram {
    pub dram: Vec<u8>,
}

impl RamLike for Dram {
    type Model = Seq<u8>;

    open spec fn model(&self) -> Seq<u8> {
        self.dram@
    }

    open spec fn spec_load(m: Seq<u8>, addr: u32, size: u32) -> Result<u32, ()> {
        bytes_load(m, addr, size)
    }

    open spec fn spec_store(m: Seq<u8>, addr: u32, size: u32, value: u32) -> (Seq<u8>, Result<(), ()>) {
        bytes_store(m, addr, size, value)
    }

    /// Little-endian load; accesses that do not fit in the memory fail.
    fn load(&self, addr: u32, size: u32) -> (r: Result<u32, ()>) {
        let a = addr as usize;
        let width = match access_width(size) {
            Some(w) => w,
            None => return Err(()),
        };
        assert(a as int == addr as int);
        assert(self.dram@.len() == self.dram.len());
        match a.checked_add(width) {
            None => Err(()),
            Some(end) => if end > self.dram.len() {
                Err(())
            } else {
                Ok(read_le(self.dram.as_slice(), a, width))
            },
        }
    }

    /// Little-endian store; accesses that do not fit in the memory fail.
    fn store(&mut self, addr: u32, size: u32, value: u32) -> (r: Result<(), ()>) {
        let a = addr as usize;
        let width = match access_width(size) {
            Some(w) => w,
            None => return Err(()),
        };
        assert(a as int == addr as int);
        assert(self.dram@.len() == self.dram.len());
        match a.checked_add(width) {
            None => Err(()),
            Some(end) => if end > self.dram.len() {
                Err(())
            } else {
                write_le(self.dram.as_mut_slice(), a, width, value);
                Ok(())
            },
        }
    }
}


/// Index of the device that an I/O address in `0x100..0x1000` selects:
/// device `i` answers at `0x100 * (i + 1) ..= 0x100 * (i + 1) + 0xff`.
pub open spec fn device_index(addr: u32) -> int {
    addr / 0x100 - 1
}

/// Routes guest accesses: addresses from `0x1000` up go to DRAM, each
/// 256-byte page in `0x100..0x1000` goes to one device (offset within the
/// page), and the lowest page is unmapped.
pub struct Mmu<'a, D> {
    pub dram: &'a mut Dram,
    pub devices: &'a mut [D],
}

impl<'a, D> Mmu<'a, D> {
    pub fn new(dram: &'a mut Dram, devices: &'a mut [D]) -> (r: Self)
        ensures
            *r.dram == *old(dram),
            r.devices@ == old(devices)@,
            *final(dram) == *final(r.dram),
            final(devices)@ == final(r.devices)@,
    {
        Self { dram, devices }
    }
}

/// Contents of every device, in slot order.
pub open spec fn device_models<D: RamLike>(devices: Seq<D>) -> Seq<D::Model> {
    devices.map_values(|d: D| d.model())
}

/// A guest load through the memory map: addresses from `0x1000` up read
/// DRAM, a page in `0x100..0x1000` reads its device at the offset within
/// the page, and everything else fails.
pub open spec fn mapped_load<D: RamLike>(m: (Seq<u8>, Seq<D::Model>), addr: u32, size: u32) -> Result<u32, ()> {
    if addr >= 0x1000 {
        bytes_load(m.0, addr, size)
    } else if addr >= 0x100 {
        let i = device_index(addr);
        if i < m.1.len() {
            D::spec_load(m.1[i], addr % 0x100, size)
        } else {
            Err(())
        }
    } else {
        Err(())
    }
}

/// A guest store through the memory map, routed as [`mapped_load`] routes
/// loads; a failed store changes only what the addressed device changes.
pub open spec fn mapped_store<D: RamLike>(m: (Seq<u8>, Seq<D::Model>), addr: u32, size: u32, value: u32) -> (
    (Seq<u8>, Seq<D::Model>),
    Result<(), ()>,
) {
    if addr >= 0x1000 {
        let (bytes, r) = bytes_store(m.0, addr, size, value);
        ((bytes, m.1), r)
    } else if addr >= 0x100 {
        let i = device_index(addr);
        if i < m.1.len() {
            let (dev, r) = D::spec_store(m.1[i], addr % 0x100, size, value);
            ((m.0, m.1.update(i, dev)), r)
        } else {
            (m, Err(()))
        }
    } else {
        (m, Err(()))
    }
}

/// Performs a guest load through the memory map.
fn route_load<D: RamLike>(dram: &Dram, devices: &[D], addr: u32, size: u32) -> (r: Result<u32, ()>)
    ensures
        r == mapped_load::<D>((dram.dram@, device_models(devices@)), addr, size),
{
    if addr >= 0x1000 {
        dram.load(addr, size)
    } else if addr >= 0x100 {
        assert(((addr >> 8) & 0xF) as int == addr / 0x100 && addr & 0xFF == addr % 0x100) by (bit_vector)
            requires 0x100 <= addr < 0x1000;
        let device_index = ((addr >> 8) & 0xF) as usize - 1;
        if device_index < devices.len() {
            devices[device_index].load(addr & 0xFF, size)
        } else {
            Err(())
        }
    } else {
        Err(())
    }
}

/// Performs a guest store through the memory map.
fn route_store<D: RamLike>(dram: &mut Dram, devices: &mut [D], addr: u32, size: u32, value: u32) -> (r: Result<(), ()>)
    ensures
        ((final(dram).dram@, device_models(final(devices)@)), r) == mapped_store::<D>(
            (old(dram).dram@, device_models(old(devices)@)),
            addr,
            size,
            value,
        ),
{
    if addr >= 0x1000 {
        dram.store(addr, size, value)
    } else if addr >= 0x100 {
        assert(((addr >> 8) & 0xF) as int == addr / 0x100 && addr & 0xFF == addr % 0x100) by (bit_vector)
            requires 0x100 <= addr < 0x1000;
        let device_index = ((addr >> 8) & 0xF) as usize - 1;
        if device_index < devices.len() {
            let ghost before = devices@;
            let r = devices[device_index].store(addr & 0xFF, size, value);
            assert(device_models(devices@) =~= device_models(before).update(
                device_index as int,
                devices@[device_index as int].model(),
            ));
            r
        } else {
            Err(())
        }
    } else {
        Err(())
    }
}

impl<'a, D: RamLike> RamLike for Mmu<'a, D> {
    type Model = (Seq<u8>, Seq<D::Model>);

    open spec fn model(&self) -> (Seq<u8>, Seq<D::Model>) {
        (self.dram.dram@, device_models(self.devices@))
    }

    open spec fn spec_load(m: (Seq<u8>, Seq<D::Model>), addr: u32, size: u32) -> Result<u32, ()> {
        mapped_load::<D>(m, addr, size)
    }

    open spec fn spec_store(m: (Seq<u8>, Seq<D::Model>), addr: u32, size: u32, value: u32) -> (
        (Seq<u8>, Seq<D::Model>),
        Result<(), ()>,
    ) {
        mapped_store::<D>(m, addr, size, value)
    }

    fn load(&self, addr: u32, size: u32) -> (r: Result<u32, ()>) {
        route_load(&*self.dram, &*self.devices, addr, size)
    }

    fn store(&mut self, addr: u32, size: u32, value: u32) -> (r: Result<(), ()>) {
        route_store(&mut *self.dram, &mut *self.devices, addr, size, value)
    }
}

/// The memory map over an owned memory and owned devices: the same routing
/// as [`Mmu`], for callers that hand the parts over for a while.
pub struct Bus<D> {
    pub dram: Dram,
    pub devices: Vec<D>,
}

impl<D: RamLike> RamLike for Bus<D> {
    type Model = (Seq<u8>, Seq<D::Model>);

    open spec fn model(&self) -> (Seq<u8>, Seq<D::Model>) {
        (self.dram.dram@, device_models(self.devices@))
    }

    open spec fn spec_load(m: (Seq<u8>, Seq<D::Model>), addr: u32, size: u32) -> Result<u32, ()> {
        mapped_load::<D>(m, addr, size)
    }

    open spec fn spec_store(m: (Seq<u8>, Seq<D::Model>), addr: u32, size: u32, value: u32) -> (
        (Seq<u8>, Seq<D::Model>),
        Result<(), ()>,
    ) {
        mapped_store::<D>(m, addr, size, value)
    }

    fn load(&self, addr: u32, size: u32) -> (r: Result<u32, ()>) {
        route_load(&self.dram, self.devices.as_slice(), addr, size)
    }

    fn store(&mut self, addr: u32, size: u32, value: u32) -> (r: Result<(), ()>) {
        route_store(&mut self.dram, self.devices.as_mut_slice(), addr, size, value)
    }
}

/// The guest's character output port: each 32-bit store queues one
/// character code, which the host prints.
#[derive(Debug)]
pub struct LogDevice {
    pub output: Vec<u32>,
}

impl LogDevice {
    pub fn new() -> (r: Self)
        ensures
            r.output@ == Seq::<u32>::empty(),
    {
        LogDevice { output: Vec::new() }
    }
}

impl RamLike for LogDevice {
    type Model = Seq<u32>;

    open spec fn model(&self) -> Seq<u32> {
        self.output@
    }

    open spec fn spec_load(m: Seq<u32>, addr: u32, size: u32) -> Result<u32, ()> {
        Ok(0)
    }

    open spec fn spec_store(m: Seq<u32>, addr: u32, size: u32, value: u32) -> (Seq<u32>, Result<(), ()>) {
        if size != 32 {
            (m, Err(()))
        } else {
            (m.push(value), Ok(()))
        }
    }

    /// Reads always give zero.
    fn load(&self, _addr: u32, _size: u32) -> (r: Result<u32, ()>) {
        Ok(0)
    }

    /// A 32-bit store queues the stored character code; other widths fail.
    fn store(&mut self, _addr: u32, size: u32, value: u32) -> (r: Result<(), ()>) {
        if size != 32 {
            return Err(());
        }
        self.output.push(value);
        Ok(())
    }
}

} // verus!
