//! The race's CPU clock setting: one of ten preset frequencies, stepped up
//! and down by the player, and the instruction budget it gives each tick.
use vstd::prelude::*;

use crate::text::{decimal, push_decimal};

verus! {

/// Simulation ticks per second.
pub const FIXED_TICK_HZ: u32 = 200;

/// Number of preset frequencies.
pub const PRESET_COUNT: usize = 10;

/// The preset frequencies in hertz, slowest first.
pub open spec fn preset_hz(i: int) -> u32 {
    if i == 0 {
        1_000
    } else if i == 1 {
        5_000
    } else if i == 2 {
        10_000
    } else if i == 3 {
        20_000
    } else if i == 4 {
        50_000
    } else if i == 5 {
        100_000
    } else if i == 6 {
        200_000
    } else if i == 7 {
        500_000
    } else if i == 8 {
        1_000_000
    } else {
        2_000_000
    }
}

fn preset_hz_at(i: usize) -> (r: u32)
    ensures
        r == preset_hz(i as int),
{
    match i {
        0 => 1_000,
        1 => 5_000,
        2 => 10_000,
        3 => 20_000,
        4 => 50_000,
        5 => 100_000,
        6 => 200_000,
        7 => 500_000,
        8 => 1_000_000,
        _ => 2_000_000,
    }
}

/// The preset index after stepping up from `p`: the next one, if any.
pub open spec fn raised(p: int) -> int {
    if p + 1 < PRESET_COUNT {
        p + 1
    } else {
        p
    }
}

/// The preset index after stepping down from `p`: the previous one, if any.
pub open spec fn lowered(p: int) -> int {
    if p > 0 {
        p - 1
    } else {
        p
    }
}

/// The selected preset.
#[derive(Debug, Clone, Copy)]
pub struct CpuFrequencySetting {
    preset_index: usize,
}

/// Instructions run per tick at `hz`: one tick's share, at least one.
pub open spec fn budget(hz: u32) -> u32 {
    if hz / FIXED_TICK_HZ >= 1 {
        hz / FIXED_TICK_HZ
    } else {
        1
    }
}

/// The label of `hz`: megahertz with one decimal from 1 MHz up, whole
/// kilohertz below.
pub open spec fn hz_label(hz: u32) -> Seq<char> {
    if hz >= 1_000_000 {
        decimal((hz / 1_000_000) as nat) + seq!['.'] + decimal(((hz / 100_000) % 10) as nat) + " MHz"@
    } else {
        decimal((hz / 1_000) as nat) + " kHz"@
    }
}

impl CpuFrequencySetting {
    #[verifier::type_invariant]
    spec fn index_in_range(self) -> bool {
        self.preset_index < PRESET_COUNT
    }

    /// The index of the selected preset.
    pub closed spec fn preset(self) -> int {
        self.preset_index as int
    }

    /// The selected preset lies among the presets.
    pub fn preset_index(&self) -> (r: usize)
        ensures
            r == self.preset(),
            r < PRESET_COUNT,
    {
        proof {
            use_type_invariant(self);
        }
        self.preset_index
    }

    /// The selected frequency in hertz.
    pub fn hz(&self) -> (r: u32)
        ensures
            r == preset_hz(self.preset()),
    {
        preset_hz_at(self.preset_index)
    }

    /// Instructions to run per tick: the frequency divided by the tick
    /// rate, at least one.
    pub fn instructions_per_update(&self) -> (r: u32)
        ensures
            r == budget(preset_hz(self.preset())),
    {
        let per_tick = self.hz() / FIXED_TICK_HZ;
        if per_tick >= 1 {
            per_tick
        } else {
            1
        }
    }

    /// Selects the next faster preset, if there is one.
    pub fn step_up(&mut self)
        ensures
            final(self).preset() == raised(old(self).preset()),
    {
        proof {
            use_type_invariant(&*self);
        }
        if self.preset_index + 1 < PRESET_COUNT {
            self.preset_index = self.preset_index + 1;
        }
    }

    /// Selects the next slower preset, if there is one.
    pub fn step_down(&mut self)
        ensures
            final(self).preset() == lowered(old(self).preset()),
    {
        proof {
            use_type_invariant(&*self);
        }
        if self.preset_index > 0 {
            self.preset_index = self.preset_index - 1;
        }
    }

    /// The selected frequency as shown to the player, e.g. `2.0 MHz` or
    /// `20 kHz`.
    pub fn format_hz_label(&self) -> (r: String)
        ensures
            r@ == hz_label(preset_hz(self.preset())),
    {
        let hz = self.hz();
        let mut label = String::new();
        if hz >= 1_000_000 {
            push_decimal(&mut label, (hz / 1_000_000) as u64);
            label.append(".");
            push_decimal(&mut label, ((hz / 100_000) % 10) as u64);
            label.append(" MHz");
            proof {
                reveal_strlit(".");
            }
        } else {
            push_decimal(&mut label, (hz / 1_000) as u64);
            label.append(" kHz");
        }
        assert(label@ =~= hz_label(hz));
        label
    }
}

impl Default for CpuFrequencySetting {
    /// The fastest preset.
    fn default() -> (r: Self)
        ensures
            r.preset() == PRESET_COUNT - 1,
    {
        Self { preset_index: PRESET_COUNT - 1 }
    }
}

} // verus!
