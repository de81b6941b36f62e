use vstd::prelude::*;

verus! {

/// One tunable parameter: its display label, the range a control may pick from, and its value.
pub struct Setting<T> {
    pub label: String,
    pub range: std::ops::RangeInclusive<T>,
    pub value: T,
}

impl<T> Setting<T> {
    pub fn new(label: String, value: T, range: std::ops::RangeInclusive<T>) -> (r: Self)
        ensures
            r.label == label,
            r.value == value,
            r.range == range,
    {
        Setting { label, range, value }
    }
}

/// The simulation's parameters. Rates are percentages, times are milliseconds, lengths are
/// pixels and speeds pixels per second.
pub struct Settings {
    /// Chance per second, in percent, that an infected particle dies.
    pub death_chance: Setting<u64>,
    /// Chance per contact, in percent, that an infected particle passes the infection on.
    pub infection_rate: Setting<u64>,
    /// How long an infection lasts.
    pub infection_time: Setting<u64>,
    pub particle_radius: Setting<u32>,
    pub population_size: Setting<usize>,
    pub particle_velocity: Setting<u32>,
}

impl Settings {
    /// The values lie in the ranges that the simulation accepts.
    pub open spec fn valid(&self) -> bool {
        &&& self.death_chance.value <= 100
        &&& self.infection_rate.value <= 100
        &&& self.infection_time.value > 0
        &&& self.particle_radius.value > 0
    }

    /// Checks `valid`.
    pub fn is_valid(&self) -> (r: bool)
        ensures
            r == self.valid(),
    {
        self.death_chance.value <= 100 && self.infection_rate.value <= 100
            && self.infection_time.value > 0 && self.particle_radius.value > 0
    }
}

} // verus!
