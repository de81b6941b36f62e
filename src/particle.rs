use vstd::prelude::*;

use crate::handle::Handle;

verus! {

/// What a particle's disease state is, without the time left on an infection.
#[derive(Clone, Copy, PartialEq, Eq, Structural, Debug)]
pub enum Category {
    Susceptible,
    Infected,
    Immune,
}

/// A particle's disease state machine: susceptible, then infected for a while, then immune.
/// Time is counted in milliseconds.
#[derive(Clone, Copy)]
pub struct Particle {
    handle: Handle,
    immune: bool,
    infected: u64,
}

impl Particle {
    /// The handle of the body this particle rides on.
    pub closed spec fn key(&self) -> Handle {
        self.handle
    }

    /// The particle's state.
    pub closed spec fn category(&self) -> Category {
        if self.immune {
            Category::Immune
        } else if self.infected > 0 {
            Category::Infected
        } else {
            Category::Susceptible
        }
    }

    /// Time left on the infection; zero in the other two states.
    pub closed spec fn remaining(&self) -> nat {
        self.infected as nat
    }

    /// An immune particle carries no infection time.
    pub closed spec fn wf(&self) -> bool {
        self.immune ==> self.infected == 0
    }

    /// The particle after `infect(time)`.
    pub closed spec fn after_infect(self, time: nat) -> Particle {
        if self.immune {
            self
        } else {
            Particle { infected: time as u64, ..self }
        }
    }

    /// The particle after `update(dt)`.
    pub closed spec fn after_update(self, dt: nat) -> Particle {
        if !self.immune && self.infected > 0 {
            if dt >= self.infected {
                Particle { immune: true, infected: 0, ..self }
            } else {
                Particle { infected: (self.infected - dt) as u64, ..self }
            }
        } else {
            self
        }
    }

    /// What `infect` and `update` do to a well-formed particle, in terms of its state.
    pub proof fn lemma_transitions(self, time: nat, dt: nat)
        requires
            self.wf(),
            time <= u64::MAX,
        ensures
            self.after_infect(time).wf(),
            self.after_update(dt).wf(),
            self.after_infect(time).key() == self.key(),
            self.after_update(dt).key() == self.key(),
            self.category() == Category::Immune ==> self.after_infect(time) == self,
            self.category() != Category::Immune ==> self.after_infect(time).remaining() == time
                && self.after_infect(time).category() != Category::Immune && (self.after_infect(
                time,
            ).category() == Category::Infected <==> time > 0),
            self.category() != Category::Infected ==> self.after_update(dt) == self,
            self.category() == Category::Infected && dt < self.remaining() ==> self.after_update(
                dt,
            ).category() == Category::Infected && self.after_update(dt).remaining()
                == self.remaining() - dt,
            self.category() == Category::Infected && dt >= self.remaining() ==> self.after_update(
                dt,
            ).category() == Category::Immune && self.after_update(dt).remaining() == 0,
    {
    }

    /// The state of a well-formed particle is infected exactly when time is left on it.
    pub proof fn lemma_infected_iff_time_left(&self)
        requires
            self.wf(),
        ensures
            self.category() == Category::Infected <==> self.remaining() > 0,
            self.category() != Category::Infected ==> self.remaining() == 0,
    {
    }

    pub fn new(handle: Handle) -> (r: Self)
        ensures
            r.wf(),
            r.key() == handle,
            r.category() == Category::Susceptible,
            r.remaining() == 0,
    {
        Particle { handle, immune: false, infected: 0 }
    }

    pub fn can_be_infected(&self) -> (r: bool)
        ensures
            r == (self.category() == Category::Susceptible),
    {
        !self.immune && self.infected == 0
    }

    /// The state to display; a renderer maps it to a colour.
    pub fn color(&self) -> (r: Category)
        ensures
            r == self.category(),
    {
        if self.immune {
            Category::Immune
        } else if self.infected() {
            Category::Infected
        } else {
            Category::Susceptible
        }
    }

    /// Time left on the infection; zero when not infected.
    pub fn remaining_time(&self) -> (r: u64)
        ensures
            r == self.remaining(),
    {
        self.infected
    }

    pub fn handle(&self) -> (r: Handle)
        ensures
            r == self.key(),
    {
        self.handle
    }

    /// Starts (or restarts) an infection lasting `time`; an immune particle is unaffected. An
    /// infection of no time leaves a non-immune particle susceptible.
    pub fn infect(&mut self, time: u64)
        requires
            old(self).wf(),
        ensures
            final(self).wf(),
            *final(self) == old(self).after_infect(time as nat),
            final(self).key() == old(self).key(),
            old(self).category() == Category::Immune ==> *final(self) == *old(self),
            old(self).category() != Category::Immune && time > 0 ==> final(self).category()
                == Category::Infected && final(self).remaining() == time,
            old(self).category() != Category::Immune && time == 0 ==> final(self).category()
                == Category::Susceptible && final(self).remaining() == 0,
    {
        if !self.immune {
            self.infected = time;
        }
    }

    pub fn infected(&self) -> (r: bool)
        ensures
            r == (self.category() == Category::Infected),
    {
        !self.immune && self.infected > 0
    }

    /// Lets `dt` pass: an infection counts down and, once no time is left, turns into immunity.
    pub fn update(&mut self, dt: u64)
        requires
            old(self).wf(),
        ensures
            final(self).wf(),
            *final(self) == old(self).after_update(dt as nat),
            final(self).key() == old(self).key(),
            old(self).category() != Category::Infected ==> *final(self) == *old(self),
            old(self).category() == Category::Infected && dt < old(self).remaining() ==>
                final(self).category() == Category::Infected
                && final(self).remaining() == old(self).remaining() - dt,
            old(self).category() == Category::Infected && dt >= old(self).remaining() ==>
                final(self).category() == Category::Immune && final(self).remaining() == 0,
    {
        if self.infected() {
            if dt >= self.infected {
                self.immune = true;
                self.infected = 0;
            } else {
                self.infected = self.infected - dt;
            }
        }
    }
}

} // verus!
