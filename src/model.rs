use vstd::prelude::*;

use crate::handle::Handle;
use crate::infection::{chance_hits, get_infections, newly_infected, DRAW_RANGE};
use crate::particle::{Category, Particle};
use crate::population::{all_wf, code_of, code_set, handle_code, valid_population};
use crate::settings::Settings;

verus! {

/// Milliseconds in a second: the death chance is a rate per second, `dt` is in milliseconds.
pub const MILLIS_PER_SECOND: u128 = 1000;

/// The particle at index `i` after the infection and timer phase of a tick.
pub open spec fn stepped(
    ps: Seq<Particle>,
    events: Seq<(Handle, Handle)>,
    rate: nat,
    infection_draws: Seq<u32>,
    time: nat,
    dt: nat,
    i: int,
) -> Particle {
    let p = ps[i];
    let q = if newly_infected(events, ps, rate, infection_draws, p.key()) {
        p.after_infect(time)
    } else {
        p
    };
    q.after_update(dt)
}

/// A particle that is still infected after its timer ran dies when the draw falls within
/// `death_chance` percent per second over `dt` milliseconds (not capped at one).
pub open spec fn dies(p: Particle, death_chance: nat, dt: nat, draw: u32) -> bool {
    p.category() == Category::Infected && chance_hits(draw, death_chance * dt, 100 * 1000)
}

/// The inputs of one tick besides the particles.
pub struct TickInput {
    /// Contacts that the physics step reported, in any order.
    pub events: Vec<(Handle, Handle)>,
    /// One draw per event, for its transmission trial.
    pub infection_draws: Vec<u32>,
    /// One draw per particle, for its death roll.
    pub death_draws: Vec<u32>,
    /// Elapsed time in milliseconds.
    pub dt: u64,
}

/// The particles among the first `n` that survive a tick, in their order.
pub open spec fn survivors(
    ps: Seq<Particle>,
    s: &Settings,
    events: Seq<(Handle, Handle)>,
    infection_draws: Seq<u32>,
    death_draws: Seq<u32>,
    dt: nat,
    n: nat,
) -> Seq<Particle>
    decreases n,
{
    if n == 0 {
        Seq::empty()
    } else {
        let prev = survivors(ps, s, events, infection_draws, death_draws, dt, (n - 1) as nat);
        let p = stepped(
            ps,
            events,
            s.infection_rate.value as nat,
            infection_draws,
            s.infection_time.value as nat,
            dt,
            n - 1,
        );
        if dies(p, s.death_chance.value as nat, dt, death_draws[n - 1]) {
            prev
        } else {
            prev.push(p)
        }
    }
}

/// The handles of the particles among the first `n` that die in a tick, in their order.
pub open spec fn casualties(
    ps: Seq<Particle>,
    s: &Settings,
    events: Seq<(Handle, Handle)>,
    infection_draws: Seq<u32>,
    death_draws: Seq<u32>,
    dt: nat,
    n: nat,
) -> Seq<Handle>
    decreases n,
{
    if n == 0 {
        Seq::empty()
    } else {
        let prev = casualties(ps, s, events, infection_draws, death_draws, dt, (n - 1) as nat);
        let p = stepped(
            ps,
            events,
            s.infection_rate.value as nat,
            infection_draws,
            s.infection_time.value as nat,
            dt,
            n - 1,
        );
        if dies(p, s.death_chance.value as nat, dt, death_draws[n - 1]) {
            prev.push(ps[n - 1].key())
        } else {
            prev
        }
    }
}

/// Every particle of a tick either survives or dies: the counts add up to the population.
pub proof fn lemma_tick_counts(
    ps: Seq<Particle>,
    s: &Settings,
    events: Seq<(Handle, Handle)>,
    infection_draws: Seq<u32>,
    death_draws: Seq<u32>,
    dt: nat,
    n: nat,
)
    ensures
        survivors(ps, s, events, infection_draws, death_draws, dt, n).len() + casualties(
            ps,
            s,
            events,
            infection_draws,
            death_draws,
            dt,
            n,
        ).len() == n,
    decreases n,
{
    if n > 0 {
        lemma_tick_counts(ps, s, events, infection_draws, death_draws, dt, (n - 1) as nat);
    }
}

/// Over a tick a particle's state only moves forward along susceptible, infected, immune: an
/// immune particle stays immune, an infected one never becomes susceptible again, and a
/// susceptible one leaves that state only when a contact of the tick infects it.
pub proof fn lemma_tick_monotone(
    ps: Seq<Particle>,
    events: Seq<(Handle, Handle)>,
    rate: nat,
    infection_draws: Seq<u32>,
    time: nat,
    dt: nat,
    i: int,
)
    requires
        all_wf(ps),
        0 <= i < ps.len(),
        0 < time <= u64::MAX,
    ensures
        stepped(ps, events, rate, infection_draws, time, dt, i).key() == ps[i].key(),
        stepped(ps, events, rate, infection_draws, time, dt, i).wf(),
        ps[i].category() == Category::Immune ==> stepped(
            ps,
            events,
            rate,
            infection_draws,
            time,
            dt,
            i,
        ).category() == Category::Immune,
        ps[i].category() == Category::Infected ==> stepped(
            ps,
            events,
            rate,
            infection_draws,
            time,
            dt,
            i,
        ).category() != Category::Susceptible,
        ps[i].category() == Category::Susceptible && stepped(
            ps,
            events,
            rate,
            infection_draws,
            time,
            dt,
            i,
        ).category() != Category::Susceptible ==> newly_infected(
            events,
            ps,
            rate,
            infection_draws,
            ps[i].key(),
        ),
{
    let p = ps[i];
    p.lemma_transitions(time, dt);
    p.after_infect(time).lemma_transitions(time, dt);
}

/// The tick's inputs cover the particles `ps`: a draw for every event and every particle.
pub open spec fn input_fits(ps: Seq<Particle>, t: &TickInput) -> bool {
    &&& t.infection_draws@.len() >= t.events@.len()
    &&& t.death_draws@.len() >= ps.len()
}

/// Decides the death roll of an infected particle: whether `draw` falls within `death_chance`
/// percent per second over `dt` milliseconds.
pub fn death_roll(draw: u32, death_chance: u64, dt: u64) -> (r: bool)
    requires
        death_chance <= 100,
    ensures
        r == chance_hits(draw, death_chance as nat * dt as nat, 100 * 1000),
{
    proof {
        assert(death_chance as nat * dt as nat <= 100 * dt as nat) by (nonlinear_arith)
            requires
                death_chance <= 100,
        ;
    }
    let chance = (death_chance as u128) * (dt as u128);
    proof {
        assert(chance * DRAW_RANGE <= 100 * 0x1_0000_0000_0000_0000 * 0x1_0000_0000) by (nonlinear_arith)
            requires
                chance <= 100 * dt,
                dt < 0x1_0000_0000_0000_0000,
                DRAW_RANGE == 0x1_0000_0000,
        ;
        assert((draw as u128) * (100 * MILLIS_PER_SECOND) <= 0x1_0000_0000 * 100000) by (nonlinear_arith)
            requires
                draw < 0x1_0000_0000,
                MILLIS_PER_SECOND == 1000,
        ;
    }
    (draw as u128) * (100 * MILLIS_PER_SECOND) <= chance * DRAW_RANGE
}

/// Relies on nannou::rand::random (rand's thread-local generator) for one uniform draw; any
/// `u32` may come back.
#[verifier::external_body]
fn random_draw() -> (r: u32) {
    nannou::rand::random::<u32>()
}

/// `handles` are the distinct bodies spawned for a reload under `s`, one per particle.
pub open spec fn handles_fit(handles: Seq<Handle>, s: &Settings) -> bool {
    handles.no_duplicates() && handles.len() == s.population_size.value
}

/// `ps` is a fresh population on the bodies `handles`: one particle per handle, in order, the
/// first infected for `time` and the others susceptible.
pub open spec fn freshly_loaded(ps: Seq<Particle>, handles: Seq<Handle>, time: nat) -> bool {
    &&& ps.len() == handles.len()
    &&& forall|i: int| 0 <= i < handles.len() ==> #[trigger] ps[i].key() == handles[i]
    &&& handles.len() > 0 ==> ps[0].category() == Category::Infected && ps[0].remaining() == time
    &&& forall|i: int| 1 <= i < handles.len() ==> #[trigger] ps[i].category()
        == Category::Susceptible
}

/// Builds the population of a reload on the bodies `handles`.
fn load_population(handles: &Vec<Handle>, time: u64) -> (ps: Vec<Particle>)
    requires
        handles@.no_duplicates(),
        time > 0,
    ensures
        valid_population(ps@),
        freshly_loaded(ps@, handles@, time as nat),
{
    let mut particles: Vec<Particle> = Vec::new();
    let mut i: usize = 0;
    while i < handles.len()
        invariant
            i <= handles@.len(),
            time > 0,
            particles@.len() == i,
            all_wf(particles@),
            forall|k: int| 0 <= k < i ==> #[trigger] particles@[k].key() == handles@[k],
            i > 0 ==> particles@[0].category() == Category::Infected && particles@[0].remaining()
                == time,
            forall|k: int| 1 <= k < i ==> #[trigger] particles@[k].category()
                == Category::Susceptible,
        decreases handles@.len() - i,
    {
        let mut particle = Particle::new(handles[i]);
        if i == 0 {
            particle.infect(time);
        }
        particles.push(particle);
        i = i + 1;
    }
    proof {
        assert forall|a: int, b: int|
            0 <= a < particles@.len() && 0 <= b < particles@.len() && a != b implies particles@[a].key()
                != particles@[b].key() by {
            assert(particles@[a].key() == handles@[a]);
            assert(particles@[b].key() == handles@[b]);
        }
    }
    particles
}

/// The simulation's state between ticks: the live particles and the parameters.
pub struct Model {
    particles: Vec<Particle>,
    reload_pending: bool,
    settings: Settings,
}

impl Model {
    pub closed spec fn population(&self) -> Seq<Particle> {
        self.particles@
    }

    pub closed spec fn pending(&self) -> bool {
        self.reload_pending
    }

    pub closed spec fn config(&self) -> &Settings {
        &self.settings
    }

    pub open spec fn wf(&self) -> bool {
        valid_population(self.population()) && self.config().valid()
    }

    /// A model whose population is freshly loaded onto the bodies `handles`, spawned for
    /// `settings`; no reload is pending.
    pub fn new(settings: Settings, handles: Vec<Handle>) -> (r: Self)
        requires
            settings.valid(),
            handles_fit(handles@, &settings),
        ensures
            r.wf(),
            !r.pending(),
            *r.config() == settings,
            freshly_loaded(r.population(), handles@, settings.infection_time.value as nat),
    {
        let particles = load_population(&handles, settings.infection_time.value);
        Model { particles, reload_pending: false, settings }
    }

    /// Replaces the population by one particle per freshly spawned body, in the order of
    /// `handles`; the first one is infected for the configured infection time.
    pub fn reload(&mut self, handles: Vec<Handle>)
        requires
            old(self).wf(),
            handles_fit(handles@, old(self).config()),
        ensures
            final(self).wf(),
            !final(self).pending(),
            final(self).config() == old(self).config(),
            freshly_loaded(
                final(self).population(),
                handles@,
                old(self).config().infection_time.value as nat,
            ),
    {
        self.particles = load_population(&handles, self.settings.infection_time.value);
        self.reload_pending = false;
    }

    pub fn reload_pending(&self) -> (r: bool)
        ensures
            r == self.pending(),
    {
        self.reload_pending
    }

    /// Asks for a full reinitialisation before the next tick.
    pub fn request_reload(&mut self)
        requires
            old(self).wf(),
        ensures
            final(self).wf(),
            final(self).pending(),
            final(self).population() == old(self).population(),
            final(self).config() == old(self).config(),
    {
        self.reload_pending = true;
    }

    /// Puts `defaults` back in place of the current parameters and asks for a reload.
    pub fn reset_settings(&mut self, defaults: Settings)
        requires
            old(self).wf(),
            defaults.valid(),
        ensures
            final(self).wf(),
            final(self).pending(),
            final(self).population() == old(self).population(),
            *final(self).config() == defaults,
    {
        self.settings = defaults;
        self.reload_pending = true;
    }

    pub fn settings(&self) -> (r: &Settings)
        ensures
            r == self.config(),
    {
        &self.settings
    }

    /// Changes the parameters; they take effect on the next tick, and the population ones
    /// on the next reload.
    pub fn set_settings(&mut self, settings: Settings)
        requires
            old(self).wf(),
            settings.valid(),
        ensures
            final(self).wf(),
            final(self).pending() == old(self).pending(),
            final(self).population() == old(self).population(),
            *final(self).config() == settings,
    {
        self.settings = settings;
    }

    pub fn particles(&self) -> (r: &Vec<Particle>)
        ensures
            r@ == self.population(),
    {
        &self.particles
    }

    /// Whether `t` brings a draw for every event and every particle.
    pub fn accepts(&self, t: &TickInput) -> (r: bool)
        ensures
            r == input_fits(self.population(), t),
    {
        t.infection_draws.len() >= t.events.len() && t.death_draws.len() >= self.particles.len()
    }

    /// What a renderer needs of each live particle: its body's handle and its state.
    pub fn view(&self) -> (r: Vec<(Handle, Category)>)
        ensures
            r@.len() == self.population().len(),
            forall|i: int|
                0 <= i < r@.len() ==> #[trigger] r@[i] == (
                    self.population()[i].key(),
                    self.population()[i].category(),
                ),
    {
        let mut r: Vec<(Handle, Category)> = Vec::new();
        let mut i: usize = 0;
        while i < self.particles.len()
            invariant
                i <= self.particles@.len(),
                r@.len() == i,
                forall|k: int|
                    0 <= k < i ==> #[trigger] r@[k] == (
                        self.particles@[k].key(),
                        self.particles@[k].category(),
                    ),
            decreases self.particles@.len() - i,
        {
            r.push((self.particles[i].handle(), self.particles[i].color()));
            i = i + 1;
        }
        r
    }

    /// Runs one tick on fresh random draws. When a reload is pending, the population is first
    /// rebuilt on the bodies `respawned` (spawned for the current settings in a fresh world)
    /// instead of being carried over; then the contacts `events` are resolved as in
    /// `physics_update`, with one draw per event and one per particle. Returns the handles of
    /// the dead.
    pub fn update(
        &mut self,
        respawned: Option<Vec<Handle>>,
        events: Vec<(Handle, Handle)>,
        dt: u64,
    ) -> (deaths: Vec<Handle>)
        requires
            old(self).wf(),
            old(self).pending() ==> respawned.is_some() && handles_fit(
                respawned.unwrap()@,
                old(self).config(),
            ),
        ensures
            final(self).wf(),
            !final(self).pending(),
            final(self).config() == old(self).config(),
            !old(self).pending() ==> final(self).population().len() + deaths@.len() == old(
                self,
            ).population().len(),
            exists|base: Seq<Particle>, infection_draws: Seq<u32>, death_draws: Seq<u32>|
                {
                    &&& old(self).pending() ==> freshly_loaded(
                        base,
                        respawned.unwrap()@,
                        old(self).config().infection_time.value as nat,
                    )
                    &&& !old(self).pending() ==> base == old(self).population()
                    &&& infection_draws.len() == events@.len()
                    &&& death_draws.len() == base.len()
                    &&& final(self).population() == survivors(
                        base,
                        old(self).config(),
                        events@,
                        infection_draws,
                        death_draws,
                        dt as nat,
                        base.len(),
                    )
                    &&& deaths@ == casualties(
                        base,
                        old(self).config(),
                        events@,
                        infection_draws,
                        death_draws,
                        dt as nat,
                        base.len(),
                    )
                },
    {
        if self.reload_pending {
            if let Some(handles) = respawned {
                self.reload(handles);
            }
        }
        let ghost base_model = *self;
        let mut infection_draws: Vec<u32> = Vec::new();
        while infection_draws.len() < events.len()
            invariant
                infection_draws@.len() <= events@.len(),
            decreases events@.len() - infection_draws@.len(),
        {
            infection_draws.push(random_draw());
        }
        let mut death_draws: Vec<u32> = Vec::new();
        while death_draws.len() < self.particles.len()
            invariant
                death_draws@.len() <= self.particles@.len(),
            decreases self.particles@.len() - death_draws@.len(),
        {
            death_draws.push(random_draw());
        }
        let t = TickInput { events, infection_draws, death_draws, dt };
        let deaths = self.physics_update(&t);
        proof {
            let base = base_model.population();
            let a = t.infection_draws@;
            let b = t.death_draws@;
            assert(a.len() == t.events@.len() && b.len() == base.len() && self.population()
                == survivors(base, base_model.config(), t.events@, a, b, dt as nat, base.len())
                && deaths@ == casualties(
                base,
                base_model.config(),
                t.events@,
                a,
                b,
                dt as nat,
                base.len(),
            ));
        }
        deaths
    }

    /// Runs the disease part of one tick, after the physics step reported `t.events`: resolves
    /// the contacts into infections, lets every particle's timer run, rolls for deaths, then
    /// removes the dead. Returns the handles of the dead, whose bodies the caller removes.
    pub fn physics_update(&mut self, t: &TickInput) -> (deaths: Vec<Handle>)
        requires
            old(self).wf(),
            input_fits(old(self).population(), t),
        ensures
            final(self).wf(),
            final(self).pending() == old(self).pending(),
            final(self).config() == old(self).config(),
            final(self).population() == survivors(
                old(self).population(),
                old(self).config(),
                t.events@,
                t.infection_draws@,
                t.death_draws@,
                t.dt as nat,
                old(self).population().len(),
            ),
            deaths@ == casualties(
                old(self).population(),
                old(self).config(),
                t.events@,
                t.infection_draws@,
                t.death_draws@,
                t.dt as nat,
                old(self).population().len(),
            ),
            final(self).population().len() + deaths@.len() == old(self).population().len(),
    {
        let infections = get_infections(
            &t.events,
            &self.particles,
            self.settings.infection_rate.value,
            &t.infection_draws,
        );
        let infected = code_set(&infections);
        let ghost ps = self.particles@;
        let n = self.particles.len();
        let mut kept: Vec<Particle> = Vec::new();
        let mut deaths: Vec<Handle> = Vec::new();
        let mut i: usize = 0;
        while i < n
            invariant
                n == ps.len(),
                ps == self.particles@,
                i <= n,
                self.wf(),
                input_fits(ps, t),
                forall|h: Handle|
                    #[trigger] infected@.contains(handle_code(h)) <==> newly_infected(
                        t.events@,
                        ps,
                        self.settings.infection_rate.value as nat,
                        t.infection_draws@,
                        h,
                    ),
                kept@ == survivors(ps, &self.settings, t.events@, t.infection_draws@, t.death_draws@, t.dt as nat, i as nat),
                deaths@ == casualties(ps, &self.settings, t.events@, t.infection_draws@, t.death_draws@, t.dt as nat, i as nat),
                valid_population(kept@),
                forall|k: int, j: int|
                    0 <= k < kept@.len() && i <= j < n ==> kept@[k].key() != ps[j].key(),
            decreases n - i,
        {
            let mut p = self.particles[i];
            proof {
                p.lemma_transitions(self.settings.infection_time.value as nat, t.dt as nat);
                let q = p.after_infect(self.settings.infection_time.value as nat);
                q.lemma_transitions(self.settings.infection_time.value as nat, t.dt as nat);
            }
            if infected.contains(&code_of(p.handle())) {
                p.infect(self.settings.infection_time.value);
            }
            p.update(t.dt);
            assert(p == stepped(
                ps,
                t.events@,
                self.settings.infection_rate.value as nat,
                t.infection_draws@,
                self.settings.infection_time.value as nat,
                t.dt as nat,
                i as int,
            ));
            if p.infected() && death_roll(t.death_draws[i], self.settings.death_chance.value, t.dt) {
                deaths.push(p.handle());
            } else {
                let ghost before = kept@;
                kept.push(p);
                proof {
                    assert forall|a: int, b: int|
                        0 <= a < kept@.len() && 0 <= b < kept@.len() && a != b implies kept@[a].key()
                            != kept@[b].key() by {
                        if a < before.len() && b < before.len() {
                            assert(before[a] == kept@[a]);
                            assert(before[b] == kept@[b]);
                        } else if a < before.len() {
                            assert(before[a] == kept@[a]);
                        } else {
                            assert(before[b] == kept@[b]);
                        }
                    }
                    assert forall|k: int, j: int|
                        0 <= k < kept@.len() && i + 1 <= j < n implies kept@[k].key() != ps[j].key() by {
                        if k < before.len() {
                            assert(before[k] == kept@[k]);
                        } else {
                            assert(kept@[k].key() == ps[i as int].key());
                        }
                    }
                }
            }
            i = i + 1;
        }
        proof {
            lemma_tick_counts(ps, &self.settings, t.events@, t.infection_draws@, t.death_draws@, t.dt as nat, n as nat);
        }
        self.particles = kept;
        deaths
    }
}

} // verus!
