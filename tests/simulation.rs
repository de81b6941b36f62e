use contagion::handle::Handle;
use contagion::infection::{get_infections, transmits};
use contagion::model::{death_roll, Model, TickInput};
use contagion::particle::{Category, Particle};
use contagion::settings::{Setting, Settings};

fn settings(population: usize, infection_rate: u64, infection_time: u64, death_chance: u64) -> Settings {
    Settings {
        death_chance: Setting::new("Death chance".to_string(), death_chance, 0..=100),
        infection_rate: Setting::new("Infection rate".to_string(), infection_rate, 0..=100),
        infection_time: Setting::new("Infection time".to_string(), infection_time, 1..=60_000),
        particle_radius: Setting::new("Particle radius".to_string(), 5, 1..=20),
        population_size: Setting::new("Population size".to_string(), population, 0..=10_000),
        particle_velocity: Setting::new("Particle velocity".to_string(), 50, 0..=500),
    }
}

fn h(i: u32) -> Handle {
    Handle::new(i, 0)
}

fn tick(events: Vec<(Handle, Handle)>, infection_draws: Vec<u32>, death_draws: Vec<u32>, dt: u64) -> TickInput {
    TickInput { events, infection_draws, death_draws, dt }
}

fn state_of(model: &Model, handle: Handle) -> Option<(Category, u64)> {
    model
        .particles()
        .iter()
        .find(|p| p.handle() == handle)
        .map(|p| (p.color(), p.remaining_time()))
}

#[test]
fn setting_new_keeps_fields() {
    let s = Setting::new("Speed".to_string(), 3u32, 1..=9);
    assert_eq!(s.label, "Speed");
    assert_eq!(s.value, 3);
    assert_eq!(s.range, 1..=9);
}

#[test]
fn settings_validity() {
    assert!(settings(10, 50, 5000, 1).is_valid());
    assert!(!settings(10, 101, 5000, 1).is_valid());
    assert!(!settings(10, 50, 0, 1).is_valid());
    assert!(!settings(10, 50, 5000, 101).is_valid());
}

#[test]
fn new_particle_is_susceptible() {
    let p = Particle::new(h(3));
    assert_eq!(p.handle(), h(3));
    assert!(p.can_be_infected());
    assert!(!p.infected());
    assert_eq!(p.color(), Category::Susceptible);
    assert_eq!(p.remaining_time(), 0);
}

#[test]
fn infection_counts_down_to_immunity() {
    let mut p = Particle::new(h(0));
    p.infect(5000);
    assert_eq!(p.color(), Category::Infected);
    assert!(!p.can_be_infected());
    p.update(1000);
    assert_eq!(p.remaining_time(), 4000);
    assert_eq!(p.color(), Category::Infected);
    p.update(4000);
    assert_eq!(p.color(), Category::Immune);
    assert_eq!(p.remaining_time(), 0);
    p.infect(5000);
    assert_eq!(p.color(), Category::Immune);
    p.update(1000);
    assert_eq!(p.color(), Category::Immune);
}

#[test]
fn overshooting_timer_gives_immunity() {
    let mut p = Particle::new(h(0));
    p.infect(300);
    p.update(1000);
    assert_eq!(p.color(), Category::Immune);
    assert_eq!(p.remaining_time(), 0);
}

#[test]
fn reinfection_overwrites_remaining_time() {
    let mut p = Particle::new(h(0));
    p.infect(5000);
    p.update(3000);
    p.infect(1000);
    assert_eq!(p.remaining_time(), 1000);
}

#[test]
fn update_leaves_susceptible_alone() {
    let mut p = Particle::new(h(0));
    p.update(10_000);
    assert_eq!(p.color(), Category::Susceptible);
}

#[test]
fn transmission_threshold() {
    assert!(transmits(0, 0));
    assert!(!transmits(1, 0));
    assert!(transmits(u32::MAX, 100));
    assert!(transmits(1 << 31, 50));
    assert!(!transmits((1 << 31) + 1, 50));
}

#[test]
fn death_roll_threshold() {
    assert!(death_roll(u32::MAX, 100, 1000));
    assert!(!death_roll(1, 0, 1000));
    // 10 % per second over half a second: probability 0.05
    let limit = ((1u64 << 32) / 20) as u32;
    assert!(death_roll(limit, 10, 500));
    assert!(!death_roll(limit + 1, 10, 500));
    // not capped: 100 % per second over two seconds
    assert!(death_roll(u32::MAX, 100, 2000));
}

#[test]
fn infections_from_contacts() {
    let mut a = Particle::new(h(0));
    a.infect(5000);
    let b = Particle::new(h(1));
    let c = Particle::new(h(2));
    let mut d = Particle::new(h(3));
    d.infect(10);
    d.update(10);
    let ps = vec![a, b, c, d];
    let events = vec![(h(0), h(1)), (h(2), h(0)), (h(0), h(3)), (h(1), h(2)), (h(1), h(0)), (h(0), h(9))];
    let r = get_infections(&events, &ps, 50, &vec![0, u32::MAX, 0, 0, 0, 0]);
    assert_eq!(r, vec![h(1)]);
    let r = get_infections(&events, &ps, 100, &vec![0, u32::MAX, 0, 0, 0, 0]);
    assert_eq!(r, vec![h(1), h(2)]);
    let r = get_infections(&events, &ps, 0, &vec![1, 1, 1, 1, 1, 1]);
    assert!(r.is_empty());
}

#[test]
fn two_infected_or_two_susceptible_make_no_trial() {
    let mut a = Particle::new(h(0));
    a.infect(5000);
    let mut b = Particle::new(h(1));
    b.infect(5000);
    let c = Particle::new(h(2));
    let d = Particle::new(h(3));
    let ps = vec![a, b, c, d];
    let r = get_infections(&vec![(h(0), h(1)), (h(2), h(3))], &ps, 100, &vec![0, 0]);
    assert!(r.is_empty());
}

#[test]
fn reload_infects_first_particle() {
    let mut m = Model::new(settings(3, 50, 5000, 0), vec![h(4), h(5), h(6)]);
    assert!(!m.reload_pending());
    assert_eq!(state_of(&m, h(4)), Some((Category::Infected, 5000)));
    assert_eq!(state_of(&m, h(5)), Some((Category::Susceptible, 0)));
    assert_eq!(state_of(&m, h(6)), Some((Category::Susceptible, 0)));
    assert_eq!(
        m.view(),
        vec![(h(4), Category::Infected), (h(5), Category::Susceptible), (h(6), Category::Susceptible)]
    );
}

#[test]
fn contact_spreads_infection_in_one_tick() {
    let mut m = Model::new(settings(2, 100, 5000, 0), vec![h(0), h(1)]);
    let deaths = m.physics_update(&tick(vec![(h(0), h(1))], vec![u32::MAX], vec![1, 1], 1000));
    assert!(deaths.is_empty());
    assert_eq!(state_of(&m, h(0)), Some((Category::Infected, 4000)));
    assert_eq!(state_of(&m, h(1)), Some((Category::Infected, 4000)));
}

#[test]
fn empty_population_ticks_quietly() {
    let mut m = Model::new(settings(0, 100, 5000, 100), vec![]);
    assert!(m.particles().is_empty());
    let deaths = m.physics_update(&tick(vec![], vec![], vec![], 1000));
    assert!(deaths.is_empty());
    assert!(m.particles().is_empty());
    assert!(m.view().is_empty());
}

#[test]
fn certain_death_removes_particle_in_same_tick() {
    let mut m = Model::new(settings(2, 0, 5000, 100), vec![h(0), h(1)]);
    let deaths = m.physics_update(&tick(vec![], vec![], vec![u32::MAX, u32::MAX], 1000));
    assert_eq!(deaths, vec![h(0)]);
    assert_eq!(state_of(&m, h(0)), None);
    assert_eq!(state_of(&m, h(1)), Some((Category::Susceptible, 0)));
    assert_eq!(m.particles().len(), 1);
}

#[test]
fn recovery_in_tick_escapes_death_roll() {
    let mut m = Model::new(settings(1, 0, 500, 100), vec![h(0)]);
    let deaths = m.physics_update(&tick(vec![], vec![], vec![0], 1000));
    assert!(deaths.is_empty());
    assert_eq!(state_of(&m, h(0)), Some((Category::Immune, 0)));
}

#[test]
fn population_never_grows_over_ticks() {
    let mut m = Model::new(settings(4, 100, 3000, 20), vec![h(0), h(1), h(2), h(3)]);
    let mut count = m.particles().len();
    for step in 0..10u32 {
        let draws: Vec<u32> = (0..m.particles().len() as u32).map(|k| (k + step).wrapping_mul(0x9E37_79B9)).collect();
        let events = vec![(h(0), h(1)), (h(1), h(2)), (h(2), h(3))];
        let deaths = m.physics_update(&tick(events, vec![0, 0, 0], draws, 500));
        assert_eq!(m.particles().len() + deaths.len(), count);
        count = m.particles().len();
    }
}

#[test]
fn same_inputs_give_same_tick() {
    let run = || {
        let mut m = Model::new(settings(3, 40, 3000, 30), vec![h(0), h(1), h(2)]);
        let mut out = Vec::new();
        for step in 0..5u32 {
            let n = m.particles().len() as u32;
            let draws: Vec<u32> = (0..n).map(|k| (k * 7 + step).wrapping_mul(0x85EB_CA6B)).collect();
            let deaths = m.physics_update(&tick(vec![(h(0), h(1)), (h(1), h(2))], vec![1 << 30, 3 << 30], draws, 700));
            out.push((deaths, m.view()));
        }
        out
    };
    assert_eq!(run(), run());
}

#[test]
fn reload_and_reset_requests() {
    let mut m = Model::new(settings(1, 10, 1000, 0), vec![h(0)]);
    assert!(!m.reload_pending());
    m.request_reload();
    assert!(m.reload_pending());
    m.reload(vec![h(1)]);
    m.set_settings(settings(2, 20, 2000, 0));
    assert!(!m.reload_pending());
    assert_eq!(m.settings().infection_rate.value, 20);
    m.reset_settings(settings(1, 10, 1000, 0));
    assert!(m.reload_pending());
    assert_eq!(m.settings().infection_rate.value, 10);
}

#[test]
fn accepts_checks_draw_counts() {
    let mut m = Model::new(settings(2, 10, 1000, 0), vec![h(0), h(1)]);
    assert!(m.accepts(&tick(vec![(h(0), h(1))], vec![0], vec![0, 0], 10)));
    assert!(!m.accepts(&tick(vec![(h(0), h(1))], vec![], vec![0, 0], 10)));
    assert!(!m.accepts(&tick(vec![], vec![], vec![0], 10)));
}

#[test]
fn zero_draw_meets_zero_death_chance() {
    let mut m = Model::new(settings(1, 0, 5000, 0), vec![h(0)]);
    let deaths = m.physics_update(&tick(vec![], vec![], vec![0], 1000));
    assert_eq!(deaths, vec![h(0)]);
    assert!(m.particles().is_empty());
}

#[test]
fn random_update_keeps_counts() {
    let mut m = Model::new(settings(3, 50, 2000, 50), vec![h(0), h(1), h(2)]);
    let before = m.particles().len();
    let deaths = m.update(None, vec![(h(0), h(1)), (h(1), h(2))], 100);
    assert_eq!(m.particles().len() + deaths.len(), before);
    for d in &deaths {
        assert!(m.particles().iter().all(|p| p.handle() != *d));
    }
}

#[test]
fn zero_time_infection_leaves_susceptible() {
    let mut p = Particle::new(h(0));
    p.infect(0);
    assert_eq!(p.color(), Category::Susceptible);
    assert_eq!(p.remaining_time(), 0);
}

#[test]
fn pending_reload_replaces_population_on_update() {
    let mut m = Model::new(settings(2, 0, 5000, 0), vec![h(0), h(1)]);
    m.request_reload();
    assert!(m.reload_pending());
    let deaths = m.update(Some(vec![h(7), h(8)]), vec![], 0);
    assert!(deaths.is_empty() || deaths == vec![h(7)]);
    assert!(!m.reload_pending());
    assert_eq!(state_of(&m, h(0)), None);
    assert_eq!(state_of(&m, h(1)), None);
    assert_eq!(state_of(&m, h(8)), Some((Category::Susceptible, 0)));
    if deaths.is_empty() {
        assert_eq!(state_of(&m, h(7)), Some((Category::Infected, 5000)));
    }
}

#[test]
fn update_without_reload_keeps_handles() {
    let mut m = Model::new(settings(2, 0, 5000, 0), vec![h(0), h(1)]);
    m.update(Some(vec![h(7), h(8)]), vec![], 1000);
    assert_eq!(state_of(&m, h(1)), Some((Category::Susceptible, 0)));
    assert_eq!(state_of(&m, h(8)), None);
}

#[test]
fn stale_handle_finds_no_particle() {
    let mut a = Particle::new(Handle::new(0, 1));
    a.infect(5000);
    let b = Particle::new(Handle::new(1, 0));
    let ps = vec![a, b];
    let stale = vec![(Handle::new(0, 0), Handle::new(1, 0)), (Handle::new(1, 1), Handle::new(0, 1))];
    assert!(get_infections(&stale, &ps, 100, &vec![0, 0]).is_empty());
    let live = vec![(Handle::new(1, 0), Handle::new(0, 1))];
    assert_eq!(get_infections(&live, &ps, 100, &vec![0]), vec![Handle::new(1, 0)]);
}

#[test]
fn handle_index_and_generation_do_not_collide() {
    let mut a = Particle::new(Handle::new(1, 0));
    a.infect(5000);
    let b = Particle::new(Handle::new(0, 1));
    let c = Particle::new(Handle::new(u32::MAX, u32::MAX));
    let ps = vec![a, b, c];
    let events = vec![(Handle::new(1, 0), Handle::new(u32::MAX, u32::MAX))];
    assert_eq!(get_infections(&events, &ps, 100, &vec![0]), vec![Handle::new(u32::MAX, u32::MAX)]);
}
