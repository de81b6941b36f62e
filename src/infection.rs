use vstd::prelude::*;

use crate::handle::Handle;
use crate::particle::{Category, Particle};
use crate::population::{
    build_index, code_of, handle_code, has_key, indexes, keys_unique, lemma_handle_code_injective,
    lemma_particle_of_index, lookup, particle_of,
};
use std::collections::{HashMap, HashSet};

verus! {

/// A uniform random draw is a `u32` standing for `draw / 2^32`, a value in `[0, 1)`.
pub const DRAW_RANGE: u128 = 0x1_0000_0000;

/// The draw `draw / 2^32` is at most the probability `numer / denom`.
pub open spec fn chance_hits(draw: u32, numer: nat, denom: nat) -> bool {
    draw as nat * denom <= numer * 0x1_0000_0000
}

/// The category of the particle riding on `h`.
pub open spec fn category_of(ps: Seq<Particle>, h: Handle) -> Category {
    particle_of(ps, h).category()
}

/// What one contact event yields: the handle it infects, if the contact pairs an infected
/// particle with a susceptible one and the draw falls within `rate` percent.
pub open spec fn trial(ps: Seq<Particle>, e: (Handle, Handle), rate: nat, draw: u32) -> Option<
    Handle,
> {
    if has_key(ps, e.0) && has_key(ps, e.1) && chance_hits(draw, rate, 100) {
        if category_of(ps, e.0) == Category::Infected && category_of(ps, e.1)
            == Category::Susceptible {
            Some(e.1)
        } else if category_of(ps, e.1) == Category::Infected && category_of(ps, e.0)
            == Category::Susceptible {
            Some(e.0)
        } else {
            None
        }
    } else {
        None
    }
}

/// Some event among the first `n` of `events` infects `h`, event `i` using draw `i`.
pub open spec fn infected_within(
    events: Seq<(Handle, Handle)>,
    ps: Seq<Particle>,
    rate: nat,
    draws: Seq<u32>,
    n: int,
    h: Handle,
) -> bool {
    exists|i: int| 0 <= i < n && #[trigger] trial(ps, events[i], rate, draws[i]) == Some(h)
}

/// Some event of `events` infects `h`.
pub open spec fn newly_infected(
    events: Seq<(Handle, Handle)>,
    ps: Seq<Particle>,
    rate: nat,
    draws: Seq<u32>,
    h: Handle,
) -> bool {
    infected_within(events, ps, rate, draws, events.len() as int, h)
}

/// A particle is newly infected only if it was susceptible and one of the events paired it with
/// an infected particle.
pub proof fn lemma_transmission_needs_contact(
    events: Seq<(Handle, Handle)>,
    ps: Seq<Particle>,
    rate: nat,
    draws: Seq<u32>,
    h: Handle,
)
    requires
        newly_infected(events, ps, rate, draws, h),
    ensures
        has_key(ps, h),
        category_of(ps, h) == Category::Susceptible,
        exists|i: int|
            0 <= i < events.len() && {
                ||| events[i].0 == h && has_key(ps, events[i].1) && category_of(ps, events[i].1)
                    == Category::Infected
                ||| events[i].1 == h && has_key(ps, events[i].0) && category_of(ps, events[i].0)
                    == Category::Infected
            },
{
    let i = choose|i: int|
        0 <= i < events.len() && #[trigger] trial(ps, events[i], rate, draws[i]) == Some(h);
    assert(0 <= i < events.len());
}

/// Decides whether `draw` falls within `rate` percent.
pub fn transmits(draw: u32, rate: u64) -> (r: bool)
    ensures
        r == chance_hits(draw, rate as nat, 100),
{
    (draw as u128) * 100 <= (rate as u128) * DRAW_RANGE
}

/// The outcome of event `e` against the particles `ps`.
fn run_trial(
    index: &HashMap<u64, usize>,
    ps: &Vec<Particle>,
    e: (Handle, Handle),
    rate: u64,
    draw: u32,
) -> (r: Option<Handle>)
    requires
        keys_unique(ps@),
        indexes(index@, ps@),
    ensures
        r == trial(ps@, e, rate as nat, draw),
{
    match (lookup(index, ps, e.0), lookup(index, ps, e.1)) {
        (Some(i), Some(j)) => {
            proof {
                lemma_particle_of_index(ps@, i as int);
                lemma_particle_of_index(ps@, j as int);
            }
            if !transmits(draw, rate) {
                return None;
            }
            let p1 = &ps[i];
            let p2 = &ps[j];
            if p1.infected() && p2.can_be_infected() {
                Some(e.1)
            } else if p2.infected() && p1.can_be_infected() {
                Some(e.0)
            } else {
                None
            }
        },
        _ => None,
    }
}

/// Resolves the contacts of one tick into the set of handles they infect, without
/// duplicates. Event `i` is an independent trial that uses `draws[i]`; `infection_rate` is the
/// transmission probability in percent.
pub fn get_infections(
    events: &Vec<(Handle, Handle)>,
    particles: &Vec<Particle>,
    infection_rate: u64,
    draws: &Vec<u32>,
) -> (r: Vec<Handle>)
    requires
        keys_unique(particles@),
        draws@.len() >= events@.len(),
    ensures
        r@.no_duplicates(),
        forall|h: Handle|
            r@.contains(h) <==> newly_infected(
                events@,
                particles@,
                infection_rate as nat,
                draws@,
                h,
            ),
{
    broadcast use vstd::std_specs::hash::group_hash_axioms;

    let index = build_index(particles);
    let mut infections: Vec<Handle> = Vec::new();
    let mut seen: HashSet<u64> = HashSet::new();
    let mut i: usize = 0;
    while i < events.len()
        invariant
            i <= events@.len(),
            draws@.len() >= events@.len(),
            keys_unique(particles@),
            indexes(index@, particles@),
            infections@.no_duplicates(),
            forall|h: Handle| #[trigger] seen@.contains(handle_code(h)) <==> infections@.contains(h),
            forall|h: Handle|
                infections@.contains(h) <==> infected_within(
                    events@,
                    particles@,
                    infection_rate as nat,
                    draws@,
                    i as int,
                    h,
                ),
        decreases events@.len() - i,
    {
        let t = run_trial(&index, particles, events[i], infection_rate, draws[i]);
        let ghost old_inf = infections@;
        let ghost old_seen = seen@;
        if let Some(h) = t {
            if !seen.contains(&code_of(h)) {
                seen.insert(code_of(h));
                infections.push(h);
                proof {
                    assert(infections@ == old_inf.push(h));
                    assert(infections@[old_inf.len() as int] == h);
                    assert forall|x: Handle| old_inf.contains(x) implies infections@.contains(x) by {
                        let k = choose|k: int| 0 <= k < old_inf.len() && old_inf[k] == x;
                        assert(infections@[k] == x);
                    }
                    assert forall|x: Handle| infections@.contains(x) && x != h implies old_inf.contains(x) by {
                        let k = choose|k: int| 0 <= k < infections@.len() && infections@[k] == x;
                        assert(old_inf[k] == x);
                    }
                    assert forall|x: Handle| #[trigger] seen@.contains(handle_code(x)) <==> infections@.contains(x) by {
                        if handle_code(x) == handle_code(h) {
                            lemma_handle_code_injective(x, h);
                        }
                    }
                }
            }
        }
        proof {
            assert forall|h: Handle|
                infections@.contains(h) <==> infected_within(
                    events@,
                    particles@,
                    infection_rate as nat,
                    draws@,
                    i + 1,
                    h,
                ) by {
                if infected_within(events@, particles@, infection_rate as nat, draws@, i + 1, h) {
                    let k = choose|k: int|
                        0 <= k < i + 1 && #[trigger] trial(
                            particles@,
                            events@[k],
                            infection_rate as nat,
                            draws@[k],
                        ) == Some(h);
                    if k < i {
                        assert(infected_within(
                            events@,
                            particles@,
                            infection_rate as nat,
                            draws@,
                            i as int,
                            h,
                        ));
                        assert(old_inf.contains(h));
                    }
                }
                if old_inf.contains(h) {
                    let k = choose|k: int|
                        0 <= k < i && #[trigger] trial(
                            particles@,
                            events@[k],
                            infection_rate as nat,
                            draws@[k],
                        ) == Some(h);
                    assert(0 <= k < i + 1);
                }
                if t == Some(h) {
                    assert(trial(particles@, events@[i as int], infection_rate as nat, draws@[i as int])
                        == Some(h));
                }
            }
        }
        i = i + 1;
    }
    infections
}

} // verus!
