use vstd::prelude::*;

use crate::handle::Handle;
use crate::particle::Particle;
use std::collections::{HashMap, HashSet};

verus! {

/// Some particle of `ps` rides on the body `h`.
pub open spec fn has_key(ps: Seq<Particle>, h: Handle) -> bool {
    exists|i: int| 0 <= i < ps.len() && ps[i].key() == h
}

/// No two particles of `ps` share a handle.
pub open spec fn keys_unique(ps: Seq<Particle>) -> bool {
    forall|i: int, j: int|
        0 <= i < ps.len() && 0 <= j < ps.len() && i != j ==> ps[i].key() != ps[j].key()
}

/// Every particle of `ps` is well formed.
pub open spec fn all_wf(ps: Seq<Particle>) -> bool {
    forall|i: int| 0 <= i < ps.len() ==> ps[i].wf()
}

/// A particle collection as the simulation keeps it.
pub open spec fn valid_population(ps: Seq<Particle>) -> bool {
    keys_unique(ps) && all_wf(ps)
}

/// The particle of `ps` that rides on `h` (meaningful when `has_key(ps, h)`).
pub open spec fn particle_of(ps: Seq<Particle>, h: Handle) -> Particle {
    ps[choose|i: int| 0 <= i < ps.len() && ps[i].key() == h]
}

/// In a collection with unique handles, the particle at an index is the one of its handle.
pub proof fn lemma_particle_of_index(ps: Seq<Particle>, i: int)
    requires
        keys_unique(ps),
        0 <= i < ps.len(),
    ensures
        has_key(ps, ps[i].key()),
        particle_of(ps, ps[i].key()) == ps[i],
{
    let h = ps[i].key();
    assert(0 <= i < ps.len() && ps[i].key() == h);
    let k = choose|k: int| 0 <= k < ps.len() && ps[k].key() == h;
    assert(k == i);
}

/// A handle packed into one `u64`: the index in the high half, the generation in the low half.
pub open spec fn handle_code(h: Handle) -> u64 {
    ((h.index as u64) << 32u64) | (h.generation as u64)
}

/// Distinct handles have distinct codes.
pub proof fn lemma_handle_code_injective(a: Handle, b: Handle)
    requires
        handle_code(a) == handle_code(b),
    ensures
        a == b,
{
    let (ai, ag, bi, bg) = (a.index, a.generation, b.index, b.generation);
    assert(ai == bi && ag == bg) by (bit_vector)
        requires
            ((ai as u64) << 32u64) | (ag as u64) == ((bi as u64) << 32u64) | (bg as u64),
    ;
}

pub fn code_of(h: Handle) -> (r: u64)
    ensures
        r == handle_code(h),
{
    ((h.index as u64) << 32u64) | (h.generation as u64)
}

/// `m` maps the code of each particle's handle in `ps` to that particle's index, and holds
/// nothing else.
pub open spec fn indexes(m: Map<u64, usize>, ps: Seq<Particle>) -> bool {
    &&& forall|i: int|
        0 <= i < ps.len() ==> #[trigger] m.contains_key(handle_code(ps[i].key())) && m[handle_code(
            ps[i].key(),
        )] == i
    &&& forall|c: u64|
        #[trigger] m.contains_key(c) ==> m[c] < ps.len() && handle_code(ps[m[c] as int].key())
            == c
}

/// A hash index from handle codes to positions in `ps`.
pub fn build_index(ps: &Vec<Particle>) -> (m: HashMap<u64, usize>)
    requires
        keys_unique(ps@),
    ensures
        indexes(m@, ps@),
{
    broadcast use vstd::std_specs::hash::group_hash_axioms;

    let mut m: HashMap<u64, usize> = HashMap::new();
    let mut i: usize = 0;
    while i < ps.len()
        invariant
            i <= ps@.len(),
            keys_unique(ps@),
            indexes(m@, ps@.take(i as int)),
        decreases ps@.len() - i,
    {
        let c = code_of(ps[i].handle());
        let ghost before = m@;
        m.insert(c, i);
        proof {
            let pre = ps@.take(i as int);
            let post = ps@.take(i + 1);
            assert forall|k: int| 0 <= k < post.len() implies #[trigger] m@.contains_key(
                handle_code(post[k].key()),
            ) && m@[handle_code(post[k].key())] == k by {
                if k < i {
                    assert(post[k] == pre[k]);
                    assert(before.contains_key(handle_code(pre[k].key())));
                    if handle_code(pre[k].key()) == c {
                        lemma_handle_code_injective(pre[k].key(), ps@[i as int].key());
                        assert(ps@[k] == pre[k]);
                    }
                }
            }
            assert forall|d: u64| #[trigger] m@.contains_key(d) implies m@[d] < post.len()
                && handle_code(post[m@[d] as int].key()) == d by {
                if d != c {
                    assert(before.contains_key(d));
                    assert(post[before[d] as int] == pre[before[d] as int]);
                }
            }
        }
        i = i + 1;
    }
    proof {
        assert(ps@.take(ps@.len() as int) == ps@);
    }
    m
}

/// The index of the particle that rides on `h`, looked up in the index `m` of `ps`.
pub fn lookup(m: &HashMap<u64, usize>, ps: &Vec<Particle>, h: Handle) -> (r: Option<usize>)
    requires
        indexes(m@, ps@),
    ensures
        match r {
            Some(i) => i < ps@.len() && ps@[i as int].key() == h,
            None => !has_key(ps@, h),
        },
{
    broadcast use vstd::std_specs::hash::group_hash_axioms;

    let c = code_of(h);
    match m.get(&c) {
        Some(i) => {
            proof {
                lemma_handle_code_injective(ps@[*i as int].key(), h);
            }
            Some(*i)
        },
        None => {
            proof {
                if has_key(ps@, h) {
                    let k = choose|k: int| 0 <= k < ps@.len() && ps@[k].key() == h;
                    assert(m@.contains_key(handle_code(ps@[k].key())));
                }
            }
            None
        },
    }
}

/// The codes of the handles `hs`, as a hash set.
pub fn code_set(hs: &Vec<Handle>) -> (s: HashSet<u64>)
    ensures
        forall|h: Handle| #[trigger] s@.contains(handle_code(h)) <==> hs@.contains(h),
{
    broadcast use vstd::std_specs::hash::group_hash_axioms;

    let mut s: HashSet<u64> = HashSet::new();
    let mut i: usize = 0;
    while i < hs.len()
        invariant
            i <= hs@.len(),
            forall|c: u64|
                #[trigger] s@.contains(c) <==> exists|k: int|
                    0 <= k < i && handle_code(hs@[k]) == c,
        decreases hs@.len() - i,
    {
        s.insert(code_of(hs[i]));
        proof {
            assert forall|c: u64| #[trigger] s@.contains(c) <==> exists|k: int|
                0 <= k < i + 1 && handle_code(hs@[k]) == c by {
                if c == handle_code(hs@[i as int]) {
                    assert(0 <= i < i + 1 && handle_code(hs@[i as int]) == c);
                }
                if exists|k: int| 0 <= k < i + 1 && handle_code(hs@[k]) == c {
                    let k = choose|k: int| 0 <= k < i + 1 && handle_code(hs@[k]) == c;
                    if k < i {
                        assert(0 <= k < i && handle_code(hs@[k]) == c);
                    }
                }
            }
        }
        i = i + 1;
    }
    proof {
        assert forall|h: Handle| #[trigger] s@.contains(handle_code(h)) <==> hs@.contains(h) by {
            if s@.contains(handle_code(h)) {
                let k = choose|k: int| 0 <= k < hs@.len() && handle_code(hs@[k]) == handle_code(h);
                lemma_handle_code_injective(hs@[k], h);
            }
            if hs@.contains(h) {
                let k = choose|k: int| 0 <= k < hs@.len() && hs@[k] == h;
                assert(0 <= k < hs@.len() && handle_code(hs@[k]) == handle_code(h));
            }
        }
    }
    s
}

} // verus!
