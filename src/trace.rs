use vstd::prelude::*;

verus! {

/// `i` is the selected hit among `cands`: a hit that no earlier hit is as near
/// as, and that no later hit is nearer than. Ties go to the earliest surface.
pub open spec fn is_nearest(cands: Seq<Option<u64>>, i: int) -> bool {
    &&& 0 <= i < cands.len()
    &&& cands[i] is Some
    &&& forall|j: int| 0 <= j < i && #[trigger] cands[j] is Some ==> cands[i]->0 < cands[j]->0
    &&& forall|j: int| i < j < cands.len() && #[trigger] cands[j] is Some ==> cands[i]->0 <= cands[j]->0
}

/// No surface reported a hit.
pub open spec fn no_hit(cands: Seq<Option<u64>>) -> bool {
    forall|j: int| 0 <= j < cands.len() ==> #[trigger] cands[j] is None
}

/// Nearest-hit search: `cands[i]` is the distance key of the hit of surface
/// `i` along the ray, in scene order, or `None` where that surface is missed.
/// A hit replaces the current best only when strictly nearer.
pub fn nearest_hit(cands: &Vec<Option<u64>>) -> (r: Option<usize>)
    ensures
        match r {
            None => no_hit(cands@),
            Some(i) => is_nearest(cands@, i as int),
        },
{
    let mut best: Option<usize> = None;
    let mut best_key: u64 = 0;
    let mut i: usize = 0;
    while i < cands.len()
        invariant
            i <= cands.len(),
            match best {
                None => forall|j: int| 0 <= j < i ==> #[trigger] cands@[j] is None,
                Some(b) => {
                    &&& b < i
                    &&& cands@[b as int] == Some(best_key)
                    &&& forall|j: int| 0 <= j < b && #[trigger] cands@[j] is Some ==> best_key < cands@[j]->0
                    &&& forall|j: int| b < j < i && #[trigger] cands@[j] is Some ==> best_key <= cands@[j]->0
                },
            },
        decreases cands.len() - i,
    {
        if let Some(d) = cands[i] {
            let closer = match best {
                None => true,
                Some(_) => d < best_key,
            };
            if closer {
                best = Some(i);
                best_key = d;
            }
        }
        i = i + 1;
    }
    best
}

/// The selected hit is unique: the contract of `nearest_hit` fixes its result.
pub proof fn lemma_nearest_unique(cands: Seq<Option<u64>>, i: int, k: int)
    requires
        is_nearest(cands, i),
        is_nearest(cands, k),
    ensures
        i == k,
{
    if i < k {
        assert(cands[i] is Some);
    } else if k < i {
        assert(cands[k] is Some);
    }
}

/// Occlusion does not depend on insertion order: a hit that is strictly nearer
/// than every other hit is the one selected, wherever it stands in the scene.
pub proof fn lemma_strictly_nearest_wins(cands: Seq<Option<u64>>, i: int)
    requires
        0 <= i < cands.len(),
        cands[i] is Some,
        forall|j: int| 0 <= j < cands.len() && j != i && #[trigger] cands[j] is Some ==> cands[i]->0 < cands[j]->0,
    ensures
        forall|k: int| is_nearest(cands, k) <==> k == i,
{
    assert forall|k: int| is_nearest(cands, k) implies k == i by {
        lemma_nearest_unique(cands, i, k);
    }
}

/// Two overlapping surfaces along one ray: the nearer one is selected in
/// either scene order.
pub proof fn lemma_two_hits_either_order(near: u64, far: u64)
    requires
        near < far,
    ensures
        is_nearest(seq![Some(near), Some(far)], 0),
        is_nearest(seq![Some(far), Some(near)], 1),
{
    let a = seq![Some(near), Some(far)];
    let b = seq![Some(far), Some(near)];
    lemma_strictly_nearest_wins(a, 0);
    lemma_strictly_nearest_wins(b, 1);
}

/// Some entry of `s` is set.
pub open spec fn any_set(s: Seq<bool>) -> bool {
    exists|i: int| 0 <= i < s.len() && #[trigger] s[i]
}

/// Shadow test: `blocked[i]` tells whether surface `i` intersects the shadow
/// ray strictly between the shaded point and the light. The point is in
/// shadow when any surface does.
pub fn trace_shadow(blocked: &Vec<bool>) -> (r: bool)
    ensures
        r == any_set(blocked@),
{
    let mut i: usize = 0;
    while i < blocked.len()
        invariant
            i <= blocked.len(),
            forall|j: int| 0 <= j < i ==> !#[trigger] blocked@[j],
        decreases blocked.len() - i,
    {
        if blocked[i] {
            return true;
        }
        i = i + 1;
    }
    false
}

/// Flat albedo shading: `shadowed` holds, for each light of the scene, whether
/// it is occluded, or is `None` when the scene has no light list. The albedo
/// color comes back whole unless some light is occluded; then the whole color
/// is `black`, not just that light's share. Without a light list the point
/// counts as fully lit, so the configured color comes back exactly, whatever
/// the hit.
pub fn albedo_shade<C: Copy>(color: C, shadowed: Option<&Vec<bool>>, black: C) -> (r: C)
    ensures
        r == if shadowed is Some && any_set(shadowed->0@) {
            black
        } else {
            color
        },
{
    match shadowed {
        None => color,
        Some(s) => {
            if trace_shadow(s) {
                black
            } else {
                color
            }
        },
    }
}

/// The reflection depth used for each primary ray.
pub const BOUNCE_LIMIT: usize = 10;

/// Budget handed to the mirror ray cast from a hit with `bounce_count` bounces
/// left: none when the budget is spent, else one less.
pub open spec fn next_budget(bounce_count: nat) -> Option<nat> {
    if bounce_count > 0 {
        Some((bounce_count - 1) as nat)
    } else {
        None
    }
}

/// Decides whether a reflective hit casts its mirror ray, and with which
/// budget. A spent budget casts nothing, so the mirror term is dropped.
pub fn reflection_budget(bounce_count: usize) -> (r: Option<usize>)
    ensures
        match r {
            None => next_budget(bounce_count as nat) is None,
            Some(n) => next_budget(bounce_count as nat) == Some(n as nat),
        },
{
    if bounce_count > 0 {
        Some(bounce_count - 1)
    } else {
        None
    }
}

/// Number of mirror rays cast along one chain of reflections started with
/// `bounce_count` bounces left, when every mirror ray hits a reflective surface.
pub open spec fn mirror_casts(bounce_count: nat) -> nat
    decreases bounce_count,
{
    match next_budget(bounce_count) {
        None => 0,
        Some(n) => 1 + mirror_casts(n),
    }
}

/// Recursion ends: even between mutually visible mirrors a chain of
/// reflections casts exactly as many mirror rays as the budget allows.
pub proof fn lemma_mirror_chain_ends(bounce_count: nat)
    ensures
        mirror_casts(bounce_count) == bounce_count,
    decreases bounce_count,
{
    if bounce_count > 0 {
        lemma_mirror_chain_ends((bounce_count - 1) as nat);
    }
}

} // verus!
