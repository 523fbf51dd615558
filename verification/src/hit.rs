//! Hit records, parametric intervals, and the choice of the closest hit.
//!
//! The distance of a hit is the parameter of the ray at the hit point, as a
//! key. All hits of one ray are measured so, whatever was hit, which is
//! what makes them comparable.
use vstd::prelude::*;

use crate::material::Material;
use crate::scalar::{spec_lt, EPSILON, INFINITY};

verus! {

/// A half-open interval of distances: `start` belongs to it, `end` does
/// not. Its ends are keys of positive numbers, or of positive infinity.
/// Then the keys between them are those of the numbers between them: the
/// key of a negative number, or of what is not a number, lies above
/// `INFINITY` and so in no interval.
#[derive(Clone, Copy, Debug, PartialEq, Eq, Structural)]
pub struct Interval {
    pub start: u64,
    pub end: u64,
}

impl Interval {
    pub open spec fn spec_contains(self, t: u64) -> bool {
        self.start <= t < self.end
    }

    /// The ends are keys of distances, and the lower end is above zero.
    pub open spec fn wf(self) -> bool {
        0 < self.start <= INFINITY && self.end <= INFINITY
    }

    /// Whether `t` lies in the interval.
    #[verifier::when_used_as_spec(spec_contains)]
    pub fn contains(self, t: u64) -> (r: bool)
        ensures
            r == self.spec_contains(t),
    {
        self.start <= t && t < self.end
    }

    /// The interval in which a scene is searched: from `EPSILON` up to, and
    /// without, `INFINITY`.
    pub fn positive() -> (r: Interval)
        ensures
            r == (Interval { start: EPSILON, end: INFINITY }),
    {
        Interval { start: EPSILON, end: INFINITY }
    }
}

/// What a ray has hit.
#[derive(Clone, Copy, Debug, PartialEq, Eq, Structural)]
pub enum Record {
    /// An area light, by its place among the scene's lights.
    Light { light: usize, t: u64 },
    /// A face of a mesh, by the mesh's place among the scene's meshes and
    /// the face's place in the mesh, with the material copied from the mesh.
    Object { mesh: usize, face: usize, material: Material, t: u64 },
}

impl Record {
    pub open spec fn spec_t(&self) -> u64 {
        match *self {
            Record::Light { t, .. } => t,
            Record::Object { t, .. } => t,
        }
    }

    /// The distance key of the hit.
    #[verifier::when_used_as_spec(spec_t)]
    pub fn t(&self) -> (r: u64)
        ensures
            r == self.spec_t(),
    {
        match self {
            Record::Light { t, .. } => *t,
            Record::Object { t, .. } => *t,
        }
    }
}

/// The distance keys of a sequence of optional records.
pub open spec fn distances(hits: Seq<Option<Record>>) -> Seq<Option<u64>> {
    Seq::new(
        hits.len(),
        |i: int|
            match hits[i] {
                Some(rec) => Some(rec.spec_t()),
                None => None,
            },
    )
}

/// Candidate `j` exists and its distance lies in the interval.
pub open spec fn admits(ts: Seq<Option<u64>>, interval: Interval, j: int) -> bool {
    0 <= j < ts.len() && ts[j] is Some && interval.spec_contains(ts[j].unwrap())
}

/// Candidate `i` is the closest of the first `n`: it is admitted, none of
/// them is nearer, and those before it are strictly farther.
pub open spec fn is_closest_among(
    ts: Seq<Option<u64>>,
    interval: Interval,
    n: int,
    i: int,
) -> bool {
    &&& i < n
    &&& admits(ts, interval, i)
    &&& forall|j: int|
        j < n && #[trigger] admits(ts, interval, j) ==> ts[i].unwrap() <= ts[j].unwrap()
    &&& forall|j: int|
        j < i && #[trigger] admits(ts, interval, j) ==> ts[i].unwrap() < ts[j].unwrap()
}

/// Candidate `i` is the closest of all: the first to have the smallest
/// distance that the interval holds.
pub open spec fn is_closest(ts: Seq<Option<u64>>, interval: Interval, i: int) -> bool {
    is_closest_among(ts, interval, ts.len() as int, i)
}

/// No candidate has a distance in the interval.
pub open spec fn none_admitted(ts: Seq<Option<u64>>, interval: Interval) -> bool {
    forall|j: int| !#[trigger] admits(ts, interval, j)
}

/// The closest of the candidates, as index and distance, if there is one.
pub open spec fn closest_of(ts: Seq<Option<u64>>, interval: Interval) -> Option<(usize, u64)> {
    if exists|i: int| is_closest(ts, interval, i) {
        let i = choose|i: int| is_closest(ts, interval, i);
        Some((i as usize, ts[i].unwrap()))
    } else {
        None
    }
}

/// Finds the closest of the candidates in one pass: the index of the first
/// candidate with the smallest distance in `interval`, and that distance.
/// The upper end of the interval shrinks to each closer candidate found, so
/// a later candidate at the same distance does not replace an earlier one.
pub fn closest(ts: &Vec<Option<u64>>, interval: Interval) -> (r: Option<(usize, u64)>)
    ensures
        match r {
            Some((i, t)) => is_closest(ts@, interval, i as int) && ts@[i as int] == Some(t),
            None => none_admitted(ts@, interval),
        },
        r == closest_of(ts@, interval),
{
    let mut current: Interval = interval;
    let mut best: Option<(usize, u64)> = None;
    let mut k: usize = 0;
    while k < ts.len()
        invariant
            k <= ts.len(),
            current.start == interval.start,
            match best {
                Some((i, t)) => is_closest_among(ts@, interval, k as int, i as int)
                    && ts@[i as int] == Some(t) && current.end == t,
                None => current == interval && forall|j: int|
                    j < k ==> !#[trigger] admits(ts@, interval, j),
            },
        decreases ts.len() - k,
    {
        match ts[k] {
            Some(t) => {
                if current.contains(t) {
                    best = Some((k, t));
                    current.end = t;
                }
            },
            None => {},
        }
        k += 1;
    }
    proof {
        match best {
            Some((i, t)) => {
                assert(is_closest(ts@, interval, i as int));
                let chosen = choose|j: int| is_closest(ts@, interval, j);
                closest_is_unique(ts@, interval, i as int, chosen);
            },
            None => {
                assert forall|j: int| !is_closest(ts@, interval, j) by {
                    assert(!admits(ts@, interval, j));
                }
            },
        }
    }
    best
}

/// `r` is the closest hit among `hits`: the first record with the smallest
/// distance from `EPSILON` up to, and without, `INFINITY`, or `None` where
/// no record has its distance in that range.
pub open spec fn is_closest_hit(hits: Seq<Option<Record>>, r: Option<Record>) -> bool {
    match r {
        Some(rec) => exists|i: int|
            #[trigger] is_closest(distances(hits), Interval { start: EPSILON, end: INFINITY }, i)
                && hits[i] == Some(rec),
        None => none_admitted(distances(hits), Interval { start: EPSILON, end: INFINITY }),
    }
}

/// Goes on with a search: `best` is the closest hit among `before`, and the
/// result is the closest hit among `before` followed by `hits`.
fn scan(hits: &Vec<Option<Record>>, best: Option<Record>, Ghost(before): Ghost<
    Seq<Option<Record>>,
>) -> (r: Option<Record>)
    requires
        is_closest_hit(before, best),
    ensures
        is_closest_hit(before + hits@, r),
{
    let ghost whole = Interval { start: EPSILON, end: INFINITY };
    let ghost all = before + hits@;
    let ghost ts = distances(all);
    let ghost base = before.len() as int;
    let ghost mut at: int = 0;
    proof {
        assert forall|j: int| j < base && #[trigger] admits(ts, whole, j) implies admits(
            distances(before),
            whole,
            j,
        ) && ts[j] == distances(before)[j] by {
            assert(all[j] == before[j]);
        }
        if best is Some {
            at = choose|i: int|
                #[trigger] is_closest(distances(before), whole, i) && before[i] == best;
            assert(admits(distances(before), whole, at));
            assert(all[at] == before[at]);
            assert(admits(ts, whole, at));
            assert(is_closest_among(ts, whole, base, at));
        }
    }
    let mut interval: Interval = match best {
        Some(rec) => Interval { start: EPSILON, end: rec.t() },
        None => Interval::positive(),
    };
    let mut best: Option<Record> = best;
    let mut k: usize = 0;
    while k < hits.len()
        invariant
            k <= hits.len(),
            all == before + hits@,
            ts == distances(all),
            base == before.len(),
            whole == (Interval { start: EPSILON, end: INFINITY }),
            interval.start == whole.start,
            match best {
                Some(rec) => is_closest_among(ts, whole, base + k, at) && all[at] == Some(rec)
                    && interval.end == rec.spec_t(),
                None => interval == whole && forall|j: int|
                    j < base + k ==> !#[trigger] admits(ts, whole, j),
            },
        decreases hits.len() - k,
    {
        proof {
            assert(all[base + k] == hits@[k as int]);
        }
        match hits[k] {
            Some(rec) => {
                if interval.contains(rec.t()) {
                    best = Some(rec);
                    interval.end = rec.t();
                    proof {
                        at = base + k;
                    }
                }
            },
            None => {},
        }
        k += 1;
    }
    proof {
        if best is Some {
            assert(is_closest(ts, whole, at));
        }
    }
    best
}

/// Resolves the closest hit of a scene. `lights` holds, light by light,
/// what the ray hit on it, if anything, and `meshes` the same mesh by mesh.
/// The lights are gone through first and then the meshes, and the upper end
/// of the search interval shrinks to each closer hit. The result is the
/// first record with the smallest distance from `EPSILON` up to, and
/// without, `INFINITY`; `None` if no record lies in that range.
pub fn closest_hit(lights: &Vec<Option<Record>>, meshes: &Vec<Option<Record>>) -> (r: Option<
    Record,
>)
    ensures
        is_closest_hit(lights@ + meshes@, r),
{
    let ghost nothing = Seq::<Option<Record>>::empty();
    let among_lights = scan(lights, None, Ghost(nothing));
    proof {
        assert(nothing + lights@ =~= lights@);
    }
    scan(meshes, among_lights, Ghost(lights@))
}

/// Where the interval admits one of the first `n` candidates, one of them
/// is the closest.
proof fn some_closest_among(ts: Seq<Option<u64>>, interval: Interval, n: int) -> (i: int)
    requires
        exists|j: int| j < n && admits(ts, interval, j),
    ensures
        is_closest_among(ts, interval, n, i),
    decreases n,
{
    let witness = choose|j: int| j < n && admits(ts, interval, j);
    if exists|j: int| j < n - 1 && admits(ts, interval, j) {
        let p = some_closest_among(ts, interval, n - 1);
        if admits(ts, interval, n - 1) && ts[n - 1].unwrap() < ts[p].unwrap() {
            n - 1
        } else {
            p
        }
    } else {
        assert(witness == n - 1);
        n - 1
    }
}

/// `closest_of` gives the closest candidate where the interval admits one,
/// and `None` only where it admits none.
pub proof fn closest_of_is_the_closest(ts: Seq<Option<u64>>, interval: Interval)
    requires
        ts.len() <= usize::MAX,
    ensures
        match closest_of(ts, interval) {
            Some((i, t)) => is_closest(ts, interval, i as int) && ts[i as int] == Some(t),
            None => none_admitted(ts, interval),
        },
{
    if exists|i: int| is_closest(ts, interval, i) {
        let i = choose|i: int| is_closest(ts, interval, i);
        assert(admits(ts, interval, i));
    } else {
        assert forall|j: int| !#[trigger] admits(ts, interval, j) by {
            if admits(ts, interval, j) {
                let i = some_closest_among(ts, interval, ts.len() as int);
                assert(is_closest(ts, interval, i));
            }
        }
    }
}

/// An interval between distances holds the numbers from its lower end up
/// to, and without, its upper end, and nothing else: no negative number and
/// nothing that is not a number.
pub proof fn interval_holds_the_numbers_between(interval: Interval, t: u64)
    requires
        interval.wf(),
    ensures
        interval.spec_contains(t) <==> (t == interval.start || spec_lt(interval.start, t))
            && spec_lt(t, interval.end),
        (Interval { start: EPSILON, end: INFINITY }).wf(),
{
}

/// Only one candidate is the closest: `is_closest` names at most one index.
pub proof fn closest_is_unique(ts: Seq<Option<u64>>, interval: Interval, i: int, j: int)
    requires
        is_closest(ts, interval, i),
        is_closest(ts, interval, j),
    ensures
        i == j,
{
    if i < j {
        assert(admits(ts, interval, i));
    } else if j < i {
        assert(admits(ts, interval, j));
    }
}

/// The order in which two groups of candidates are gone through does not
/// change the distance of the closest.
pub proof fn closest_distance_ignores_order(
    a: Seq<Option<u64>>,
    b: Seq<Option<u64>>,
    interval: Interval,
    i: int,
    j: int,
)
    requires
        is_closest(a + b, interval, i),
        is_closest(b + a, interval, j),
    ensures
        (a + b)[i] == (b + a)[j],
{
    let ab = a + b;
    let ba = b + a;
    let i2 = if i < a.len() { b.len() + i } else { i - a.len() };
    let j2 = if j < b.len() { a.len() + j } else { j - b.len() };
    assert(ba[i2] == ab[i]);
    assert(ab[j2] == ba[j]);
    assert(admits(ba, interval, i2));
    assert(admits(ab, interval, j2));
}

/// The closest hit is one record only.
pub proof fn closest_hit_is_unique(hits: Seq<Option<Record>>, p: Option<Record>, q: Option<Record>)
    requires
        is_closest_hit(hits, p),
        is_closest_hit(hits, q),
    ensures
        p == q,
{
    let whole = Interval { start: EPSILON, end: INFINITY };
    let ts = distances(hits);
    if p is Some {
        let i = choose|i: int| #[trigger] is_closest(ts, whole, i) && hits[i] == p;
        assert(admits(ts, whole, i));
        if q is Some {
            let j = choose|j: int| #[trigger] is_closest(ts, whole, j) && hits[j] == q;
            closest_is_unique(ts, whole, i, j);
        }
    } else if q is Some {
        let j = choose|j: int| #[trigger] is_closest(ts, whole, j) && hits[j] == q;
        assert(admits(ts, whole, j));
    }
}

/// Lights before meshes or meshes before lights: whether anything is hit,
/// and at which distance, does not depend on which are gone through first.
pub proof fn closest_hit_ignores_order(
    lights: Seq<Option<Record>>,
    meshes: Seq<Option<Record>>,
    p: Option<Record>,
    q: Option<Record>,
)
    requires
        is_closest_hit(lights + meshes, p),
        is_closest_hit(meshes + lights, q),
    ensures
        p is Some <==> q is Some,
        p is Some ==> p.unwrap().spec_t() == q.unwrap().spec_t(),
{
    let whole = Interval { start: EPSILON, end: INFINITY };
    let forward = lights + meshes;
    let backward = meshes + lights;
    assert(distances(forward) =~= distances(lights) + distances(meshes));
    assert(distances(backward) =~= distances(meshes) + distances(lights));
    if p is Some {
        let i = choose|i: int|
            #[trigger] is_closest(distances(forward), whole, i) && forward[i] == p;
        let i2 = if i < lights.len() { meshes.len() + i } else { i - lights.len() };
        assert(backward[i2] == forward[i]);
        assert(admits(distances(forward), whole, i));
        assert(admits(distances(backward), whole, i2));
        if q is Some {
            let j = choose|j: int|
                #[trigger] is_closest(distances(backward), whole, j) && backward[j] == q;
            closest_distance_ignores_order(distances(lights), distances(meshes), whole, i, j);
        }
    } else if q is Some {
        let j = choose|j: int|
            #[trigger] is_closest(distances(backward), whole, j) && backward[j] == q;
        let j2 = if j < meshes.len() { lights.len() + j } else { j - meshes.len() };
        assert(forward[j2] == backward[j]);
        assert(admits(distances(backward), whole, j));
        assert(admits(distances(forward), whole, j2));
    }
}

} // verus!
