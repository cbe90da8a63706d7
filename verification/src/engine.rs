//! The escape-time search: how many updates an orbit takes before it escapes.
//!
//! The orbit's arithmetic is the caller's. The search only needs a state to start from, a way
//! to update it and a test for having escaped, so it works for any kind of state.

use vstd::prelude::*;

verus! {

/// Whether `orbit` is a run of updates from `start`: `orbit[0]` is an update of `start`, and
/// each later state an update of the one before it.
pub open spec fn is_orbit<Z, S: Fn(Z) -> Z>(step: S, start: Z, orbit: Seq<Z>) -> bool {
    forall|k: int|
        0 <= k < orbit.len() ==> call_ensures(
            step,
            (if k == 0 {
                start
            } else {
                orbit[k - 1]
            },),
            #[trigger] orbit[k],
        )
}

/// Whether `count` is an escape time of the orbit from `start` under the cap `cap`.
///
/// Below the cap, the update with index `count` (counted from 0) is the first whose state
/// has escaped. At the cap, none of the `cap` updates made has escaped.
pub open spec fn escapes_at<Z, S: Fn(Z) -> Z, E: Fn(Z) -> bool>(
    step: S,
    escaped: E,
    start: Z,
    cap: u32,
    count: u32,
) -> bool {
    &&& count <= cap
    &&& exists|orbit: Seq<Z>|
        #![trigger is_orbit(step, start, orbit)]
        {
            &&& orbit.len() == if count < cap {
                count + 1
            } else {
                cap as int
            }
            &&& is_orbit(step, start, orbit)
            &&& forall|k: int|
                0 <= k < orbit.len() ==> call_ensures(escaped, (#[trigger] orbit[k],), k == count)
        }
}

/// The escape time of the orbit that starts at `start`. The state is updated by `step` up
/// to `cap` times and tested with `escaped` after each update; the index of the first
/// update after which it has escaped is returned at once. Where none of the `cap` updates
/// escapes, the result is `cap`.
pub fn escape_time<Z: Copy, S: Fn(Z) -> Z, E: Fn(Z) -> bool>(
    cap: u32,
    start: Z,
    step: S,
    escaped: E,
) -> (count: u32)
    requires
        forall|z: Z| call_requires(step, (z,)),
        forall|z: Z| call_requires(escaped, (z,)),
    ensures
        escapes_at(step, escaped, start, cap, count),
{
    let mut z: Z = start;
    let mut k: u32 = 0;
    let ghost mut orbit: Seq<Z> = Seq::empty();
    while k < cap
        invariant
            k <= cap,
            orbit.len() == k,
            is_orbit(step, start, orbit),
            z == (if k == 0 {
                start
            } else {
                orbit[k - 1]
            }),
            forall|j: int| 0 <= j < k ==> call_ensures(escaped, (#[trigger] orbit[j],), false),
            forall|z: Z| call_requires(step, (z,)),
            forall|z: Z| call_requires(escaped, (z,)),
        decreases cap - k,
    {
        let ghost before = orbit;
        z = step(z);
        proof {
            orbit = before.push(z);
            assert forall|j: int| 0 <= j < orbit.len() implies call_ensures(
                step,
                (if j == 0 {
                    start
                } else {
                    orbit[j - 1]
                },),
                #[trigger] orbit[j],
            ) by {
                if j < before.len() {
                    assert(orbit[j] == before[j]);
                }
            }
        }
        let out: bool = escaped(z);
        if out {
            assert forall|j: int| 0 <= j < orbit.len() implies call_ensures(
                escaped,
                (#[trigger] orbit[j],),
                j == k,
            ) by {
                if j < before.len() {
                    assert(orbit[j] == before[j]);
                }
            }
            assert(is_orbit(step, start, orbit));
            return k;
        }
        assert forall|j: int| 0 <= j < k + 1 implies call_ensures(
            escaped,
            (#[trigger] orbit[j],),
            false,
        ) by {
            if j < before.len() {
                assert(orbit[j] == before[j]);
            }
        }
        k += 1;
    }
    k
}

/// An orbit whose first update has escaped has the escape time 0, which is below every
/// cap but the cap 0.
pub proof fn lemma_escapes_at_once<Z, S: Fn(Z) -> Z, E: Fn(Z) -> bool>(
    step: S,
    escaped: E,
    start: Z,
    cap: u32,
    count: u32,
)
    requires
        escapes_at(step, escaped, start, cap, count),
        cap > 0,
        forall|z: Z, out: bool|
            call_ensures(step, (start,), z) && #[trigger] call_ensures(escaped, (z,), out) ==> out,
    ensures
        count == 0,
        count < cap,
{
    let orbit = lemma_orbit_behind(step, escaped, start, cap, count);
    assert(call_ensures(step, (start,), orbit[0]));
    assert(call_ensures(escaped, (orbit[0],), 0 == count));
}

/// In an orbit from a state that every update leaves where it is, every state is that
/// state.
proof fn lemma_orbit_stays<Z, S: Fn(Z) -> Z>(step: S, start: Z, orbit: Seq<Z>, k: int)
    requires
        is_orbit(step, start, orbit),
        forall|z: Z| call_ensures(step, (start,), z) ==> z == start,
        0 <= k < orbit.len(),
    ensures
        orbit[k] == start,
    decreases k,
{
    if k > 0 {
        lemma_orbit_stays(step, start, orbit, k - 1);
    }
    assert(call_ensures(
        step,
        (if k == 0 {
            start
        } else {
            orbit[k - 1]
        },),
        orbit[k],
    ));
}

/// An orbit that stays where it starts, at a state that has not escaped, never escapes:
/// its escape time is the cap.
pub proof fn lemma_fixed_point_never_escapes<Z, S: Fn(Z) -> Z, E: Fn(Z) -> bool>(
    step: S,
    escaped: E,
    start: Z,
    cap: u32,
    count: u32,
)
    requires
        escapes_at(step, escaped, start, cap, count),
        forall|z: Z| call_ensures(step, (start,), z) ==> z == start,
        forall|out: bool| call_ensures(escaped, (start,), out) ==> !out,
    ensures
        count == cap,
{
    if count < cap {
        let orbit = lemma_orbit_behind(step, escaped, start, cap, count);
        lemma_orbit_stays(step, start, orbit, count as int);
        assert(call_ensures(escaped, (orbit[count as int],), count as int == count));
    }
}

/// Whether `step` gives one state for each state.
pub open spec fn step_is_function<Z, S: Fn(Z) -> Z>(step: S) -> bool {
    forall|z: Z, a: Z, b: Z| call_ensures(step, (z,), a) && call_ensures(step, (z,), b) ==> a == b
}

/// Whether `escaped` gives one answer for each state.
pub open spec fn test_is_function<Z, E: Fn(Z) -> bool>(escaped: E) -> bool {
    forall|z: Z, a: bool, b: bool|
        call_ensures(escaped, (z,), a) && call_ensures(escaped, (z,), b) ==> a == b
}

/// Two orbits from one start, under an update that is a function, hold the same states as
/// far as both reach.
proof fn lemma_orbits_agree<Z, S: Fn(Z) -> Z>(step: S, start: Z, a: Seq<Z>, b: Seq<Z>, k: int)
    requires
        step_is_function(step),
        is_orbit(step, start, a),
        is_orbit(step, start, b),
        0 <= k < a.len(),
        k < b.len(),
    ensures
        a[k] == b[k],
    decreases k,
{
    if k > 0 {
        lemma_orbits_agree(step, start, a, b, k - 1);
    }
    let before = if k == 0 {
        start
    } else {
        a[k - 1]
    };
    assert(call_ensures(step, (before,), a[k]));
    assert(call_ensures(step, (before,), b[k]));
}

/// An orbit has one escape time: where the update and the test are functions, two escape
/// times of the orbit from `start` under one cap are equal.
pub proof fn lemma_escape_time_is_unique<Z, S: Fn(Z) -> Z, E: Fn(Z) -> bool>(
    step: S,
    escaped: E,
    start: Z,
    cap: u32,
    first: u32,
    second: u32,
)
    requires
        step_is_function(step),
        test_is_function(escaped),
        escapes_at(step, escaped, start, cap, first),
        escapes_at(step, escaped, start, cap, second),
    ensures
        first == second,
{
    let a = lemma_orbit_behind(step, escaped, start, cap, first);
    let b = lemma_orbit_behind(step, escaped, start, cap, second);
    // The earlier of two different escape times lies within both orbits, which would
    // have escaped there in the one and not in the other.
    if first != second {
        let k = if first < second {
            first as int
        } else {
            second as int
        };
        lemma_orbits_agree(step, start, a, b, k);
        assert(call_ensures(escaped, (a[k],), k == first));
        assert(call_ensures(escaped, (b[k],), k == second));
    }
}

/// The orbit that an escape time rests on.
proof fn lemma_orbit_behind<Z, S: Fn(Z) -> Z, E: Fn(Z) -> bool>(
    step: S,
    escaped: E,
    start: Z,
    cap: u32,
    count: u32,
) -> (orbit: Seq<Z>)
    requires
        escapes_at(step, escaped, start, cap, count),
    ensures
        count <= cap,
        orbit.len() == if count < cap {
            count + 1
        } else {
            cap as int
        },
        is_orbit(step, start, orbit),
        forall|k: int|
            0 <= k < orbit.len() ==> call_ensures(escaped, (#[trigger] orbit[k],), k == count),
{
    choose|orbit: Seq<Z>|
        #![trigger is_orbit(step, start, orbit)]
        {
            &&& orbit.len() == if count < cap {
                count + 1
            } else {
                cap as int
            }
            &&& is_orbit(step, start, orbit)
            &&& forall|k: int|
                0 <= k < orbit.len() ==> call_ensures(escaped, (#[trigger] orbit[k],), k == count)
        }
}

} // verus!
