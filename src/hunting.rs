use vstd::multiset::Multiset;
use vstd::prelude::*;
use crate::diet::{compatible, Diet};
use crate::prey::{diet_of, escapes, never_escapes, Prey};
use crate::random::{next_state, output_of};
use crate::reef::Reef;

verus! {

/// The prey populations of an arena of reefs, reef by reef.
pub open spec fn populations(rs: Seq<Reef>) -> Seq<Seq<Prey>> {
    Seq::new(rs.len(), |i: int| rs[i]@)
}

/// The number of prey items over all reefs.
pub open spec fn total(pops: Seq<Seq<Prey>>) -> nat
    decreases pops.len(),
{
    if pops.len() == 0 {
        0
    } else {
        total(pops.drop_last()) + pops.last().len()
    }
}

/// Whether `h` names a reef of the arena.
pub open spec fn names_reef(pops: Seq<Seq<Prey>>, h: usize) -> bool {
    (h as int) < pops.len()
}

/// The first position at or after `k` in a crab's list of reef handles
/// whose handle names a reef that holds prey.
pub open spec fn first_stocked_from(handles: Seq<usize>, pops: Seq<Seq<Prey>>, k: int) -> Option<int>
    decreases handles.len() - k,
{
    if k < 0 || k >= handles.len() {
        None
    } else if names_reef(pops, handles[k]) && pops[handles[k] as int].len() > 0 {
        Some(k)
    } else {
        first_stocked_from(handles, pops, k + 1)
    }
}

/// The first position in a crab's list of reef handles whose reef holds prey.
pub open spec fn first_stocked(handles: Seq<usize>, pops: Seq<Seq<Prey>>) -> Option<int> {
    first_stocked_from(handles, pops, 0)
}

/// The populations after the first item of reef `h` is taken out.
pub open spec fn take_from(pops: Seq<Seq<Prey>>, h: int) -> Seq<Seq<Prey>> {
    pops.update(h, pops[h].drop_first())
}

/// The populations after `p` is put at the end of reef `h` (a handle naming no reef changes nothing).
pub open spec fn put_back(pops: Seq<Seq<Prey>>, h: usize, p: Prey) -> Seq<Seq<Prey>> {
    if names_reef(pops, h) {
        pops.update(h as int, pops[h as int].push(p))
    } else {
        pops
    }
}

/// The populations after every set-aside item is put back into its reef, first to last.
pub open spec fn release_all(pops: Seq<Seq<Prey>>, set_aside: Seq<(Prey, usize)>) -> Seq<Seq<Prey>>
    decreases set_aside.len(),
{
    if set_aside.len() == 0 {
        pops
    } else {
        put_back(release_all(pops, set_aside.drop_last()), set_aside.last().1, set_aside.last().0)
    }
}

/// Whether prey `p`, offered on random state `s`, is set aside by a crab of the given diet and speed:
/// it escapes on the draw that belongs to the next state, or the crab may not eat it.
pub open spec fn rejected(diet: Diet, speed: u32, p: Prey, s: u64) -> bool {
    escapes(p, speed, output_of(next_state(s))) || !compatible(diet, diet_of(p))
}

/// Taking one item out of a stocked reef lowers the total by one.
pub proof fn lemma_total_take(pops: Seq<Seq<Prey>>, h: int)
    requires
        0 <= h < pops.len(),
        pops[h].len() > 0,
    ensures
        total(take_from(pops, h)) + 1 == total(pops),
{
    lemma_total_update(pops, h, pops[h].drop_first());
}

/// Replacing one reef's population changes the total by the difference in size.
pub proof fn lemma_total_update(pops: Seq<Seq<Prey>>, h: int, s: Seq<Prey>)
    requires
        0 <= h < pops.len(),
    ensures
        total(pops.update(h, s)) + pops[h].len() == total(pops) + s.len(),
    decreases pops.len(),
{
    let u = pops.update(h, s);
    if h == pops.len() - 1 {
        assert(u.drop_last() =~= pops.drop_last());
    } else {
        lemma_total_update(pops.drop_last(), h, s);
        assert(u.drop_last() =~= pops.drop_last().update(h, s));
    }
}

#[via_fn]
proof fn hunt_outcome_decreases(
    diet: Diet,
    speed: u32,
    handles: Seq<usize>,
    pops: Seq<Seq<Prey>>,
    seed: u64,
    set_aside: Seq<(Prey, usize)>,
) {
    lemma_first_stocked_from(handles, pops, 0);
    if let Some(k) = first_stocked(handles, pops) {
        lemma_total_take(pops, handles[k] as int);
    }
}

/// What a first stocked position satisfies.
pub proof fn lemma_first_stocked_from(handles: Seq<usize>, pops: Seq<Seq<Prey>>, k: int)
    ensures
        match first_stocked_from(handles, pops, k) {
            Some(j) => 0 <= k <= j < handles.len() && names_reef(pops, handles[j])
                && pops[handles[j] as int].len() > 0,
            None => forall|j: int|
                0 <= k <= j < handles.len() ==> !(names_reef(pops, #[trigger] handles[j])
                    && pops[handles[j] as int].len() > 0),
        },
    decreases handles.len() - k,
{
    if 0 <= k < handles.len() {
        lemma_first_stocked_from(handles, pops, k + 1);
    }
}

/// The hunting state machine. From populations `pops`, random state `seed` and the items set
/// aside so far, the crab asks the first of its reefs that holds prey for one item. An item that
/// escapes or does not suit the crab's diet is set aside with the handle of its reef and the search
/// goes on; the first other item is eaten. When no reef holds prey, or once an item is eaten, every
/// set-aside item goes back to its reef. The result is whether an item was eaten, the populations
/// at the end and the final random state.
pub open spec fn hunt_outcome(
    diet: Diet,
    speed: u32,
    handles: Seq<usize>,
    pops: Seq<Seq<Prey>>,
    seed: u64,
    set_aside: Seq<(Prey, usize)>,
) -> (bool, Seq<Seq<Prey>>, u64)
    decreases total(pops),
    via hunt_outcome_decreases
{
    match first_stocked(handles, pops) {
        None => (false, release_all(pops, set_aside), seed),
        Some(k) => {
            let h = handles[k];
            let p = pops[h as int][0];
            let rest = take_from(pops, h as int);
            if rejected(diet, speed, p, seed) {
                hunt_outcome(diet, speed, handles, rest, next_state(seed), set_aside.push((p, h)))
            } else {
                (true, release_all(rest, set_aside), next_state(seed))
            }
        },
    }
}

/// The set-aside items that came from reef `h`.
pub open spec fn set_aside_from(set_aside: Seq<(Prey, usize)>, h: int) -> Multiset<Prey>
    decreases set_aside.len(),
{
    if set_aside.len() == 0 {
        Multiset::empty()
    } else if set_aside.last().1 as int == h {
        set_aside_from(set_aside.drop_last(), h).insert(set_aside.last().0)
    } else {
        set_aside_from(set_aside.drop_last(), h)
    }
}

/// Two arenas of populations that hold the same items reef by reef, in whatever order.
pub open spec fn same_populations(a: Seq<Seq<Prey>>, b: Seq<Seq<Prey>>) -> bool {
    a.len() == b.len() && forall|j: int| 0 <= j < a.len() ==> #[trigger] a[j].to_multiset() == b[j].to_multiset()
}

/// `after` is `before` less the one item `p`, eaten from reef `h`: `h` is among the crab's
/// reefs, `p` suits the crab's diet, and every other reef holds the same items as before.
pub open spec fn eaten_from(
    diet: Diet,
    handles: Seq<usize>,
    before: Seq<Seq<Prey>>,
    after: Seq<Seq<Prey>>,
    h: usize,
    p: Prey,
) -> bool {
    &&& handles.contains(h)
    &&& names_reef(before, h)
    &&& compatible(diet, diet_of(p))
    &&& before.len() == after.len()
    &&& before[h as int].to_multiset() == after[h as int].to_multiset().insert(p)
    &&& forall|j: int|
        0 <= j < before.len() && j != h as int ==> #[trigger] after[j].to_multiset() == before[j].to_multiset()
}

/// What a hunt's outcome owes to the arena it started from: when nothing was eaten every reef
/// holds what it held, and otherwise exactly one suitable item is gone from one of the crab's reefs.
pub open spec fn accounted_for(
    diet: Diet,
    handles: Seq<usize>,
    before: Seq<Seq<Prey>>,
    outcome: (bool, Seq<Seq<Prey>>, u64),
) -> bool {
    &&& !outcome.0 ==> same_populations(outcome.1, before)
    &&& outcome.0 ==> exists|h: usize, p: Prey| eaten_from(diet, handles, before, outcome.1, h, p)
}

/// Putting set-aside items back adds, to each reef, the items that came from it.
proof fn lemma_release_all(pops: Seq<Seq<Prey>>, set_aside: Seq<(Prey, usize)>)
    requires
        forall|i: int| 0 <= i < set_aside.len() ==> names_reef(pops, #[trigger] set_aside[i].1),
    ensures
        release_all(pops, set_aside).len() == pops.len(),
        forall|j: int|
            0 <= j < pops.len() ==> #[trigger] release_all(pops, set_aside)[j].to_multiset()
                == pops[j].to_multiset().add(set_aside_from(set_aside, j)),
    decreases set_aside.len(),
{
    broadcast use vstd::seq_lib::group_to_multiset_ensures;

    if set_aside.len() > 0 {
        let front = set_aside.drop_last();
        assert forall|i: int| 0 <= i < front.len() implies names_reef(pops, #[trigger] front[i].1) by {
            assert(front[i] == set_aside[i]);
        }
        lemma_release_all(pops, front);
        let r = release_all(pops, front);
        let (p, h) = set_aside.last();
        assert(names_reef(pops, set_aside[set_aside.len() - 1].1));
        assert forall|j: int| 0 <= j < pops.len() implies #[trigger] release_all(pops, set_aside)[j].to_multiset()
            == pops[j].to_multiset().add(set_aside_from(set_aside, j)) by {
            if j == h as int {
                assert(r[j].push(p).to_multiset() == r[j].to_multiset().insert(p));
                assert(release_all(pops, set_aside)[j].to_multiset() =~= pops[j].to_multiset().add(
                    set_aside_from(set_aside, j),
                ));
            }
        }
    }
}

/// Taking the first item of reef `h` and setting it aside leaves the arena, once every
/// set-aside item is back, holding what it held.
proof fn lemma_set_aside_step(pops: Seq<Seq<Prey>>, set_aside: Seq<(Prey, usize)>, h: usize)
    requires
        names_reef(pops, h),
        pops[h as int].len() > 0,
        forall|i: int| 0 <= i < set_aside.len() ==> names_reef(pops, #[trigger] set_aside[i].1),
    ensures
        same_populations(
            release_all(take_from(pops, h as int), set_aside.push((pops[h as int][0], h))),
            release_all(pops, set_aside),
        ),
{
    broadcast use vstd::seq_lib::group_to_multiset_ensures;

    let rest = take_from(pops, h as int);
    let more = set_aside.push((pops[h as int][0], h));
    assert forall|i: int| 0 <= i < more.len() implies names_reef(rest, #[trigger] more[i].1) by {
        if i < set_aside.len() {
            assert(more[i] == set_aside[i]);
        }
    }
    lemma_release_all(rest, more);
    lemma_release_all(pops, set_aside);
    assert(more.drop_last() =~= set_aside);
    let s = pops[h as int];
    assert(s.drop_first() =~= s.remove(0));
    assert(s.to_multiset() =~= s.drop_first().to_multiset().insert(s[0]));
    assert forall|j: int| 0 <= j < pops.len() implies #[trigger] release_all(rest, more)[j].to_multiset()
        == release_all(pops, set_aside)[j].to_multiset() by {
        if j == h as int {
            assert(release_all(rest, more)[j].to_multiset() =~= release_all(pops, set_aside)[j].to_multiset());
        }
    }
}

/// Eating the first item of the reef at position `k` of the crab's list, once every set-aside
/// item is back, leaves the arena it started from less that one item.
proof fn lemma_eat_first(
    diet: Diet,
    handles: Seq<usize>,
    pops: Seq<Seq<Prey>>,
    set_aside: Seq<(Prey, usize)>,
    k: int,
)
    requires
        0 <= k < handles.len(),
        names_reef(pops, handles[k]),
        pops[handles[k] as int].len() > 0,
        compatible(diet, diet_of(pops[handles[k] as int][0])),
        forall|i: int| 0 <= i < set_aside.len() ==> names_reef(pops, #[trigger] set_aside[i].1),
    ensures
        eaten_from(
            diet,
            handles,
            release_all(pops, set_aside),
            release_all(take_from(pops, handles[k] as int), set_aside),
            handles[k],
            pops[handles[k] as int][0],
        ),
{
    broadcast use vstd::seq_lib::group_to_multiset_ensures;

    let h = handles[k];
    let p = pops[h as int][0];
    let rest = take_from(pops, h as int);
    let start = release_all(pops, set_aside);
    lemma_release_all(pops, set_aside);
    assert forall|i: int| 0 <= i < set_aside.len() implies names_reef(rest, #[trigger] set_aside[i].1) by {}
    lemma_release_all(rest, set_aside);
    let after = release_all(rest, set_aside);
    let s = pops[h as int];
    assert(s.drop_first() =~= s.remove(0));
    assert(s.to_multiset() =~= s.drop_first().to_multiset().insert(s[0]));
    assert(after[h as int].to_multiset().insert(p) =~= start[h as int].to_multiset());
    assert forall|j: int| 0 <= j < start.len() && j != h as int implies #[trigger] after[j].to_multiset()
        == start[j].to_multiset() by {}
    assert(handles.contains(h)) by {
        assert(handles[k] == h);
    }
}

/// What is owed to one arena is owed to another that holds the same items reef by reef.
proof fn lemma_accounted_for_same(
    diet: Diet,
    handles: Seq<usize>,
    a: Seq<Seq<Prey>>,
    b: Seq<Seq<Prey>>,
    outcome: (bool, Seq<Seq<Prey>>, u64),
)
    requires
        same_populations(a, b),
        accounted_for(diet, handles, a, outcome),
    ensures
        accounted_for(diet, handles, b, outcome),
{
    if outcome.0 {
        let (h, p) = choose|h: usize, p: Prey| eaten_from(diet, handles, a, outcome.1, h, p);
        assert(a[h as int].to_multiset() == b[h as int].to_multiset());
        assert(eaten_from(diet, handles, b, outcome.1, h, p));
    } else {
        assert forall|j: int| 0 <= j < outcome.1.len() implies #[trigger] outcome.1[j].to_multiset()
            == b[j].to_multiset() by {
            assert(a[j].to_multiset() == b[j].to_multiset());
        }
    }
}

/// What a hunt from any intermediate state ends with, against the arena with every
/// set-aside item back: nothing lost when nothing is eaten, one suitable item less otherwise.
proof fn lemma_hunt_accounting(
    diet: Diet,
    speed: u32,
    handles: Seq<usize>,
    pops: Seq<Seq<Prey>>,
    seed: u64,
    set_aside: Seq<(Prey, usize)>,
)
    requires
        forall|i: int| 0 <= i < set_aside.len() ==> names_reef(pops, #[trigger] set_aside[i].1),
    ensures
        accounted_for(
            diet,
            handles,
            release_all(pops, set_aside),
            hunt_outcome(diet, speed, handles, pops, seed, set_aside),
        ),
    decreases total(pops),
{
    lemma_first_stocked_from(handles, pops, 0);
    match first_stocked(handles, pops) {
        None => {
            lemma_release_all(pops, set_aside);
        },
        Some(k) => {
            let h = handles[k];
            let p = pops[h as int][0];
            let rest = take_from(pops, h as int);
            lemma_total_take(pops, h as int);
            if rejected(diet, speed, p, seed) {
                let more = set_aside.push((p, h));
                assert forall|i: int| 0 <= i < more.len() implies names_reef(rest, #[trigger] more[i].1) by {
                    if i < set_aside.len() {
                        assert(more[i] == set_aside[i]);
                    }
                }
                lemma_hunt_accounting(diet, speed, handles, rest, next_state(seed), more);
                lemma_set_aside_step(pops, set_aside, h);
                lemma_accounted_for_same(
                    diet,
                    handles,
                    release_all(rest, more),
                    release_all(pops, set_aside),
                    hunt_outcome(diet, speed, handles, rest, next_state(seed), more),
                );
            } else {
                lemma_eat_first(diet, handles, pops, set_aside, k);
                assert(hunt_outcome(diet, speed, handles, pops, seed, set_aside) == (
                    true,
                    release_all(rest, set_aside),
                    next_state(seed),
                ));
                let outcome = hunt_outcome(diet, speed, handles, pops, seed, set_aside);
                assert(eaten_from(diet, handles, release_all(pops, set_aside), outcome.1, h, p));
            }
        },
    }
}

/// Arenas whose reefs have the same sizes hold the same number of items.
proof fn lemma_total_same_sizes(a: Seq<Seq<Prey>>, b: Seq<Seq<Prey>>)
    requires
        a.len() == b.len(),
        forall|j: int| 0 <= j < a.len() ==> #[trigger] a[j].len() == b[j].len(),
    ensures
        total(a) == total(b),
    decreases a.len(),
{
    if a.len() > 0 {
        lemma_total_same_sizes(a.drop_last(), b.drop_last());
    }
}

/// A hunt from any intermediate state in which one of the crab's reefs holds an item that
/// never escapes and suits the crab's diet ends in a meal: that item, or one offered before it, is eaten.
proof fn lemma_sure_prey_is_caught(
    diet: Diet,
    speed: u32,
    handles: Seq<usize>,
    pops: Seq<Seq<Prey>>,
    seed: u64,
    set_aside: Seq<(Prey, usize)>,
    k: int,
    i: int,
)
    requires
        0 <= k < handles.len(),
        names_reef(pops, handles[k]),
        0 <= i < pops[handles[k] as int].len(),
        never_escapes(pops[handles[k] as int][i]),
        compatible(diet, diet_of(pops[handles[k] as int][i])),
    ensures
        hunt_outcome(diet, speed, handles, pops, seed, set_aside).0,
    decreases total(pops),
{
    lemma_first_stocked_from(handles, pops, 0);
    let q = pops[handles[k] as int][i];
    match first_stocked(handles, pops) {
        None => {},
        Some(k2) => {
            let h = handles[k2];
            let p = pops[h as int][0];
            let rest = take_from(pops, h as int);
            lemma_total_take(pops, h as int);
            if rejected(diet, speed, p, seed) {
                let more = set_aside.push((p, h));
                if handles[k] == h {
                    assert(i != 0);
                    assert(rest[h as int][i - 1] == q);
                    lemma_sure_prey_is_caught(diet, speed, handles, rest, next_state(seed), more, k, i - 1);
                } else {
                    assert(rest[handles[k] as int] == pops[handles[k] as int]);
                    lemma_sure_prey_is_caught(diet, speed, handles, rest, next_state(seed), more, k, i);
                }
            }
        },
    }
}

/// Every prey item that a hunt does not eat is back in the reef it came from: with nothing
/// eaten each reef holds the items it held, and with a meal exactly one item, one that suits
/// the crab's diet, is gone from one of the crab's reefs, every other reef holding what it held.
pub proof fn hunt_restores_uneaten(
    diet: Diet,
    speed: u32,
    handles: Seq<usize>,
    pops: Seq<Seq<Prey>>,
    seed: u64,
)
    ensures
        accounted_for(diet, handles, pops, hunt_outcome(diet, speed, handles, pops, seed, Seq::empty())),
{
    lemma_hunt_accounting(diet, speed, handles, pops, seed, Seq::empty());
    assert(release_all(pops, Seq::empty()) == pops);
}

/// A hunt conserves prey: the items left in the arena, plus the one eaten if any,
/// number as many as before, and no reef appears or disappears.
pub proof fn hunt_conserves_prey(
    diet: Diet,
    speed: u32,
    handles: Seq<usize>,
    pops: Seq<Seq<Prey>>,
    seed: u64,
)
    ensures
        ({
            let outcome = hunt_outcome(diet, speed, handles, pops, seed, Seq::empty());
            &&& outcome.1.len() == pops.len()
            &&& total(outcome.1) + (if outcome.0 { 1nat } else { 0nat }) == total(pops)
        }),
{
    broadcast use vstd::seq_lib::group_to_multiset_ensures;

    hunt_restores_uneaten(diet, speed, handles, pops, seed);
    let outcome = hunt_outcome(diet, speed, handles, pops, seed, Seq::empty());
    let after = outcome.1;
    if outcome.0 {
        let (h, p) = choose|h: usize, p: Prey| eaten_from(diet, handles, pops, after, h, p);
        let mid = pops.update(h as int, after[h as int]);
        assert(pops[h as int].to_multiset().len() == after[h as int].to_multiset().len() + 1);
        lemma_total_update(pops, h as int, after[h as int]);
        assert forall|j: int| 0 <= j < mid.len() implies #[trigger] mid[j].len() == after[j].len() by {
            if j != h as int {
                assert(after[j].to_multiset().len() == pops[j].to_multiset().len());
            }
        }
        lemma_total_same_sizes(mid, after);
    } else {
        assert forall|j: int| 0 <= j < pops.len() implies #[trigger] pops[j].len() == after[j].len() by {
            assert(after[j].to_multiset().len() == pops[j].to_multiset().len());
        }
        lemma_total_same_sizes(pops, after);
    }
}

/// A crab that has discovered no reef eats nothing, and nothing changes:
/// neither the reefs nor the random state.
pub proof fn hunt_without_reefs(diet: Diet, speed: u32, handles: Seq<usize>, pops: Seq<Seq<Prey>>, seed: u64)
    requires
        handles.len() == 0,
    ensures
        hunt_outcome(diet, speed, handles, pops, seed, Seq::empty()) == (false, pops, seed),
{
    assert(release_all(pops, Seq::empty()) == pops);
}

/// A crab whose reefs hold an item that never escapes and suits its diet always eats,
/// and the arena holds one item less; when the crab knows a single reef, that reef loses one item.
pub proof fn hunt_catches_sure_prey(
    diet: Diet,
    speed: u32,
    handles: Seq<usize>,
    pops: Seq<Seq<Prey>>,
    seed: u64,
    k: int,
    i: int,
)
    requires
        0 <= k < handles.len(),
        names_reef(pops, handles[k]),
        0 <= i < pops[handles[k] as int].len(),
        never_escapes(pops[handles[k] as int][i]),
        compatible(diet, diet_of(pops[handles[k] as int][i])),
    ensures
        ({
            let outcome = hunt_outcome(diet, speed, handles, pops, seed, Seq::empty());
            &&& outcome.0
            &&& total(outcome.1) + 1 == total(pops)
            &&& handles.len() == 1 ==> outcome.1[handles[0] as int].len() + 1 == pops[handles[0] as int].len()
        }),
{
    broadcast use vstd::seq_lib::group_to_multiset_ensures;

    lemma_sure_prey_is_caught(diet, speed, handles, pops, seed, Seq::empty(), k, i);
    hunt_conserves_prey(diet, speed, handles, pops, seed);
    hunt_restores_uneaten(diet, speed, handles, pops, seed);
    let outcome = hunt_outcome(diet, speed, handles, pops, seed, Seq::empty());
    let (h, p) = choose|h: usize, p: Prey| eaten_from(diet, handles, pops, outcome.1, h, p);
    if handles.len() == 1 {
        assert(h == handles[0]);
        assert(pops[h as int].to_multiset().len() == outcome.1[h as int].to_multiset().len() + 1);
    }
}

/// A crab whose reefs hold nothing that suits its diet eats nothing, and every reef
/// holds the same items afterwards.
pub proof fn hunt_skips_unsuitable_prey(
    diet: Diet,
    speed: u32,
    handles: Seq<usize>,
    pops: Seq<Seq<Prey>>,
    seed: u64,
)
    requires
        forall|k: int, i: int|
            0 <= k < handles.len() && names_reef(pops, handles[k]) && 0 <= i < pops[handles[k] as int].len()
                ==> !compatible(diet, diet_of(#[trigger] pops[handles[k] as int][i])),
    ensures
        !hunt_outcome(diet, speed, handles, pops, seed, Seq::empty()).0,
        same_populations(hunt_outcome(diet, speed, handles, pops, seed, Seq::empty()).1, pops),
{
    broadcast use vstd::seq_lib::group_to_multiset_ensures;

    hunt_restores_uneaten(diet, speed, handles, pops, seed);
    let outcome = hunt_outcome(diet, speed, handles, pops, seed, Seq::empty());
    if outcome.0 {
        let (h, p) = choose|h: usize, p: Prey| eaten_from(diet, handles, pops, outcome.1, h, p);
        let k = choose|k: int| 0 <= k < handles.len() && handles[k] == h;
        assert(pops[h as int].to_multiset().count(p) > 0);
        assert(pops[h as int].contains(p));
        let i = choose|i: int| 0 <= i < pops[h as int].len() && pops[h as int][i] == p;
        assert(!compatible(diet, diet_of(pops[handles[k] as int][i])));
    }
}

/// `n` hunts in a row by one crab, each starting where the last one ended: the number of
/// items eaten, the populations at the end and the final random state.
pub open spec fn hunt_series(
    diet: Diet,
    speed: u32,
    handles: Seq<usize>,
    pops: Seq<Seq<Prey>>,
    seed: u64,
    n: nat,
) -> (nat, Seq<Seq<Prey>>, u64)
    decreases n,
{
    if n == 0 {
        (0, pops, seed)
    } else {
        let earlier = hunt_series(diet, speed, handles, pops, seed, (n - 1) as nat);
        let last = hunt_outcome(diet, speed, handles, earlier.1, earlier.2, Seq::empty());
        (earlier.0 + if last.0 { 1nat } else { 0nat }, last.1, last.2)
    }
}

/// Over any number of hunts, the items left in the arena plus the items eaten so far
/// number as many as the arena held at the start.
pub proof fn hunt_series_conserves_prey(
    diet: Diet,
    speed: u32,
    handles: Seq<usize>,
    pops: Seq<Seq<Prey>>,
    seed: u64,
    n: nat,
)
    ensures
        hunt_series(diet, speed, handles, pops, seed, n).1.len() == pops.len(),
        total(hunt_series(diet, speed, handles, pops, seed, n).1) + hunt_series(diet, speed, handles, pops, seed, n).0
            == total(pops),
    decreases n,
{
    if n > 0 {
        hunt_series_conserves_prey(diet, speed, handles, pops, seed, (n - 1) as nat);
        let earlier = hunt_series(diet, speed, handles, pops, seed, (n - 1) as nat);
        hunt_conserves_prey(diet, speed, handles, earlier.1, earlier.2);
    }
}

} // verus!
