//! The search for the neighbour that an objective values most.
//!
//! Every neighbour is valued once, in the order of the neighbourhood, and
//! the greatest value wins; of several neighbours of the greatest value the
//! last one wins.

use vstd::prelude::*;
use crate::Neighborhood;
use crate::traits::numeric::Numeric;

verus! {

/// `k` is the place of the last maximum of `ranks`.
pub open spec fn is_last_maximum(ranks: Seq<int>, k: int) -> bool {
    &&& 0 <= k < ranks.len()
    &&& forall|j: int| 0 <= j < ranks.len() ==> ranks[j] <= ranks[k]
    &&& forall|j: int| k < j < ranks.len() ==> ranks[j] < ranks[k]
}

/// The ranks of the objective values of `candidates`.
pub open spec fn ranks_of<T: Numeric, V>(candidates: Seq<((u32, u32), (T, V))>) -> Seq<int> {
    Seq::new(candidates.len(), |i: int| candidates[i].1.0.rank())
}

/// `best` is what the search over `candidates` returns: nothing where there
/// is no candidate, and else the candidate at the last maximum.
pub open spec fn chosen<T: Numeric, V>(
    candidates: Seq<((u32, u32), (T, V))>,
    best: Option<((u32, u32), (T, V))>,
) -> bool {
    match best {
        None => candidates.len() == 0,
        Some(found) => exists|k: int| #[trigger]
            is_last_maximum(ranks_of(candidates), k) && found == candidates[k],
    }
}

/// `best` is what the search over `candidates` returns, the payload left out.
pub open spec fn chosen_value<T: Numeric>(
    candidates: Seq<((u32, u32), (T, ()))>,
    best: Option<((u32, u32), T)>,
) -> bool {
    match best {
        None => candidates.len() == 0,
        Some(found) => exists|k: int| #[trigger]
            is_last_maximum(ranks_of(candidates), k) && found == (
                candidates[k].0,
                candidates[k].1.0,
            ),
    }
}

/// Ranks have one last maximum and no more.
pub proof fn lemma_last_maximum_unique(ranks: Seq<int>, k: int, m: int)
    requires
        is_last_maximum(ranks, k),
        is_last_maximum(ranks, m),
    ensures
        k == m,
{
    if k < m {
        assert(ranks[m] < ranks[k]);
        assert(ranks[k] <= ranks[m]);
    } else if m < k {
        assert(ranks[k] < ranks[m]);
        assert(ranks[m] <= ranks[k]);
    }
}

/// Of two candidates tied at the greatest value, the later one is the last
/// maximum.
pub proof fn lemma_tie_goes_to_the_last(ranks: Seq<int>, first: int, last: int, k: int)
    requires
        0 <= first < last < ranks.len(),
        ranks[first] == ranks[last],
        forall|j: int| 0 <= j < ranks.len() ==> ranks[j] <= ranks[last],
        forall|j: int| 0 <= j < ranks.len() && ranks[j] == ranks[last] ==> j == first || j == last,
        is_last_maximum(ranks, k),
    ensures
        k == last,
{
    if k != last {
        if k < last {
            assert(ranks[last] < ranks[k]);
        } else {
            assert(ranks[k] <= ranks[last]);
            assert(ranks[last] <= ranks[k]);
        }
    }
}

/// The candidate of the greatest objective value, the last of them where
/// several share it.
pub fn last_maximum<T: Numeric, V>(candidates: Vec<((u32, u32), (T, V))>) -> (best: Option<
    ((u32, u32), (T, V)),
>)
    ensures
        chosen(candidates@, best),
{
    let ghost all = candidates@;
    let ghost ranks = ranks_of(all);
    let mut rest = candidates;
    let mut best: ((u32, u32), (T, V)) = match rest.pop() {
        None => {
            return None;
        },
        Some(last) => last,
    };
    let ghost mut k: int = all.len() - 1;
    while rest.len() > 0
        invariant
            ranks == ranks_of(all),
            rest@ == all.take(rest.len() as int),
            rest.len() <= k < all.len(),
            best == all[k],
            forall|j: int| rest.len() <= j < all.len() ==> ranks[j] <= ranks[k],
            forall|j: int| k < j < all.len() ==> ranks[j] < ranks[k],
        decreases rest.len(),
    {
        let ghost before = rest@;
        let next: ((u32, u32), (T, V)) = match rest.pop() {
            None => {
                return None;
            },
            Some(next) => next,
        };
        assert(next == all[rest.len() as int]) by {
            assert(before[rest.len() as int] == all[rest.len() as int]);
        }
        assert(rest@ =~= all.take(rest.len() as int));
        if !best.1.0.at_least(next.1.0) {
            best = next;
            proof {
                k = rest.len() as int;
            }
        }
    }
    assert(is_last_maximum(ranks_of(all), k));
    Some(best)
}

/// The candidate of the greatest objective value among candidates that
/// carry no payload.
pub fn last_maximum_value<T: Numeric>(candidates: Vec<((u32, u32), (T, ()))>) -> (best: Option<
    ((u32, u32), T),
>)
    ensures
        chosen_value(candidates@, best),
{
    match last_maximum(candidates) {
        None => None,
        Some(found) => {
            let ghost k = choose|k: int| #[trigger]
                is_last_maximum(ranks_of(candidates@), k) && found == candidates@[k];
            assert(is_last_maximum(ranks_of(candidates@), k));
            Some((found.0, found.1.0))
        },
    }
}

/// `candidates` pairs each point of `hood` with a value that `objective`
/// may return for it.
pub open spec fn valued<S, T, F: Fn(&S, (u32, u32), (u32, u32)) -> T>(
    objective: F,
    subject: &S,
    self_point: (u32, u32),
    hood: Seq<(u32, u32)>,
    candidates: Seq<((u32, u32), (T, ()))>,
) -> bool {
    &&& candidates.len() == hood.len()
    &&& forall|i: int|
        0 <= i < hood.len() ==> (#[trigger] candidates[i]).0 == hood[i] && call_ensures(
            objective,
            (subject, self_point, hood[i]),
            candidates[i].1.0,
        )
}

/// `candidates` pairs each point of `hood` with a value and a payload that
/// `objective` may return for it.
pub open spec fn valued_with_payload<S, T, V, F: Fn(&S, (u32, u32), (u32, u32)) -> (T, V)>(
    objective: F,
    subject: &S,
    self_point: (u32, u32),
    hood: Seq<(u32, u32)>,
    candidates: Seq<((u32, u32), (T, V))>,
) -> bool {
    &&& candidates.len() == hood.len()
    &&& forall|i: int|
        0 <= i < hood.len() ==> (#[trigger] candidates[i]).0 == hood[i] && call_ensures(
            objective,
            (subject, self_point, hood[i]),
            candidates[i].1,
        )
}

/// `candidates` pairs each point of `hood` with a value that `objective`
/// may return for it under the coefficients `c`.
pub open spec fn valued_under<S, T, U, F: Fn(&S, (u32, u32), (u32, u32), U) -> T>(
    objective: F,
    subject: &S,
    self_point: (u32, u32),
    hood: Seq<(u32, u32)>,
    c: U,
    candidates: Seq<((u32, u32), (T, ()))>,
) -> bool {
    &&& candidates.len() == hood.len()
    &&& forall|i: int|
        0 <= i < hood.len() ==> (#[trigger] candidates[i]).0 == hood[i] && call_ensures(
            objective,
            (subject, self_point, hood[i], c),
            candidates[i].1.0,
        )
}

/// Values every point of `hood` by `objective` and returns the point valued
/// most, the last of them where several share the greatest value.
pub fn best_peer<S, T: Numeric, F: Fn(&S, (u32, u32), (u32, u32)) -> T>(
    subject: &S,
    self_point: (u32, u32),
    hood: Vec<(u32, u32)>,
    objective: F,
) -> (best: Option<((u32, u32), T)>)
    requires
        forall|i: int|
            0 <= i < hood.len() ==> call_requires(objective, (subject, self_point, #[trigger] hood[i])),
    ensures
        exists|candidates: Seq<((u32, u32), (T, ()))>| #[trigger]
            valued(objective, subject, self_point, hood@, candidates) && chosen_value(
                candidates,
                best,
            ),
{
    let mut candidates: Vec<((u32, u32), (T, ()))> = Vec::new();
    let mut i: usize = 0;
    while i < hood.len()
        invariant
            i <= hood.len(),
            forall|k: int|
                0 <= k < hood.len() ==> call_requires(
                    objective,
                    (subject, self_point, #[trigger] hood[k]),
                ),
            valued(objective, subject, self_point, hood@.take(i as int), candidates@),
        decreases hood.len() - i,
    {
        let neighbor: (u32, u32) = hood[i];
        let value: T = objective(subject, self_point, neighbor);
        candidates.push((neighbor, (value, ())));
        i += 1;
    }
    assert(hood@.take(i as int) =~= hood@);
    let ghost all = candidates@;
    let best = last_maximum_value(candidates);
    assert(valued(objective, subject, self_point, hood@, all) && chosen_value(all, best));
    best
}

/// As `best_peer`, for an objective that hands a payload out with each value.
pub fn best_peer_internal_values<S, T: Numeric, V, F: Fn(&S, (u32, u32), (u32, u32)) -> (T, V)>(
    subject: &S,
    self_point: (u32, u32),
    hood: Vec<(u32, u32)>,
    objective: F,
) -> (best: Option<((u32, u32), (T, V))>)
    requires
        forall|i: int|
            0 <= i < hood.len() ==> call_requires(objective, (subject, self_point, #[trigger] hood[i])),
    ensures
        exists|candidates: Seq<((u32, u32), (T, V))>| #[trigger]
            valued_with_payload(objective, subject, self_point, hood@, candidates) && chosen(
                candidates,
                best,
            ),
{
    let mut candidates: Vec<((u32, u32), (T, V))> = Vec::new();
    let mut i: usize = 0;
    while i < hood.len()
        invariant
            i <= hood.len(),
            forall|k: int|
                0 <= k < hood.len() ==> call_requires(
                    objective,
                    (subject, self_point, #[trigger] hood[k]),
                ),
            valued_with_payload(objective, subject, self_point, hood@.take(i as int), candidates@),
        decreases hood.len() - i,
    {
        let neighbor: (u32, u32) = hood[i];
        let outcome: (T, V) = objective(subject, self_point, neighbor);
        candidates.push((neighbor, outcome));
        i += 1;
    }
    assert(hood@.take(i as int) =~= hood@);
    let ghost all = candidates@;
    let best = last_maximum(candidates);
    assert(valued_with_payload(objective, subject, self_point, hood@, all) && chosen(all, best));
    best
}

/// As `best_peer`, for an objective that takes coefficients.
pub fn best_peer_with_coefficients<
    S,
    T: Numeric,
    U: Copy,
    F: Fn(&S, (u32, u32), (u32, u32), U) -> T,
>(subject: &S, self_point: (u32, u32), hood: Vec<(u32, u32)>, objective: F, c: U) -> (best: Option<
    ((u32, u32), T),
>)
    requires
        forall|i: int|
            0 <= i < hood.len() ==> call_requires(
                objective,
                (subject, self_point, #[trigger] hood[i], c),
            ),
    ensures
        exists|candidates: Seq<((u32, u32), (T, ()))>| #[trigger]
            valued_under(objective, subject, self_point, hood@, c, candidates) && chosen_value(
                candidates,
                best,
            ),
{
    let mut candidates: Vec<((u32, u32), (T, ()))> = Vec::new();
    let mut i: usize = 0;
    while i < hood.len()
        invariant
            i <= hood.len(),
            forall|k: int|
                0 <= k < hood.len() ==> call_requires(
                    objective,
                    (subject, self_point, #[trigger] hood[k], c),
                ),
            valued_under(objective, subject, self_point, hood@.take(i as int), c, candidates@),
        decreases hood.len() - i,
    {
        let neighbor: (u32, u32) = hood[i];
        let value: T = objective(subject, self_point, neighbor, c);
        candidates.push((neighbor, (value, ())));
        i += 1;
    }
    assert(hood@.take(i as int) =~= hood@);
    let ghost all = candidates@;
    let best = last_maximum_value(candidates);
    assert(valued_under(objective, subject, self_point, hood@, c, all) && chosen_value(all, best));
    best
}

/// Values the points of `hood` from place `start` on, each once and in
/// order, the coefficients handed from each call to the next.
fn value_peers_from<S, T: Numeric, U, V, F>(
    subject: &S,
    self_point: (u32, u32),
    hood: &Vec<(u32, u32)>,
    start: usize,
    objective: &F,
    c: &mut U,
    candidates: &mut Vec<((u32, u32), (T, V))>,
) where F: for <'a>Fn(&'a S, (u32, u32), (u32, u32), &'a mut U) -> (T, V)
    requires
        start <= hood.len(),
        old(candidates).len() == start,
        forall|k: int, steps: Seq<&mut U>, outcomes: Seq<(T, V)>, m: &mut U|
            #![trigger steps.len(), outcomes.len(), call_requires(*objective, (subject, self_point, hood[k], m))]
            {
                &&& start <= k < hood.len()
                &&& steps.len() == hood.len()
                &&& outcomes.len() == hood.len()
                &&& forall|i: int|
                    start <= i < k ==> #[trigger] call_ensures(
                        *objective,
                        (subject, self_point, hood[i], steps[i]),
                        outcomes[i],
                    )
                &&& start < k ==> *steps[start as int] == *old(c)
                &&& forall|i: int| start <= i < k - 1 ==> *final(#[trigger] steps[i]) == *steps[i + 1]
                &&& start < k ==> *m == *final(steps[k - 1])
                &&& start == k ==> *m == *old(c)
            } ==> call_requires(*objective, (subject, self_point, hood[k], m)),
    ensures
        final(candidates).len() == hood.len(),
        forall|i: int| 0 <= i < start ==> final(candidates)@[i] == old(candidates)@[i],
        forall|i: int| start <= i < hood.len() ==> (#[trigger] final(candidates)@[i]).0 == hood[i],
        exists|steps: Seq<&mut U>|
            #![trigger steps.len()]
            {
                &&& steps.len() == hood.len()
                &&& forall|i: int|
                    start <= i < hood.len() ==> #[trigger] call_ensures(
                        *objective,
                        (subject, self_point, hood[i], steps[i]),
                        final(candidates)@[i].1,
                    )
                &&& start < hood.len() ==> *steps[start as int] == *old(c)
                &&& forall|i: int|
                    start <= i < hood.len() - 1 ==> *final(#[trigger] steps[i]) == *steps[i + 1]
                &&& start < hood.len() ==> *final(steps[hood.len() - 1]) == *final(c)
                &&& start == hood.len() ==> *final(c) == *old(c)
            },
    decreases hood.len() - start,
{
    if start == hood.len() {
        proof {
            let idle: &mut U = arbitrary();
            let steps = Seq::new(hood.len() as nat, |i: int| idle);
            assert({
                &&& steps.len() == hood.len()
                &&& forall|i: int|
                    start <= i < hood.len() ==> #[trigger] call_ensures(
                        *objective,
                        (subject, self_point, hood[i], steps[i]),
                        candidates@[i].1,
                    )
                &&& start < hood.len() ==> *steps[start as int] == *old(c)
                &&& forall|i: int|
                    start <= i < hood.len() - 1 ==> *final(#[trigger] steps[i]) == *steps[i + 1]
                &&& start < hood.len() ==> *final(steps[hood.len() - 1]) == *c
                &&& start == hood.len() ==> *c == *old(c)
            });
        }
        return ;
    }
    let neighbor: (u32, u32) = hood[start];
    let ghost before = *c;
    proof {
        let idle: &mut U = arbitrary();
        let spare: (T, V) = arbitrary();
        let no_steps = Seq::new(hood.len() as nat, |i: int| idle);
        let no_outcomes = Seq::new(hood.len() as nat, |i: int| spare);
        assert(no_steps.len() == hood.len() && no_outcomes.len() == hood.len());
    }
    let outcome: (T, V) = objective(subject, self_point, neighbor, c);
    let ghost between = *c;
    candidates.push((neighbor, outcome));
    let ghost pushed = candidates@;
    assert forall|k: int, steps: Seq<&mut U>, outcomes: Seq<(T, V)>, m: &mut U|
        #![trigger steps.len(), outcomes.len(), call_requires(*objective, (subject, self_point, hood[k], m))]
        {
            &&& start + 1 <= k < hood.len()
            &&& steps.len() == hood.len()
            &&& outcomes.len() == hood.len()
            &&& forall|i: int|
                start + 1 <= i < k ==> #[trigger] call_ensures(
                    *objective,
                    (subject, self_point, hood[i], steps[i]),
                    outcomes[i],
                )
            &&& start + 1 < k ==> *steps[start + 1] == between
            &&& forall|i: int| start + 1 <= i < k - 1 ==> *final(#[trigger] steps[i]) == *steps[i + 1]
            &&& start + 1 < k ==> *m == *final(steps[k - 1])
            &&& start + 1 == k ==> *m == between
        } implies call_requires(*objective, (subject, self_point, hood[k], m)) by {
        let first = choose|mm: &mut U|
            #[trigger] call_ensures(*objective, (subject, self_point, neighbor, mm), outcome)
                && *mm == before && *final(mm) == between;
        let longer = steps.update(start as int, first);
        let known = outcomes.update(start as int, outcome);
        assert(longer.len() == hood.len() && known.len() == hood.len());
        assert forall|i: int| start <= i < k implies #[trigger] call_ensures(
            *objective,
            (subject, self_point, hood[i], longer[i]),
            known[i],
        ) by {
            if i > start {
                assert(longer[i] == steps[i] && known[i] == outcomes[i]);
                assert(call_ensures(
                    *objective,
                    (subject, self_point, hood[i], steps[i]),
                    outcomes[i],
                ));
            }
        }
        assert forall|i: int| start <= i < k - 1 implies *final(#[trigger] longer[i]) == *longer[i
            + 1] by {
            assert(longer[i + 1] == steps[i + 1]);
            if i > start {
                assert(longer[i] == steps[i]);
                assert(*final(steps[i]) == *steps[i + 1]);
            }
        }
        if k - 1 > start {
            assert(longer[k - 1] == steps[k - 1]);
        }
    }
    value_peers_from(subject, self_point, hood, start + 1, objective, c, candidates);
    proof {
        let first = choose|m: &mut U|
            #[trigger] call_ensures(*objective, (subject, self_point, neighbor, m), outcome) && *m
                == before && *final(m) == between;
        let rest = choose|steps: Seq<&mut U>|
            #![trigger steps.len()]
            {
                &&& steps.len() == hood.len()
                &&& forall|i: int|
                    start + 1 <= i < hood.len() ==> #[trigger] call_ensures(
                        *objective,
                        (subject, self_point, hood[i], steps[i]),
                        candidates@[i].1,
                    )
                &&& start + 1 < hood.len() ==> *steps[(start + 1) as int] == between
                &&& forall|i: int|
                    start + 1 <= i < hood.len() - 1 ==> *final(#[trigger] steps[i]) == *steps[i
                        + 1]
                &&& start + 1 < hood.len() ==> *final(steps[hood.len() - 1]) == *c
                &&& start + 1 == hood.len() ==> *c == between
            };
        let steps = rest.update(start as int, first);
        assert(candidates@[start as int] == pushed[start as int]);
        assert forall|i: int| start <= i < hood.len() implies #[trigger] call_ensures(
            *objective,
            (subject, self_point, hood[i], steps[i]),
            candidates@[i].1,
        ) by {
            if i > start {
                assert(steps[i] == rest[i]);
                assert(call_ensures(
                    *objective,
                    (subject, self_point, hood[i], rest[i]),
                    candidates@[i].1,
                ));
            }
        }
        assert forall|i: int| start <= i < hood.len() - 1 implies *final(#[trigger] steps[i])
            == *steps[i + 1] by {
            assert(steps[i + 1] == rest[i + 1]);
            if i > start {
                assert(steps[i] == rest[i]);
                assert(*final(rest[i]) == *rest[i + 1]);
            }
        }
        assert({
            &&& steps.len() == hood.len()
            &&& forall|i: int|
                start <= i < hood.len() ==> #[trigger] call_ensures(
                    *objective,
                    (subject, self_point, hood[i], steps[i]),
                    candidates@[i].1,
                )
            &&& start < hood.len() ==> *steps[start as int] == *old(c)
            &&& forall|i: int|
                start <= i < hood.len() - 1 ==> *final(#[trigger] steps[i]) == *steps[i + 1]
            &&& start < hood.len() ==> *final(steps[hood.len() - 1]) == *c
            &&& start == hood.len() ==> *c == *old(c)
        });
    }
}

/// As `best_peer_internal_values`, for an objective that may read and
/// change coefficients as it goes: the neighbours are valued once each and
/// in order, and each call takes the coefficients as the call before it
/// left them.
pub fn best_peer_internal_values_with_coefficients<S, T: Numeric, U, V, F>(
    subject: &S,
    self_point: (u32, u32),
    hood: Vec<(u32, u32)>,
    objective: F,
    c: &mut U,
) -> (best: Option<((u32, u32), (T, V))>) where
    F: for <'a>Fn(&'a S, (u32, u32), (u32, u32), &'a mut U) -> (T, V),

    requires
        forall|k: int, steps: Seq<&mut U>, outcomes: Seq<(T, V)>, m: &mut U|
            #![trigger steps.len(), outcomes.len(), call_requires(objective, (subject, self_point, hood[k], m))]
            {
                &&& 0 <= k < hood.len()
                &&& steps.len() == hood.len()
                &&& outcomes.len() == hood.len()
                &&& forall|i: int|
                    0 <= i < k ==> #[trigger] call_ensures(
                        objective,
                        (subject, self_point, hood[i], steps[i]),
                        outcomes[i],
                    )
                &&& 0 < k ==> *steps[0] == *old(c)
                &&& forall|i: int| 0 <= i < k - 1 ==> *final(#[trigger] steps[i]) == *steps[i + 1]
                &&& 0 < k ==> *m == *final(steps[k - 1])
                &&& 0 == k ==> *m == *old(c)
            } ==> call_requires(objective, (subject, self_point, hood[k], m)),
    ensures
        exists|steps: Seq<&mut U>, candidates: Seq<((u32, u32), (T, V))>|
            #![trigger steps.len(), candidates.len()]
            {
                &&& steps.len() == hood.len()
                &&& candidates.len() == hood.len()
                &&& forall|i: int| 0 <= i < hood.len() ==> (#[trigger] candidates[i]).0 == hood[i]
                &&& forall|i: int|
                    0 <= i < hood.len() ==> #[trigger] call_ensures(
                        objective,
                        (subject, self_point, hood[i], steps[i]),
                        candidates[i].1,
                    )
                &&& 0 < hood.len() ==> *steps[0] == *old(c)
                &&& forall|i: int|
                    0 <= i < hood.len() - 1 ==> *final(#[trigger] steps[i]) == *steps[i + 1]
                &&& 0 < hood.len() ==> *final(steps[hood.len() - 1]) == *final(c)
                &&& 0 == hood.len() ==> *final(c) == *old(c)
                &&& chosen(candidates, best)
            },
{
    let mut candidates: Vec<((u32, u32), (T, V))> = Vec::new();
    value_peers_from(subject, self_point, &hood, 0, &objective, c, &mut candidates);
    let ghost all = candidates@;
    let best = last_maximum(candidates);
    proof {
        let steps = choose|steps: Seq<&mut U>|
            #![trigger steps.len()]
            {
                &&& steps.len() == hood.len()
                &&& forall|i: int|
                    0 <= i < hood.len() ==> #[trigger] call_ensures(
                        objective,
                        (subject, self_point, hood[i], steps[i]),
                        all[i].1,
                    )
                &&& 0 < hood.len() ==> *steps[0] == *old(c)
                &&& forall|i: int|
                    0 <= i < hood.len() - 1 ==> *final(#[trigger] steps[i]) == *steps[i + 1]
                &&& 0 < hood.len() ==> *final(steps[hood.len() - 1]) == *c
                &&& 0 == hood.len() ==> *c == *old(c)
            };
        assert({
            &&& steps.len() == hood.len()
            &&& all.len() == hood.len()
            &&& forall|i: int| 0 <= i < hood.len() ==> (#[trigger] all[i]).0 == hood[i]
            &&& forall|i: int|
                0 <= i < hood.len() ==> #[trigger] call_ensures(
                    objective,
                    (subject, self_point, hood[i], steps[i]),
                    all[i].1,
                )
            &&& 0 < hood.len() ==> *steps[0] == *old(c)
            &&& forall|i: int|
                0 <= i < hood.len() - 1 ==> *final(#[trigger] steps[i]) == *steps[i + 1]
            &&& 0 < hood.len() ==> *final(steps[hood.len() - 1]) == *c
            &&& 0 == hood.len() ==> *c == *old(c)
            &&& chosen(all, best)
        });
    }
    best
}

/// A lattice on which the neighbour that an objective values most can be
/// searched for.
pub trait Optimal<T: Numeric>: Sized {
    /// The neighbourhoods of this radius and shape can be enumerated.
    spec fn searchable(&self, hood_size: usize, hood_type: Neighborhood) -> bool;

    /// The neighbourhood of `self_point`, in the order in which it is searched.
    spec fn peers(&self, self_point: (u32, u32), hood_size: usize, hood_type: Neighborhood) -> Seq<
        (u32, u32),
    >;

    /// Values every neighbour of `self_point` by `objective` and returns the
    /// neighbour valued most with its value.
    fn optimal_peer<F: Fn(&Self, (u32, u32), (u32, u32)) -> T>(
        &self,
        self_point: (u32, u32),
        hood_size: usize,
        hood_type: Neighborhood,
        objective: F,
    ) -> (best: Option<((u32, u32), T)>)
        requires
            self.searchable(hood_size, hood_type),
            forall|i: int|
                0 <= i < self.peers(self_point, hood_size, hood_type).len() ==> call_requires(
                    objective,
                    (self, self_point, #[trigger] self.peers(self_point, hood_size, hood_type)[i]),
                ),
        ensures
            exists|candidates: Seq<((u32, u32), (T, ()))>| #[trigger]
                valued(
                    objective,
                    self,
                    self_point,
                    self.peers(self_point, hood_size, hood_type),
                    candidates,
                ) && chosen_value(candidates, best),
    ;

    /// As `optimal_peer`, for an objective that hands a payload out with
    /// each value; only the value is compared.
    fn optimal_peer_internal_values<V, F: Fn(&Self, (u32, u32), (u32, u32)) -> (T, V)>(
        &self,
        self_point: (u32, u32),
        hood_size: usize,
        hood_type: Neighborhood,
        objective: F,
    ) -> (best: Option<((u32, u32), (T, V))>)
        requires
            self.searchable(hood_size, hood_type),
            forall|i: int|
                0 <= i < self.peers(self_point, hood_size, hood_type).len() ==> call_requires(
                    objective,
                    (self, self_point, #[trigger] self.peers(self_point, hood_size, hood_type)[i]),
                ),
        ensures
            exists|candidates: Seq<((u32, u32), (T, V))>| #[trigger]
                valued_with_payload(
                    objective,
                    self,
                    self_point,
                    self.peers(self_point, hood_size, hood_type),
                    candidates,
                ) && chosen(candidates, best),
    ;

    /// As `optimal_peer`, for an objective that takes the coefficients `c`.
    fn optimal_peer_with_coefficients<U: Copy, F: Fn(&Self, (u32, u32), (u32, u32), U) -> T>(
        &self,
        self_point: (u32, u32),
        hood_size: usize,
        hood_type: Neighborhood,
        objective: F,
        c: U,
    ) -> (best: Option<((u32, u32), T)>)
        requires
            self.searchable(hood_size, hood_type),
            forall|i: int|
                0 <= i < self.peers(self_point, hood_size, hood_type).len() ==> call_requires(
                    objective,
                    (
                        self,
                        self_point,
                        #[trigger] self.peers(self_point, hood_size, hood_type)[i],
                        c,
                    ),
                ),
        ensures
            exists|candidates: Seq<((u32, u32), (T, ()))>| #[trigger]
                valued_under(
                    objective,
                    self,
                    self_point,
                    self.peers(self_point, hood_size, hood_type),
                    c,
                    candidates,
                ) && chosen_value(candidates, best),
    ;

    /// As `optimal_peer_internal_values`, for an objective that may read and
    /// change the coefficients `c` as it goes: the neighbours are valued
    /// once each and in order, the first call takes the coefficients as
    /// they were handed in, each later call takes them as the call before
    /// left them, and the last call leaves them as they are handed back.
    fn optimal_peer_internal_values_with_coefficients<U, V, F>(
        &self,
        self_point: (u32, u32),
        hood_size: usize,
        hood_type: Neighborhood,
        objective: F,
        c: &mut U,
    ) -> (best: Option<((u32, u32), (T, V))>) where
        F: for <'a>Fn(&'a Self, (u32, u32), (u32, u32), &'a mut U) -> (T, V),

        requires
            self.searchable(hood_size, hood_type),
            forall|k: int, steps: Seq<&mut U>, outcomes: Seq<(T, V)>, m: &mut U|
                #![trigger steps.len(), outcomes.len(), call_requires(objective, (self, self_point, self.peers(self_point, hood_size, hood_type)[k], m))]
                {
                    &&& 0 <= k < self.peers(self_point, hood_size, hood_type).len()
                    &&& steps.len() == self.peers(self_point, hood_size, hood_type).len()
                    &&& outcomes.len() == self.peers(self_point, hood_size, hood_type).len()
                    &&& forall|i: int|
                        0 <= i < k ==> #[trigger] call_ensures(
                            objective,
                            (self, self_point, self.peers(self_point, hood_size, hood_type)[i], steps[i]),
                            outcomes[i],
                        )
                    &&& 0 < k ==> *steps[0] == *old(c)
                    &&& forall|i: int| 0 <= i < k - 1 ==> *final(#[trigger] steps[i]) == *steps[i + 1]
                    &&& 0 < k ==> *m == *final(steps[k - 1])
                    &&& 0 == k ==> *m == *old(c)
                } ==> call_requires(objective, (self, self_point, self.peers(self_point, hood_size, hood_type)[k], m)),
        ensures
            exists|steps: Seq<&mut U>, candidates: Seq<((u32, u32), (T, V))>|
                #![trigger steps.len(), candidates.len()]
                {
                    let hood = self.peers(self_point, hood_size, hood_type);
                    &&& steps.len() == hood.len()
                    &&& candidates.len() == hood.len()
                    &&& forall|i: int|
                        0 <= i < hood.len() ==> (#[trigger] candidates[i]).0 == hood[i]
                    &&& forall|i: int|
                        0 <= i < hood.len() ==> #[trigger] call_ensures(
                            objective,
                            (self, self_point, hood[i], steps[i]),
                            candidates[i].1,
                        )
                    &&& 0 < hood.len() ==> *steps[0] == *old(c)
                    &&& forall|i: int|
                        0 <= i < hood.len() - 1 ==> *final(#[trigger] steps[i]) == *steps[i + 1]
                    &&& 0 < hood.len() ==> *final(steps[hood.len() - 1]) == *final(c)
                    &&& 0 == hood.len() ==> *final(c) == *old(c)
                    &&& chosen(candidates, best)
                },
    ;

    /// As `optimal_peer_internal_values_with_coefficients`, over the
    /// neighbours that the caller hands in.
    fn optimal_peer_internal_values_with_coefficients_and_hood<U, V, F>(
        &self,
        self_point: (u32, u32),
        hood: Vec<(u32, u32)>,
        objective: F,
        c: &mut U,
    ) -> (best: Option<((u32, u32), (T, V))>) where
        F: for <'a>Fn(&'a Self, (u32, u32), (u32, u32), &'a mut U) -> (T, V),

        requires
            forall|k: int, steps: Seq<&mut U>, outcomes: Seq<(T, V)>, m: &mut U|
                #![trigger steps.len(), outcomes.len(), call_requires(objective, (self, self_point, hood[k], m))]
                {
                    &&& 0 <= k < hood.len()
                    &&& steps.len() == hood.len()
                    &&& outcomes.len() == hood.len()
                    &&& forall|i: int|
                        0 <= i < k ==> #[trigger] call_ensures(
                            objective,
                            (self, self_point, hood[i], steps[i]),
                            outcomes[i],
                        )
                    &&& 0 < k ==> *steps[0] == *old(c)
                    &&& forall|i: int| 0 <= i < k - 1 ==> *final(#[trigger] steps[i]) == *steps[i + 1]
                    &&& 0 < k ==> *m == *final(steps[k - 1])
                    &&& 0 == k ==> *m == *old(c)
                } ==> call_requires(objective, (self, self_point, hood[k], m)),
        ensures
            exists|steps: Seq<&mut U>, candidates: Seq<((u32, u32), (T, V))>|
                #![trigger steps.len(), candidates.len()]
                {
                    &&& steps.len() == hood.len()
                    &&& candidates.len() == hood.len()
                    &&& forall|i: int|
                        0 <= i < hood.len() ==> (#[trigger] candidates[i]).0 == hood[i]
                    &&& forall|i: int|
                        0 <= i < hood.len() ==> #[trigger] call_ensures(
                            objective,
                            (self, self_point, hood[i], steps[i]),
                            candidates[i].1,
                        )
                    &&& 0 < hood.len() ==> *steps[0] == *old(c)
                    &&& forall|i: int|
                        0 <= i < hood.len() - 1 ==> *final(#[trigger] steps[i]) == *steps[i + 1]
                    &&& 0 < hood.len() ==> *final(steps[hood.len() - 1]) == *final(c)
                    &&& 0 == hood.len() ==> *final(c) == *old(c)
                    &&& chosen(candidates, best)
                },
    {
        best_peer_internal_values_with_coefficients(self, self_point, hood, objective, c)
    }
}

} // verus!
