//! Reconciliation of worker-to-job assignments.
//!
//! An assignment pairs a worker id with a flat-rate flag. Given the set of
//! pairs currently persisted for a job and the set the edit form asks for,
//! `reconcile` computes the mutations that reach the desired state: flags to
//! clear or to set (updates in place, so accumulated shift data survives),
//! assignments to remove, and assignments to add. A worker is removed only
//! when their id is absent from the desired set under every flag value; a
//! worker whose flag merely changed is never removed and re-added.

use vstd::prelude::*;

verus! {

/// True when some pair in `s` carries the worker id `id`.
pub open spec fn has_id(s: Seq<(i64, bool)>, id: i64) -> bool {
    exists|i: int| 0 <= i < s.len() && (#[trigger] s[i]).0 == id
}

/// True when no two pairs in `s` carry the same worker id.
pub open spec fn unique_ids(s: Seq<(i64, bool)>) -> bool {
    forall|i: int, j: int| 0 <= i < j < s.len() ==> (#[trigger] s[i]).0 != (#[trigger] s[j]).0
}

/// True when no element occurs twice in `s`.
pub open spec fn unique_elems(s: Seq<i64>) -> bool {
    forall|i: int, j: int| 0 <= i < j < s.len() ==> s[i] != s[j]
}

/// The flag of the first pair in `d` that carries `id`, if any.
pub open spec fn first_flat_of(d: Seq<(i64, bool)>, id: i64) -> Option<bool>
    decreases d.len(),
{
    if d.len() == 0 {
        None
    } else if d[0].0 == id {
        Some(d[0].1)
    } else {
        first_flat_of(d.drop_first(), id)
    }
}

/// Worker `id` keeps their row but has the flat-rate flag turned off:
/// currently assigned with the flag set, still desired with the flag clear.
pub open spec fn clear_cond(current: Seq<(i64, bool)>, desired: Seq<(i64, bool)>, id: i64) -> bool {
    current.contains((id, true)) && desired.contains((id, false))
}

/// Worker `id` keeps their row and has the flat-rate flag turned on:
/// currently assigned with the flag clear, still desired with the flag set.
pub open spec fn set_cond(current: Seq<(i64, bool)>, desired: Seq<(i64, bool)>, id: i64) -> bool {
    current.contains((id, false)) && desired.contains((id, true))
}

/// Worker `id` is fully unassigned: present now, absent from the desired set
/// under every flag value.
pub open spec fn remove_cond(current: Seq<(i64, bool)>, desired: Seq<(i64, bool)>, id: i64) -> bool {
    has_id(current, id) && !has_id(desired, id)
}

/// The pair `(id, flat)` is newly assigned: the id is absent from the current
/// set, and the first desired pair carrying the id asks for flag `flat`.
pub open spec fn add_cond(
    current: Seq<(i64, bool)>,
    desired: Seq<(i64, bool)>,
    id: i64,
    flat: bool,
) -> bool {
    !has_id(current, id) && first_flat_of(desired, id) == Some(flat)
}

/// The mutations that take the current assignment set to the desired one,
/// applied in this order: clear flags, set flags, remove rows, insert rows.
/// Both flag changes are updates in place, never a delete and re-insert.
pub struct ReconcileOutcome {
    pub to_clear_flat_rate: Vec<i64>,
    pub to_set_flat_rate: Vec<i64>,
    pub to_remove: Vec<i64>,
    pub to_add: Vec<(i64, bool)>,
}

proof fn lemma_contains_push<T>(s: Seq<T>, x: T, y: T)
    ensures
        s.push(x).contains(y) <==> s.contains(y) || x == y,
{
    if s.contains(y) {
        let j = choose|j: int| 0 <= j < s.len() && s[j] == y;
        assert(s.push(x)[j] == y);
    }
    assert(s.push(x)[s.len() as int] == x);
    if s.push(x).contains(y) {
        let j = choose|j: int| 0 <= j < s.push(x).len() && s.push(x)[j] == y;
        if j < s.len() {
            assert(s[j] == y);
        }
    }
}

proof fn lemma_has_id_push(s: Seq<(i64, bool)>, x: (i64, bool), id: i64)
    ensures
        has_id(s.push(x), id) <==> has_id(s, id) || x.0 == id,
{
    if has_id(s, id) {
        let j = choose|j: int| 0 <= j < s.len() && (#[trigger] s[j]).0 == id;
        assert(s.push(x)[j].0 == id);
    }
    assert(s.push(x)[s.len() as int] == x);
    if has_id(s.push(x), id) {
        let j = choose|j: int| 0 <= j < s.push(x).len() && (#[trigger] s.push(x)[j]).0 == id;
        if j < s.len() {
            assert(s[j].0 == id);
        }
    }
}

proof fn lemma_first_flat_push(s: Seq<(i64, bool)>, x: (i64, bool), id: i64)
    ensures
        first_flat_of(s.push(x), id) == if first_flat_of(s, id) is Some {
            first_flat_of(s, id)
        } else if x.0 == id {
            Some(x.1)
        } else {
            None::<bool>
        },
    decreases s.len(),
{
    let p = s.push(x);
    assert(p.len() == s.len() + 1);
    if s.len() == 0 {
        assert(first_flat_of(s, id) is None);
        assert(p[0] == x);
        if x.0 == id {
            assert(first_flat_of(p, id) == Some(x.1));
        } else {
            assert(p.drop_first() =~= Seq::<(i64, bool)>::empty());
            assert(first_flat_of(p.drop_first(), id) is None);
            assert(first_flat_of(p, id) is None);
        }
    } else {
        assert(p[0] == s[0]);
        if s[0].0 == id {
            assert(first_flat_of(s, id) == Some(s[0].1));
            assert(first_flat_of(p, id) == Some(p[0].1));
        } else {
            assert(p.drop_first() =~= s.drop_first().push(x));
            lemma_first_flat_push(s.drop_first(), x, id);
            assert(first_flat_of(p, id) == first_flat_of(s.drop_first().push(x), id));
            assert(first_flat_of(s, id) == first_flat_of(s.drop_first(), id));
        }
    }
}

proof fn lemma_first_flat_some_has_id(d: Seq<(i64, bool)>, id: i64)
    ensures
        first_flat_of(d, id) is Some <==> has_id(d, id),
    decreases d.len(),
{
    if d.len() > 0 {
        lemma_first_flat_some_has_id(d.drop_first(), id);
        if d[0].0 == id {
            assert(d[0].0 == id);
            assert(has_id(d, id));
        }
        if d[0].0 != id && has_id(d, id) {
            let i = choose|i: int| 0 <= i < d.len() && (#[trigger] d[i]).0 == id;
            assert(d.drop_first()[i - 1].0 == id);
        }
        if has_id(d.drop_first(), id) {
            let i = choose|i: int|
                0 <= i < d.drop_first().len() && (#[trigger] d.drop_first()[i]).0 == id;
            assert(d[i + 1].0 == id);
        }
    }
}

fn contains_id(v: &Vec<(i64, bool)>, id: i64) -> (r: bool)
    ensures
        r == has_id(v@, id),
{
    let mut i: usize = 0;
    while i < v.len()
        invariant
            0 <= i <= v.len(),
            forall|j: int| 0 <= j < i ==> (#[trigger] v@[j]).0 != id,
        decreases v.len() - i,
    {
        if v[i].0 == id {
            assert(v@[i as int].0 == id);
            return true;
        }
        i += 1;
    }
    false
}

fn contains_pair(v: &Vec<(i64, bool)>, id: i64, flat: bool) -> (r: bool)
    ensures
        r == v@.contains((id, flat)),
{
    let mut i: usize = 0;
    while i < v.len()
        invariant
            0 <= i <= v.len(),
            forall|j: int| 0 <= j < i ==> v@[j] != (id, flat),
        decreases v.len() - i,
    {
        if v[i].0 == id && v[i].1 == flat {
            assert(v@[i as int] == (id, flat));
            return true;
        }
        i += 1;
    }
    false
}

/// Diffs the desired assignment set against the current one.
///
/// The current set comes from the store, where at most one row exists per
/// worker and job, so its ids are unique. The desired set is client input and
/// may repeat a worker id; the first occurrence wins and the result never
/// names a worker twice.
pub fn reconcile(current: &Vec<(i64, bool)>, desired: &Vec<(i64, bool)>) -> (r: ReconcileOutcome)
    requires
        unique_ids(current@),
    ensures
        forall|id: i64| r.to_clear_flat_rate@.contains(id) <==> clear_cond(current@, desired@, id),
        forall|id: i64| r.to_set_flat_rate@.contains(id) <==> set_cond(current@, desired@, id),
        forall|id: i64| r.to_remove@.contains(id) <==> remove_cond(current@, desired@, id),
        forall|id: i64, flat: bool|
            r.to_add@.contains((id, flat)) <==> add_cond(current@, desired@, id, flat),
        unique_elems(r.to_clear_flat_rate@),
        unique_elems(r.to_set_flat_rate@),
        unique_elems(r.to_remove@),
        unique_ids(r.to_add@),
{
    let mut to_clear: Vec<i64> = Vec::new();
    let mut to_set: Vec<i64> = Vec::new();
    let mut to_remove: Vec<i64> = Vec::new();
    let mut to_add: Vec<(i64, bool)> = Vec::new();

    let mut i: usize = 0;
    while i < current.len()
        invariant
            0 <= i <= current.len(),
            unique_ids(current@),
            forall|id: i64| to_clear@.contains(id) <==> clear_cond(
                current@.take(i as int),
                desired@,
                id,
            ),
            forall|id: i64| to_set@.contains(id) <==> set_cond(
                current@.take(i as int),
                desired@,
                id,
            ),
            forall|id: i64| to_remove@.contains(id) <==> remove_cond(
                current@.take(i as int),
                desired@,
                id,
            ),
            unique_elems(to_clear@),
            unique_elems(to_set@),
            unique_elems(to_remove@),
        decreases current.len() - i,
    {
        let (id, flat) = current[i];
        let ghost pre = current@.take(i as int);
        let ghost pre_clear = to_clear@;
        let ghost pre_set = to_set@;
        let ghost pre_remove = to_remove@;
        proof {
            assert(current@[i as int] == (id, flat));
            assert(current@.take(i + 1 as int) =~= pre.push((id, flat)));
            // ids are unique, so the prefix holds no pair with this id
            assert forall|f: bool| !pre.contains((id, f)) by {
                if pre.contains((id, f)) {
                    let j = choose|j: int| 0 <= j < pre.len() && pre[j] == (id, f);
                    assert(current@[j] == (id, f));
                    assert(current@[j].0 == current@[i as int].0);
                }
            }
            assert(!has_id(pre, id)) by {
                if has_id(pre, id) {
                    let j = choose|j: int| 0 <= j < pre.len() && (#[trigger] pre[j]).0 == id;
                    assert(pre.contains((id, pre[j].1)));
                }
            }
        }

        let clear_this = flat && contains_pair(desired, id, false);
        if clear_this {
            to_clear.push(id);
        }
        let set_this = !flat && contains_pair(desired, id, true);
        if set_this {
            to_set.push(id);
        }
        let remove_this = !contains_id(desired, id);
        if remove_this {
            to_remove.push(id);
        }

        proof {
            let post = current@.take(i + 1 as int);
            lemma_has_id_push(pre, (id, flat), id);
            assert forall|x: i64| #![auto] to_clear@.contains(x) <==> clear_cond(
                post,
                desired@,
                x,
            ) by {
                lemma_contains_push(pre, (id, flat), (x, true));
                if clear_this {
                    lemma_contains_push(pre_clear, id, x);
                } else {
                    assert(to_clear@ == pre_clear);
                }
            }
            assert forall|x: i64| #![auto] to_set@.contains(x) <==> set_cond(
                post,
                desired@,
                x,
            ) by {
                lemma_contains_push(pre, (id, flat), (x, false));
                if set_this {
                    lemma_contains_push(pre_set, id, x);
                } else {
                    assert(to_set@ == pre_set);
                }
            }
            assert forall|x: i64| #![auto] to_remove@.contains(x) <==> remove_cond(
                post,
                desired@,
                x,
            ) by {
                lemma_has_id_push(pre, (id, flat), x);
                if remove_this {
                    lemma_contains_push(pre_remove, id, x);
                } else {
                    assert(to_remove@ == pre_remove);
                }
            }
            if clear_this {
                // the pushed id is new to the list: its pair was not in the prefix
                assert(!pre_clear.contains(id));
                assert forall|a: int, b: int|
                    0 <= a < b < to_clear@.len() implies to_clear@[a] != to_clear@[b] by {
                    if b == to_clear@.len() - 1 {
                        assert(pre_clear.contains(pre_clear[a]));
                    }
                }
            }
            if set_this {
                assert(!pre_set.contains(id));
                assert forall|a: int, b: int|
                    0 <= a < b < to_set@.len() implies to_set@[a] != to_set@[b] by {
                    if b == to_set@.len() - 1 {
                        assert(pre_set.contains(pre_set[a]));
                    }
                }
            }
            if remove_this {
                assert(!pre_remove.contains(id));
                assert forall|a: int, b: int|
                    0 <= a < b < to_remove@.len() implies to_remove@[a] != to_remove@[b] by {
                    if b == to_remove@.len() - 1 {
                        assert(pre_remove.contains(pre_remove[a]));
                    }
                }
            }
        }
        i += 1;
    }
    proof {
        assert(current@.take(current@.len() as int) =~= current@);
    }

    let mut k: usize = 0;
    while k < desired.len()
        invariant
            0 <= k <= desired.len(),
            forall|id: i64, flat: bool| to_add@.contains((id, flat)) <==> add_cond(
                current@,
                desired@.take(k as int),
                id,
                flat,
            ),
            unique_ids(to_add@),
        decreases desired.len() - k,
    {
        let (id, flat) = desired[k];
        let ghost pre = desired@.take(k as int);
        let ghost pre_add = to_add@;
        proof {
            assert(desired@[k as int] == (id, flat));
            assert(desired@.take(k + 1 as int) =~= pre.push((id, flat)));
        }

        let in_current = contains_id(current, id);
        let seen = contains_id(&to_add, id);
        if !in_current && !seen {
            to_add.push((id, flat));
        }

        proof {
            let post = desired@.take(k + 1 as int);
            lemma_first_flat_some_has_id(pre, id);
            if !in_current && !seen {
                // a first desired occurrence of this id would already stand in
                // the list, so the prefix holds none
                assert(first_flat_of(pre, id) is None) by {
                    if first_flat_of(pre, id) is Some {
                        let f0 = first_flat_of(pre, id)->0;
                        assert(first_flat_of(pre, id) == Some(f0));
                        assert(add_cond(current@, pre, id, f0));
                        assert(pre_add.contains((id, f0)));
                        let j = choose|j: int| 0 <= j < pre_add.len() && pre_add[j] == (id, f0);
                        assert((#[trigger] pre_add[j]).0 == id);
                        assert(has_id(pre_add, id));
                    }
                }
            }
            assert forall|x: i64, f: bool| #![auto] to_add@.contains((x, f)) <==> add_cond(
                current@,
                post,
                x,
                f,
            ) by {
                lemma_first_flat_push(pre, (id, flat), x);
                assert(pre_add.contains((x, f)) <==> add_cond(current@, pre, x, f));
                if !in_current && !seen {
                    lemma_contains_push(pre_add, (id, flat), (x, f));
                } else {
                    assert(to_add@ == pre_add);
                    if !has_id(current@, x) && first_flat_of(post, x) == Some(f)
                        && first_flat_of(pre, x) is None {
                        // then x is this id, skipped because it sits in current
                        // or already in the list; either contradicts the claim
                        assert(x == id && f == flat);
                        if seen {
                            let j = choose|j: int|
                                0 <= j < pre_add.len() && (#[trigger] pre_add[j]).0 == id;
                            assert(pre_add.contains((id, pre_add[j].1)));
                            assert(pre_add.contains((id, pre_add[j].1)) <==> add_cond(
                                current@,
                                pre,
                                id,
                                pre_add[j].1,
                            ));
                        }
                    }
                }
            }
            if !in_current && !seen {
                assert forall|a: int, b: int|
                    0 <= a < b < to_add@.len() implies (#[trigger] to_add@[a]).0
                    != (#[trigger] to_add@[b]).0 by {
                    if b == to_add@.len() - 1 {
                        assert(pre_add.contains(pre_add[a]));
                        assert(has_id(pre_add, pre_add[a].0));
                    }
                }
            }
        }
        k += 1;
    }
    proof {
        assert(desired@.take(desired@.len() as int) =~= desired@);
    }

    ReconcileOutcome { to_clear_flat_rate: to_clear, to_set_flat_rate: to_set, to_remove, to_add }
}

/// The selection list of the job edit page: every active worker, marked with
/// whether the job currently has them and whether at the flat rate.
pub fn selection_list(workers: &Vec<(i64, String)>, current: &Vec<(i64, bool)>) -> (r: Vec<
    (i64, String, bool, bool),
>)
    ensures
        r@.len() == workers@.len(),
        forall|j: int| 0 <= j < r@.len() ==> {
            &&& (#[trigger] r@[j]).0 == workers@[j].0
            &&& r@[j].1@ == workers@[j].1@
            &&& r@[j].2 == has_id(current@, workers@[j].0)
            &&& r@[j].3 == current@.contains((workers@[j].0, true))
        },
{
    let mut r: Vec<(i64, String, bool, bool)> = Vec::new();
    let mut i: usize = 0;
    while i < workers.len()
        invariant
            0 <= i <= workers@.len(),
            r@.len() == i,
            forall|j: int| 0 <= j < i ==> {
                &&& (#[trigger] r@[j]).0 == workers@[j].0
                &&& r@[j].1@ == workers@[j].1@
                &&& r@[j].2 == has_id(current@, workers@[j].0)
                &&& r@[j].3 == current@.contains((workers@[j].0, true))
            },
        decreases workers@.len() - i,
    {
        let id = workers[i].0;
        let name = workers[i].1.clone();
        let is_assigned = contains_id(current, id);
        let at_flat = contains_pair(current, id, true);
        r.push((id, name, is_assigned, at_flat));
        i += 1;
    }
    r
}

/// The assignment set that holds after the three mutation steps: rows of
/// fully unassigned workers are gone, surviving rows with a cleared flag read
/// `false`, and one new row stands for each desired worker that had none.
pub open spec fn post_state(current: Seq<(i64, bool)>, desired: Seq<(i64, bool)>) -> Seq<
    (i64, bool),
> {
    surviving(current, desired) + additions(current, desired)
}

/// The current rows after removals and flag updates in both directions.
pub open spec fn surviving(current: Seq<(i64, bool)>, desired: Seq<(i64, bool)>) -> Seq<
    (i64, bool),
>
    decreases current.len(),
{
    if current.len() == 0 {
        Seq::empty()
    } else {
        let rest = surviving(current.drop_first(), desired);
        let id = current[0].0;
        let flat = current[0].1;
        if !has_id(desired, id) {
            rest
        } else if flat && desired.contains((id, false)) {
            seq![(id, false)] + rest
        } else if !flat && desired.contains((id, true)) {
            seq![(id, true)] + rest
        } else {
            seq![(id, flat)] + rest
        }
    }
}

/// The rows inserted for newly assigned workers: for each desired worker id
/// absent from `current`, the first desired pair carrying it. Extending
/// `current` with each taken pair makes later repetitions of the id no-ops.
pub open spec fn additions(current: Seq<(i64, bool)>, desired: Seq<(i64, bool)>) -> Seq<
    (i64, bool),
>
    decreases desired.len(),
{
    if desired.len() == 0 {
        Seq::empty()
    } else if has_id(current, desired[0].0) {
        additions(current, desired.drop_first())
    } else {
        seq![desired[0]] + additions(current.push(desired[0]), desired.drop_first())
    }
}

/// The four mutation sets of one reconciliation never name one worker twice:
/// removal needs the id present in the current set and addition needs it
/// absent; a flag update needs the id desired, which removal rules out, and
/// present, which addition rules out; and with unique current ids a worker
/// cannot hold both flag values, so the two flag updates exclude each other.
pub proof fn lemma_reconcile_disjoint(current: Seq<(i64, bool)>, desired: Seq<(i64, bool)>)
    requires
        unique_ids(current),
    ensures
        forall|id: i64, flat: bool|
            !(#[trigger] remove_cond(current, desired, id) && #[trigger] add_cond(
                current,
                desired,
                id,
                flat,
            )),
        forall|id: i64|
            !(#[trigger] clear_cond(current, desired, id) && remove_cond(current, desired, id)),
        forall|id: i64, flat: bool|
            !(clear_cond(current, desired, id) && #[trigger] add_cond(
                current,
                desired,
                id,
                flat,
            )),
        forall|id: i64|
            !(#[trigger] set_cond(current, desired, id) && remove_cond(current, desired, id)),
        forall|id: i64, flat: bool|
            !(set_cond(current, desired, id) && #[trigger] add_cond(current, desired, id, flat)),
        forall|id: i64|
            !(#[trigger] clear_cond(current, desired, id) && set_cond(current, desired, id)),
{
    assert forall|id: i64| clear_cond(current, desired, id) implies has_id(desired, id) && has_id(
        current,
        id,
    ) by {
        let j = choose|j: int| 0 <= j < desired.len() && desired[j] == (id, false);
        assert((#[trigger] desired[j]).0 == id);
        let k = choose|k: int| 0 <= k < current.len() && current[k] == (id, true);
        assert((#[trigger] current[k]).0 == id);
    }
    assert forall|id: i64| set_cond(current, desired, id) implies has_id(desired, id) && has_id(
        current,
        id,
    ) by {
        let j = choose|j: int| 0 <= j < desired.len() && desired[j] == (id, true);
        assert((#[trigger] desired[j]).0 == id);
        let k = choose|k: int| 0 <= k < current.len() && current[k] == (id, false);
        assert((#[trigger] current[k]).0 == id);
    }
    assert forall|id: i64|
        !(#[trigger] clear_cond(current, desired, id) && set_cond(current, desired, id)) by {
        if clear_cond(current, desired, id) && set_cond(current, desired, id) {
            lemma_unique_same_index(current, id, true, false);
        }
    }
}

proof fn lemma_unique_same_index(s: Seq<(i64, bool)>, id: i64, f1: bool, f2: bool)
    requires
        unique_ids(s),
        s.contains((id, f1)),
        s.contains((id, f2)),
    ensures
        f1 == f2,
{
    let i = choose|i: int| 0 <= i < s.len() && s[i] == (id, f1);
    let j = choose|j: int| 0 <= j < s.len() && s[j] == (id, f2);
    assert(s[i].0 == s[j].0);
}

/// Reconciling a valid assignment state against itself asks for nothing:
/// no flag updates in either direction, no removals, no additions.
pub proof fn lemma_reconcile_self_empty(s: Seq<(i64, bool)>)
    requires
        unique_ids(s),
    ensures
        forall|id: i64| !clear_cond(s, s, id),
        forall|id: i64| !set_cond(s, s, id),
        forall|id: i64| !remove_cond(s, s, id),
        forall|id: i64, flat: bool| !add_cond(s, s, id, flat),
{
    assert forall|id: i64| !clear_cond(s, s, id) by {
        if s.contains((id, true)) && s.contains((id, false)) {
            lemma_unique_same_index(s, id, true, false);
        }
    }
    assert forall|id: i64| !set_cond(s, s, id) by {
        if s.contains((id, false)) && s.contains((id, true)) {
            lemma_unique_same_index(s, id, false, true);
        }
    }
    assert forall|id: i64, flat: bool| !add_cond(s, s, id, flat) by {
        lemma_first_flat_some_has_id(s, id);
    }
}

proof fn lemma_surviving_ids(current: Seq<(i64, bool)>, desired: Seq<(i64, bool)>, id: i64)
    ensures
        has_id(surviving(current, desired), id) ==> has_id(current, id),
    decreases current.len(),
{
    if current.len() > 0 {
        lemma_surviving_ids(current.drop_first(), desired, id);
        let sv = surviving(current, desired);
        if has_id(sv, id) {
            let rest = surviving(current.drop_first(), desired);
            if sv != rest {
                // the head row survived, possibly with its flag cleared
                assert forall|i: int|
                    0 <= i < sv.len() && (#[trigger] sv[i]).0 == id implies has_id(
                    current,
                    id,
                ) by {
                    if i == 0 {
                        assert(current[0].0 == id);
                        assert(has_id(current, id));
                    } else {
                        assert(sv[i] == rest[i - 1]);
                        assert(has_id(rest, id));
                        lemma_drop_first_has_id(current, id);
                    }
                }
            } else {
                lemma_drop_first_has_id(current, id);
            }
        }
    }
}

proof fn lemma_drop_first_has_id(s: Seq<(i64, bool)>, id: i64)
    requires
        s.len() > 0,
    ensures
        has_id(s.drop_first(), id) ==> has_id(s, id),
{
    if has_id(s.drop_first(), id) {
        let i = choose|i: int|
            0 <= i < s.drop_first().len() && (#[trigger] s.drop_first()[i]).0 == id;
        assert(s[i + 1].0 == id);
    }
}

proof fn lemma_surviving_unique(current: Seq<(i64, bool)>, desired: Seq<(i64, bool)>)
    requires
        unique_ids(current),
    ensures
        unique_ids(surviving(current, desired)),
        forall|id: i64| has_id(surviving(current, desired), id) ==> has_id(current, id),
    decreases current.len(),
{
    assert forall|id: i64| has_id(surviving(current, desired), id) implies has_id(
        current,
        id,
    ) by {
        lemma_surviving_ids(current, desired, id);
    }
    if current.len() > 0 {
        let tail = current.drop_first();
        assert(unique_ids(tail)) by {
            assert forall|i: int, j: int| 0 <= i < j < tail.len() implies (#[trigger] tail[i]).0
                != (#[trigger] tail[j]).0 by {
                assert(tail[i] == current[i + 1]);
                assert(tail[j] == current[j + 1]);
            }
        }
        lemma_surviving_unique(tail, desired);
        let rest = surviving(tail, desired);
        let sv = surviving(current, desired);
        if sv != rest {
            // head survived: its id is current[0].0, absent from the tail
            assert(!has_id(tail, current[0].0)) by {
                if has_id(tail, current[0].0) {
                    let i = choose|i: int|
                        0 <= i < tail.len() && (#[trigger] tail[i]).0 == current[0].0;
                    assert(current[i + 1].0 == current[0].0);
                }
            }
            assert forall|i: int, j: int| 0 <= i < j < sv.len() implies (#[trigger] sv[i]).0
                != (#[trigger] sv[j]).0 by {
                if i == 0 {
                    assert(sv[j] == rest[j - 1]);
                    assert(has_id(rest, rest[j - 1].0));
                    lemma_surviving_ids(tail, desired, rest[j - 1].0);
                } else {
                    assert(sv[i] == rest[i - 1]);
                    assert(sv[j] == rest[j - 1]);
                }
            }
        }
    }
}

proof fn lemma_additions_unique(current: Seq<(i64, bool)>, desired: Seq<(i64, bool)>)
    ensures
        unique_ids(additions(current, desired)),
        forall|id: i64| has_id(additions(current, desired), id) ==> !has_id(current, id),
    decreases desired.len(),
{
    if desired.len() > 0 {
        let ad = additions(current, desired);
        if has_id(current, desired[0].0) {
            lemma_additions_unique(current, desired.drop_first());
        } else {
            let grown = current.push(desired[0]);
            lemma_additions_unique(grown, desired.drop_first());
            let rest = additions(grown, desired.drop_first());
            assert forall|id: i64| has_id(rest, id) implies !has_id(current, id) by {
                if has_id(current, id) {
                    let i = choose|i: int|
                        0 <= i < current.len() && (#[trigger] current[i]).0 == id;
                    assert(grown[i].0 == id);
                    assert(has_id(grown, id));
                }
            }
            assert(!has_id(rest, desired[0].0)) by {
                assert(grown[current.len() as int].0 == desired[0].0);
                assert(has_id(grown, desired[0].0));
            }
            assert forall|i: int, j: int| 0 <= i < j < ad.len() implies (#[trigger] ad[i]).0
                != (#[trigger] ad[j]).0 by {
                if i == 0 {
                    assert(ad[j] == rest[j - 1]);
                    assert(has_id(rest, rest[j - 1].0));
                } else {
                    assert(ad[i] == rest[i - 1]);
                    assert(ad[j] == rest[j - 1]);
                }
            }
            assert forall|id: i64| has_id(ad, id) implies !has_id(current, id) by {
                let i = choose|i: int| 0 <= i < ad.len() && (#[trigger] ad[i]).0 == id;
                if i == 0 {
                    assert(ad[0] == desired[0]);
                } else {
                    assert(ad[i] == rest[i - 1]);
                    assert(has_id(rest, id));
                }
            }
        }
    }
}

/// The state after the mutations still names each worker at most once, so it
/// is a valid current set for the next reconciliation.
pub proof fn lemma_post_state_unique(current: Seq<(i64, bool)>, desired: Seq<(i64, bool)>)
    requires
        unique_ids(current),
    ensures
        unique_ids(post_state(current, desired)),
{
    lemma_surviving_unique(current, desired);
    lemma_additions_unique(current, desired);
    let sv = surviving(current, desired);
    let ad = additions(current, desired);
    let ps = post_state(current, desired);
    assert forall|i: int, j: int| 0 <= i < j < ps.len() implies (#[trigger] ps[i]).0
        != (#[trigger] ps[j]).0 by {
        if i < sv.len() && j >= sv.len() {
            assert(ps[i] == sv[i]);
            assert(ps[j] == ad[j - sv.len()]);
            assert(has_id(sv, sv[i].0));
            assert(has_id(ad, ad[j - sv.len()].0));
            lemma_surviving_ids(current, desired, sv[i].0);
        } else if j < sv.len() {
            assert(ps[i] == sv[i]);
            assert(ps[j] == sv[j]);
        } else {
            assert(ps[i] == ad[i - sv.len()]);
            assert(ps[j] == ad[j - sv.len()]);
        }
    }
}

/// Idempotence of reconciliation: once the mutations of one call are applied,
/// a second call whose desired set equals that post-reconciliation state asks
/// for nothing at all.
pub proof fn lemma_reconcile_idempotent(current: Seq<(i64, bool)>, desired: Seq<(i64, bool)>)
    requires
        unique_ids(current),
    ensures
        forall|id: i64|
            !clear_cond(post_state(current, desired), post_state(current, desired), id),
        forall|id: i64| !set_cond(post_state(current, desired), post_state(current, desired), id),
        forall|id: i64|
            !remove_cond(post_state(current, desired), post_state(current, desired), id),
        forall|id: i64, flat: bool|
            !add_cond(post_state(current, desired), post_state(current, desired), id, flat),
{
    lemma_post_state_unique(current, desired);
    lemma_reconcile_self_empty(post_state(current, desired));
}

} // verus!
