use crate::schedule::{views, Schedule, ScheduleView};
use vstd::prelude::*;

verus! {

/// `i` is the position of the first schedule in `s` with the id `id`.
pub open spec fn is_first_with_id(s: Seq<ScheduleView>, id: u64, i: int) -> bool {
    &&& 0 <= i < s.len()
    &&& s[i].id == id
    &&& forall|j: int| 0 <= j < i ==> s[j].id != id
}

/// Some schedule in `s` has the id `id`.
pub open spec fn has_id(s: Seq<ScheduleView>, id: u64) -> bool {
    exists|i: int| 0 <= i < s.len() && s[i].id == id
}

/// The position of the first schedule in `s` with the id `id`.
pub open spec fn first_with_id(s: Seq<ScheduleView>, id: u64) -> int {
    choose|i: int| is_first_with_id(s, id, i)
}

/// The first schedule in `s` with the id `id`, if any.
pub open spec fn lookup(s: Seq<ScheduleView>, id: u64) -> Option<ScheduleView> {
    if has_id(s, id) {
        Some(s[first_with_id(s, id)])
    } else {
        None
    }
}

/// `s` with its first schedule of id `id` replaced by `v`; `s` itself when no
/// schedule has that id.
pub open spec fn replace_first(s: Seq<ScheduleView>, id: u64, v: ScheduleView) -> Seq<ScheduleView> {
    if has_id(s, id) {
        s.update(first_with_id(s, id), v)
    } else {
        s
    }
}

/// Whether a schedule's id differs from `id`.
pub open spec fn keeps(id: u64) -> spec_fn(ScheduleView) -> bool {
    |v: ScheduleView| v.id != id
}

/// `s` without any schedule of id `id`, the others in their order.
pub open spec fn without_id(s: Seq<ScheduleView>, id: u64) -> Seq<ScheduleView> {
    s.filter(keeps(id))
}

/// The repository id of a request id: its bits read as unsigned.
pub open spec fn repo_id(id: i64) -> u64 {
    id as u64
}

/// When some schedule has the id, there is a first one, and it is where
/// `first_with_id` points.
pub proof fn lemma_first_with_id(s: Seq<ScheduleView>, id: u64, k: int)
    requires
        0 <= k < s.len(),
        s[k].id == id,
    ensures
        is_first_with_id(s, id, first_with_id(s, id)),
        first_with_id(s, id) <= k,
    decreases k,
{
    if exists|j: int| 0 <= j < k && s[j].id == id {
        let j = choose|j: int| 0 <= j < k && s[j].id == id;
        lemma_first_with_id(s, id, j);
    } else {
        assert(is_first_with_id(s, id, k));
        let c = first_with_id(s, id);
        assert(is_first_with_id(s, id, c));
        if c > k {
            assert(s[k].id != id);
        }
    }
}

/// There is only one first position.
pub proof fn lemma_first_unique(s: Seq<ScheduleView>, id: u64, i: int, j: int)
    requires
        is_first_with_id(s, id, i),
        is_first_with_id(s, id, j),
    ensures
        i == j,
{
    if i < j {
        assert(s[i].id != id);
    } else if j < i {
        assert(s[j].id != id);
    }
}

/// Appending a schedule leaves the lookups of the ids already present as
/// they were, and makes the new schedule the one found for its id otherwise.
pub proof fn lemma_lookup_push(s: Seq<ScheduleView>, x: ScheduleView, id: u64)
    ensures
        has_id(s.push(x), id) == (has_id(s, id) || x.id == id),
        lookup(s.push(x), id) == if has_id(s, id) {
            lookup(s, id)
        } else if x.id == id {
            Some(x)
        } else {
            None
        },
{
    let t = s.push(x);
    if has_id(s, id) {
        let w = choose|i: int| 0 <= i < s.len() && s[i].id == id;
        lemma_first_with_id(s, id, w);
        let f = first_with_id(s, id);
        assert(t[w] == s[w]);
        assert(is_first_with_id(t, id, f)) by {
            assert forall|j: int| 0 <= j < f implies t[j].id != id by {
                assert(t[j] == s[j]);
            }
        }
        lemma_first_with_id(t, id, f);
        lemma_first_unique(t, id, f, first_with_id(t, id));
    } else if x.id == id {
        let k = s.len() as int;
        assert(t[k] == x);
        assert(is_first_with_id(t, id, k)) by {
            assert forall|j: int| 0 <= j < k implies t[j].id != id by {
                assert(t[j] == s[j]);
            }
        }
        lemma_first_with_id(t, id, k);
        lemma_first_unique(t, id, k, first_with_id(t, id));
    } else {
        assert forall|i: int| 0 <= i < t.len() implies t[i].id != id by {
            if i < s.len() {
                assert(t[i] == s[i]);
            }
        }
    }
}

/// Dropping the schedules of one id leaves whether any other id is present,
/// and which schedule is found for it, as they were.
pub proof fn lemma_lookup_without_id(s: Seq<ScheduleView>, removed: u64, id: u64)
    requires
        removed != id,
    ensures
        has_id(without_id(s, removed), id) == has_id(s, id),
        lookup(without_id(s, removed), id) == lookup(s, id),
    decreases s.len(),
{
    if s.len() == 0 {
        assert(without_id(s, removed) =~= s) by {
            reveal(Seq::filter);
        }
    } else {
        let init = s.drop_last();
        let x = s.last();
        assert(init.push(x) =~= s);
        lemma_lookup_without_id(init, removed, id);
        init.lemma_filter_push(x, keeps(removed));
        lemma_lookup_push(init, x, id);
        if x.id != removed {
            lemma_lookup_push(without_id(init, removed), x, id);
        }
    }
}

/// Law: once a schedule is created, looking up the id it was given finds it,
/// as long as no stored schedule already carried that id.
pub proof fn law_get_after_create(stored: Seq<ScheduleView>, schedule: ScheduleView)
    requires
        stored.len() < i64::MAX,
        !has_id(stored, (stored.len() + 1) as u64),
    ensures
        lookup(stored.push(schedule.with_id((stored.len() + 1) as u64)), (stored.len() + 1) as u64)
            == Some(schedule.with_id((stored.len() + 1) as u64)),
{
    lemma_lookup_push(stored, schedule.with_id((stored.len() + 1) as u64), (stored.len() + 1) as u64);
}

/// Law: creating a schedule changes no lookup of any other id.
pub proof fn law_create_keeps_other_ids(stored: Seq<ScheduleView>, schedule: ScheduleView, id: u64)
    requires
        stored.len() < i64::MAX,
        id != (stored.len() + 1) as u64,
    ensures
        lookup(stored.push(schedule.with_id((stored.len() + 1) as u64)), id) == lookup(stored, id),
{
    lemma_lookup_push(stored, schedule.with_id((stored.len() + 1) as u64), id);
}

/// Law: after a delete, nothing is found under the deleted id.
pub proof fn law_get_after_delete(stored: Seq<ScheduleView>, id: u64)
    ensures
        lookup(without_id(stored, id), id) is None,
        !has_id(without_id(stored, id), id),
{
    let rest = without_id(stored, id);
    assert forall|i: int| 0 <= i < rest.len() implies rest[i].id != id by {
        stored.lemma_filter_pred(keeps(id), i);
    }
}

/// Law: a delete changes no lookup of any other id.
pub proof fn law_delete_keeps_other_ids(stored: Seq<ScheduleView>, removed: u64, id: u64)
    requires
        removed != id,
    ensures
        lookup(without_id(stored, removed), id) == lookup(stored, id),
{
    lemma_lookup_without_id(stored, removed, id);
}

/// Law: deleting an id twice is the same as deleting it once.
pub proof fn law_delete_idempotent(stored: Seq<ScheduleView>, id: u64)
    ensures
        without_id(without_id(stored, id), id) == without_id(stored, id),
{
    law_get_after_delete(stored, id);
    lemma_filter_keeps_all(without_id(stored, id), id);
}

/// Filtering out an id that no schedule carries changes nothing.
pub proof fn lemma_filter_keeps_all(s: Seq<ScheduleView>, id: u64)
    requires
        !has_id(s, id),
    ensures
        without_id(s, id) == s,
    decreases s.len(),
{
    if s.len() == 0 {
        assert(without_id(s, id) =~= s) by {
            reveal(Seq::filter);
        }
    } else {
        let init = s.drop_last();
        assert(init.push(s.last()) =~= s);
        assert(!has_id(init, id)) by {
            if has_id(init, id) {
                let w = choose|i: int| 0 <= i < init.len() && init[i].id == id;
                assert(s[w] == init[w]);
            }
        }
        assert(s[s.len() - 1].id != id);
        lemma_filter_keeps_all(init, id);
        init.lemma_filter_push(s.last(), keeps(id));
    }
}

/// Law: after the schedule of an id is replaced by one carrying that same
/// id, looking the id up finds the replacement.
pub proof fn law_get_after_update(stored: Seq<ScheduleView>, id: u64, schedule: ScheduleView)
    requires
        has_id(stored, id),
        schedule.id == id,
    ensures
        lookup(replace_first(stored, id, schedule), id) == Some(schedule),
{
    let w = choose|i: int| 0 <= i < stored.len() && stored[i].id == id;
    lemma_first_with_id(stored, id, w);
    let f = first_with_id(stored, id);
    let t = stored.update(f, schedule);
    assert(is_first_with_id(t, id, f)) by {
        assert forall|j: int| 0 <= j < f implies t[j].id != id by {
            assert(t[j] == stored[j]);
        }
    }
    lemma_first_with_id(t, id, f);
    lemma_first_unique(t, id, f, first_with_id(t, id));
}

/// Law: updating an id that no stored schedule carries changes nothing.
pub proof fn law_update_missing_id(stored: Seq<ScheduleView>, id: u64, schedule: ScheduleView)
    requires
        !has_id(stored, id),
    ensures
        replace_first(stored, id, schedule) == stored,
{
}

/// Law: a stored schedule under a new id is the given one with only its id
/// replaced: every other field is the given one.
pub proof fn law_with_id_changes_only_id(v: ScheduleView, id: u64)
    ensures
        v.with_id(id).id == id,
        v.with_id(id).client_id == v.client_id,
        v.with_id(id).filename == v.filename,
        v.with_id(id).vendor == v.vendor,
        v.with_id(id).target == v.target,
        v.with_id(id).cron_expression == v.cron_expression,
        v.with_id(id).next_run == v.next_run,
{
}

/// Law: an update replaces the first schedule with the id in its own place,
/// by the given schedule whatever id that carries; the length and every other
/// position stay as they were. Without a schedule of that id nothing changes.
pub proof fn law_update_in_place(stored: Seq<ScheduleView>, id: u64, v: ScheduleView)
    ensures
        replace_first(stored, id, v).len() == stored.len(),
        forall|f: int|
            is_first_with_id(stored, id, f) ==> {
                &&& #[trigger] replace_first(stored, id, v)[f] == v
                &&& forall|i: int|
                    0 <= i < stored.len() && i != f ==> #[trigger] replace_first(stored, id, v)[i]
                        == stored[i]
            },
        !has_id(stored, id) ==> replace_first(stored, id, v) == stored,
{
    if has_id(stored, id) {
        let w = choose|i: int| 0 <= i < stored.len() && stored[i].id == id;
        lemma_first_with_id(stored, id, w);
    }
    assert forall|f: int| is_first_with_id(stored, id, f) implies {
        &&& #[trigger] replace_first(stored, id, v)[f] == v
        &&& forall|i: int|
            0 <= i < stored.len() && i != f ==> #[trigger] replace_first(stored, id, v)[i]
                == stored[i]
    } by {
        lemma_first_with_id(stored, id, f);
        lemma_first_unique(stored, id, f, first_with_id(stored, id));
    }
}

/// An in-memory schedule repository: the schedules in the order they were
/// created, each new one numbered one past the count of those stored.
#[derive(Debug)]
pub struct InMemorySchedulerRepo {
    schedules: Vec<Schedule>,
}

impl View for InMemorySchedulerRepo {
    type V = Seq<ScheduleView>;

    closed spec fn view(&self) -> Seq<ScheduleView> {
        views(self.schedules@)
    }
}

impl Default for InMemorySchedulerRepo {
    fn default() -> (r: Self)
        ensures
            r@ == Seq::<ScheduleView>::empty(),
    {
        InMemorySchedulerRepo::new()
    }
}

impl InMemorySchedulerRepo {
    /// An empty repository.
    pub fn new() -> (r: Self)
        ensures
            r@ == Seq::<ScheduleView>::empty(),
    {
        let r = InMemorySchedulerRepo { schedules: Vec::new() };
        assert(r@ =~= Seq::<ScheduleView>::empty());
        r
    }

    /// How many schedules the repository holds.
    pub fn len(&self) -> (n: usize)
        ensures
            n == self@.len(),
    {
        self.schedules.len()
    }

    /// All stored schedules, in the order they were created.
    pub fn get_all(&self) -> (all: Vec<Schedule>)
        ensures
            views(all@) == self@,
    {
        let mut all: Vec<Schedule> = Vec::new();
        let mut i: usize = 0;
        while i < self.schedules.len()
            invariant
                i <= self.schedules@.len(),
                views(all@) == views(self.schedules@).take(i as int),
            decreases self.schedules@.len() - i,
        {
            let copy = self.schedules[i].clone();
            let ghost before = all@;
            all.push(copy);
            assert(views(all@) =~= views(before).push(copy@));
            assert(views(all@) =~= views(self.schedules@).take(i as int + 1));
            i = i + 1;
        }
        assert(views(self.schedules@).take(i as int) =~= views(self.schedules@));
        all
    }

    /// Stores a schedule under the id one past the number of stored
    /// schedules, whatever id it came with, and returns that id.
    pub fn create(&mut self, schedule: Schedule) -> (id: i64)
        requires
            old(self)@.len() < i64::MAX,
        ensures
            id == old(self)@.len() + 1,
            final(self)@ == old(self)@.push(schedule@.with_id(id as u64)),
            final(self)@.len() == old(self)@.len() + 1,
            forall|i: int| 0 <= i < old(self)@.len() ==> #[trigger] final(self)@[i] == old(self)@[i],
            final(self)@.last().id == id as u64,
            final(self)@.last().client_id == schedule.client_id,
            final(self)@.last().filename == schedule.filename@,
            final(self)@.last().vendor == schedule.vendor@,
            final(self)@.last().target == schedule.target@,
            final(self)@.last().cron_expression == schedule.cron_expression@,
            final(self)@.last().next_run == schedule.next_run,
    {
        let id: i64 = self.schedules.len() as i64 + 1;
        let stored = Schedule { id: id as u64, ..schedule };
        self.schedules.push(stored);
        assert(views(self.schedules@) =~= views(old(self).schedules@).push(schedule@.with_id(id as u64)));
        proof {
            law_with_id_changes_only_id(schedule@, id as u64);
        }
        id
    }

    /// The first stored schedule whose id is `id` read as unsigned.
    pub fn get(&self, id: i64) -> (found: Option<Schedule>)
        ensures
            match found {
                Some(s) => lookup(self@, repo_id(id)) == Some(s@),
                None => lookup(self@, repo_id(id)) is None,
            },
    {
        let key: u64 = id as u64;
        let mut i: usize = 0;
        while i < self.schedules.len()
            invariant
                i <= self.schedules@.len(),
                key == repo_id(id),
                forall|j: int| 0 <= j < i ==> #[trigger] self@[j].id != key,
            decreases self.schedules@.len() - i,
        {
            if self.schedules[i].id == key {
                proof {
                    assert(self@[i as int].id == key);
                    lemma_first_with_id(self@, key, i as int);
                    lemma_first_unique(self@, key, i as int, first_with_id(self@, key));
                }
                return Some(self.schedules[i].clone());
            }
            i = i + 1;
        }
        None
    }

    /// Replaces the first stored schedule whose id is `id` read as unsigned
    /// with `schedule` as given (its own id included); changes nothing when no
    /// stored schedule has that id.
    pub fn update(&mut self, id: i64, schedule: Schedule)
        ensures
            final(self)@ == replace_first(old(self)@, repo_id(id), schedule@),
            final(self)@.len() == old(self)@.len(),
            forall|f: int|
                is_first_with_id(old(self)@, repo_id(id), f) ==> {
                    &&& #[trigger] final(self)@[f] == schedule@
                    &&& forall|i: int|
                        0 <= i < old(self)@.len() && i != f ==> #[trigger] final(self)@[i]
                            == old(self)@[i]
                },
            !has_id(old(self)@, repo_id(id)) ==> final(self)@ == old(self)@,
    {
        let key: u64 = id as u64;
        let mut i: usize = 0;
        while i < self.schedules.len()
            invariant
                i <= self.schedules@.len(),
                key == repo_id(id),
                self@ == old(self)@,
                forall|j: int| 0 <= j < i ==> #[trigger] self@[j].id != key,
            decreases self.schedules@.len() - i,
        {
            if self.schedules[i].id == key {
                proof {
                    assert(self@[i as int].id == key);
                    lemma_first_with_id(self@, key, i as int);
                    lemma_first_unique(self@, key, i as int, first_with_id(self@, key));
                }
                let ghost sv = schedule@;
                self.schedules.set(i, schedule);
                assert(self@ =~= old(self)@.update(i as int, sv));
                proof {
                    law_update_in_place(old(self)@, key, sv);
                }
                return;
            }
            i = i + 1;
        }
    }

    /// Removes every stored schedule whose id is `id` read as unsigned,
    /// keeping the others in their order.
    pub fn delete(&mut self, id: i64)
        ensures
            final(self)@ == without_id(old(self)@, repo_id(id)),
    {
        let key: u64 = id as u64;
        let mut kept: Vec<Schedule> = Vec::new();
        let mut i: usize = 0;
        while i < self.schedules.len()
            invariant
                i <= self.schedules@.len(),
                key == repo_id(id),
                self@ == old(self)@,
                views(kept@) == old(self)@.take(i as int).filter(keeps(key)),
            decreases self.schedules@.len() - i,
        {
            proof {
                old(self)@.take(i as int).lemma_filter_push(old(self)@[i as int], keeps(key));
                assert(old(self)@.take(i as int).push(old(self)@[i as int]) =~= old(self)@.take(
                    i as int + 1,
                ));
            }
            if self.schedules[i].id != key {
                let copy = self.schedules[i].clone();
                kept.push(copy);
                assert(views(kept@) =~= views(kept@).drop_last().push(copy@));
            }
            i = i + 1;
        }
        assert(old(self)@.take(i as int) =~= old(self)@);
        self.schedules = kept;
    }
}

} // verus!
