use vstd::prelude::*;

use crate::domain::repository::{carries_tag, law_tag_usage_counts_carriers, tasks_with_tag, InMemoryTaskRepository};
use crate::domain::tag::{TagAggregate, TagId, TagModel};
use crate::error::DomainError;
use crate::text::str_eq;

verus! {

/// No two tags share an ID.
pub open spec fn tag_ids_distinct(ts: Seq<TagModel>) -> bool {
    forall|a: int, b: int| 0 <= a < b < ts.len() ==> ts[a].id != ts[b].id
}

/// Whether some tag has the ID `id`.
pub open spec fn has_tag(ts: Seq<TagModel>, id: TagId) -> bool {
    exists|i: int| 0 <= i < ts.len() && ts[i].id == id
}

/// The position of the tag with the ID `id` (meaningful when there is one).
pub open spec fn tag_index(ts: Seq<TagModel>, id: TagId) -> int {
    choose|i: int| 0 <= i < ts.len() && ts[i].id == id
}

/// The tag with the ID `id`, if any.
pub open spec fn find_tag(ts: Seq<TagModel>, id: TagId) -> Option<TagModel> {
    if has_tag(ts, id) {
        Some(ts[tag_index(ts, id)])
    } else {
        None
    }
}

/// The tags once `m` is stored: it replaces the tag with its ID, or is
/// added at the end when there is none.
pub open spec fn put_tag(ts: Seq<TagModel>, m: TagModel) -> Seq<TagModel> {
    if has_tag(ts, m.id) {
        ts.update(tag_index(ts, m.id), m)
    } else {
        ts.push(m)
    }
}

/// The tags once the tag with the ID `id` is taken out.
pub open spec fn drop_tag(ts: Seq<TagModel>, id: TagId) -> Seq<TagModel> {
    if has_tag(ts, id) {
        ts.remove(tag_index(ts, id))
    } else {
        ts
    }
}

proof fn lemma_put_tag_distinct(ts: Seq<TagModel>, m: TagModel)
    requires
        tag_ids_distinct(ts),
    ensures
        tag_ids_distinct(put_tag(ts, m)),
{
    let r = put_tag(ts, m);
    if has_tag(ts, m.id) {
        let k = tag_index(ts, m.id);
        assert forall|a: int, b: int| 0 <= a < b < r.len() implies r[a].id != r[b].id by {
            if a != k && b != k {
                assert(ts[a].id != ts[b].id);
            } else if a == k {
                assert(ts[b].id != ts[k].id);
            } else {
                assert(ts[a].id != ts[k].id);
            }
        }
    } else {
        assert forall|a: int, b: int| 0 <= a < b < r.len() implies r[a].id != r[b].id by {
            if b < ts.len() {
                assert(ts[a].id != ts[b].id);
            } else {
                assert(ts[a].id != m.id);
            }
        }
    }
}

proof fn lemma_drop_tag_distinct(ts: Seq<TagModel>, id: TagId)
    requires
        tag_ids_distinct(ts),
    ensures
        tag_ids_distinct(drop_tag(ts, id)),
{
    if has_tag(ts, id) {
        let k = tag_index(ts, id);
        let r = ts.remove(k);
        assert forall|a: int, b: int| 0 <= a < b < r.len() implies r[a].id != r[b].id by {
            let a2 = if a < k { a } else { a + 1 };
            let b2 = if b < k { b } else { b + 1 };
            assert(r[a] == ts[a2]);
            assert(r[b] == ts[b2]);
            assert(ts[a2].id != ts[b2].id);
        }
    }
}

/// A read after a write gives back what was written: once a tag is stored,
/// looking up its ID finds it.
pub proof fn law_find_tag_after_put(ts: Seq<TagModel>, m: TagModel)
    requires
        tag_ids_distinct(ts),
    ensures
        find_tag(put_tag(ts, m), m.id) == Some(m),
{
    let r = put_tag(ts, m);
    lemma_put_tag_distinct(ts, m);
    let k = if has_tag(ts, m.id) { tag_index(ts, m.id) } else { ts.len() as int };
    assert(r[k] == m);
    assert(has_tag(r, m.id));
    let j = tag_index(r, m.id);
    if j != k {
        assert(r[j].id != r[k].id);
    }
}

/// A tag taken out is no longer found.
pub proof fn law_find_tag_after_drop(ts: Seq<TagModel>, id: TagId)
    requires
        tag_ids_distinct(ts),
    ensures
        find_tag(drop_tag(ts, id), id) is None,
{
    let r = drop_tag(ts, id);
    if has_tag(ts, id) {
        let k = tag_index(ts, id);
        if has_tag(r, id) {
            let j = tag_index(r, id);
            let j2 = if j < k { j } else { j + 1 };
            assert(r[j] == ts[j2]);
            assert(ts[j2].id != ts[k].id);
        }
    }
}

/// The tags once each of `ms` is stored in turn.
pub open spec fn put_all_tags(ts: Seq<TagModel>, ms: Seq<TagModel>) -> Seq<TagModel>
    decreases ms.len(),
{
    if ms.len() == 0 {
        ts
    } else {
        put_tag(put_all_tags(ts, ms.drop_last()), ms.last())
    }
}

/// The largest tag ID among `ms`, or 0 when there are none.
pub open spec fn max_tag_id(ms: Seq<TagModel>) -> int
    decreases ms.len(),
{
    if ms.len() == 0 {
        0
    } else {
        let m = max_tag_id(ms.drop_last());
        if ms.last().id@ > m {
            ms.last().id@ as int
        } else {
            m
        }
    }
}

proof fn lemma_max_tag_id_grows(ms: Seq<TagModel>, i: int, n: int)
    requires
        0 <= i <= n <= ms.len(),
    ensures
        max_tag_id(ms.take(n)) >= max_tag_id(ms.take(i)),
    decreases n - i,
{
    if i < n {
        lemma_max_tag_id_grows(ms, i, n - 1);
        assert(ms.take(n).drop_last() =~= ms.take(n - 1));
    }
}

/// What an in-memory tag repository holds.
pub struct TagStore {
    pub tags: Seq<TagModel>,
    pub next_id: i32,
}

/// A tag repository that keeps the tags in memory, in the order they were
/// first stored. New tags (ID 0) get the IDs 1, 2, 3, ... in turn.
#[derive(Debug)]
pub struct InMemoryTagRepository {
    tags: Vec<TagAggregate>,
    next_id: i32,
}

impl View for InMemoryTagRepository {
    type V = TagStore;

    closed spec fn view(&self) -> TagStore {
        TagStore { tags: self.tags@.map_values(|t: TagAggregate| t@), next_id: self.next_id }
    }
}

impl InMemoryTagRepository {
    /// The repository's own consistency: no two tags share an ID, and the
    /// next ID is positive.
    pub open spec fn wf(&self) -> bool {
        &&& tag_ids_distinct(self@.tags)
        &&& self@.next_id >= 1
    }

    /// An empty repository whose first new tag gets ID 1.
    pub fn new() -> (r: InMemoryTagRepository)
        ensures
            r.wf(),
            r@.tags == Seq::<TagModel>::empty(),
            r@.next_id == 1,
    {
        let r = InMemoryTagRepository { tags: Vec::new(), next_id: 1 };
        assert(r@.tags =~= Seq::<TagModel>::empty());
        r
    }

    fn position(&self, id: &TagId) -> (r: Option<usize>)
        requires
            self.wf(),
        ensures
            r is Some <==> has_tag(self@.tags, *id),
            r matches Some(i) ==> i < self@.tags.len() && i == tag_index(self@.tags, *id),
    {
        let mut i: usize = 0;
        while i < self.tags.len()
            invariant
                self.wf(),
                i <= self.tags.len(),
                forall|j: int| 0 <= j < i ==> self.tags@[j]@.id != *id,
            decreases self.tags.len() - i,
        {
            if *self.tags[i].id() == *id {
                proof {
                    let ts = self@.tags;
                    assert(ts[i as int].id == *id);
                    assert(has_tag(ts, *id));
                    let k = tag_index(ts, *id);
                    if k != i {
                        assert(ts[k].id != ts[i as int].id);
                    }
                }
                return Some(i);
            }
            i += 1;
        }
        proof {
            let ts = self@.tags;
            if has_tag(ts, *id) {
                let k = tag_index(ts, *id);
                assert(self.tags@[k]@.id == *id);
            }
        }
        None
    }

    /// The ID that the next new tag will get.
    pub fn next_id(&self) -> (r: i32)
        ensures
            r == self@.next_id,
    {
        self.next_id
    }

    /// The tag with ID `id`, if any.
    pub fn find_by_id(&self, id: &TagId) -> (r: Option<TagAggregate>)
        requires
            self.wf(),
        ensures
            r is Some <==> has_tag(self@.tags, *id),
            r matches Some(t) ==> t@ == find_tag(self@.tags, *id)->0,
    {
        match self.position(id) {
            Some(i) => Some(self.tags[i].clone()),
            None => None,
        }
    }

    /// All tags, in order.
    pub fn find_all(&self) -> (r: Vec<TagAggregate>)
        ensures
            r@.map_values(|t: TagAggregate| t@) == self@.tags,
    {
        let mut out: Vec<TagAggregate> = Vec::new();
        let mut i: usize = 0;
        while i < self.tags.len()
            invariant
                i <= self.tags.len(),
                out@.map_values(|t: TagAggregate| t@) == self@.tags.take(i as int),
            decreases self.tags.len() - i,
        {
            let ghost before = out@;
            let t = self.tags[i].clone();
            out.push(t);
            proof {
                assert(self@.tags[i as int] == self.tags@[i as int]@);
                assert(out@.map_values(|t: TagAggregate| t@) =~= before.map_values(
                    |t: TagAggregate| t@,
                ).push(self@.tags[i as int]));
                assert(self@.tags.take(i as int + 1) =~= self@.tags.take(i as int).push(
                    self@.tags[i as int],
                ));
            }
            i += 1;
        }
        assert(self@.tags.take(self.tags.len() as int) =~= self@.tags);
        out
    }

    /// The first tag named exactly `name`, if any.
    pub fn find_by_name(&self, name: &str) -> (r: Option<TagAggregate>)
        ensures
            r is None <==> forall|i: int| 0 <= i < self@.tags.len() ==> self@.tags[i].name != name@,
            r matches Some(t) ==> exists|i: int|
                0 <= i < self@.tags.len() && #[trigger] self@.tags[i] == t@ && t@.name == name@
                    && forall|j: int| 0 <= j < i ==> self@.tags[j].name != name@,
    {
        let mut i: usize = 0;
        while i < self.tags.len()
            invariant
                i <= self.tags.len(),
                forall|j: int| 0 <= j < i ==> self@.tags[j].name != name@,
            decreases self.tags.len() - i,
        {
            if str_eq(self.tags[i].name().value(), name) {
                let t = self.tags[i].clone();
                assert(self@.tags[i as int] == t@);
                return Some(t);
            }
            i += 1;
        }
        None
    }

    /// The stored tags whose ID is among `ids`, in stored order; an ID
    /// that no tag has is passed over, and a repeated ID gives its tag once.
    pub fn find_by_ids(&self, ids: &[TagId]) -> (r: Vec<TagAggregate>)
        ensures
            r@.map_values(|t: TagAggregate| t@) == self@.tags.filter(
                |m: TagModel| ids@.contains(m.id),
            ),
    {
        let ghost pred = |m: TagModel| ids@.contains(m.id);
        let ghost ts = self@.tags;
        let mut out: Vec<TagAggregate> = Vec::new();
        let mut i: usize = 0;
        while i < self.tags.len()
            invariant
                i <= self.tags.len(),
                ts == self@.tags,
                pred == (|m: TagModel| ids@.contains(m.id)),
                out@.map_values(|t: TagAggregate| t@) == ts.take(i as int).filter(pred),
            decreases self.tags.len() - i,
        {
            proof {
                assert(ts.take(i as int + 1) == ts.take(i as int).push(ts[i as int]));
                ts.take(i as int).lemma_filter_push(ts[i as int], pred);
            }
            let id = *self.tags[i].id();
            let mut found = false;
            let mut j: usize = 0;
            while j < ids.len()
                invariant
                    j <= ids.len(),
                    found == exists|k: int| 0 <= k < j && ids@[k] == id,
                decreases ids.len() - j,
            {
                if ids[j] == id {
                    found = true;
                }
                j += 1;
            }
            assert(found == ids@.contains(id));
            if found {
                let ghost before = out@;
                out.push(self.tags[i].clone());
                assert(out@.map_values(|t: TagAggregate| t@) =~= before.map_values(
                    |t: TagAggregate| t@,
                ).push(ts[i as int]));
            }
            i += 1;
        }
        assert(ts.take(ts.len() as int) == ts);
        out
    }

    fn place(&mut self, tag: TagAggregate)
        requires
            old(self).wf(),
        ensures
            final(self).wf(),
            final(self)@.tags == put_tag(old(self)@.tags, tag@),
            final(self)@.next_id == old(self)@.next_id,
    {
        let ghost before = self@.tags;
        proof {
            lemma_put_tag_distinct(before, tag@);
        }
        match self.position(tag.id()) {
            Some(i) => {
                self.tags.set(i, tag);
                assert(self@.tags =~= put_tag(before, self@.tags[i as int]));
            },
            None => {
                self.tags.push(tag);
                assert(self@.tags =~= before.push(self@.tags.last()));
            },
        }
    }

    /// A repository holding the given stored tags, each placed by its own ID
    /// in turn (a later tag replaces an earlier one with the same ID); new
    /// tags then get IDs after the largest one. Refused (`None`) when an ID
    /// is `i32::MAX`, which leaves no ID for a new tag.
    pub fn restore(tags: Vec<TagAggregate>) -> (r: Option<InMemoryTagRepository>)
        ensures
            r is None <==> max_tag_id(tags@.map_values(|t: TagAggregate| t@)) >= i32::MAX,
            r matches Some(repo) ==> {
                &&& repo.wf()
                &&& repo@.tags == put_all_tags(Seq::empty(), tags@.map_values(|t: TagAggregate| t@))
                &&& repo@.next_id == max_tag_id(tags@.map_values(|t: TagAggregate| t@)) + 1
            },
    {
        let ghost ms = tags@.map_values(|t: TagAggregate| t@);
        let mut repo = InMemoryTagRepository::new();
        let mut max: i32 = 0;
        let mut i: usize = 0;
        while i < tags.len()
            invariant
                i <= tags.len(),
                ms == tags@.map_values(|t: TagAggregate| t@),
                repo.wf(),
                repo@.next_id == 1,
                repo@.tags == put_all_tags(Seq::empty(), ms.take(i as int)),
                max == max_tag_id(ms.take(i as int)),
                0 <= max < i32::MAX,
            decreases tags.len() - i,
        {
            assert(ms.take(i + 1).drop_last() =~= ms.take(i as int));
            assert(ms.take(i + 1).last() == tags@[i as int]@);
            let id = tags[i].id().value();
            if id == i32::MAX {
                proof {
                    assert(max_tag_id(ms.take(i + 1)) >= i32::MAX);
                    lemma_max_tag_id_grows(ms, i as int + 1, tags.len() as int);
                    assert(ms.take(tags.len() as int) =~= ms);
                }
                return None;
            }
            if id > max {
                max = id;
            }
            repo.place(tags[i].clone());
            i += 1;
        }
        assert(ms.take(tags.len() as int) =~= ms);
        repo.next_id = max + 1;
        Some(repo)
    }

    /// Stores a tag. A tag with ID 0 first gets the next ID. It then
    /// replaces the stored tag with the same ID, or is added at the end.
    pub fn save(&mut self, tag: TagAggregate) -> (r: Result<TagAggregate, DomainError>)
        requires
            old(self).wf(),
            tag@.id@ == 0 ==> old(self)@.next_id < i32::MAX,
        ensures
            final(self).wf(),
            r is Ok,
            r matches Ok(saved) ==> {
                &&& tag@.id@ != 0 ==> saved@ == tag@
                &&& tag@.id@ == 0 ==> saved@ == (TagModel { id: saved@.id, ..tag@ })
                    && saved@.id@ == old(self)@.next_id
                &&& final(self)@.tags == put_tag(old(self)@.tags, saved@)
            },
            tag@.id@ == 0 ==> final(self)@.next_id == old(self)@.next_id + 1,
            tag@.id@ != 0 ==> final(self)@.next_id == old(self)@.next_id,
    {
        let to_save = if tag.id().value() == 0 {
            let id = self.next_id;
            self.next_id = self.next_id + 1;
            let new_id = TagId::new(id).unwrap();
            tag.with_id(new_id)
        } else {
            tag
        };
        let ghost before = self@.tags;
        proof {
            lemma_put_tag_distinct(before, to_save@);
        }
        match self.position(to_save.id()) {
            Some(i) => {
                self.tags.set(i, to_save.clone());
                assert(self@.tags =~= put_tag(before, to_save@));
            },
            None => {
                self.tags.push(to_save.clone());
                assert(self@.tags =~= put_tag(before, to_save@));
            },
        }
        Ok(to_save)
    }

    /// Replaces the stored tag with the same ID; refused when there is none.
    pub fn update(&mut self, tag: TagAggregate) -> (r: Result<TagAggregate, DomainError>)
        requires
            old(self).wf(),
        ensures
            final(self).wf(),
            r is Err <==> !has_tag(old(self)@.tags, tag@.id),
            r matches Err(e) ==> e == DomainError::TagNotFound(tag@.id@) && final(self)@ == old(self)@,
            r matches Ok(t) ==> t@ == tag@ && final(self)@.tags == put_tag(old(self)@.tags, tag@)
                && final(self)@.next_id == old(self)@.next_id,
    {
        let ghost before = self@.tags;
        match self.position(tag.id()) {
            Some(i) => {
                self.tags.set(i, tag.clone());
                assert(self@.tags =~= put_tag(before, tag@));
                proof {
                    lemma_put_tag_distinct(before, tag@);
                }
                Ok(tag)
            },
            None => Err(DomainError::TagNotFound(tag.id().value())),
        }
    }

    /// Takes out the tag with ID `id`; tells whether there was one.
    pub fn delete(&mut self, id: &TagId) -> (r: bool)
        requires
            old(self).wf(),
        ensures
            final(self).wf(),
            r == has_tag(old(self)@.tags, *id),
            final(self)@.tags == drop_tag(old(self)@.tags, *id),
            final(self)@.next_id == old(self)@.next_id,
    {
        let ghost before = self@.tags;
        proof {
            lemma_drop_tag_distinct(before, *id);
        }
        match self.position(id) {
            Some(i) => {
                self.tags.remove(i);
                assert(self@.tags =~= drop_tag(before, *id));
                true
            },
            None => false,
        }
    }
}

/// Deletes tag `id` from `tags` unless tasks of `tasks` still carry it. A
/// tag in use is refused with its ID and the number of tasks that carry
/// it, and nothing changes; otherwise the tag is taken out, and the result
/// says whether it was stored.
pub fn delete_unused_tag(
    tags: &mut InMemoryTagRepository,
    tasks: &InMemoryTaskRepository,
    id: &TagId,
) -> (r: Result<bool, DomainError>)
    requires
        old(tags).wf(),
    ensures
        final(tags).wf(),
        tasks_with_tag(tasks@.tasks, *id) > 0 ==> {
            &&& r == Err::<bool, DomainError>(
                DomainError::TagInUse(id@, tasks_with_tag(tasks@.tasks, *id) as usize),
            )
            &&& final(tags)@ == old(tags)@
        },
        tasks_with_tag(tasks@.tasks, *id) == 0 ==> {
            &&& r == Ok::<bool, DomainError>(has_tag(old(tags)@.tags, *id))
            &&& final(tags)@.tags == drop_tag(old(tags)@.tags, *id)
            &&& final(tags)@.next_id == old(tags)@.next_id
        },
        (exists|i: int|
            0 <= i < tasks@.tasks.len() && (#[trigger] tasks@.tasks[i]).tags.contains(*id)) ==> {
            &&& r matches Err(DomainError::TagInUse(v, n))
            &&& v == id@
            &&& n == tasks@.tasks.filter(carries_tag(*id)).len()
            &&& final(tags)@ == old(tags)@
        },
        (forall|i: int|
            0 <= i < tasks@.tasks.len() ==> !(#[trigger] tasks@.tasks[i]).tags.contains(*id))
            ==> r == Ok::<bool, DomainError>(has_tag(old(tags)@.tags, *id)),
{
    proof {
        law_tag_usage_counts_carriers(tasks@.tasks, *id);
    }
    let n = tasks.count_with_tag(id);
    if n > 0 {
        return Err(DomainError::TagInUse(id.value(), n));
    }
    Ok(tags.delete(id))
}

impl Default for InMemoryTagRepository {
    fn default() -> (r: Self)
        ensures
            r.wf(),
            r@.tags == Seq::<TagModel>::empty(),
            r@.next_id == 1,
    {
        InMemoryTagRepository::new()
    }
}

} // verus!
