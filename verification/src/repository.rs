//! The JSON-file repositories of the first data model: where they keep
//! their file, and how they number new items.

use vstd::prelude::*;

use crate::tag::Tag;
use crate::todo::Todo;

verus! {

/// The largest of the IDs, or 0 when there are none.
pub open spec fn max_id(ids: Seq<u64>) -> nat
    decreases ids.len(),
{
    if ids.len() == 0 {
        0
    } else {
        let m = max_id(ids.drop_last());
        if ids.last() > m {
            ids.last() as nat
        } else {
            m
        }
    }
}

/// The next ID is fresh: above every ID in use, hence none of them.
pub proof fn law_next_id_is_fresh(ids: Seq<u64>)
    ensures
        forall|i: int| 0 <= i < ids.len() ==> ids[i] < max_id(ids) + 1,
        ids.len() == 0 ==> max_id(ids) + 1 == 1,
{
    lemma_max_id_bound(ids);
}

proof fn lemma_max_id_bound(ids: Seq<u64>)
    ensures
        forall|i: int| 0 <= i < ids.len() ==> ids[i] <= max_id(ids),
        ids.len() > 0 ==> exists|i: int| 0 <= i < ids.len() && ids[i] == max_id(ids),
        ids.len() == 0 ==> max_id(ids) == 0,
    decreases ids.len(),
{
    if ids.len() > 0 {
        let d = ids.drop_last();
        lemma_max_id_bound(d);
        assert forall|i: int| 0 <= i < ids.len() implies ids[i] <= max_id(ids) by {
            if i < d.len() {
                assert(ids[i] == d[i]);
            }
        }
        if ids.last() > max_id(d) {
            assert(ids[ids.len() - 1] == max_id(ids));
        } else if d.len() > 0 {
            let j = choose|j: int| 0 <= j < d.len() && d[j] == max_id(d);
            assert(ids[j] == max_id(ids));
        } else {
            assert(ids[0] == max_id(ids));
        }
    }
}

/// The next ID after `ids`: one more than the largest, 1 when there are
/// none. The largest must be below `u64::MAX`.
pub fn next_id(ids: &Vec<u64>) -> (r: u64)
    requires
        forall|i: int| 0 <= i < ids@.len() ==> ids@[i] < u64::MAX,
    ensures
        r == max_id(ids@) + 1,
{
    let mut m: u64 = 0;
    let mut i: usize = 0;
    while i < ids.len()
        invariant
            i <= ids.len(),
            m == max_id(ids@.take(i as int)),
            forall|j: int| 0 <= j < ids@.len() ==> ids@[j] < u64::MAX,
            m < u64::MAX,
        decreases ids.len() - i,
    {
        assert(ids@.take(i + 1).drop_last() =~= ids@.take(i as int));
        if ids[i] > m {
            m = ids[i];
        }
        i += 1;
    }
    assert(ids@.take(ids.len() as int) =~= ids@);
    m + 1
}

/// The IDs of the tags, in order.
pub open spec fn tag_ids(tags: Seq<Tag>) -> Seq<u64> {
    tags.map_values(|t: Tag| t.id)
}

/// The IDs of the items, in order.
pub open spec fn todo_ids(todos: Seq<Todo>) -> Seq<u64> {
    todos.map_values(|t: Todo| t.id)
}

/// A tag repository kept in a JSON file.
#[derive(Debug, Clone)]
pub struct JsonTagRepository {
    file_path: String,
}

impl JsonTagRepository {
    /// A repository kept in the file at `file_path`.
    pub fn new(file_path: &str) -> (r: JsonTagRepository)
        ensures
            r.spec_file_path() == file_path@,
    {
        JsonTagRepository { file_path: file_path.to_string() }
    }

    /// The path of the repository's file.
    pub closed spec fn spec_file_path(&self) -> Seq<char> {
        self.file_path@
    }

    /// The path of the repository's file.
    pub fn file_path(&self) -> (r: &str)
        ensures
            r@ == self.spec_file_path(),
    {
        self.file_path.as_str()
    }

    /// The ID for a new tag: one more than the largest among `tags`, 1
    /// when there are none.
    pub fn find_next_id(&self, tags: &[Tag]) -> (r: u64)
        requires
            forall|i: int| 0 <= i < tags@.len() ==> tags@[i].id < u64::MAX,
        ensures
            r == max_id(tag_ids(tags@)) + 1,
    {
        let mut ids: Vec<u64> = Vec::new();
        let mut i: usize = 0;
        while i < tags.len()
            invariant
                i <= tags.len(),
                ids@ == tag_ids(tags@).take(i as int),
            decreases tags.len() - i,
        {
            ids.push(tags[i].id);
            assert(ids@ =~= tag_ids(tags@).take(i + 1));
            i += 1;
        }
        assert(ids@ =~= tag_ids(tags@));
        next_id(&ids)
    }
}

/// A to-do repository kept in a JSON file.
#[derive(Debug, Clone)]
pub struct JsonTodoRepository {
    file_path: String,
}

impl JsonTodoRepository {
    /// A repository kept in the file at `file_path`.
    pub fn new(file_path: &str) -> (r: JsonTodoRepository)
        ensures
            r.spec_file_path() == file_path@,
    {
        JsonTodoRepository { file_path: file_path.to_string() }
    }

    /// The path of the repository's file.
    pub closed spec fn spec_file_path(&self) -> Seq<char> {
        self.file_path@
    }

    /// The path of the repository's file.
    pub fn file_path(&self) -> (r: &str)
        ensures
            r@ == self.spec_file_path(),
    {
        self.file_path.as_str()
    }

    /// The ID for a new item: one more than the largest among `todos`, 1
    /// when there are none.
    pub fn find_next_id(&self, todos: &[Todo]) -> (r: u64)
        requires
            forall|i: int| 0 <= i < todos@.len() ==> todos@[i].id < u64::MAX,
        ensures
            r == max_id(todo_ids(todos@)) + 1,
    {
        let mut ids: Vec<u64> = Vec::new();
        let mut i: usize = 0;
        while i < todos.len()
            invariant
                i <= todos.len(),
                ids@ == todo_ids(todos@).take(i as int),
            decreases todos.len() - i,
        {
            ids.push(todos[i].id);
            assert(ids@ =~= todo_ids(todos@).take(i + 1));
            i += 1;
        }
        assert(ids@ =~= todo_ids(todos@));
        next_id(&ids)
    }
}

} // verus!
