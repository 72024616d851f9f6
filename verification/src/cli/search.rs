use vstd::prelude::*;

use crate::cli::args::SearchFieldArg;
use crate::domain::aggregate::TaskAggregate;
use crate::text::{is_white_space, is_white_space_char, str_chars, string_from_chars};

verus! {

/// Which text of a task a keyword search looks in.
#[derive(Debug, Clone, Copy, PartialEq, Eq, Structural)]
pub enum SearchField {
    /// The title only.
    Title,
    /// The description only.
    Description,
    /// The title or the description.
    All,
}

/// The search field that a command-line choice names.
pub open spec fn field_of_arg(arg: SearchFieldArg) -> SearchField {
    match arg {
        SearchFieldArg::Title => SearchField::Title,
        SearchFieldArg::Description => SearchField::Description,
        SearchFieldArg::All => SearchField::All,
    }
}

impl From<SearchFieldArg> for SearchField {
    fn from(arg: SearchFieldArg) -> (r: SearchField) {
        match arg {
            SearchFieldArg::Title => SearchField::Title,
            SearchFieldArg::Description => SearchField::Description,
            SearchFieldArg::All => SearchField::All,
        }
    }
}

impl vstd::std_specs::convert::FromSpecImpl<SearchFieldArg> for SearchField {
    open spec fn obeys_from_spec() -> bool {
        true
    }

    open spec fn from_spec(arg: SearchFieldArg) -> SearchField {
        field_of_arg(arg)
    }
}

/// The state after reading `p` while splitting at white space: the words so
/// far, and whether the last character read was part of a word.
pub open spec fn split_state(p: Seq<char>) -> (Seq<Seq<char>>, bool)
    decreases p.len(),
{
    if p.len() == 0 {
        (Seq::empty(), false)
    } else {
        let (ws, in_word) = split_state(p.drop_last());
        let c = p.last();
        if is_white_space(c) {
            (ws, false)
        } else if in_word {
            (ws.update(ws.len() - 1, ws.last().push(c)), true)
        } else {
            (ws.push(seq![c]), true)
        }
    }
}

/// The words of `s`: its runs of non-white-space characters, in order, as
/// `split_whitespace` gives them.
pub open spec fn words(s: Seq<char>) -> Seq<Seq<char>> {
    split_state(s).0
}

proof fn lemma_split_state_shape(p: Seq<char>)
    ensures
        split_state(p).1 ==> split_state(p).0.len() > 0,
    decreases p.len(),
{
    if p.len() > 0 {
        lemma_split_state_shape(p.drop_last());
    }
}

/// Splits a text into its words.
pub fn split_words(s: &str) -> (r: Vec<String>)
    ensures
        r@.map_values(|w: String| w@) == words(s@),
{
    let v = str_chars(s);
    let mut done: Vec<String> = Vec::new();
    let mut cur: Vec<char> = Vec::new();
    let mut in_word = false;
    let mut i: usize = 0;
    while i < v.len()
        invariant
            i <= v.len(),
            v@ == s@,
            in_word ==> split_state(v@.take(i as int)).0 == done@.map_values(|w: String| w@).push(
                cur@,
            ),
            !in_word ==> split_state(v@.take(i as int)).0 == done@.map_values(|w: String| w@),
            split_state(v@.take(i as int)).1 == in_word,
        decreases v.len() - i,
    {
        let c = v[i];
        assert(v@.take(i + 1).drop_last() =~= v@.take(i as int));
        let ghost prev = split_state(v@.take(i as int)).0;
        if is_white_space_char(c) {
            if in_word {
                let w = string_from_chars(&cur);
                let ghost before = done@;
                done.push(w);
                assert(done@.map_values(|w: String| w@) =~= before.map_values(|w: String| w@).push(
                    cur@,
                ));
                cur = Vec::new();
            }
            in_word = false;
        } else {
            if in_word {
                cur.push(c);
                assert(prev.update(prev.len() - 1, prev.last().push(c)) =~= done@.map_values(
                    |w: String| w@,
                ).push(cur@));
            } else {
                cur = Vec::new();
                cur.push(c);
                assert(prev.push(seq![c]) =~= done@.map_values(|w: String| w@).push(cur@));
            }
            in_word = true;
        }
        i += 1;
    }
    assert(v@.take(v.len() as int) =~= s@);
    if in_word {
        let w = string_from_chars(&cur);
        let ghost before = done@;
        done.push(w);
        assert(done@.map_values(|w: String| w@) =~= before.map_values(|w: String| w@).push(cur@));
    }
    done
}

/// Whether `needle` occurs in `hay` at position `i`.
pub open spec fn occurs_at(hay: Seq<char>, needle: Seq<char>, i: int) -> bool {
    0 <= i && i + needle.len() <= hay.len() && hay.subrange(i, i + needle.len()) == needle
}

/// Whether `needle` occurs somewhere in `hay`.
pub open spec fn contains_text(hay: Seq<char>, needle: Seq<char>) -> bool {
    exists|i: int| #[trigger] occurs_at(hay, needle, i)
}

fn occurs_at_exec(hay: &Vec<char>, needle: &Vec<char>, i: usize) -> (r: bool)
    requires
        i + needle.len() <= hay.len(),
    ensures
        r == occurs_at(hay@, needle@, i as int),
{
    let mut j: usize = 0;
    while j < needle.len()
        invariant
            i + needle.len() <= hay.len(),
            j <= needle.len(),
            forall|k: int| 0 <= k < j ==> hay@[i + k] == needle@[k],
        decreases needle.len() - j,
    {
        if hay[i + j] != needle[j] {
            assert(hay@.subrange(i as int, i + needle.len())[j as int] != needle@[j as int]);
            return false;
        }
        j += 1;
    }
    assert(hay@.subrange(i as int, i + needle.len()) =~= needle@);
    true
}

/// Whether `needle` occurs somewhere in `hay`.
pub fn text_contains(hay: &str, needle: &str) -> (r: bool)
    ensures
        r == contains_text(hay@, needle@),
{
    let h = str_chars(hay);
    let n = str_chars(needle);
    if n.len() > h.len() {
        proof {
            if contains_text(hay@, needle@) {
                let i = choose|i: int| #[trigger] occurs_at(hay@, needle@, i);
                assert(occurs_at(hay@, needle@, i));
            }
        }
        return false;
    }
    if n.len() == 0 {
        assert(hay@.subrange(0, 0) =~= needle@);
        assert(occurs_at(hay@, needle@, 0));
        return true;
    }
    let mut i: usize = 0;
    while i < h.len()
        invariant
            h@ == hay@,
            n@ == needle@,
            0 < n.len() <= h.len(),
            i <= h.len(),
            forall|k: int| 0 <= k < i ==> !occurs_at(h@, n@, k),
        decreases h.len() - i,
    {
        if n.len() <= h.len() - i {
            if occurs_at_exec(&h, &n, i) {
                assert(occurs_at(hay@, needle@, i as int));
                return true;
            }
        }
        i += 1;
    }
    proof {
        if contains_text(hay@, needle@) {
            let k = choose|k: int| #[trigger] occurs_at(hay@, needle@, k);
            assert(occurs_at(h@, n@, k));
        }
    }
    false
}

/// Whether one keyword is found in the searched field of a task.
pub open spec fn keyword_found(
    title: Seq<char>,
    description: Seq<char>,
    keyword: Seq<char>,
    field: SearchField,
) -> bool {
    match field {
        SearchField::Title => contains_text(title, keyword),
        SearchField::Description => contains_text(description, keyword),
        SearchField::All => contains_text(title, keyword) || contains_text(description, keyword),
    }
}

/// Whether a task's title and description match the keywords: every word of
/// `keywords` is found in the searched field (no words match every task).
pub open spec fn matches_keywords(
    title: Seq<char>,
    description: Seq<char>,
    keywords: Seq<char>,
    field: SearchField,
) -> bool {
    forall|k: int|
        0 <= k < words(keywords).len() ==> keyword_found(
            title,
            description,
            #[trigger] words(keywords)[k],
            field,
        )
}

/// A task matches the keywords exactly when every word of the keywords,
/// wherever it stands among them, is found in the searched field: one word
/// that is missing makes the match fail.
pub proof fn law_match_needs_every_keyword(
    title: Seq<char>,
    description: Seq<char>,
    keywords: Seq<char>,
    field: SearchField,
)
    ensures
        matches_keywords(title, description, keywords, field) <==> forall|w: Seq<char>|
            #[trigger] words(keywords).contains(w) ==> keyword_found(title, description, w, field),
{
    let ws = words(keywords);
    if matches_keywords(title, description, keywords, field) {
        assert forall|w: Seq<char>| #[trigger] ws.contains(w) implies keyword_found(
            title,
            description,
            w,
            field,
        ) by {
            let k = choose|k: int| 0 <= k < ws.len() && ws[k] == w;
            assert(keyword_found(title, description, ws[k], field));
        }
    }
    if forall|w: Seq<char>| #[trigger] ws.contains(w) ==> keyword_found(title, description, w, field) {
        assert forall|k: int| 0 <= k < ws.len() implies keyword_found(
            title,
            description,
            #[trigger] ws[k],
            field,
        ) by {
            assert(ws.contains(ws[k]));
        }
    }
}

/// Whether a task matches the keywords (all of them, each as a plain
/// substring, case as written) in the chosen field.
pub fn task_matches_keywords(task: &TaskAggregate, keywords: &str, field: SearchField) -> (r: bool)
    ensures
        r == matches_keywords(task@.title, task@.description, keywords@, field),
        r <==> forall|w: Seq<char>|
            #[trigger] words(keywords@).contains(w) ==> keyword_found(
                task@.title,
                task@.description,
                w,
                field,
            ),
{
    proof {
        law_match_needs_every_keyword(task@.title, task@.description, keywords@, field);
    }
    let ws = split_words(keywords);
    let ghost wv = ws@.map_values(|w: String| w@);
    let title = task.title().value();
    let description = task.description().value();
    let mut i: usize = 0;
    while i < ws.len()
        invariant
            i <= ws.len(),
            wv == ws@.map_values(|w: String| w@),
            wv == words(keywords@),
            title@ == task@.title,
            description@ == task@.description,
            forall|k: int| 0 <= k < i ==> keyword_found(title@, description@, #[trigger] wv[k], field),
        decreases ws.len() - i,
    {
        let w = ws[i].as_str();
        assert(wv[i as int] == w@);
        let found = match field {
            SearchField::Title => text_contains(title, w),
            SearchField::Description => text_contains(description, w),
            SearchField::All => text_contains(title, w) || text_contains(description, w),
        };
        if !found {
            assert(words(keywords@).contains(wv[i as int]));
            return false;
        }
        i += 1;
    }
    true
}

/// The tasks that match the keywords, in their order.
pub fn search_tasks(tasks: &Vec<TaskAggregate>, keywords: &str, field: SearchField) -> (r: Vec<
    usize,
>)
    ensures
        forall|k: int| 0 <= k < r@.len() ==> r@[k] < tasks@.len(),
        forall|k: int, l: int| 0 <= k < l < r@.len() ==> r@[k] < r@[l],
        forall|j: int|
            0 <= j < tasks@.len() ==> (r@.contains(j as usize) <==> matches_keywords(
                tasks@[j]@.title,
                tasks@[j]@.description,
                keywords@,
                field,
            )),
{
    let mut out: Vec<usize> = Vec::new();
    let mut i: usize = 0;
    while i < tasks.len()
        invariant
            i <= tasks.len(),
            forall|k: int| 0 <= k < out@.len() ==> out@[k] < i,
            forall|k: int, l: int| 0 <= k < l < out@.len() ==> out@[k] < out@[l],
            forall|j: int|
                0 <= j < i ==> (out@.contains(j as usize) <==> matches_keywords(
                    tasks@[j]@.title,
                    tasks@[j]@.description,
                    keywords@,
                    field,
                )),
        decreases tasks.len() - i,
    {
        let ghost before = out@;
        if task_matches_keywords(&tasks[i], keywords, field) {
            out.push(i);
            assert forall|j: int| 0 <= j < i + 1 implies (out@.contains(j as usize)
                <==> matches_keywords(tasks@[j]@.title, tasks@[j]@.description, keywords@, field)) by {
                if j < i {
                    if before.contains(j as usize) {
                        let k = choose|k: int| 0 <= k < before.len() && before[k] == j as usize;
                        assert(out@[k] == j as usize);
                    }
                    if out@.contains(j as usize) {
                        let k = choose|k: int| 0 <= k < out@.len() && out@[k] == j as usize;
                        assert(k < before.len());
                        assert(before[k] == j as usize);
                    }
                } else {
                    assert(out@[before.len() as int] == i);
                }
            }
        } else {
            assert forall|j: int| 0 <= j < i + 1 implies (out@.contains(j as usize)
                <==> matches_keywords(tasks@[j]@.title, tasks@[j]@.description, keywords@, field)) by {
                if j == i {
                    if out@.contains(j as usize) {
                        let k = choose|k: int| 0 <= k < out@.len() && out@[k] == j as usize;
                        assert(out@[k] < i);
                    }
                }
            }
        }
        i += 1;
    }
    out
}

} // verus!
