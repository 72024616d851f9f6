use vstd::prelude::*;

use crate::domain::date::{ymd_text, CalendarDate};

use crate::text::{concat2, is_white_space, is_white_space_char, str_chars, string_from_chars};

verus! {

/// A tag as a task view shows it.
#[derive(Debug, Clone)]
pub struct TagInfo {
    pub id: i32,
    pub name: String,
}

/// An optional text, or "-" when it is absent or empty.
pub open spec fn optional_text(text: Option<Seq<char>>) -> Seq<char> {
    match text {
        Some(t) => if t.len() > 0 {
            t
        } else {
            "-"@
        },
        None => "-"@,
    }
}

/// Shows an optional text, or "-" when it is absent or empty.
pub fn format_optional_text(text: &Option<String>) -> (r: String)
    ensures
        r@ == optional_text(
            match text {
                Some(t) => Some(t@),
                None => None,
            },
        ),
{
    match text {
        Some(t) => {
            if t.as_str().unicode_len() > 0 {
                t.clone()
            } else {
                "-".to_string()
            }
        },
        None => "-".to_string(),
    }
}

/// The parts joined with `sep` between each two.
pub open spec fn join(parts: Seq<Seq<char>>, sep: Seq<char>) -> Seq<char>
    decreases parts.len(),
{
    if parts.len() == 0 {
        Seq::empty()
    } else if parts.len() == 1 {
        parts[0]
    } else {
        join(parts.drop_last(), sep) + sep + parts.last()
    }
}

/// The names of the tags, in order.
pub open spec fn tag_names(tags: Seq<TagInfo>) -> Seq<Seq<char>> {
    tags.map_values(|t: TagInfo| t.name@)
}

/// The tags' names joined with `sep`, or "-" when there are none.
pub open spec fn tags_text(tags: Seq<TagInfo>, sep: Seq<char>) -> Seq<char> {
    if tags.len() == 0 {
        "-"@
    } else {
        join(tag_names(tags), sep)
    }
}

/// Shows tags by name, separated by `separator`, or "-" when there are none.
pub fn format_tags(tags: &[TagInfo], separator: &str) -> (r: String)
    ensures
        r@ == tags_text(tags@, separator@),
{
    if tags.len() == 0 {
        return "-".to_string();
    }
    let ghost names = tag_names(tags@);
    let mut out = tags[0].name.clone();
    assert(names.take(1) =~= seq![names[0]]);
    let mut i: usize = 1;
    while i < tags.len()
        invariant
            1 <= i <= tags.len(),
            names == tag_names(tags@),
            out@ == join(names.take(i as int), separator@),
        decreases tags.len() - i,
    {
        out.append(separator);
        out.append(tags[i].name.as_str());
        assert(names.take(i + 1).drop_last() =~= names.take(i as int));
        i += 1;
    }
    assert(names.take(tags.len() as int) =~= names);
    out
}

/// The state after reading `p` while collapsing white space: the text so
/// far, whether a word has been written, and whether white space has been
/// seen since the last word.
pub open spec fn collapse_state(p: Seq<char>) -> (Seq<char>, bool, bool)
    decreases p.len(),
{
    if p.len() == 0 {
        (Seq::empty(), false, false)
    } else {
        let (o, started, pending) = collapse_state(p.drop_last());
        let c = p.last();
        if is_white_space(c) {
            (o, started, started)
        } else {
            (
                if pending {
                    o.push(' ').push(c)
                } else {
                    o.push(c)
                },
                true,
                false,
            )
        }
    }
}

/// The words of `s` (its runs of non-white-space characters) joined by
/// single spaces: what `split_whitespace` then `join(" ")` give.
pub open spec fn collapse_white_space(s: Seq<char>) -> Seq<char> {
    collapse_state(s).0
}

/// A text shortened for a table cell: its white space collapsed, then cut
/// to `max_len` characters with "..." added when it is longer.
pub open spec fn truncated(s: Seq<char>, max_len: nat) -> Seq<char> {
    let t = collapse_white_space(s);
    if t.len() > max_len {
        t.take(max_len as int) + "..."@
    } else {
        t
    }
}

/// Collapses the white space of `desc` to single spaces between words and
/// cuts the result to `max_len` characters, marking a cut with "...".
pub fn truncate_text(desc: &str, max_len: usize) -> (r: String)
    ensures
        r@ == truncated(desc@, max_len as nat),
{
    let v = str_chars(desc);
    let mut out: Vec<char> = Vec::new();
    let mut started = false;
    let mut pending = false;
    let mut i: usize = 0;
    while i < v.len()
        invariant
            i <= v.len(),
            v@ == desc@,
            (out@, started, pending) == collapse_state(v@.take(i as int)),
        decreases v.len() - i,
    {
        let c = v[i];
        assert(v@.take(i + 1).drop_last() =~= v@.take(i as int));
        if is_white_space_char(c) {
            pending = started;
        } else {
            if pending {
                out.push(' ');
            }
            out.push(c);
            started = true;
            pending = false;
        }
        i += 1;
    }
    assert(v@.take(v.len() as int) =~= desc@);
    if out.len() > max_len {
        let mut cut: Vec<char> = Vec::new();
        let mut j: usize = 0;
        while j < max_len
            invariant
                j <= max_len < out.len(),
                cut@ == out@.take(j as int),
            decreases max_len - j,
        {
            cut.push(out[j]);
            assert(cut@ =~= out@.take(j + 1));
            j += 1;
        }
        let head = string_from_chars(&cut);
        concat2(head.as_str(), "...")
    } else {
        string_from_chars(&out)
    }
}

/// Shows an optional date as `YYYY-MM-DD`, or "-" when there is none.
pub fn format_date(date: &Option<CalendarDate>) -> (r: String)
    ensures
        match date {
            Some(d) => r@ == ymd_text(d@),
            None => r@ == "-"@,
        },
{
    match date {
        Some(d) => d.text(),
        None => "-".to_string(),
    }
}


/// A shortened text is at most `max_len` characters and "..."; a text whose
/// collapsed form fits is given back collapsed, without "...".
pub proof fn law_truncated_length(s: Seq<char>, max_len: nat)
    ensures
        truncated(s, max_len).len() <= max_len + 3,
        collapse_white_space(s).len() <= max_len ==> truncated(s, max_len) == collapse_white_space(s),
{
    reveal_strlit("...");
}

} // verus!
