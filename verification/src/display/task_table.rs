use vstd::prelude::*;

use crate::domain::date::{utc_minute_text, utc_representable, utc_well_inside, ymd_text, CalendarDate};

use crate::display::format::{
    format_date, format_optional_text, format_tags, optional_text, tags_text, truncate_text,
    truncated, TagInfo,
};
use crate::display::table::{
    build_headless_table, build_table, comfy_header, comfy_rows, is_plain_row, plain, plain_cells,
    plain_row,
    row_texts, row_view, rows_view, CellSpec, TableCell,
};
use crate::domain::aggregate::TaskAggregate;
use crate::domain::clock::Timestamp;
use crate::domain::tag::{TagAggregate, TagModel};
use crate::domain::tag_repository::{find_tag, InMemoryTagRepository};
use crate::domain::task::{priority_name, status_text};
use crate::text::{int_to_string, spec_int_digits};

verus! {

/// A task as the views show it.
#[derive(Debug, Clone)]
pub struct TaskDTO {
    pub id: i32,
    pub title: String,
    pub description: Option<String>,
    pub status: String,
    pub priority: String,
    pub tags: Vec<TagInfo>,
    pub due_date: Option<CalendarDate>,
    pub completed_at: Option<Timestamp>,
    pub created_at: Timestamp,
    pub updated_at: Timestamp,
}

/// A tag as the views show it.
#[derive(Debug, Clone)]
pub struct TagDTO {
    pub id: i32,
    pub name: String,
    pub description: Option<String>,
    pub created_at: Timestamp,
    pub updated_at: Timestamp,
}

/// Whether `text` is how `t` reads in a local time zone: empty when chrono
/// cannot represent its UTC day, and otherwise, a day or more inside the
/// calendar's range, the UTC minute text of `t` moved by the zone's offset,
/// which lies strictly within a day either way.
pub open spec fn local_minute_text(t: Timestamp, text: Seq<char>) -> bool {
    &&& !utc_representable(t.0 as int) ==> text == Seq::<char>::empty()
    &&& utc_well_inside(t.0 as int) ==> exists|off: int|
        -86400 < off < 86400 && text == #[trigger] utc_minute_text(t.0 + off * 1_000_000)
}

/// A time as local time `YYYY-MM-DD HH:MM`, through chrono's
/// `DateTime::from_timestamp_micros`, `with_timezone(&Local)` and `format`.
/// `from_timestamp_micros` gives a time exactly when its UTC day is one
/// `NaiveDate` holds; the local offset is the machine's, and chrono's
/// `FixedOffset` keeps it strictly within a day. Formatting a local time
/// writes the UTC time moved by that offset. Which offset it is, is not stated.
#[verifier::external_body]
fn local_time_text(t: Timestamp) -> (r: Option<String>)
    ensures
        r is Some <==> utc_representable(t.0 as int),
        r matches Some(s) ==> (utc_well_inside(t.0 as int) ==> exists|off: int|
            -86400 < off < 86400 && s@ == #[trigger] utc_minute_text(t.0 + off * 1_000_000)),
{
    match chrono::DateTime::from_timestamp_micros(t.0) {
        Some(dt) => Some(dt.with_timezone(&chrono::Local).format("%Y-%m-%d %H:%M").to_string()),
        None => None,
    }
}

/// Shows a time in the machine's local time zone as `YYYY-MM-DD HH:MM`; a
/// time whose day lies outside the calendar's range shows as an empty text.
pub fn format_local_time(utc_time: &Timestamp) -> (r: String)
    ensures
        local_minute_text(*utc_time, r@),
{
    match local_time_text(*utc_time) {
        Some(s) => s,
        None => String::new(),
    }
}

/// Shows an optional time as local time, or "-" when there is none.
pub fn format_optional_datetime(dt: &Option<Timestamp>) -> (r: String)
    ensures
        match dt {
            Some(t) => local_minute_text(*t, r@),
            None => r@ == "-"@,
        },
{
    match dt {
        Some(t) => format_local_time(t),
        None => "-".to_string(),
    }
}

/// The optional description as plain text.
pub open spec fn opt_view(t: Option<String>) -> Option<Seq<char>> {
    match t {
        Some(s) => Some(s@),
        None => None,
    }
}

/// The cells of a task row: ID, title and description cut to 20
/// characters, status, priority, tag names joined by ",", the due date ("-"
/// when there is none), then the completion ("-" when there is none),
/// creation and update times as local times.
pub open spec fn task_row_fixed(r: Seq<Seq<char>>, task: TaskDTO) -> bool {
    &&& r.len() == 10
    &&& r[0] == spec_int_digits(task.id as int)
    &&& r[1] == truncated(task.title@, 20)
    &&& r[2] == truncated(optional_text(opt_view(task.description)), 20)
    &&& r[3] == task.status@
    &&& r[4] == task.priority@
    &&& r[5] == tags_text(task.tags@, ","@)
    &&& r[6] == due_text(task.due_date)
    &&& match task.completed_at {
        Some(t) => local_minute_text(t, r[7]),
        None => r[7] == "-"@,
    }
    &&& local_minute_text(task.created_at, r[8])
    &&& local_minute_text(task.updated_at, r[9])
}

/// A due date as the views write it: `YYYY-MM-DD`, or "-" when there is none.
pub open spec fn due_text(d: Option<CalendarDate>) -> Seq<char> {
    match d {
        Some(date) => ymd_text(date@),
        None => "-"@,
    }
}

/// The texts of a list of strings.
pub open spec fn texts(v: Seq<String>) -> Seq<Seq<char>> {
    v.map_values(|s: String| s@)
}

/// One row of the task list: ID, title, description, status, priority,
/// tags, due date, completion time, creation time, update time.
pub fn create_task_row(task: &TaskDTO) -> (r: Vec<String>)
    ensures
        task_row_fixed(texts(r@), *task),
{
    let description = truncate_text(format_optional_text(&task.description).as_str(), 20);
    let mut r: Vec<String> = Vec::new();
    r.push(int_to_string(task.id as i64));
    r.push(truncate_text(task.title.as_str(), 20));
    r.push(description);
    r.push(task.status.clone());
    r.push(task.priority.clone());
    r.push(format_tags(task.tags.as_slice(), ","));
    r.push(format_date(&task.due_date));
    r.push(format_optional_datetime(&task.completed_at));
    r.push(format_local_time(&task.created_at));
    r.push(format_local_time(&task.updated_at));
    r
}

/// The header of the task list.
pub open spec fn task_header_texts() -> Seq<Seq<char>> {
    seq![
        "ID"@,
        "タイトル"@,
        "説明"@,
        "ステータス"@,
        "優先度"@,
        "タグ"@,
        "期限"@,
        "完了日時"@,
        "作成日"@,
        "更新日"@,
    ]
}

fn header_cells(names: &[&str]) -> (r: Vec<String>)
    ensures
        texts(r@) == names@.map_values(|s: &str| s@),
{
    let mut out: Vec<String> = Vec::new();
    let mut i: usize = 0;
    while i < names.len()
        invariant
            i <= names.len(),
            texts(out@) == names@.take(i as int).map_values(|s: &str| s@),
        decreases names.len() - i,
    {
        let ghost before = out@;
        out.push(names[i].to_string());
        assert(texts(out@) =~= texts(before).push(names@[i as int]@));
        assert(names@.take(i + 1).map_values(|s: &str| s@) =~= names@.take(i as int).map_values(
            |s: &str| s@,
        ).push(names@[i as int]@));
        i += 1;
    }
    assert(names@.take(names.len() as int) =~= names@);
    out
}

/// The cells of a list row, plain, from its texts.
proof fn lemma_plain_cells(v: Seq<String>, r: Seq<TableCell>)
    requires
        row_view(r) == v.map_values(|t: String| plain(t@)),
    ensures
        row_view(r) == plain_row(texts(v)),
        row_texts(row_view(r)) == texts(v),
        is_plain_row(row_view(r)),
{
    assert(row_view(r) =~= plain_row(texts(v)));
    assert(row_texts(row_view(r)) =~= texts(v));
}

/// The task list: a header, then one row per task, every cell plain.
pub fn create_task_table(tasks: &[TaskDTO]) -> (r: comfy_table::Table)
    ensures
        comfy_header(r) == plain_row(task_header_texts()),
        comfy_rows(r).len() == tasks@.len(),
        forall|i: int|
            0 <= i < tasks@.len() ==> is_plain_row(#[trigger] comfy_rows(r)[i]) && task_row_fixed(
                row_texts(comfy_rows(r)[i]),
                tasks@[i],
            ),
{
    let names = ["ID", "タイトル", "説明", "ステータス", "優先度", "タグ", "期限", "完了日時", "作成日", "更新日"];
    let names_v = header_cells(&names);
    let header = plain_cells(names_v);
    proof {
        lemma_plain_cells(names_v@, header@);
        assert(names@.map_values(|s: &str| s@) =~= task_header_texts()) by {
            reveal_strlit("ID");
            reveal_strlit("タイトル");
            reveal_strlit("説明");
            reveal_strlit("ステータス");
            reveal_strlit("優先度");
            reveal_strlit("タグ");
            reveal_strlit("期限");
            reveal_strlit("完了日時");
            reveal_strlit("作成日");
            reveal_strlit("更新日");
        }
    }
    let mut rows: Vec<Vec<TableCell>> = Vec::new();
    let mut i: usize = 0;
    while i < tasks.len()
        invariant
            i <= tasks.len(),
            rows@.len() == i,
            forall|k: int|
                0 <= k < i ==> is_plain_row(#[trigger] rows_view(rows@)[k]) && task_row_fixed(
                    row_texts(rows_view(rows@)[k]),
                    tasks@[k],
                ),
        decreases tasks.len() - i,
    {
        let texts_v = create_task_row(&tasks[i]);
        let row = plain_cells(texts_v);
        proof {
            lemma_plain_cells(texts_v@, row@);
        }
        let ghost before = rows@;
        rows.push(row);
        assert(rows_view(rows@)[i as int] == row_view(row@));
        assert forall|k: int| 0 <= k < i + 1 implies is_plain_row(#[trigger] rows_view(rows@)[k])
            && task_row_fixed(row_texts(rows_view(rows@)[k]), tasks@[k]) by {
            if k < i {
                assert(rows_view(rows@)[k] == rows_view(before)[k]);
            }
        }
        i += 1;
    }
    build_table(&header, &rows)
}

fn pair(label: &str, value: String) -> (r: Vec<String>)
    ensures
        texts(r@) == seq![label@, value@],
{
    let mut r: Vec<String> = Vec::new();
    r.push(label.to_string());
    r.push(value);
    assert(texts(r@) =~= seq![label@, r@[1]@]);
    r
}

/// The detail rows of a task, label then value: ID, title, description ("-"
/// when empty), status, priority, tag names joined by ", ", due date,
/// completion time ("-" when there is none), then the creation and update
/// times, the times as local times.
pub open spec fn task_detail_fixed(rows: Seq<Seq<Seq<char>>>, task: TaskDTO) -> bool {
    &&& rows.len() == 10
    &&& forall|k: int| 0 <= k < 10 ==> (#[trigger] rows[k]).len() == 2
    &&& rows[0] == seq!["ID"@, spec_int_digits(task.id as int)]
    &&& rows[1] == seq!["タイトル"@, task.title@]
    &&& rows[2] == seq!["説明"@, optional_text(opt_view(task.description))]
    &&& rows[3] == seq!["ステータス"@, task.status@]
    &&& rows[4] == seq!["優先度"@, task.priority@]
    &&& rows[5] == seq!["タグ"@, tags_text(task.tags@, ", "@)]
    &&& rows[6] == seq!["期限"@, due_text(task.due_date)]
    &&& rows[7][0] == "完了日時"@
    &&& match task.completed_at {
        Some(t) => local_minute_text(t, rows[7][1]),
        None => rows[7][1] == "-"@,
    }
    &&& rows[8] == seq!["作成日"@, rows[8][1]] && local_minute_text(task.created_at, rows[8][1])
    &&& rows[9] == seq!["更新日"@, rows[9][1]] && local_minute_text(task.updated_at, rows[9][1])
}

/// The texts of the rows of a table.
pub open spec fn table_texts(rows: Seq<Seq<CellSpec>>) -> Seq<Seq<Seq<char>>> {
    rows.map_values(|c: Seq<CellSpec>| row_texts(c))
}

fn push_pair(rows: &mut Vec<Vec<TableCell>>, label: &str, value: String)
    ensures
        final(rows)@.len() == old(rows)@.len() + 1,
        forall|k: int| 0 <= k < old(rows)@.len() ==> #[trigger] final(rows)@[k] == old(rows)@[k],
        is_plain_row(row_view(final(rows)@.last()@)),
        row_texts(row_view(final(rows)@.last()@)) == seq![label@, value@],
{
    let v = pair(label, value);
    let row = plain_cells(v);
    proof {
        lemma_plain_cells(v@, row@);
    }
    rows.push(row);
}

/// The details of one task, a field per row, every cell plain, no header.
pub fn create_task_detail_table(task: &TaskDTO) -> (r: comfy_table::Table)
    ensures
        comfy_header(r) == Seq::<CellSpec>::empty(),
        forall|k: int| 0 <= k < comfy_rows(r).len() ==> is_plain_row(#[trigger] comfy_rows(r)[k]),
        task_detail_fixed(table_texts(comfy_rows(r)), *task),
{
    let mut rows: Vec<Vec<TableCell>> = Vec::new();
    push_pair(&mut rows, "ID", int_to_string(task.id as i64));
    push_pair(&mut rows, "タイトル", task.title.clone());
    push_pair(&mut rows, "説明", format_optional_text(&task.description));
    push_pair(&mut rows, "ステータス", task.status.clone());
    push_pair(&mut rows, "優先度", task.priority.clone());
    push_pair(&mut rows, "タグ", format_tags(task.tags.as_slice(), ", "));
    push_pair(&mut rows, "期限", format_date(&task.due_date));
    push_pair(&mut rows, "完了日時", format_optional_datetime(&task.completed_at));
    push_pair(&mut rows, "作成日", format_local_time(&task.created_at));
    push_pair(&mut rows, "更新日", format_local_time(&task.updated_at));
    let r = build_headless_table(&rows);
    proof {
        let t = table_texts(comfy_rows(r));
        assert(forall|k: int| 0 <= k < 10 ==> #[trigger] t[k] == row_texts(row_view(rows@[k]@)));
    }
    r
}

/// The cells of a tag row: ID, name and description cut to 20 characters,
/// then the creation and update times as local times.
pub open spec fn tag_row_fixed(r: Seq<Seq<char>>, tag: TagDTO) -> bool {
    &&& r.len() == 5
    &&& r[0] == spec_int_digits(tag.id as int)
    &&& r[1] == truncated(tag.name@, 20)
    &&& r[2] == truncated(optional_text(opt_view(tag.description)), 20)
    &&& local_minute_text(tag.created_at, r[3])
    &&& local_minute_text(tag.updated_at, r[4])
}

/// One row of the tag list: ID, name, description, creation time, update time.
pub fn create_tag_row(tag: &TagDTO) -> (r: Vec<String>)
    ensures
        tag_row_fixed(texts(r@), *tag),
{
    let description = truncate_text(format_optional_text(&tag.description).as_str(), 20);
    let mut r: Vec<String> = Vec::new();
    r.push(int_to_string(tag.id as i64));
    r.push(truncate_text(tag.name.as_str(), 20));
    r.push(description);
    r.push(format_local_time(&tag.created_at));
    r.push(format_local_time(&tag.updated_at));
    r
}

/// The header of the tag list.
pub open spec fn tag_header_texts() -> Seq<Seq<char>> {
    seq!["ID"@, "名前"@, "説明"@, "作成日"@, "更新日"@]
}

/// The tag list: a header, then one row per tag, every cell plain.
pub fn create_tag_table(tags: &[TagDTO]) -> (r: comfy_table::Table)
    ensures
        comfy_header(r) == plain_row(tag_header_texts()),
        comfy_rows(r).len() == tags@.len(),
        forall|i: int|
            0 <= i < tags@.len() ==> is_plain_row(#[trigger] comfy_rows(r)[i]) && tag_row_fixed(
                row_texts(comfy_rows(r)[i]),
                tags@[i],
            ),
{
    let names = ["ID", "名前", "説明", "作成日", "更新日"];
    let names_v = header_cells(&names);
    let header = plain_cells(names_v);
    proof {
        lemma_plain_cells(names_v@, header@);
        assert(names@.map_values(|s: &str| s@) =~= tag_header_texts()) by {
            reveal_strlit("ID");
            reveal_strlit("名前");
            reveal_strlit("説明");
            reveal_strlit("作成日");
            reveal_strlit("更新日");
        }
    }
    let mut rows: Vec<Vec<TableCell>> = Vec::new();
    let mut i: usize = 0;
    while i < tags.len()
        invariant
            i <= tags.len(),
            rows@.len() == i,
            forall|k: int|
                0 <= k < i ==> is_plain_row(#[trigger] rows_view(rows@)[k]) && tag_row_fixed(
                    row_texts(rows_view(rows@)[k]),
                    tags@[k],
                ),
        decreases tags.len() - i,
    {
        let texts_v = create_tag_row(&tags[i]);
        let row = plain_cells(texts_v);
        proof {
            lemma_plain_cells(texts_v@, row@);
        }
        let ghost before = rows@;
        rows.push(row);
        assert(rows_view(rows@)[i as int] == row_view(row@));
        assert forall|k: int| 0 <= k < i + 1 implies is_plain_row(#[trigger] rows_view(rows@)[k])
            && tag_row_fixed(row_texts(rows_view(rows@)[k]), tags@[k]) by {
            if k < i {
                assert(rows_view(rows@)[k] == rows_view(before)[k]);
            }
        }
        i += 1;
    }
    build_table(&header, &rows)
}

/// The detail rows of a tag, label then value: ID, name, description ("-"
/// when empty), then the creation and update times as local times.
pub open spec fn tag_detail_fixed(rows: Seq<Seq<Seq<char>>>, tag: TagDTO) -> bool {
    &&& rows.len() == 5
    &&& forall|k: int| 0 <= k < 5 ==> (#[trigger] rows[k]).len() == 2
    &&& rows[0] == seq!["ID"@, spec_int_digits(tag.id as int)]
    &&& rows[1] == seq!["名前"@, tag.name@]
    &&& rows[2] == seq!["説明"@, optional_text(opt_view(tag.description))]
    &&& rows[3] == seq!["作成日"@, rows[3][1]] && local_minute_text(tag.created_at, rows[3][1])
    &&& rows[4] == seq!["更新日"@, rows[4][1]] && local_minute_text(tag.updated_at, rows[4][1])
}

/// The details of one tag, a field per row, every cell plain, no header.
pub fn create_tag_detail_table(tag: &TagDTO) -> (r: comfy_table::Table)
    ensures
        comfy_header(r) == Seq::<CellSpec>::empty(),
        forall|k: int| 0 <= k < comfy_rows(r).len() ==> is_plain_row(#[trigger] comfy_rows(r)[k]),
        tag_detail_fixed(table_texts(comfy_rows(r)), *tag),
{
    let mut rows: Vec<Vec<TableCell>> = Vec::new();
    push_pair(&mut rows, "ID", int_to_string(tag.id as i64));
    push_pair(&mut rows, "名前", tag.name.clone());
    push_pair(&mut rows, "説明", format_optional_text(&tag.description));
    push_pair(&mut rows, "作成日", format_local_time(&tag.created_at));
    push_pair(&mut rows, "更新日", format_local_time(&tag.updated_at));
    let r = build_headless_table(&rows);
    proof {
        let t = table_texts(comfy_rows(r));
        assert(forall|k: int| 0 <= k < 5 ==> #[trigger] t[k] == row_texts(row_view(rows@[k]@)));
    }
    r
}

/// The tags of `ids` that the stored tags `ts` know, in the order of `ids`,
/// by ID and name; an unknown ID is passed over.
pub open spec fn known_tags(ids: Seq<crate::domain::tag::TagId>, ts: Seq<TagModel>) -> Seq<(i32, Seq<char>)>
    decreases ids.len(),
{
    if ids.len() == 0 {
        Seq::empty()
    } else {
        let rest = known_tags(ids.drop_last(), ts);
        match find_tag(ts, ids.last()) {
            Some(m) => rest.push((m.id@, m.name)),
            None => rest,
        }
    }
}

/// The tag infos as plain values.
pub open spec fn infos_view(v: Seq<TagInfo>) -> Seq<(i32, Seq<char>)> {
    v.map_values(|t: TagInfo| (t.id, t.name@))
}

impl TaskDTO {
    /// The view of a task, its tags named from `tag_repo` (a tag that is no
    /// longer stored is left out). Status and priority are written as
    /// "pending" and "High" are.
    pub fn from_task(task: &TaskAggregate, tag_repo: &InMemoryTagRepository) -> (r: TaskDTO)
        requires
            tag_repo.wf(),
        ensures
            r.id == task@.id@,
            r.title@ == task@.title,
            r.description matches Some(d) && d@ == task@.description,
            r.status@ == status_text(task@.status),
            r.priority@ == priority_name(task@.priority),
            infos_view(r.tags@) == known_tags(task@.tags, tag_repo@.tags),
            r.due_date == (match task@.due_date {
                Some(dd) => Some(dd.spec_date()),
                None => None,
            }),
            r.completed_at == task@.completed_at,
            r.created_at == task@.created_at,
            r.updated_at == task@.updated_at,
    {
        let ids = task.tags();
        let mut tags: Vec<TagInfo> = Vec::new();
        let mut i: usize = 0;
        while i < ids.len()
            invariant
                tag_repo.wf(),
                i <= ids.len(),
                ids@ == task@.tags,
                infos_view(tags@) == known_tags(ids@.take(i as int), tag_repo@.tags),
            decreases ids.len() - i,
        {
            assert(ids@.take(i + 1).drop_last() =~= ids@.take(i as int));
            let ghost before = tags@;
            match tag_repo.find_by_id(&ids[i]) {
                Some(t) => {
                    tags.push(TagInfo { id: t.id().value(), name: t.name().value().to_string() });
                    assert(infos_view(tags@) =~= infos_view(before).push((t@.id@, t@.name)));
                },
                None => {},
            }
            i += 1;
        }
        assert(ids@.take(ids.len() as int) =~= ids@);
        let due_date = match task.due_date() {
            Some(dd) => Some(dd.value()),
            None => None,
        };
        TaskDTO {
            id: task.id().value(),
            title: task.title().value().to_string(),
            description: Some(task.description().value().to_string()),
            status: task.status().to_string(),
            priority: task.priority().as_str().to_string(),
            tags,
            due_date,
            completed_at: *task.completed_at(),
            created_at: *task.created_at(),
            updated_at: *task.updated_at(),
        }
    }
}

impl TagDTO {
    /// The view of a tag.
    pub fn from_tag(tag: &TagAggregate) -> (r: TagDTO)
        ensures
            r.id == tag@.id@,
            r.name@ == tag@.name,
            r.description matches Some(d) && d@ == tag@.description,
            r.created_at == tag@.created_at,
            r.updated_at == tag@.updated_at,
    {
        TagDTO {
            id: tag.id().value(),
            name: tag.name().value().to_string(),
            description: Some(tag.description().value().to_string()),
            created_at: *tag.created_at(),
            updated_at: *tag.updated_at(),
        }
    }
}

} // verus!
