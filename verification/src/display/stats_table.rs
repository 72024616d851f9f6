use vstd::prelude::*;

use crate::display::stats_dto::{count_or_zero, lookup, CountMap, StatsDTO};
use crate::display::table::{
    build_table, cell, comfy_drawing, comfy_header, utf8_full_frame, comfy_rows, comfy_table_text, new_table_cell, row_view, rows_view, CellAlign, CellSpec, TableCell,
};
use crate::display::sections::{
    lemma_drawing_no_close, lemma_matrix_cells_no_close, lemma_status_cells_no_close,
    lemma_tag_cells_no_close, law_stats_display_sections, no_close, sections_shown,
};
use crate::text::{concat3, nat_to_string, spec_nat_digits, string_from_chars};

verus! {

/// `n` copies of `c`.
pub open spec fn repeat_char(c: char, n: nat) -> Seq<char> {
    Seq::new(n, |_i: int| c)
}

/// Builds `n` copies of `c`.
pub fn repeat_text(c: char, n: usize) -> (r: String)
    ensures
        r@ == repeat_char(c, n as nat),
{
    let mut v: Vec<char> = Vec::new();
    let mut i: usize = 0;
    while i < n
        invariant
            i <= n,
            v@ == repeat_char(c, i as nat),
        decreases n - i,
    {
        v.push(c);
        assert(v@ =~= repeat_char(c, (i + 1) as nat));
        i += 1;
    }
    string_from_chars(&v)
}

/// `t` centred in `width` characters, as `{:^width}` writes it: the padding
/// is split with the smaller half on the left; a text at least that wide
/// is left as it is.
pub open spec fn centered(t: Seq<char>, width: nat) -> Seq<char> {
    if t.len() >= width {
        t
    } else {
        let pad = (width - t.len()) as nat;
        repeat_char(' ', pad / 2) + t + repeat_char(' ', (pad - pad / 2) as nat)
    }
}

/// A section title: the text centred in 50 characters between two rules
/// of 50 '━'.
pub open spec fn title_text(t: Seq<char>) -> Seq<char> {
    repeat_char('━', 50) + "\n"@ + centered(t, 50) + "\n"@ + repeat_char('━', 50)
}

/// Builds a section title.
pub fn create_title(title: &str) -> (r: String)
    ensures
        r@ == title_text(title@),
{
    let rule = repeat_text('━', 50);
    let len = title.unicode_len();
    let middle = if len >= 50 {
        title.to_string()
    } else {
        let pad = 50 - len;
        let left = repeat_text(' ', pad / 2);
        let right = repeat_text(' ', pad - pad / 2);
        concat3(left.as_str(), title, right.as_str())
    };
    let mut out = rule.clone();
    out.append("\n");
    out.append(middle.as_str());
    out.append("\n");
    out.append(rule.as_str());
    assert(rule@ == repeat_char('━', 50));
    out
}

/// The due-date line of the summary; a missing count reads 0.
pub open spec fn due_summary_text(due: Seq<(Seq<char>, usize)>) -> Seq<char> {
    "Overdue: "@ + spec_nat_digits(count_or_zero(due, "overdue"@)) + " tasks, Due today: "@
        + spec_nat_digits(count_or_zero(due, "due_today"@)) + " tasks, Due this week: "@
        + spec_nat_digits(count_or_zero(due, "due_this_week"@)) + " tasks"@
}

fn count_text(m: &CountMap, key: &str) -> (r: String)
    ensures
        r@ == spec_nat_digits(count_or_zero(m@, key@)),
{
    let c: usize = match m.get(key) {
        Some(c) => c,
        None => 0,
    };
    nat_to_string(c as u128)
}

/// Writes the due-date line: the overdue, due-today and due-this-week counts.
pub fn create_due_date_summary(stats: &StatsDTO) -> (r: String)
    ensures
        r@ == due_summary_text(stats.due_date_stats@),
{
    let overdue = count_text(&stats.due_date_stats, "overdue");
    let today = count_text(&stats.due_date_stats, "due_today");
    let week = count_text(&stats.due_date_stats, "due_this_week");
    let mut out = "Overdue: ".to_string();
    out.append(overdue.as_str());
    out.append(" tasks, Due today: ");
    out.append(today.as_str());
    out.append(" tasks, Due this week: ");
    out.append(week.as_str());
    out.append(" tasks");
    out
}

/// Whether the priority × status matrix has any entry.
pub fn has_priority_status_data(stats: &StatsDTO) -> (r: bool)
    ensures
        r == (stats.priority_status_matrix@.len() > 0),
{
    !stats.priority_status_matrix.is_empty()
}

/// `num / den` rounded to the nearest integer, an exact half upward.
pub open spec fn div_round_half_up(num: nat, den: nat) -> nat
    recommends
        den > 0,
{
    let q = num / den;
    if 2 * (num % den) >= den {
        q + 1
    } else {
        q
    }
}

/// The share of each status in the total, as the program writes it: one
/// decimal and a '%', as "35.7%". The program computes it in floating
/// point, which this library does not hold, so the texts come in ready.
#[derive(Debug, Clone)]
pub struct StatusPercents {
    pub pending: String,
    pub in_progress: String,
    pub completed: String,
}

/// The percentage text of status `i` (pending, in progress, completed).
pub open spec fn status_percent(p: StatusPercents, i: int) -> Seq<char> {
    if i == 0 {
        p.pending@
    } else if i == 1 {
        p.in_progress@
    } else {
        p.completed@
    }
}

fn status_percent_text(p: &StatusPercents, i: usize) -> (r: String)
    requires
        i < 3,
    ensures
        r@ == status_percent(*p, i as int),
{
    if i == 0 {
        p.pending.clone()
    } else if i == 1 {
        p.in_progress.clone()
    } else {
        p.completed.clone()
    }
}

/// How many of the ten blocks of a progress bar are filled for `count` of
/// `total`: the share in tenths, rounded, an exact half upward; none when
/// the total is 0; at most ten.
pub open spec fn bar_blocks(count: nat, total: nat) -> nat {
    if total == 0 {
        0
    } else {
        let b = div_round_half_up(10 * count, total);
        if b > 10 {
            10
        } else {
            b
        }
    }
}

/// A progress bar of ten blocks: '█' for the filled ones, then '░'.
pub open spec fn bar_text(count: nat, total: nat) -> Seq<char> {
    repeat_char('█', bar_blocks(count, total)) + repeat_char(
        '░',
        (10 - bar_blocks(count, total)) as nat,
    )
}

/// Draws the ten-block progress bar for `count` of `total`.
pub fn create_progress_bar(count: usize, total: usize) -> (r: String)
    ensures
        r@ == bar_text(count as nat, total as nat),
        r@.len() == 10,
{
    proof {
        law_progress_bar_has_ten_blocks(count as nat, total as nat);
    }
    let filled: usize = if total == 0 {
        0
    } else {
        let num: u128 = (count as u128) * 10;
        let den: u128 = total as u128;
        let q = num / den;
        let b = if 2 * (num % den) >= den {
            q + 1
        } else {
            q
        };
        if b > 10 {
            10
        } else {
            b as usize
        }
    };
    let full = repeat_text('█', filled);
    let empty = repeat_text('░', 10 - filled);
    let mut out = full;
    out.append(empty.as_str());
    out
}

/// The status keys, in table order.
pub open spec fn status_key(i: int) -> Seq<char> {
    if i == 0 {
        "pending"@
    } else if i == 1 {
        "in_progress"@
    } else {
        "completed"@
    }
}

/// The status labels, in table order.
pub open spec fn status_label(i: int) -> Seq<char> {
    if i == 0 {
        "Pending"@
    } else if i == 1 {
        "In Progress"@
    } else {
        "Completed"@
    }
}

fn status_key_text(i: usize) -> (r: &'static str)
    requires
        i < 3,
    ensures
        r@ == status_key(i as int),
{
    if i == 0 {
        "pending"
    } else if i == 1 {
        "in_progress"
    } else {
        "completed"
    }
}

fn status_label_text(i: usize) -> (r: &'static str)
    requires
        i < 3,
    ensures
        r@ == status_label(i as int),
{
    if i == 0 {
        "Pending"
    } else if i == 1 {
        "In Progress"
    } else {
        "Completed"
    }
}

/// The header of the status table.
pub open spec fn status_header_spec() -> Seq<CellSpec> {
    seq![
        cell("Status"@, true, CellAlign::Left),
        cell("Count"@, true, CellAlign::Right),
        cell("Percentage (%)"@, true, CellAlign::Right),
        cell("Progress"@, true, CellAlign::Left),
    ]
}

/// Builds the header of the status table.
pub fn status_header() -> (r: Vec<TableCell>)
    ensures
        row_view(r@) == status_header_spec(),
{
    let mut r: Vec<TableCell> = Vec::new();
    r.push(new_table_cell("Status".to_string(), true, CellAlign::Left));
    r.push(new_table_cell("Count".to_string(), true, CellAlign::Right));
    r.push(new_table_cell("Percentage (%)".to_string(), true, CellAlign::Right));
    r.push(new_table_cell("Progress".to_string(), true, CellAlign::Left));
    assert(row_view(r@) =~= status_header_spec());
    r
}

/// One status row: the label, the count, its share `pct` and its progress bar.
pub open spec fn status_row_spec(label: Seq<char>, count: nat, total: nat, pct: Seq<char>) -> Seq<
    CellSpec,
> {
    seq![
        cell(label, false, CellAlign::Left),
        cell(spec_nat_digits(count), false, CellAlign::Right),
        cell(pct, false, CellAlign::Right),
        cell(bar_text(count, total), false, CellAlign::Left),
    ]
}

/// The row of status `i` when its count is present, else nothing.
pub open spec fn status_row_opt(
    st: Seq<(Seq<char>, usize)>,
    total: nat,
    pcts: StatusPercents,
    i: int,
) -> Seq<Seq<CellSpec>> {
    match lookup(st, status_key(i)) {
        Some(c) => seq![status_row_spec(status_label(i), c as nat, total, status_percent(pcts, i))],
        None => Seq::empty(),
    }
}

/// The status rows: pending, in progress, completed, each only when its
/// count is present.
pub open spec fn status_rows_spec(
    st: Seq<(Seq<char>, usize)>,
    total: nat,
    pcts: StatusPercents,
) -> Seq<Seq<CellSpec>> {
    status_row_opt(st, total, pcts, 0) + status_row_opt(st, total, pcts, 1) + status_row_opt(
        st,
        total,
        pcts,
        2,
    )
}

/// Builds the status rows, each status's share taken from `percents`.
pub fn status_rows(stats: &StatsDTO, percents: &StatusPercents) -> (r: Vec<Vec<TableCell>>)
    ensures
        rows_view(r@) == status_rows_spec(
            stats.status_stats@,
            stats.total_count as nat,
            *percents,
        ),
{
    let ghost st = stats.status_stats@;
    let ghost total = stats.total_count as nat;
    let mut rows: Vec<Vec<TableCell>> = Vec::new();
    let mut i: usize = 0;
    while i < 3
        invariant
            i <= 3,
            st == stats.status_stats@,
            total == stats.total_count as nat,
            rows_view(rows@) == (if i == 0 {
                Seq::<Seq<CellSpec>>::empty()
            } else if i == 1 {
                status_row_opt(st, total, *percents, 0)
            } else if i == 2 {
                status_row_opt(st, total, *percents, 0) + status_row_opt(st, total, *percents, 1)
            } else {
                status_rows_spec(st, total, *percents)
            }),
        decreases 3 - i,
    {
        let ghost before = rows_view(rows@);
        match stats.status_stats.get(status_key_text(i)) {
            Some(c) => {
                let label = status_label_text(i);
                let mut row: Vec<TableCell> = Vec::new();
                row.push(new_table_cell(label.to_string(), false, CellAlign::Left));
                row.push(new_table_cell(nat_to_string(c as u128), false, CellAlign::Right));
                row.push(new_table_cell(status_percent_text(percents, i), false, CellAlign::Right));
                row.push(
                    new_table_cell(create_progress_bar(c, stats.total_count), false, CellAlign::Left),
                );
                assert(row_view(row@) =~= status_row_spec(
                    status_label(i as int),
                    c as nat,
                    total,
                    status_percent(*percents, i as int),
                ));
                rows.push(row);
                assert(rows_view(rows@) =~= before + status_row_opt(st, total, *percents, i as int));
            },
            None => {
                assert(before + status_row_opt(st, total, *percents, i as int) =~= before);
            },
        }
        i += 1;
    }
    rows
}

/// Draws the status table: how many tasks each status has, their share (as
/// `percents` writes it) and a progress bar.
pub fn create_status_detail_table(stats: &StatsDTO, percents: &StatusPercents) -> (r:
    comfy_table::Table)
    ensures
        comfy_header(r) == status_header_spec(),
        comfy_rows(r) == status_rows_spec(
            stats.status_stats@,
            stats.total_count as nat,
            *percents,
        ),
        utf8_full_frame(r),
{
    build_table(&status_header(), &status_rows(stats, percents))
}


/// The priority keys, in table order (highest first).
pub open spec fn priority_key(i: int) -> Seq<char> {
    if i == 0 {
        "critical"@
    } else if i == 1 {
        "high"@
    } else if i == 2 {
        "medium"@
    } else {
        "low"@
    }
}

/// The priority labels, in table order.
pub open spec fn priority_label(i: int) -> Seq<char> {
    if i == 0 {
        "Critical"@
    } else if i == 1 {
        "High"@
    } else if i == 2 {
        "Medium"@
    } else {
        "Low"@
    }
}

fn priority_key_text(i: usize) -> (r: &'static str)
    requires
        i < 4,
    ensures
        r@ == priority_key(i as int),
{
    if i == 0 {
        "critical"
    } else if i == 1 {
        "high"
    } else if i == 2 {
        "medium"
    } else {
        "low"
    }
}

fn priority_label_text(i: usize) -> (r: &'static str)
    requires
        i < 4,
    ensures
        r@ == priority_label(i as int),
{
    if i == 0 {
        "Critical"
    } else if i == 1 {
        "High"
    } else if i == 2 {
        "Medium"
    } else {
        "Low"
    }
}

/// The matrix count for priority `p` and status `s`, read under the key
/// "priority:status"; 0 when absent.
pub open spec fn cell_count(m: Seq<(Seq<char>, usize)>, p: int, s: int) -> nat {
    count_or_zero(m, priority_key(p) + ":"@ + status_key(s))
}

/// The total of priority `p`'s row.
pub open spec fn row_sum(m: Seq<(Seq<char>, usize)>, p: int) -> nat {
    cell_count(m, p, 0) + cell_count(m, p, 1) + cell_count(m, p, 2)
}

/// The total of status `s`'s column.
pub open spec fn col_sum(m: Seq<(Seq<char>, usize)>, s: int) -> nat {
    cell_count(m, 0, s) + cell_count(m, 1, s) + cell_count(m, 2, s) + cell_count(m, 3, s)
}

/// The sum of all twelve matrix counts.
pub open spec fn matrix_sum(m: Seq<(Seq<char>, usize)>) -> nat {
    row_sum(m, 0) + row_sum(m, 1) + row_sum(m, 2) + row_sum(m, 3)
}

/// The header of the priority × status table.
pub open spec fn matrix_header_spec() -> Seq<CellSpec> {
    seq![
        cell(Seq::empty(), true, CellAlign::Left),
        cell("Pending"@, true, CellAlign::Center),
        cell("In Progress"@, true, CellAlign::Center),
        cell("Completed"@, true, CellAlign::Center),
        cell("Total"@, true, CellAlign::Center),
    ]
}

/// Builds the header of the priority × status table.
pub fn matrix_header() -> (r: Vec<TableCell>)
    ensures
        row_view(r@) == matrix_header_spec(),
{
    let mut r: Vec<TableCell> = Vec::new();
    r.push(new_table_cell(String::new(), true, CellAlign::Left));
    r.push(new_table_cell("Pending".to_string(), true, CellAlign::Center));
    r.push(new_table_cell("In Progress".to_string(), true, CellAlign::Center));
    r.push(new_table_cell("Completed".to_string(), true, CellAlign::Center));
    r.push(new_table_cell("Total".to_string(), true, CellAlign::Center));
    assert(row_view(r@) =~= matrix_header_spec());
    r
}

/// The row of priority `p`: its label, its three counts and their total.
pub open spec fn matrix_row_spec(m: Seq<(Seq<char>, usize)>, p: int) -> Seq<CellSpec> {
    seq![
        cell(priority_label(p), true, CellAlign::Left),
        cell(spec_nat_digits(cell_count(m, p, 0)), false, CellAlign::Right),
        cell(spec_nat_digits(cell_count(m, p, 1)), false, CellAlign::Right),
        cell(spec_nat_digits(cell_count(m, p, 2)), false, CellAlign::Right),
        cell(spec_nat_digits(row_sum(m, p)), true, CellAlign::Right),
    ]
}

/// The last row: the column totals, then the total task count as given.
pub open spec fn matrix_total_row_spec(m: Seq<(Seq<char>, usize)>, total: nat) -> Seq<CellSpec> {
    seq![
        cell("Total"@, true, CellAlign::Left),
        cell(spec_nat_digits(col_sum(m, 0)), true, CellAlign::Right),
        cell(spec_nat_digits(col_sum(m, 1)), true, CellAlign::Right),
        cell(spec_nat_digits(col_sum(m, 2)), true, CellAlign::Right),
        cell(spec_nat_digits(total), true, CellAlign::Right),
    ]
}

/// The rows of the priority × status table: critical, high, medium, low,
/// then the totals.
pub open spec fn matrix_rows_spec(m: Seq<(Seq<char>, usize)>, total: nat) -> Seq<Seq<CellSpec>> {
    seq![
        matrix_row_spec(m, 0),
        matrix_row_spec(m, 1),
        matrix_row_spec(m, 2),
        matrix_row_spec(m, 3),
        matrix_total_row_spec(m, total),
    ]
}

fn matrix_count(m: &CountMap, p: usize, s: usize) -> (r: usize)
    requires
        p < 4,
        s < 3,
    ensures
        r == cell_count(m@, p as int, s as int),
{
    let key = concat3(priority_key_text(p), ":", status_key_text(s));
    match m.get(key.as_str()) {
        Some(c) => c,
        None => 0,
    }
}

/// Whether the matrix counts add up within `usize`, as the matrix table
/// needs.
pub fn matrix_fits(stats: &StatsDTO) -> (r: bool)
    ensures
        r == (matrix_sum(stats.priority_status_matrix@) <= usize::MAX),
{
    let m = &stats.priority_status_matrix;
    let mut sum: u128 = 0;
    let mut p: usize = 0;
    while p < 4
        invariant
            p <= 4,
            sum == (if p == 0 {
                0
            } else if p == 1 {
                row_sum(m@, 0)
            } else if p == 2 {
                row_sum(m@, 0) + row_sum(m@, 1)
            } else if p == 3 {
                row_sum(m@, 0) + row_sum(m@, 1) + row_sum(m@, 2)
            } else {
                matrix_sum(m@)
            }),
            sum <= (p as int) * 3 * 0x1_0000_0000_0000_0000,
        decreases 4 - p,
    {
        let a = matrix_count(m, p, 0) as u128;
        let b = matrix_count(m, p, 1) as u128;
        let c = matrix_count(m, p, 2) as u128;
        sum = sum + a + b + c;
        p += 1;
    }
    sum <= usize::MAX as u128
}

/// Builds the rows of the priority × status table. The counts must add up
/// within `usize`.
pub fn matrix_rows(stats: &StatsDTO) -> (r: Vec<Vec<TableCell>>)
    requires
        matrix_sum(stats.priority_status_matrix@) <= usize::MAX,
    ensures
        rows_view(r@) == matrix_rows_spec(
            stats.priority_status_matrix@,
            stats.total_count as nat,
        ),
{
    let m = &stats.priority_status_matrix;
    let ghost mv = m@;
    let mut rows: Vec<Vec<TableCell>> = Vec::new();
    let mut col0: usize = 0;
    let mut col1: usize = 0;
    let mut col2: usize = 0;
    let mut p: usize = 0;
    while p < 4
        invariant
            p <= 4,
            mv == m@,
            matrix_sum(mv) <= usize::MAX,
            rows@.len() == p,
            forall|i: int| 0 <= i < p ==> row_view(#[trigger] rows@[i]@) == matrix_row_spec(mv, i),
            col0 == (if p == 0 {
                0
            } else if p == 1 {
                cell_count(mv, 0, 0)
            } else if p == 2 {
                cell_count(mv, 0, 0) + cell_count(mv, 1, 0)
            } else if p == 3 {
                cell_count(mv, 0, 0) + cell_count(mv, 1, 0) + cell_count(mv, 2, 0)
            } else {
                col_sum(mv, 0)
            }),
            col1 == (if p == 0 {
                0
            } else if p == 1 {
                cell_count(mv, 0, 1)
            } else if p == 2 {
                cell_count(mv, 0, 1) + cell_count(mv, 1, 1)
            } else if p == 3 {
                cell_count(mv, 0, 1) + cell_count(mv, 1, 1) + cell_count(mv, 2, 1)
            } else {
                col_sum(mv, 1)
            }),
            col2 == (if p == 0 {
                0
            } else if p == 1 {
                cell_count(mv, 0, 2)
            } else if p == 2 {
                cell_count(mv, 0, 2) + cell_count(mv, 1, 2)
            } else if p == 3 {
                cell_count(mv, 0, 2) + cell_count(mv, 1, 2) + cell_count(mv, 2, 2)
            } else {
                col_sum(mv, 2)
            }),
        decreases 4 - p,
    {
        let a = matrix_count(m, p, 0);
        let b = matrix_count(m, p, 1);
        let c = matrix_count(m, p, 2);
        let row_total = a + b + c;
        col0 = col0 + a;
        col1 = col1 + b;
        col2 = col2 + c;
        let mut row: Vec<TableCell> = Vec::new();
        row.push(new_table_cell(priority_label_text(p).to_string(), true, CellAlign::Left));
        row.push(new_table_cell(nat_to_string(a as u128), false, CellAlign::Right));
        row.push(new_table_cell(nat_to_string(b as u128), false, CellAlign::Right));
        row.push(new_table_cell(nat_to_string(c as u128), false, CellAlign::Right));
        row.push(new_table_cell(nat_to_string(row_total as u128), true, CellAlign::Right));
        assert(row_view(row@) =~= matrix_row_spec(mv, p as int));
        rows.push(row);
        p += 1;
    }
    let mut total_row: Vec<TableCell> = Vec::new();
    total_row.push(new_table_cell("Total".to_string(), true, CellAlign::Left));
    total_row.push(new_table_cell(nat_to_string(col0 as u128), true, CellAlign::Right));
    total_row.push(new_table_cell(nat_to_string(col1 as u128), true, CellAlign::Right));
    total_row.push(new_table_cell(nat_to_string(col2 as u128), true, CellAlign::Right));
    total_row.push(
        new_table_cell(nat_to_string(stats.total_count as u128), true, CellAlign::Right),
    );
    assert(row_view(total_row@) =~= matrix_total_row_spec(mv, stats.total_count as nat));
    rows.push(total_row);
    assert(rows_view(rows@) =~= matrix_rows_spec(mv, stats.total_count as nat));
    rows
}

/// Draws the priority × status table with its row and column totals.
pub fn create_priority_status_matrix_table(stats: &StatsDTO) -> (r: comfy_table::Table)
    requires
        matrix_sum(stats.priority_status_matrix@) <= usize::MAX,
    ensures
        comfy_header(r) == matrix_header_spec(),
        comfy_rows(r) == matrix_rows_spec(stats.priority_status_matrix@, stats.total_count as nat),
        utf8_full_frame(r),
{
    build_table(&matrix_header(), &matrix_rows(stats))
}


/// Where a count `c` goes in a list ordered by count from largest: after
/// every entry whose count is at least `c`.
pub open spec fn insert_pos(s: Seq<(Seq<char>, usize)>, c: usize) -> int
    decreases s.len(),
{
    if s.len() == 0 {
        0
    } else if s[0].1 < c {
        0
    } else {
        1 + insert_pos(s.skip(1), c)
    }
}

/// The entries ordered by count, largest first; entries with equal counts
/// keep their order (a stable sort).
pub open spec fn sort_by_count(s: Seq<(Seq<char>, usize)>) -> Seq<(Seq<char>, usize)>
    decreases s.len(),
{
    if s.len() == 0 {
        s
    } else {
        let t = sort_by_count(s.drop_last());
        t.insert(insert_pos(t, s.last().1), s.last())
    }
}

proof fn lemma_insert_pos(s: Seq<(Seq<char>, usize)>, c: usize, p: int)
    requires
        0 <= p <= s.len(),
        forall|j: int| 0 <= j < p ==> s[j].1 >= c,
        p < s.len() ==> s[p].1 < c,
    ensures
        insert_pos(s, c) == p,
    decreases p,
{
    if p > 0 {
        let t = s.skip(1);
        assert forall|j: int| 0 <= j < p - 1 implies t[j].1 >= c by {
            assert(t[j] == s[j + 1]);
        }
        if p - 1 < t.len() {
            assert(t[p - 1] == s[p]);
        }
        lemma_insert_pos(t, c, p - 1);
    }
}

proof fn lemma_sort_len(s: Seq<(Seq<char>, usize)>)
    ensures
        sort_by_count(s).len() == s.len(),
    decreases s.len(),
{
    if s.len() > 0 {
        lemma_sort_len(s.drop_last());
        lemma_insert_pos_bound(sort_by_count(s.drop_last()), s.last().1);
    }
}

proof fn lemma_insert_pos_bound(s: Seq<(Seq<char>, usize)>, c: usize)
    ensures
        0 <= insert_pos(s, c) <= s.len(),
    decreases s.len(),
{
    if s.len() > 0 {
        lemma_insert_pos_bound(s.skip(1), c);
    }
}

/// The key and count pairs as plain values.
pub open spec fn pairs_view(s: Seq<(String, usize)>) -> Seq<(Seq<char>, usize)> {
    s.map_values(|e: (String, usize)| (e.0@, e.1))
}

/// The entries of `m` ordered by count, largest first, ties in insertion
/// order.
pub fn sorted_by_count(m: &CountMap) -> (r: Vec<(String, usize)>)
    ensures
        pairs_view(r@) == sort_by_count(m@),
{
    let n = m.len();
    let mut out: Vec<(String, usize)> = Vec::new();
    let mut i: usize = 0;
    while i < n
        invariant
            n == m@.len(),
            i <= n,
            pairs_view(out@) == sort_by_count(m@.take(i as int)),
        decreases n - i,
    {
        let (k, c) = m.entry(i);
        let ghost before = pairs_view(out@);
        let mut p: usize = 0;
        while p < out.len() && out[p].1 >= c
            invariant
                p <= out.len(),
                forall|j: int| 0 <= j < p ==> out@[j].1 >= c,
            decreases out.len() - p,
        {
            p += 1;
        }
        proof {
            assert forall|j: int| 0 <= j < p implies before[j].1 >= c by {
                assert(before[j].1 == out@[j].1);
            }
            if p < out.len() {
                assert(before[p as int].1 == out@[p as int].1);
            }
            lemma_insert_pos(before, c, p as int);
            assert(m@.take(i + 1).drop_last() =~= m@.take(i as int));
            assert(m@.take(i + 1).last() == (k@, c));
        }
        let ghost kv = k@;
        out.insert(p, (k, c));
        assert(pairs_view(out@) =~= before.insert(p as int, (kv, c)));
        i += 1;
    }
    assert(m@.take(n as int) =~= m@);
    out
}

/// The header of the top-tags table.
pub open spec fn tags_header_spec() -> Seq<CellSpec> {
    seq![cell("Tag Name"@, true, CellAlign::Left), cell("Count"@, true, CellAlign::Right)]
}

/// Builds the header of the top-tags table.
pub fn tags_header() -> (r: Vec<TableCell>)
    ensures
        row_view(r@) == tags_header_spec(),
{
    let mut r: Vec<TableCell> = Vec::new();
    r.push(new_table_cell("Tag Name".to_string(), true, CellAlign::Left));
    r.push(new_table_cell("Count".to_string(), true, CellAlign::Right));
    assert(row_view(r@) =~= tags_header_spec());
    r
}

/// The rows of the top-tags table: the `limit` tags with the largest
/// counts (all of them when there are fewer), largest first.
pub open spec fn top_tag_rows_spec(tags: Seq<(Seq<char>, usize)>, limit: nat) -> Seq<
    Seq<CellSpec>,
> {
    let s = sort_by_count(tags);
    let k = if limit < s.len() {
        limit as int
    } else {
        s.len() as int
    };
    Seq::new(
        k as nat,
        |i: int|
            seq![
                cell(s[i].0, false, CellAlign::Left),
                cell(spec_nat_digits(s[i].1 as nat), false, CellAlign::Right),
            ],
    )
}

/// Builds the rows of the top-tags table.
pub fn top_tag_rows(stats: &StatsDTO, limit: usize) -> (r: Vec<Vec<TableCell>>)
    ensures
        rows_view(r@) == top_tag_rows_spec(stats.tag_stats@, limit as nat),
{
    let sorted = sorted_by_count(&stats.tag_stats);
    let ghost s = sort_by_count(stats.tag_stats@);
    let k = if limit < sorted.len() {
        limit
    } else {
        sorted.len()
    };
    let mut rows: Vec<Vec<TableCell>> = Vec::new();
    let mut i: usize = 0;
    while i < k
        invariant
            i <= k <= sorted.len(),
            pairs_view(sorted@) == s,
            rows@.len() == i,
            forall|j: int|
                0 <= j < i ==> row_view(#[trigger] rows@[j]@) == seq![
                    cell(s[j].0, false, CellAlign::Left),
                    cell(spec_nat_digits(s[j].1 as nat), false, CellAlign::Right),
                ],
        decreases k - i,
    {
        let mut row: Vec<TableCell> = Vec::new();
        assert(s[i as int] == (sorted@[i as int].0@, sorted@[i as int].1));
        row.push(new_table_cell(sorted[i].0.clone(), false, CellAlign::Left));
        row.push(new_table_cell(nat_to_string(sorted[i].1 as u128), false, CellAlign::Right));
        assert(row_view(row@) =~= seq![
            cell(s[i as int].0, false, CellAlign::Left),
            cell(spec_nat_digits(s[i as int].1 as nat), false, CellAlign::Right),
        ]);
        rows.push(row);
        i += 1;
    }
    assert(rows_view(rows@) =~= top_tag_rows_spec(stats.tag_stats@, limit as nat));
    rows
}

/// Draws the table of the `limit` most used tags.
pub fn create_top_tags_table(stats: &StatsDTO, limit: usize) -> (r: comfy_table::Table)
    ensures
        comfy_header(r) == tags_header_spec(),
        comfy_rows(r) == top_tag_rows_spec(stats.tag_stats@, limit as nat),
        utf8_full_frame(r),
{
    build_table(&tags_header(), &top_tag_rows(stats, limit))
}

/// The whole summary, given the drawn status, matrix and tag tables: the
/// title, the total, then each section whose counts are not empty.
pub open spec fn stats_display_text(
    stats: StatsDTO,
    status_table: Seq<char>,
    matrix_table: Seq<char>,
    tags_table: Seq<char>,
) -> Seq<char> {
    title_text("Task Statistics Summary"@) + "\n\n"@ + "Total tasks: "@ + spec_nat_digits(
        stats.total_count as nat,
    ) + "\n\n"@ + (if stats.status_stats@.len() > 0 {
        "[By Status]\n"@ + status_table + "\n\n"@
    } else {
        Seq::empty()
    }) + (if stats.priority_status_matrix@.len() > 0 {
        "[Priority × Status Matrix]\n"@ + matrix_table + "\n\n"@
    } else {
        Seq::empty()
    }) + (if stats.due_date_stats@.len() > 0 {
        "[Due Dates]\n"@ + due_summary_text(stats.due_date_stats@) + "\n\n"@
    } else {
        Seq::empty()
    }) + (if stats.tag_stats@.len() > 0 {
        "[Top Tags (Top 5)]\n"@ + tags_table + "\n"@
    } else {
        Seq::empty()
    })
}

/// Puts the summary together from the drawn tables.
pub fn compose_stats_display(
    stats: &StatsDTO,
    status_table: &str,
    matrix_table: &str,
    tags_table: &str,
) -> (r: String)
    ensures
        r@ == stats_display_text(*stats, status_table@, matrix_table@, tags_table@),
{
    let title = create_title("Task Statistics Summary");
    let total = nat_to_string(stats.total_count as u128);
    let mut out = title;
    append3(&mut out, "\n\n", "Total tasks: ", total.as_str());
    out.append("\n\n");
    let ghost p0 = out@;
    if !stats.status_stats.is_empty() {
        append3(&mut out, "[By Status]\n", status_table, "\n\n");
    }
    let ghost p1 = out@;
    if has_priority_status_data(stats) {
        append3(&mut out, "[Priority × Status Matrix]\n", matrix_table, "\n\n");
    }
    let ghost p2 = out@;
    if !stats.due_date_stats.is_empty() {
        let due = create_due_date_summary(stats);
        append3(&mut out, "[Due Dates]\n", due.as_str(), "\n\n");
    }
    let ghost p3 = out@;
    if !stats.tag_stats.is_empty() {
        append3(&mut out, "[Top Tags (Top 5)]\n", tags_table, "\n");
    }
    proof {
        lemma_display_parts(*stats, status_table@, matrix_table@, tags_table@, p0, p1, p2, p3, out@);
    }
    out
}

fn append3(out: &mut String, a: &str, b: &str, c: &str)
    ensures
        final(out)@ == old(out)@ + a@ + b@ + c@,
{
    out.append(a);
    out.append(b);
    out.append(c);
}

proof fn lemma_display_parts(
    stats: StatsDTO,
    st: Seq<char>,
    mt: Seq<char>,
    tt: Seq<char>,
    p0: Seq<char>,
    p1: Seq<char>,
    p2: Seq<char>,
    p3: Seq<char>,
    p4: Seq<char>,
)
    requires
        p0 == title_text("Task Statistics Summary"@) + "\n\n"@ + "Total tasks: "@ + spec_nat_digits(
            stats.total_count as nat,
        ) + "\n\n"@,
        p1 == (if stats.status_stats@.len() > 0 {
            p0 + "[By Status]\n"@ + st + "\n\n"@
        } else {
            p0
        }),
        p2 == (if stats.priority_status_matrix@.len() > 0 {
            p1 + "[Priority × Status Matrix]\n"@ + mt + "\n\n"@
        } else {
            p1
        }),
        p3 == (if stats.due_date_stats@.len() > 0 {
            p2 + "[Due Dates]\n"@ + due_summary_text(stats.due_date_stats@) + "\n\n"@
        } else {
            p2
        }),
        p4 == (if stats.tag_stats@.len() > 0 {
            p3 + "[Top Tags (Top 5)]\n"@ + tt + "\n"@
        } else {
            p3
        }),
    ensures
        p4 == stats_display_text(stats, st, mt, tt),
{
    let e = Seq::<char>::empty();
    let a = if stats.status_stats@.len() > 0 {
        "[By Status]\n"@ + st + "\n\n"@
    } else {
        e
    };
    let b = if stats.priority_status_matrix@.len() > 0 {
        "[Priority × Status Matrix]\n"@ + mt + "\n\n"@
    } else {
        e
    };
    let c = if stats.due_date_stats@.len() > 0 {
        "[Due Dates]\n"@ + due_summary_text(stats.due_date_stats@) + "\n\n"@
    } else {
        e
    };
    let d = if stats.tag_stats@.len() > 0 {
        "[Top Tags (Top 5)]\n"@ + tt + "\n"@
    } else {
        e
    };
    assert(p1 =~= p0 + a);
    assert(p2 =~= p0 + a + b);
    assert(p3 =~= p0 + a + b + c);
    assert(p4 =~= p0 + a + b + c + d);
}

/// The statistics summary: title, total, then the status table, the
/// priority × status table, the due-date line and the five most used tags,
/// each only when it has counts; the status shares are those of
/// `percents`. The matrix counts must add up within `usize`.
pub fn create_rich_stats_display(stats: &StatsDTO, percents: &StatusPercents) -> (r: String)
    requires
        matrix_sum(stats.priority_status_matrix@) <= usize::MAX,
    ensures
        exists|a: Seq<char>, b: Seq<char>, c: Seq<char>|
            r@ == #[trigger] stats_display_text(*stats, a, b, c) && (stats.status_stats@.len() > 0
                ==> comfy_drawing(
                a,
                status_header_spec(),
                status_rows_spec(stats.status_stats@, stats.total_count as nat, *percents),
            )) && (stats.priority_status_matrix@.len() > 0 ==> comfy_drawing(
                b,
                matrix_header_spec(),
                matrix_rows_spec(stats.priority_status_matrix@, stats.total_count as nat),
            )) && (stats.tag_stats@.len() > 0 ==> comfy_drawing(
                c,
                tags_header_spec(),
                top_tag_rows_spec(stats.tag_stats@, 5),
            )),
        (forall|i: int|
            0 <= i < stats.tag_stats@.len() ==> no_close(#[trigger] stats.tag_stats@[i].0))
            && no_close(percents.pending@) && no_close(percents.in_progress@) && no_close(
            percents.completed@,
        ) ==> sections_shown(r@, *stats),
{
    let ghost plain = (forall|i: int|
        0 <= i < stats.tag_stats@.len() ==> no_close(#[trigger] stats.tag_stats@[i].0)) && no_close(
        percents.pending@,
    ) && no_close(percents.in_progress@) && no_close(percents.completed@);
    let status_table = if !stats.status_stats.is_empty() {
        let t = create_status_detail_table(stats, percents);
        let text = comfy_table_text(&t);
        proof {
            if plain {
                lemma_status_cells_no_close(
                    stats.status_stats@,
                    stats.total_count as nat,
                    *percents,
                );
                lemma_drawing_no_close(text@, t);
            }
        }
        text
    } else {
        String::new()
    };
    let matrix_table = if has_priority_status_data(stats) {
        let t = create_priority_status_matrix_table(stats);
        let text = comfy_table_text(&t);
        proof {
            lemma_matrix_cells_no_close(stats.priority_status_matrix@, stats.total_count as nat);
            lemma_drawing_no_close(text@, t);
        }
        text
    } else {
        String::new()
    };
    let tags_table = if !stats.tag_stats.is_empty() {
        let t = create_top_tags_table(stats, 5);
        let text = comfy_table_text(&t);
        proof {
            if plain {
                lemma_tag_cells_no_close(stats.tag_stats@, 5);
                lemma_drawing_no_close(text@, t);
            }
        }
        text
    } else {
        String::new()
    };
    let r = compose_stats_display(
        stats,
        status_table.as_str(),
        matrix_table.as_str(),
        tags_table.as_str(),
    );
    proof {
        if plain {
            law_stats_display_sections(*stats, status_table@, matrix_table@, tags_table@);
        }
    }
    r
}


/// A progress bar is always ten blocks long, whatever the counts.
pub proof fn law_progress_bar_has_ten_blocks(count: nat, total: nat)
    ensures
        bar_text(count, total).len() == 10,
        bar_blocks(count, total) <= 10,
{
}

/// Whether the entries are ordered by count, largest first.
pub open spec fn descending_by_count(s: Seq<(Seq<char>, usize)>) -> bool {
    forall|i: int, j: int| 0 <= i < j < s.len() ==> s[i].1 >= s[j].1
}

proof fn lemma_insert_pos_props(s: Seq<(Seq<char>, usize)>, c: usize)
    ensures
        0 <= insert_pos(s, c) <= s.len(),
        forall|j: int| 0 <= j < insert_pos(s, c) ==> s[j].1 >= c,
        insert_pos(s, c) < s.len() ==> s[insert_pos(s, c)].1 < c,
    decreases s.len(),
{
    if s.len() > 0 && s[0].1 >= c {
        let t = s.skip(1);
        lemma_insert_pos_props(t, c);
        assert forall|j: int| 0 <= j < insert_pos(s, c) implies s[j].1 >= c by {
            if j > 0 {
                assert(s[j] == t[j - 1]);
            }
        }
        if insert_pos(s, c) < s.len() {
            assert(s[insert_pos(s, c)] == t[insert_pos(t, c)]);
        }
    }
}

/// Ordering by count keeps every entry (the result is a permutation of
/// the input) and puts larger counts first.
pub proof fn law_sort_by_count(s: Seq<(Seq<char>, usize)>)
    ensures
        sort_by_count(s).to_multiset() == s.to_multiset(),
        descending_by_count(sort_by_count(s)),
    decreases s.len(),
{
    broadcast use vstd::seq_lib::group_to_multiset_ensures;

    if s.len() > 0 {
        let d = s.drop_last();
        let e = s.last();
        let t = sort_by_count(d);
        law_sort_by_count(d);
        lemma_insert_pos_props(t, e.1);
        let p = insert_pos(t, e.1);
        let u = t.insert(p, e);
        assert(u == sort_by_count(s));
        assert(u.remove(p) =~= t);
        assert(u[p] == e);
        assert(s =~= d.push(e));
        assert(u.to_multiset() =~= t.to_multiset().insert(e)) by {
            assert(t.to_multiset() == u.to_multiset().remove(e));
            assert(u.to_multiset().count(e) > 0) by {
                assert(u.contains(e));
            }
        }
        assert forall|i: int, j: int| 0 <= i < j < u.len() implies u[i].1 >= u[j].1 by {
            if j < p {
                assert(u[i] == t[i] && u[j] == t[j]);
            } else if j == p {
                assert(u[i] == t[i]);
            } else if i < p {
                assert(u[i] == t[i] && u[j] == t[j - 1]);
                if p < t.len() {
                    assert(t[p].1 < e.1);
                }
                assert(t[i].1 >= e.1);
                if j - 1 >= p && p < t.len() {
                    assert(t[p].1 >= t[j - 1].1);
                }
            } else if i == p {
                assert(u[j] == t[j - 1]);
                assert(t[p].1 < e.1);
                assert(t[p].1 >= t[j - 1].1);
            } else {
                assert(u[i] == t[i - 1] && u[j] == t[j - 1]);
            }
        }
    }
}

/// The three column totals of the priority × status table add up to the
/// sum of all its counts, as do the four row totals.
pub proof fn law_matrix_totals_agree(m: Seq<(Seq<char>, usize)>)
    ensures
        col_sum(m, 0) + col_sum(m, 1) + col_sum(m, 2) == matrix_sum(m),
        row_sum(m, 0) + row_sum(m, 1) + row_sum(m, 2) + row_sum(m, 3) == matrix_sum(m),
{
}

} // verus!
