//! Where the section headers of the statistics summary stand.

use vstd::prelude::*;

use crate::display::stats_dto::{count_or_zero, StatsDTO};
use crate::display::stats_table::{
    bar_text, centered, col_sum, cell_count, due_summary_text, law_sort_by_count,
    matrix_header_spec, matrix_row_spec, matrix_rows_spec, matrix_total_row_spec, priority_label,
    repeat_char, row_sum, sort_by_count, stats_display_text, status_header_spec, status_label,
    status_percent, status_row_opt, status_row_spec, status_rows_spec, tags_header_spec,
    title_text, top_tag_rows_spec, StatusPercents,
};
use crate::display::table::{
    chars_of, comfy_border_chars, comfy_extra_chars, comfy_header, comfy_rows, in_cells,
    styling_char, utf8_full_frame, utf8_full_preset, CellSpec,
};
use crate::text::{digit_char, spec_nat_digits};

verus! {

/// Whether `s` holds no ']'.
pub open spec fn no_close(s: Seq<char>) -> bool {
    forall|i: int| 0 <= i < s.len() ==> s[i] != ']'
}

/// Whether `h` stands in `s` from position `p` on.
pub open spec fn occurs_at(s: Seq<char>, h: Seq<char>, p: int) -> bool {
    &&& 0 <= p
    &&& p + h.len() <= s.len()
    &&& s.subrange(p, p + h.len()) == h
}

/// Whether `h` stands somewhere in `s`.
pub open spec fn occurs(s: Seq<char>, h: Seq<char>) -> bool {
    exists|p: int| occurs_at(s, h, p)
}

/// The header of section `k` of the statistics summary: 1 the statuses,
/// 2 the priority × status matrix, 3 the due dates, 4 the top tags.
pub open spec fn section_header(k: int) -> Seq<char> {
    if k == 1 {
        "[By Status]"@
    } else if k == 2 {
        "[Priority × Status Matrix]"@
    } else if k == 3 {
        "[Due Dates]"@
    } else {
        "[Top Tags (Top 5)]"@
    }
}

/// Whether `s` is one of the four section headers.
pub open spec fn is_section_header(s: Seq<char>) -> bool {
    exists|k: int| 1 <= k <= 4 && s == section_header(k)
}

/// The parts joined in order.
pub open spec fn flat(parts: Seq<Seq<char>>) -> Seq<char>
    decreases parts.len(),
{
    if parts.len() == 0 {
        Seq::empty()
    } else {
        flat(parts.drop_last()) + parts.last()
    }
}

/// A section header ends in its only ']' and is at least three characters long.
proof fn lemma_header(k: int)
    requires
        1 <= k <= 4,
    ensures
        section_header(k).len() >= 3,
        section_header(k)[section_header(k).len() - 1] == ']',
        forall|i: int| 0 <= i < section_header(k).len() - 1 ==> section_header(k)[i] != ']',
{
    reveal_strlit("[By Status]");
    reveal_strlit("[Priority × Status Matrix]");
    reveal_strlit("[Due Dates]");
    reveal_strlit("[Top Tags (Top 5)]");
}

/// No two section headers end in the same three characters.
proof fn lemma_headers_differ(j: int, k: int)
    requires
        1 <= j <= 4,
        1 <= k <= 4,
        j != k,
    ensures
        ({
            let a = section_header(j);
            let b = section_header(k);
            a[a.len() - 2] != b[b.len() - 2] || a[a.len() - 3] != b[b.len() - 3]
        }),
{
    reveal_strlit("[By Status]");
    reveal_strlit("[Priority × Status Matrix]");
    reveal_strlit("[Due Dates]");
    reveal_strlit("[Top Tags (Top 5)]");
}

/// A header standing in `f + last` and ending past `f` is `last`.
proof fn lemma_occurs_in_last(f: Seq<char>, last: Seq<char>, h: Seq<char>, p: int)
    requires
        no_close(last) || is_section_header(last),
        is_section_header(h),
        occurs_at(f + last, h, p),
        p + h.len() - 1 >= f.len(),
    ensures
        last == h,
{
    let r = f + last;
    let kh = choose|k: int| 1 <= k <= 4 && h == section_header(k);
    lemma_header(kh);
    let q = p + h.len() - 1;
    assert(r[q] == r.subrange(p, p + h.len())[h.len() - 1]);
    assert(last[q - f.len()] == ']');
    if !is_section_header(last) {
        assert(false);
    }
    let kl = choose|k: int| 1 <= k <= 4 && last == section_header(k);
    lemma_header(kl);
    assert(q - f.len() == last.len() - 1);
    assert(r[q - 1] == r.subrange(p, p + h.len())[h.len() - 2]);
    assert(r[q - 2] == r.subrange(p, p + h.len())[h.len() - 3]);
    if kl != kh {
        lemma_headers_differ(kl, kh);
        assert(false);
    }
}

/// A section header stands in parts joined in order exactly when it is
/// one of the parts, where every part is a section header or holds no ']'.
pub proof fn lemma_flat_occurs(parts: Seq<Seq<char>>, h: Seq<char>)
    requires
        forall|i: int|
            0 <= i < parts.len() ==> no_close(#[trigger] parts[i]) || is_section_header(parts[i]),
        is_section_header(h),
    ensures
        occurs(flat(parts), h) <==> parts.contains(h),
    decreases parts.len(),
{
    let kh = choose|k: int| 1 <= k <= 4 && h == section_header(k);
    lemma_header(kh);
    if parts.len() == 0 {
        if occurs(flat(parts), h) {
            let p = choose|p: int| occurs_at(flat(parts), h, p);
            assert(false);
        }
    } else {
        let init = parts.drop_last();
        let last = parts.last();
        let f = flat(init);
        let r = flat(parts);
        assert(r == f + last);
        assert forall|i: int| 0 <= i < init.len() implies no_close(#[trigger] init[i])
            || is_section_header(init[i]) by {
            assert(init[i] == parts[i]);
        }
        lemma_flat_occurs(init, h);
        assert(no_close(parts[parts.len() - 1]) || is_section_header(parts[parts.len() - 1]));
        if init.contains(h) {
            let p = choose|p: int| occurs_at(f, h, p);
            assert(r.subrange(p, p + h.len()) =~= f.subrange(p, p + h.len()));
            assert(occurs_at(r, h, p));
            let i = choose|i: int| 0 <= i < init.len() && init[i] == h;
            assert(parts[i] == h);
        }
        if last == h {
            assert(r.subrange(f.len() as int, (f.len() + h.len()) as int) =~= h);
            assert(occurs_at(r, h, f.len() as int));
            assert(parts[parts.len() - 1] == h);
        }
        if parts.contains(h) {
            let i = choose|i: int| 0 <= i < parts.len() && parts[i] == h;
            if i < parts.len() - 1 {
                assert(init[i] == h);
                assert(init.contains(h));
            }
        }
        if occurs(r, h) {
            let p = choose|p: int| occurs_at(r, h, p);
            if p + h.len() - 1 < f.len() {
                assert(f.subrange(p, p + h.len()) =~= r.subrange(p, p + h.len()));
                assert(occurs_at(f, h, p));
                let i = choose|i: int| 0 <= i < init.len() && init[i] == h;
                assert(parts[i] == h);
            } else {
                lemma_occurs_in_last(f, last, h, p);
                assert(parts[parts.len() - 1] == h);
            }
        }
    }
}

/// Whether section `k` of the summary of `stats` has counts to show.
pub open spec fn section_present(stats: StatsDTO, k: int) -> bool {
    if k == 1 {
        stats.status_stats@.len() > 0
    } else if k == 2 {
        stats.priority_status_matrix@.len() > 0
    } else if k == 3 {
        stats.due_date_stats@.len() > 0
    } else {
        stats.tag_stats@.len() > 0
    }
}

/// Whether `text` shows the section headers of the summary of `stats` as
/// it should: each header stands in it exactly when its section has
/// counts, and the headers that stand come in the order statuses, matrix,
/// due dates, top tags.
pub open spec fn sections_shown(text: Seq<char>, stats: StatsDTO) -> bool {
    &&& forall|k: int|
        1 <= k <= 4 ==> (occurs(text, #[trigger] section_header(k)) <==> section_present(stats, k))
    &&& forall|j: int, k: int|
        1 <= j < k <= 4 && #[trigger] section_present(stats, j) && #[trigger] section_present(
            stats,
            k,
        ) ==> exists|p: int, q: int|
            #![trigger occurs_at(text, section_header(j), p), occurs_at(text, section_header(k), q)]
            p < q && occurs_at(text, section_header(j), p) && occurs_at(text, section_header(k), q)
}

proof fn lemma_no_close_add(x: Seq<char>, y: Seq<char>)
    requires
        no_close(x),
        no_close(y),
    ensures
        no_close(x + y),
{
    assert forall|i: int| 0 <= i < (x + y).len() implies (x + y)[i] != ']' by {
        if i < x.len() {
            assert((x + y)[i] == x[i]);
        } else {
            assert((x + y)[i] == y[i - x.len()]);
        }
    }
}

proof fn lemma_digits_no_close(n: nat)
    ensures
        no_close(spec_nat_digits(n)),
    decreases n,
{
    if n >= 10 {
        lemma_digits_no_close(n / 10);
        let d = (n % 10) as int;
        assert(digit_char(d) != ']');
        let s = spec_nat_digits(n);
        assert(s == spec_nat_digits(n / 10).push(digit_char(d)));
        assert forall|i: int| 0 <= i < s.len() implies s[i] != ']' by {
            if i < s.len() - 1 {
                assert(s[i] == spec_nat_digits(n / 10)[i]);
            }
        }
    } else {
        assert(digit_char(n as int) != ']');
    }
}

proof fn lemma_repeat_no_close(c: char, n: nat)
    requires
        c != ']',
    ensures
        no_close(repeat_char(c, n)),
{
}

proof fn lemma_head_no_close(stats: StatsDTO)
    ensures
        no_close(
            title_text("Task Statistics Summary"@) + "\n\n"@ + "Total tasks: "@ + spec_nat_digits(
                stats.total_count as nat,
            ) + "\n\n"@,
        ),
{
    reveal_strlit("Task Statistics Summary");
    reveal_strlit("\n\n");
    reveal_strlit("\n");
    reveal_strlit("Total tasks: ");
    let t = "Task Statistics Summary"@;
    lemma_repeat_no_close('━', 50);
    lemma_repeat_no_close(' ', 0);
    let pad = (50 - t.len()) as nat;
    lemma_repeat_no_close(' ', pad / 2);
    lemma_repeat_no_close(' ', (pad - pad / 2) as nat);
    lemma_no_close_add(repeat_char(' ', pad / 2), t);
    lemma_no_close_add(repeat_char(' ', pad / 2) + t, repeat_char(' ', (pad - pad / 2) as nat));
    assert(no_close(centered(t, 50)));
    lemma_no_close_add(repeat_char('━', 50), "\n"@);
    lemma_no_close_add(repeat_char('━', 50) + "\n"@, centered(t, 50));
    lemma_no_close_add(repeat_char('━', 50) + "\n"@ + centered(t, 50), "\n"@);
    lemma_no_close_add(repeat_char('━', 50) + "\n"@ + centered(t, 50) + "\n"@, repeat_char('━', 50));
    let a = title_text(t);
    lemma_no_close_add(a, "\n\n"@);
    lemma_no_close_add(a + "\n\n"@, "Total tasks: "@);
    lemma_digits_no_close(stats.total_count as nat);
    lemma_no_close_add(a + "\n\n"@ + "Total tasks: "@, spec_nat_digits(stats.total_count as nat));
    lemma_no_close_add(
        a + "\n\n"@ + "Total tasks: "@ + spec_nat_digits(stats.total_count as nat),
        "\n\n"@,
    );
}

proof fn lemma_due_no_close(due: Seq<(Seq<char>, usize)>)
    ensures
        no_close(due_summary_text(due)),
{
    reveal_strlit("Overdue: ");
    reveal_strlit(" tasks, Due today: ");
    reveal_strlit(" tasks, Due this week: ");
    reveal_strlit(" tasks");
    let d0 = spec_nat_digits(count_or_zero(due, "overdue"@));
    let d1 = spec_nat_digits(count_or_zero(due, "due_today"@));
    let d2 = spec_nat_digits(count_or_zero(due, "due_this_week"@));
    lemma_digits_no_close(count_or_zero(due, "overdue"@));
    lemma_digits_no_close(count_or_zero(due, "due_today"@));
    lemma_digits_no_close(count_or_zero(due, "due_this_week"@));
    lemma_no_close_add("Overdue: "@, d0);
    lemma_no_close_add("Overdue: "@ + d0, " tasks, Due today: "@);
    lemma_no_close_add("Overdue: "@ + d0 + " tasks, Due today: "@, d1);
    lemma_no_close_add("Overdue: "@ + d0 + " tasks, Due today: "@ + d1, " tasks, Due this week: "@);
    lemma_no_close_add("Overdue: "@ + d0 + " tasks, Due today: "@ + d1 + " tasks, Due this week: "@, d2);
    lemma_no_close_add(
        "Overdue: "@ + d0 + " tasks, Due today: "@ + d1 + " tasks, Due this week: "@ + d2,
        " tasks"@,
    );
}

proof fn lemma_flat_push(parts: Seq<Seq<char>>, x: Seq<char>)
    ensures
        flat(parts.push(x)) == flat(parts) + x,
{
    assert(parts.push(x).drop_last() =~= parts);
}

proof fn lemma_occurs_at_middle(x: Seq<char>, h: Seq<char>, y: Seq<char>)
    ensures
        occurs_at(x + h + y, h, x.len() as int),
{
    assert((x + h + y).subrange(x.len() as int, (x.len() + h.len()) as int) =~= h);
}

/// The parts of the summary: the head, then for each section with counts
/// its header and its body.
spec fn with_section(parts: Seq<Seq<char>>, present: bool, h: Seq<char>, body: Seq<char>) -> Seq<
    Seq<char>,
> {
    if present {
        parts.push(h).push(body)
    } else {
        parts
    }
}

proof fn lemma_with_section(
    parts: Seq<Seq<char>>,
    present: bool,
    k: int,
    body: Seq<char>,
)
    requires
        1 <= k <= 4,
        no_close(body),
        forall|i: int|
            0 <= i < parts.len() ==> no_close(#[trigger] parts[i]) || is_section_header(parts[i]),
    ensures
        ({
            let out = with_section(parts, present, section_header(k), body);
            &&& forall|i: int|
                0 <= i < out.len() ==> no_close(#[trigger] out[i]) || is_section_header(out[i])
            &&& flat(out) == flat(parts) + (if present {
                section_header(k) + body
            } else {
                Seq::<char>::empty()
            })
            &&& forall|h: Seq<char>| #[trigger] out.contains(h) <==> parts.contains(h) || (present
                && h == section_header(k))
                || (present && h == body)
        }),
{
    let h = section_header(k);
    if present {
        let p1 = parts.push(h);
        let out = p1.push(body);
        lemma_flat_push(parts, h);
        lemma_flat_push(p1, body);
        assert(flat(out) =~= flat(parts) + (h + body));
        assert(is_section_header(h));
        assert forall|i: int| 0 <= i < out.len() implies no_close(#[trigger] out[i])
            || is_section_header(out[i]) by {
            if i < parts.len() {
                assert(out[i] == parts[i]);
            }
        }
        assert forall|e: Seq<char>| #[trigger] out.contains(e) <==> parts.contains(e) || e == h
            || e == body by {
            if out.contains(e) {
                let i = choose|i: int| 0 <= i < out.len() && out[i] == e;
                if i < parts.len() {
                    assert(parts[i] == e);
                }
            }
            if parts.contains(e) {
                let i = choose|i: int| 0 <= i < parts.len() && parts[i] == e;
                assert(out[i] == e);
            }
            if e == h {
                assert(out[parts.len() as int] == e);
            }
            if e == body {
                assert(out[(parts.len() + 1) as int] == e);
            }
        }
    } else {
        assert(flat(parts) + Seq::<char>::empty() =~= flat(parts));
    }
}

/// The head of the summary: its title and total.
pub open spec fn summary_head(stats: StatsDTO) -> Seq<char> {
    title_text("Task Statistics Summary"@) + "\n\n"@ + "Total tasks: "@ + spec_nat_digits(
        stats.total_count as nat,
    ) + "\n\n"@
}

/// What follows the header of section `k` in the summary, given the drawn
/// status, matrix and tag tables.
pub open spec fn section_body(
    stats: StatsDTO,
    k: int,
    status_table: Seq<char>,
    matrix_table: Seq<char>,
    tags_table: Seq<char>,
) -> Seq<char> {
    if k == 1 {
        "\n"@ + status_table + "\n\n"@
    } else if k == 2 {
        "\n"@ + matrix_table + "\n\n"@
    } else if k == 3 {
        "\n"@ + due_summary_text(stats.due_date_stats@) + "\n\n"@
    } else {
        "\n"@ + tags_table + "\n"@
    }
}

/// Section `k` of the summary: its header and body when it has counts,
/// else nothing.
pub open spec fn section_text(
    stats: StatsDTO,
    k: int,
    status_table: Seq<char>,
    matrix_table: Seq<char>,
    tags_table: Seq<char>,
) -> Seq<char> {
    if section_present(stats, k) {
        section_header(k) + section_body(stats, k, status_table, matrix_table, tags_table)
    } else {
        Seq::empty()
    }
}

proof fn lemma_summary_is_sections(
    stats: StatsDTO,
    status_table: Seq<char>,
    matrix_table: Seq<char>,
    tags_table: Seq<char>,
)
    ensures
        stats_display_text(stats, status_table, matrix_table, tags_table) == summary_head(stats)
            + section_text(stats, 1, status_table, matrix_table, tags_table) + section_text(
            stats,
            2,
            status_table,
            matrix_table,
            tags_table,
        ) + section_text(stats, 3, status_table, matrix_table, tags_table) + section_text(
            stats,
            4,
            status_table,
            matrix_table,
            tags_table,
        ),
{
    reveal_strlit("\n");
    reveal_strlit("[By Status]");
    reveal_strlit("[By Status]\n");
    reveal_strlit("[Priority × Status Matrix]");
    reveal_strlit("[Priority × Status Matrix]\n");
    reveal_strlit("[Due Dates]");
    reveal_strlit("[Due Dates]\n");
    reveal_strlit("[Top Tags (Top 5)]");
    reveal_strlit("[Top Tags (Top 5)]\n");
    let e = Seq::<char>::empty();
    let c1 = section_text(stats, 1, status_table, matrix_table, tags_table);
    let c2 = section_text(stats, 2, status_table, matrix_table, tags_table);
    let c3 = section_text(stats, 3, status_table, matrix_table, tags_table);
    let c4 = section_text(stats, 4, status_table, matrix_table, tags_table);
    assert(c1 =~= (if stats.status_stats@.len() > 0 {
        "[By Status]\n"@ + status_table + "\n\n"@
    } else {
        e
    }));
    assert(c2 =~= (if stats.priority_status_matrix@.len() > 0 {
        "[Priority × Status Matrix]\n"@ + matrix_table + "\n\n"@
    } else {
        e
    }));
    assert(c3 =~= (if stats.due_date_stats@.len() > 0 {
        "[Due Dates]\n"@ + due_summary_text(stats.due_date_stats@) + "\n\n"@
    } else {
        e
    }));
    assert(c4 =~= (if stats.tag_stats@.len() > 0 {
        "[Top Tags (Top 5)]\n"@ + tags_table + "\n"@
    } else {
        e
    }));
    assert(stats_display_text(stats, status_table, matrix_table, tags_table) =~= summary_head(
        stats,
    ) + c1 + c2 + c3 + c4);
}

proof fn lemma_bodies_no_close(
    stats: StatsDTO,
    status_table: Seq<char>,
    matrix_table: Seq<char>,
    tags_table: Seq<char>,
)
    requires
        no_close(status_table),
        no_close(matrix_table),
        no_close(tags_table),
    ensures
        forall|k: int|
            1 <= k <= 4 ==> no_close(
                #[trigger] section_body(stats, k, status_table, matrix_table, tags_table),
            ),
        no_close(summary_head(stats)),
{
    reveal_strlit("\n");
    reveal_strlit("\n\n");
    lemma_head_no_close(stats);
    lemma_due_no_close(stats.due_date_stats@);
    lemma_no_close_add("\n"@, status_table);
    lemma_no_close_add("\n"@ + status_table, "\n\n"@);
    lemma_no_close_add("\n"@, matrix_table);
    lemma_no_close_add("\n"@ + matrix_table, "\n\n"@);
    lemma_no_close_add("\n"@, due_summary_text(stats.due_date_stats@));
    lemma_no_close_add("\n"@ + due_summary_text(stats.due_date_stats@), "\n\n"@);
    lemma_no_close_add("\n"@, tags_table);
    lemma_no_close_add("\n"@ + tags_table, "\n"@);
}

/// The summary cut into parts: its head, then each section with counts as
/// its header and its body.
proof fn summary_parts(
    stats: StatsDTO,
    status_table: Seq<char>,
    matrix_table: Seq<char>,
    tags_table: Seq<char>,
) -> (parts: Seq<Seq<char>>)
    requires
        no_close(status_table),
        no_close(matrix_table),
        no_close(tags_table),
    ensures
        flat(parts) == stats_display_text(stats, status_table, matrix_table, tags_table),
        forall|i: int|
            0 <= i < parts.len() ==> no_close(#[trigger] parts[i]) || is_section_header(parts[i]),
        forall|k: int|
            1 <= k <= 4 ==> (parts.contains(#[trigger] section_header(k)) <==> section_present(
                stats,
                k,
            )),
{
    lemma_bodies_no_close(stats, status_table, matrix_table, tags_table);
    lemma_summary_is_sections(stats, status_table, matrix_table, tags_table);
    let head = summary_head(stats);
    let body = |k: int| section_body(stats, k, status_table, matrix_table, tags_table);
    let x0 = seq![head];
    assert(flat(x0) =~= head) by {
        lemma_flat_push(Seq::<Seq<char>>::empty(), head);
        assert(Seq::<Seq<char>>::empty().push(head) =~= x0);
    }
    assert(no_close(x0[0]));
    let x1 = with_section(x0, section_present(stats, 1), section_header(1), body(1));
    let x2 = with_section(x1, section_present(stats, 2), section_header(2), body(2));
    let x3 = with_section(x2, section_present(stats, 3), section_header(3), body(3));
    let x4 = with_section(x3, section_present(stats, 4), section_header(4), body(4));
    assert(no_close(body(1)) && no_close(body(2)) && no_close(body(3)) && no_close(body(4)));
    lemma_with_section(x0, section_present(stats, 1), 1, body(1));
    lemma_with_section(x1, section_present(stats, 2), 2, body(2));
    lemma_with_section(x2, section_present(stats, 3), 3, body(3));
    lemma_with_section(x3, section_present(stats, 4), 4, body(4));
    assert(flat(x4) =~= stats_display_text(stats, status_table, matrix_table, tags_table));
    assert forall|k: int| 1 <= k <= 4 implies (x4.contains(#[trigger] section_header(k))
        <==> section_present(stats, k)) by {
        let h = section_header(k);
        lemma_header(k);
        assert(h[h.len() - 1] == ']');
        assert(h != head);
        assert(!x0.contains(h)) by {
            if x0.contains(h) {
                assert(x0[0] == head);
            }
        }
        assert(h != body(1) && h != body(2) && h != body(3) && h != body(4));
        assert forall|j: int| 1 <= j <= 4 && j != k implies section_header(j) != h by {
            lemma_headers_differ(j, k);
        }
    }
    x4
}

/// In the summary, each section header stands exactly when its section has
/// counts, and those that stand come in order, provided the drawn status,
/// matrix and tag tables hold no ']'.
pub proof fn law_stats_display_sections(
    stats: StatsDTO,
    status_table: Seq<char>,
    matrix_table: Seq<char>,
    tags_table: Seq<char>,
)
    requires
        no_close(status_table),
        no_close(matrix_table),
        no_close(tags_table),
    ensures
        sections_shown(stats_display_text(stats, status_table, matrix_table, tags_table), stats),
{
    let r = stats_display_text(stats, status_table, matrix_table, tags_table);
    let parts = summary_parts(stats, status_table, matrix_table, tags_table);
    assert forall|k: int| 1 <= k <= 4 implies (occurs(r, #[trigger] section_header(k))
        <==> section_present(stats, k)) by {
        assert(is_section_header(section_header(k)));
        lemma_flat_occurs(parts, section_header(k));
    }
    lemma_sections_order(stats, status_table, matrix_table, tags_table);
}

/// Where section `k` starts in the summary: after the head and the
/// sections before it.
spec fn section_start(
    stats: StatsDTO,
    k: int,
    status_table: Seq<char>,
    matrix_table: Seq<char>,
    tags_table: Seq<char>,
) -> int {
    summary_head(stats).len() + (if k > 1 {
        section_text(stats, 1, status_table, matrix_table, tags_table).len() as int
    } else {
        0
    }) + (if k > 2 {
        section_text(stats, 2, status_table, matrix_table, tags_table).len() as int
    } else {
        0
    }) + (if k > 3 {
        section_text(stats, 3, status_table, matrix_table, tags_table).len() as int
    } else {
        0
    })
}

proof fn lemma_section_at(
    stats: StatsDTO,
    k: int,
    status_table: Seq<char>,
    matrix_table: Seq<char>,
    tags_table: Seq<char>,
)
    requires
        1 <= k <= 4,
        section_present(stats, k),
    ensures
        occurs_at(
            stats_display_text(stats, status_table, matrix_table, tags_table),
            section_header(k),
            section_start(stats, k, status_table, matrix_table, tags_table),
        ),
{
    lemma_summary_is_sections(stats, status_table, matrix_table, tags_table);
    let head = summary_head(stats);
    let c1 = section_text(stats, 1, status_table, matrix_table, tags_table);
    let c2 = section_text(stats, 2, status_table, matrix_table, tags_table);
    let c3 = section_text(stats, 3, status_table, matrix_table, tags_table);
    let c4 = section_text(stats, 4, status_table, matrix_table, tags_table);
    let h = section_header(k);
    let b = section_body(stats, k, status_table, matrix_table, tags_table);
    let r = head + c1 + c2 + c3 + c4;
    if k == 1 {
        assert(r =~= head + h + (b + c2 + c3 + c4));
        lemma_occurs_at_middle(head, h, b + c2 + c3 + c4);
    } else if k == 2 {
        assert(r =~= (head + c1) + h + (b + c3 + c4));
        lemma_occurs_at_middle(head + c1, h, b + c3 + c4);
    } else if k == 3 {
        assert(r =~= (head + c1 + c2) + h + (b + c4));
        lemma_occurs_at_middle(head + c1 + c2, h, b + c4);
    } else {
        assert(r =~= (head + c1 + c2 + c3) + h + b);
        lemma_occurs_at_middle(head + c1 + c2 + c3, h, b);
    }
}

proof fn lemma_section_starts_grow(
    stats: StatsDTO,
    j: int,
    k: int,
    status_table: Seq<char>,
    matrix_table: Seq<char>,
    tags_table: Seq<char>,
)
    requires
        1 <= j < k <= 4,
        section_present(stats, j),
    ensures
        section_start(stats, j, status_table, matrix_table, tags_table) < section_start(
            stats,
            k,
            status_table,
            matrix_table,
            tags_table,
        ),
{
    lemma_header(j);
    assert(section_text(stats, j, status_table, matrix_table, tags_table).len() > 0);
}

proof fn lemma_sections_order(
    stats: StatsDTO,
    status_table: Seq<char>,
    matrix_table: Seq<char>,
    tags_table: Seq<char>,
)
    ensures
        ({
            let r = stats_display_text(stats, status_table, matrix_table, tags_table);
            forall|j: int, k: int|
                1 <= j < k <= 4 && #[trigger] section_present(stats, j) && #[trigger] section_present(
                    stats,
                    k,
                ) ==> exists|p: int, q: int|
                    #![trigger occurs_at(r, section_header(j), p), occurs_at(r, section_header(k), q)]
                    p < q && occurs_at(r, section_header(j), p) && occurs_at(r, section_header(k), q)
        }),
{
    let r = stats_display_text(stats, status_table, matrix_table, tags_table);
    assert forall|j: int, k: int|
        1 <= j < k <= 4 && #[trigger] section_present(stats, j) && #[trigger] section_present(
            stats,
            k,
        ) implies exists|p: int, q: int|
        #![trigger occurs_at(r, section_header(j), p), occurs_at(r, section_header(k), q)]
        p < q && occurs_at(r, section_header(j), p) && occurs_at(r, section_header(k), q) by {
        lemma_section_at(stats, j, status_table, matrix_table, tags_table);
        lemma_section_at(stats, k, status_table, matrix_table, tags_table);
        lemma_section_starts_grow(stats, j, k, status_table, matrix_table, tags_table);
        let pj = section_start(stats, j, status_table, matrix_table, tags_table);
        let pk = section_start(stats, k, status_table, matrix_table, tags_table);
        assert(occurs_at(r, section_header(j), pj));
        assert(occurs_at(r, section_header(k), pk));
    }
}

/// Whether no cell of a row holds ']'.
pub open spec fn row_no_close(row: Seq<CellSpec>) -> bool {
    forall|j: int| 0 <= j < row.len() ==> no_close(#[trigger] row[j].text)
}

/// Whether no cell of the rows holds ']'.
pub open spec fn rows_no_close(rows: Seq<Seq<CellSpec>>) -> bool {
    forall|i: int| 0 <= i < rows.len() ==> row_no_close(#[trigger] rows[i])
}

proof fn lemma_rows_no_close_add(x: Seq<Seq<CellSpec>>, y: Seq<Seq<CellSpec>>)
    requires
        rows_no_close(x),
        rows_no_close(y),
    ensures
        rows_no_close(x + y),
{
    assert forall|i: int| 0 <= i < (x + y).len() implies row_no_close(#[trigger] (x + y)[i]) by {
        if i < x.len() {
            assert((x + y)[i] == x[i]);
        } else {
            assert((x + y)[i] == y[i - x.len()]);
        }
    }
}

/// A drawing of a table with the `UTF8_FULL` borders whose cells hold no
/// ']' holds none either.
pub proof fn lemma_drawing_no_close(text: Seq<char>, t: comfy_table::Table)
    requires
        utf8_full_frame(t),
        row_no_close(comfy_header(t)),
        rows_no_close(comfy_rows(t)),
        forall|i: int|
            0 <= i < text.len() ==> {
                let c = #[trigger] text[i];
                ||| comfy_border_chars(t).contains(c)
                ||| comfy_extra_chars(t).contains(c)
                ||| c == ' '
                ||| c == '\n'
                ||| styling_char(c)
                ||| in_cells(comfy_header(t), comfy_rows(t), c)
            },
    ensures
        no_close(text),
{
    let u = utf8_full_preset();
    assert(!u.contains(']')) by {
        if u.contains(']') {
            let k = choose|k: int| 0 <= k < u.len() && u[k] == ']';
            assert(false);
        }
    }
    assert(!chars_of(u).contains(']'));
    assert(!in_cells(comfy_header(t), comfy_rows(t), ']')) by {
        let h = comfy_header(t);
        let rs = comfy_rows(t);
        if exists|j: int| 0 <= j < h.len() && (#[trigger] h[j]).text.contains(']') {
            let j = choose|j: int| 0 <= j < h.len() && (#[trigger] h[j]).text.contains(']');
            let k = choose|k: int| 0 <= k < h[j].text.len() && h[j].text[k] == ']';
            assert(no_close(h[j].text));
        }
        if exists|i: int, j: int|
            0 <= i < rs.len() && 0 <= j < rs[i].len() && (#[trigger] rs[i][j]).text.contains(']') {
            let (i, j) = choose|i: int, j: int|
                0 <= i < rs.len() && 0 <= j < rs[i].len() && (#[trigger] rs[i][j]).text.contains(
                    ']',
                );
            assert(row_no_close(rs[i]));
            let k = choose|k: int| 0 <= k < rs[i][j].text.len() && rs[i][j].text[k] == ']';
            assert(no_close(rs[i][j].text));
        }
    }
    assert forall|i: int| 0 <= i < text.len() implies text[i] != ']' by {
        let c = text[i];
        if c == ']' {
            assert(styling_char(c) == false);
        }
    }
}

proof fn lemma_bar_no_close(count: nat, total: nat)
    ensures
        no_close(bar_text(count, total)),
{
    lemma_no_close_add(
        repeat_char('█', crate::display::stats_table::bar_blocks(count, total)),
        repeat_char('░', (10 - crate::display::stats_table::bar_blocks(count, total)) as nat),
    );
}

/// The cells of the status table hold no ']' when the shares hold none.
pub proof fn lemma_status_cells_no_close(st: Seq<(Seq<char>, usize)>, total: nat, pcts: StatusPercents)
    requires
        no_close(pcts.pending@),
        no_close(pcts.in_progress@),
        no_close(pcts.completed@),
    ensures
        row_no_close(status_header_spec()),
        rows_no_close(status_rows_spec(st, total, pcts)),
{
    reveal_strlit("Status");
    reveal_strlit("Count");
    reveal_strlit("Percentage (%)");
    reveal_strlit("Progress");
    reveal_strlit("Pending");
    reveal_strlit("In Progress");
    reveal_strlit("Completed");
    assert forall|i: int| 0 <= i < 3 implies rows_no_close(#[trigger] status_row_opt(st, total, pcts, i)) by {
        let rows = status_row_opt(st, total, pcts, i);
        if rows.len() > 0 {
            let row = rows[0];
            assert(no_close(status_label(i)));
            assert(no_close(status_percent(pcts, i)));
            let n = choose|n: nat| row == status_row_spec(status_label(i), n, total, status_percent(pcts, i));
            lemma_digits_no_close(n);
            lemma_bar_no_close(n, total);
            assert(row_no_close(row));
        }
    }
    let r0 = status_row_opt(st, total, pcts, 0);
    let r1 = status_row_opt(st, total, pcts, 1);
    let r2 = status_row_opt(st, total, pcts, 2);
    lemma_rows_no_close_add(r0, r1);
    lemma_rows_no_close_add(r0 + r1, r2);
}

/// The cells of the priority × status table never hold ']'.
pub proof fn lemma_matrix_cells_no_close(m: Seq<(Seq<char>, usize)>, total: nat)
    ensures
        row_no_close(matrix_header_spec()),
        rows_no_close(matrix_rows_spec(m, total)),
{
    reveal_strlit("Pending");
    reveal_strlit("In Progress");
    reveal_strlit("Completed");
    reveal_strlit("Total");
    reveal_strlit("Critical");
    reveal_strlit("High");
    reveal_strlit("Medium");
    reveal_strlit("Low");
    assert(no_close(Seq::<char>::empty()));
    assert forall|p: int| 0 <= p < 4 implies row_no_close(#[trigger] matrix_row_spec(m, p)) by {
        assert(no_close(priority_label(p)));
        lemma_digits_no_close(cell_count(m, p, 0));
        lemma_digits_no_close(cell_count(m, p, 1));
        lemma_digits_no_close(cell_count(m, p, 2));
        lemma_digits_no_close(row_sum(m, p));
    }
    lemma_digits_no_close(col_sum(m, 0));
    lemma_digits_no_close(col_sum(m, 1));
    lemma_digits_no_close(col_sum(m, 2));
    lemma_digits_no_close(total);
    assert(row_no_close(matrix_total_row_spec(m, total)));
    let rows = matrix_rows_spec(m, total);
    assert forall|i: int| 0 <= i < rows.len() implies row_no_close(#[trigger] rows[i]) by {
        if i < 4 {
            assert(rows[i] == matrix_row_spec(m, i));
        }
    }
}

/// The cells of the top-tags table hold no ']' when no tag name holds one.
pub proof fn lemma_tag_cells_no_close(tags: Seq<(Seq<char>, usize)>, limit: nat)
    requires
        forall|i: int| 0 <= i < tags.len() ==> no_close(#[trigger] tags[i].0),
    ensures
        row_no_close(tags_header_spec()),
        rows_no_close(top_tag_rows_spec(tags, limit)),
{
    reveal_strlit("Tag Name");
    reveal_strlit("Count");
    let s = sort_by_count(tags);
    law_sort_by_count(tags);
    let rows = top_tag_rows_spec(tags, limit);
    assert forall|i: int| 0 <= i < rows.len() implies row_no_close(#[trigger] rows[i]) by {
        assert(s.contains(s[i]));
        vstd::seq_lib::to_multiset_contains(s, s[i]);
        assert(tags.to_multiset().count(s[i]) > 0);
        vstd::seq_lib::to_multiset_contains(tags, s[i]);
        let j = choose|j: int| 0 <= j < tags.len() && tags[j] == s[i];
        assert(no_close(tags[j].0));
        lemma_digits_no_close(s[i].1 as nat);
    }
}

} // verus!
