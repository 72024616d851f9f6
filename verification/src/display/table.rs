use vstd::prelude::*;

verus! {

/// How a table cell's text is aligned.
#[derive(Debug, Clone, Copy, PartialEq, Eq, Structural)]
pub enum CellAlign {
    Left,
    Center,
    Right,
}

/// A table cell: its text, whether it is bold, and its alignment.
#[derive(Debug, Clone)]
pub struct TableCell {
    pub text: String,
    pub bold: bool,
    pub align: CellAlign,
}

/// What a table cell holds, as plain values.
pub struct CellSpec {
    pub text: Seq<char>,
    pub bold: bool,
    pub align: CellAlign,
}

impl View for TableCell {
    type V = CellSpec;

    open spec fn view(&self) -> CellSpec {
        CellSpec { text: self.text@, bold: self.bold, align: self.align }
    }
}

/// A cell from its parts.
pub open spec fn cell(text: Seq<char>, bold: bool, align: CellAlign) -> CellSpec {
    CellSpec { text, bold, align }
}

/// The cells of a row, as plain values.
pub open spec fn row_view(r: Seq<TableCell>) -> Seq<CellSpec> {
    r.map_values(|c: TableCell| c@)
}

/// The rows of a table, as plain values.
pub open spec fn rows_view(rows: Seq<Vec<TableCell>>) -> Seq<Seq<CellSpec>> {
    rows.map_values(|r: Vec<TableCell>| row_view(r@))
}

/// Builds a cell.
pub fn new_table_cell(text: String, bold: bool, align: CellAlign) -> (r: TableCell)
    ensures
        r@ == cell(text@, bold, align),
{
    TableCell { text, bold, align }
}

/// Declares `comfy_table::Table` to Verus as an opaque type; what it holds is
/// named by `comfy_header` and `comfy_rows`.
#[verifier::external_type_specification]
#[verifier::external_body]
pub struct ExComfyTable(comfy_table::Table);

/// The rows a comfy-table `Table` holds, in the order they were added, each
/// cell as the text, boldness and alignment it was made with.
pub uninterp spec fn comfy_rows(table: comfy_table::Table) -> Seq<Seq<CellSpec>>;

/// The header row a comfy-table `Table` holds, its cells as in `comfy_rows`;
/// empty when no header was set.
pub uninterp spec fn comfy_header(table: comfy_table::Table) -> Seq<CellSpec>;

/// The characters of a comfy-table `Table`'s border style, as its preset
/// and any style set on it give them.
pub uninterp spec fn comfy_border_chars(table: comfy_table::Table) -> Set<char>;

/// The other characters a comfy-table `Table` may draw besides its cells'
/// text, spaces and line breaks: those of its truncation indicator and of
/// any delimiter set on it, its columns or its cells.
pub uninterp spec fn comfy_extra_chars(table: comfy_table::Table) -> Set<char>;

/// The characters of a text, as a set.
pub open spec fn chars_of(s: Seq<char>) -> Set<char> {
    Set::new(|c: char| s.contains(c))
}

/// `comfy_table::Table::new`: a table with no header and no rows, the
/// `ASCII_FULL` border style, the truncation indicator "..." and no
/// delimiter.
#[verifier::external_body]
fn new_comfy_table() -> (r: comfy_table::Table)
    ensures
        comfy_header(r) == Seq::<CellSpec>::empty(),
        comfy_rows(r) == Seq::<Seq<CellSpec>>::empty(),
        comfy_border_chars(r) == chars_of("||--+==+|-+||++++++"@),
        comfy_extra_chars(r) == set!['.'],
{
    comfy_table::Table::new()
}

/// `Table::load_preset` of comfy-table with its `UTF8_FULL` preset (box
/// drawing borders): the preset sets every border component, so the border
/// style becomes exactly the preset's characters; the header, the rows and
/// the other characters stay.
#[verifier::external_body]
fn load_utf8_full_preset(table: &mut comfy_table::Table)
    ensures
        comfy_header(*final(table)) == comfy_header(*old(table)),
        comfy_rows(*final(table)) == comfy_rows(*old(table)),
        comfy_border_chars(*final(table)) == chars_of(utf8_full_preset()),
        comfy_extra_chars(*final(table)) == comfy_extra_chars(*old(table)),
{
    table.load_preset(comfy_table::presets::UTF8_FULL);
}

/// `Table::set_header` of comfy-table, with a `Cell` made for each cell given
/// (`Cell::new` on its text, `set_alignment` with the alignment of the same
/// name, `Attribute::Bold` when it is bold): the header becomes those cells.
#[verifier::external_body]
fn set_comfy_header(table: &mut comfy_table::Table, cells: &Vec<TableCell>)
    ensures
        comfy_header(*final(table)) == row_view(cells@),
        comfy_rows(*final(table)) == comfy_rows(*old(table)),
        comfy_border_chars(*final(table)) == comfy_border_chars(*old(table)),
        comfy_extra_chars(*final(table)) == comfy_extra_chars(*old(table)),
{
    table.set_header(cells.iter().map(|c| {
        let cell = comfy_table::Cell::new(&c.text).set_alignment(match c.align {
            CellAlign::Left => comfy_table::CellAlignment::Left,
            CellAlign::Center => comfy_table::CellAlignment::Center,
            CellAlign::Right => comfy_table::CellAlignment::Right,
        });
        match c.bold { true => cell.add_attribute(comfy_table::Attribute::Bold), false => cell }
    }).collect::<Vec<comfy_table::Cell>>());
}

/// `Table::add_row` of comfy-table, with a `Cell` made for each cell given as
/// `set_comfy_header` makes them: the row is put after the table's rows.
#[verifier::external_body]
fn add_comfy_row(table: &mut comfy_table::Table, cells: &Vec<TableCell>)
    ensures
        comfy_header(*final(table)) == comfy_header(*old(table)),
        comfy_rows(*final(table)) == comfy_rows(*old(table)).push(row_view(cells@)),
        comfy_border_chars(*final(table)) == comfy_border_chars(*old(table)),
        comfy_extra_chars(*final(table)) == comfy_extra_chars(*old(table)),
{
    table.add_row(cells.iter().map(|c| {
        let cell = comfy_table::Cell::new(&c.text).set_alignment(match c.align {
            CellAlign::Left => comfy_table::CellAlignment::Left,
            CellAlign::Center => comfy_table::CellAlignment::Center,
            CellAlign::Right => comfy_table::CellAlignment::Right,
        });
        match c.bold { true => cell.add_attribute(comfy_table::Attribute::Bold), false => cell }
    }).collect::<Vec<comfy_table::Cell>>());
}

/// Whether `text` is a drawing that comfy-table's `Display` makes of a table
/// holding `header` and `rows`, under some setting of the output (whether
/// it is a terminal, and how wide), which this leaves open.
pub uninterp spec fn comfy_drawing(
    text: Seq<char>,
    header: Seq<CellSpec>,
    rows: Seq<Seq<CellSpec>>,
) -> bool;

/// The `UTF8_FULL` preset of comfy-table.
pub open spec fn utf8_full_preset() -> Seq<char> {
    seq!['│', '│', '─', '─', '╞', '═', '╪', '╡', '┆', '╌', '┼', '├', '┤', '┬', '┴', '┌', '┐', '└', '┘']
}

/// A character of an ANSI styling sequence as crossterm writes them
/// (`ESC [` parameters `m`, the parameters digits, ';' and ':').
pub open spec fn styling_char(c: char) -> bool {
    c == '\x1b' || c == '[' || ('0' <= c && c <= '9') || c == ';' || c == ':' || c == 'm'
}

/// Whether `c` is in the text of some cell of `header` or `rows`.
pub open spec fn in_cells(header: Seq<CellSpec>, rows: Seq<Seq<CellSpec>>, c: char) -> bool {
    ||| exists|j: int| 0 <= j < header.len() && (#[trigger] header[j]).text.contains(c)
    ||| exists|i: int, j: int|
        0 <= i < rows.len() && 0 <= j < rows[i].len() && (#[trigger] rows[i][j]).text.contains(c)
}

/// The table's text, through comfy-table's `Display` for `Table`: a drawing
/// of the header and rows the table holds. Every character of it is a
/// border character, one of the table's other characters (truncation
/// indicator, delimiters), a space, a line break, a character of a styling
/// sequence, or a character of a cell's text. Which characters stand where
/// is not stated: it depends on whether standard output is a terminal
/// (styling, and the terminal's width, are used only then).
#[verifier::external_body]
pub(crate) fn comfy_table_text(table: &comfy_table::Table) -> (r: String)
    ensures
        comfy_drawing(r@, comfy_header(*table), comfy_rows(*table)),
        forall|i: int|
            0 <= i < r@.len() ==> {
                let c = #[trigger] r@[i];
                ||| comfy_border_chars(*table).contains(c)
                ||| comfy_extra_chars(*table).contains(c)
                ||| c == ' '
                ||| c == '\n'
                ||| styling_char(c)
                ||| in_cells(comfy_header(*table), comfy_rows(*table), c)
            },
{
    table.to_string()
}

fn add_rows(table: &mut comfy_table::Table, rows: &Vec<Vec<TableCell>>)
    ensures
        comfy_header(*final(table)) == comfy_header(*old(table)),
        comfy_rows(*final(table)) == comfy_rows(*old(table)) + rows_view(rows@),
        comfy_border_chars(*final(table)) == comfy_border_chars(*old(table)),
        comfy_extra_chars(*final(table)) == comfy_extra_chars(*old(table)),
{
    let mut i: usize = 0;
    while i < rows.len()
        invariant
            i <= rows.len(),
            comfy_header(*table) == comfy_header(*old(table)),
            comfy_rows(*table) == comfy_rows(*old(table)) + rows_view(rows@.take(i as int)),
            comfy_border_chars(*table) == comfy_border_chars(*old(table)),
            comfy_extra_chars(*table) == comfy_extra_chars(*old(table)),
        decreases rows.len() - i,
    {
        add_comfy_row(table, &rows[i]);
        assert(rows@.take(i + 1) =~= rows@.take(i as int).push(rows@[i as int]));
        assert(rows_view(rows@.take(i + 1)) =~= rows_view(rows@.take(i as int)).push(row_view(rows@[i as int]@)));
        i += 1;
    }
    assert(rows@.take(rows.len() as int) =~= rows@);
}

/// Whether a table draws with the `UTF8_FULL` border characters and, as
/// other characters, only the '.' of its truncation indicator.
pub open spec fn utf8_full_frame(t: comfy_table::Table) -> bool {
    &&& comfy_border_chars(t) == chars_of(utf8_full_preset())
    &&& comfy_extra_chars(t) == set!['.']
}

/// A table with comfy-table's `UTF8_FULL` borders holding the header and
/// then the rows in order.
pub fn build_table(header: &Vec<TableCell>, rows: &Vec<Vec<TableCell>>) -> (r: comfy_table::Table)
    ensures
        comfy_header(r) == row_view(header@),
        comfy_rows(r) == rows_view(rows@),
        utf8_full_frame(r),
{
    let mut table = new_comfy_table();
    load_utf8_full_preset(&mut table);
    set_comfy_header(&mut table, header);
    add_rows(&mut table, rows);
    assert(comfy_rows(table) =~= rows_view(rows@));
    table
}

/// A table with comfy-table's `UTF8_FULL` borders holding the rows in order,
/// without a header.
pub fn build_headless_table(rows: &Vec<Vec<TableCell>>) -> (r: comfy_table::Table)
    ensures
        comfy_header(r) == Seq::<CellSpec>::empty(),
        comfy_rows(r) == rows_view(rows@),
        utf8_full_frame(r),
{
    let mut table = new_comfy_table();
    load_utf8_full_preset(&mut table);
    add_rows(&mut table, rows);
    assert(comfy_rows(table) =~= rows_view(rows@));
    table
}

/// A plain cell: not bold, aligned left.
pub open spec fn plain(text: Seq<char>) -> CellSpec {
    cell(text, false, CellAlign::Left)
}

/// The texts of a row's cells.
pub open spec fn row_texts(c: Seq<CellSpec>) -> Seq<Seq<char>> {
    c.map_values(|x: CellSpec| x.text)
}

/// Whether every cell of a row is plain.
pub open spec fn is_plain_row(c: Seq<CellSpec>) -> bool {
    forall|j: int| 0 <= j < c.len() ==> !(#[trigger] c[j]).bold && c[j].align == CellAlign::Left
}

/// Plain cells holding the texts, as plain values.
pub open spec fn plain_row(t: Seq<Seq<char>>) -> Seq<CellSpec> {
    t.map_values(|x: Seq<char>| plain(x))
}

/// Plain cells holding the texts, in order.
pub fn plain_cells(texts: Vec<String>) -> (r: Vec<TableCell>)
    ensures
        row_view(r@) == texts@.map_values(|t: String| plain(t@)),
{
    let mut out: Vec<TableCell> = Vec::new();
    let mut i: usize = 0;
    while i < texts.len()
        invariant
            i <= texts.len(),
            row_view(out@) == texts@.take(i as int).map_values(|t: String| plain(t@)),
        decreases texts.len() - i,
    {
        let ghost before = out@;
        out.push(new_table_cell(texts[i].clone(), false, CellAlign::Left));
        assert(row_view(out@) =~= row_view(before).push(plain(texts@[i as int]@)));
        assert(texts@.take(i + 1).map_values(|t: String| plain(t@)) =~= texts@.take(
            i as int,
        ).map_values(|t: String| plain(t@)).push(plain(texts@[i as int]@)));
        i += 1;
    }
    assert(texts@.take(texts.len() as int) =~= texts@);
    out
}

} // verus!
