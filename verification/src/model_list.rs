//! The list of installed models, as a table where it fits and in paragraphs
//! where it does not.

use vstd::prelude::*;

use crate::manifest::{ModelManifest, ModelStorage};
use crate::text::{
    holds, join2, join3, join_strings, joined, occurs_at, opt_view, pad_right, padded, spaces,
    views,
};

verus! {

// ---------------------------------------------------------------------------
// The width of text
// ---------------------------------------------------------------------------

/// How many columns of a terminal a text takes.
pub uninterp spec fn text_width(text: Seq<char>) -> nat;

/// `console::measure_text_width`: the columns that a text takes, which depend on
/// nothing but the text. How wide a given character is is left unsaid.
#[verifier::external_body]
fn measure(text: &str) -> (r: usize)
    ensures
        r == text_width(text@),
{
    console::measure_text_width(text)
}

/// `console::pad_str`, aligned to the left and without truncation: a text that is
/// too narrow is followed by as many spaces as it lacks, any other is returned
/// as it is.
#[verifier::external_body]
fn pad_columns(text: &str, width: usize) -> (r: String)
    requires
        width <= 65535,
    ensures
        r@ == in_columns(text@, width as nat),
{
    console::pad_str(text, width, console::Alignment::Left, None).into_owned()
}

pub open spec fn in_columns(text: Seq<char>, width: nat) -> Seq<char> {
    if text_width(text) >= width {
        text
    } else {
        text + spaces((width - text_width(text)) as nat)
    }
}

// ---------------------------------------------------------------------------
// Rows
// ---------------------------------------------------------------------------

/// Values, or a dash where there are none.
pub open spec fn or_dash(values: Seq<Seq<char>>) -> Seq<char> {
    if values.len() == 0 {
        "-"@
    } else {
        joined(values, ","@)
    }
}

pub fn join_display(values: &Vec<String>) -> (r: String)
    ensures
        r@ == or_dash(views(values@)),
{
    if values.len() == 0 {
        "-".to_owned()
    } else {
        join_strings(values, ",")
    }
}

/// A model and what the list says of it beside its manifest: the names of its
/// tasks and where it is.
#[derive(Debug)]
pub struct ListedModel {
    pub manifest: ModelManifest,
    pub tasks: Vec<String>,
    pub location: String,
}

pub open spec fn dash_or(text: Option<Seq<char>>) -> Seq<char> {
    match text {
        Some(text) => text,
        None => "-"@,
    }
}

pub open spec fn headers() -> Seq<Seq<char>> {
    seq![
        "MODEL"@,
        "LAYOUT"@,
        "FAMILY"@,
        "ARCHITECTURE"@,
        "TASKS"@,
        "STORAGE"@,
        "PATH"@,
    ]
}

pub open spec fn row_of(m: ListedModel) -> Seq<Seq<char>> {
    seq![
        m.manifest.id@,
        m.manifest.metadata.repository_layout@,
        dash_or(opt_view(m.manifest.metadata.family)),
        dash_or(opt_view(m.manifest.architecture)),
        or_dash(views(m.tasks@)),
        if m.manifest.storage is Managed {
            "managed"@
        } else {
            "external"@
        },
        m.location@,
    ]
}

fn text_or_dash(text: &Option<String>) -> (r: String)
    ensures
        r@ == dash_or(opt_view(*text)),
{
    match text {
        Some(text) => text.clone(),
        None => "-".to_owned(),
    }
}

fn make_row(m: &ListedModel) -> (r: Vec<String>)
    ensures
        views(r@) == row_of(*m),
        r@.len() == 7,
{
    let mut r: Vec<String> = Vec::new();
    r.push(m.manifest.id.clone());
    r.push(m.manifest.metadata.repository_layout.clone());
    r.push(text_or_dash(&m.manifest.metadata.family));
    r.push(text_or_dash(&m.manifest.architecture));
    r.push(join_display(&m.tasks));
    let storage = match &m.manifest.storage {
        ModelStorage::Managed => "managed",
        _ => "external",
    };
    r.push(storage.to_owned());
    r.push(m.location.clone());
    assert(views(r@) =~= row_of(*m));
    r
}

fn header_row() -> (r: Vec<String>)
    ensures
        views(r@) == headers(),
        r@.len() == 7,
{
    let mut r: Vec<String> = Vec::new();
    r.push("MODEL".to_owned());
    r.push("LAYOUT".to_owned());
    r.push("FAMILY".to_owned());
    r.push("ARCHITECTURE".to_owned());
    r.push("TASKS".to_owned());
    r.push("STORAGE".to_owned());
    r.push("PATH".to_owned());
    assert(views(r@) =~= headers());
    r
}

pub open spec fn rows_of(models: Seq<ListedModel>) -> Seq<Seq<Seq<char>>> {
    models.map_values(|m: ListedModel| row_of(m))
}

// ---------------------------------------------------------------------------
// The table
// ---------------------------------------------------------------------------

/// The width of a column: that of its widest entry.
pub open spec fn column_width(rows: Seq<Seq<Seq<char>>>, column: int) -> nat
    decreases rows.len(),
{
    if rows.len() == 0 {
        0
    } else {
        let rest = column_width(rows.drop_last(), column);
        let last = text_width(rows.last()[column]);
        if last > rest {
            last
        } else {
            rest
        }
    }
}

pub open spec fn table_rows(models: Seq<ListedModel>) -> Seq<Seq<Seq<char>>> {
    seq![headers()] + rows_of(models)
}

/// The width of the table: that of its columns, with two spaces between.
pub open spec fn table_width(rows: Seq<Seq<Seq<char>>>) -> nat {
    column_width(rows, 0) + column_width(rows, 1) + column_width(rows, 2) + column_width(rows, 3)
        + column_width(rows, 4) + column_width(rows, 5) + column_width(rows, 6) + 12
}

/// The first columns of a row, each in its width and behind two spaces but for
/// the first.
pub open spec fn row_start(row: Seq<Seq<char>>, widths: Seq<nat>, n: int) -> Seq<char>
    decreases n,
{
    if n <= 0 {
        Seq::empty()
    } else {
        row_start(row, widths, n - 1) + (if n > 1 {
            "  "@
        } else {
            ""@
        }) + in_columns(row[n - 1], widths[n - 1])
    }
}

/// A row of the table. Nothing follows its last entry.
pub open spec fn row_text(row: Seq<Seq<char>>, widths: Seq<nat>) -> Seq<char> {
    row_start(row, widths, 6) + "  "@ + row[6] + "\n"@
}

pub open spec fn widths_of(rows: Seq<Seq<Seq<char>>>) -> Seq<nat> {
    Seq::new(7, |i: int| column_width(rows, i))
}

pub open spec fn rows_text(rows: Seq<Seq<Seq<char>>>, widths: Seq<nat>) -> Seq<char>
    decreases rows.len(),
{
    if rows.len() == 0 {
        Seq::empty()
    } else {
        rows_text(rows.drop_last(), widths) + row_text(rows.last(), widths)
    }
}

fn append_row(row: &Vec<String>, widths: &Vec<usize>) -> (r: String)
    requires
        row@.len() == 7,
        widths@.len() == 7,
        forall|i: int| 0 <= i < 7 ==> #[trigger] widths@[i] <= 65535,
    ensures
        r@ == row_text(views(row@), widths@.map_values(|w: usize| w as nat)),
{
    let ghost cells = views(row@);
    let ghost sizes = widths@.map_values(|w: usize| w as nat);
    let mut r = String::new();
    let mut i: usize = 0;
    assert(r@ =~= Seq::<char>::empty());
    while i < 6
        invariant
            i <= 6,
            row@.len() == 7,
            widths@.len() == 7,
            forall|k: int| 0 <= k < 7 ==> #[trigger] widths@[k] <= 65535,
            cells == views(row@),
            sizes == widths@.map_values(|w: usize| w as nat),
            r@ == row_start(cells, sizes, i as int),
        decreases 6 - i,
    {
        let ghost before = r@;
        if i > 0 {
            r.push_str("  ");
        } else {
            proof {
                lemma_empty_text();
            }
            assert(before + ""@ =~= before);
        }
        assert(cells[i as int] == row@[i as int]@);
        let cell = pad_columns(row[i].as_str(), widths[i]);
        r.push_str(cell.as_str());
        i = i + 1;
    }
    r.push_str("  ");
    r.push_str(row[6].as_str());
    r.push_str("\n");
    assert(cells[6] == row@[6]@);
    r
}

proof fn lemma_empty_text()
    ensures
        ""@ == Seq::<char>::empty(),
{
    reveal_strlit("");
    assert(""@ =~= Seq::<char>::empty());
}

pub open spec fn row_views(rows: Seq<Vec<String>>) -> Seq<Seq<Seq<char>>> {
    rows.map_values(|r: Vec<String>| views(r@))
}

fn measure_column(rows: &Vec<Vec<String>>, column: usize) -> (r: usize)
    requires
        column < 7,
        forall|i: int| 0 <= i < rows@.len() ==> (#[trigger] rows@[i])@.len() == 7,
    ensures
        r == column_width(row_views(rows@), column as int),
{
    let ghost all = row_views(rows@);
    let mut width: usize = 0;
    let mut i: usize = 0;
    assert(all.take(0) =~= Seq::empty());
    while i < rows.len()
        invariant
            i <= rows@.len(),
            column < 7,
            forall|k: int| 0 <= k < rows@.len() ==> (#[trigger] rows@[k])@.len() == 7,
            all == row_views(rows@),
            width == column_width(all.take(i as int), column as int),
        decreases rows@.len() - i,
    {
        assert(all.take(i + 1).drop_last() =~= all.take(i as int));
        assert(all[i as int] == views(rows@[i as int]@));
        let n = measure(rows[i][column].as_str());
        if n > width {
            width = n;
        }
        i = i + 1;
    }
    assert(all.take(i as int) =~= all);
    width
}

// ---------------------------------------------------------------------------
// The paragraphs
// ---------------------------------------------------------------------------

pub open spec fn label_line(label: Seq<char>, value: Seq<char>) -> Seq<char> {
    "  "@ + padded(label, 12) + "  "@ + value + "\n"@
}

/// A model in a paragraph: its name, and the rest line by line.
pub open spec fn paragraph(row: Seq<Seq<char>>) -> Seq<char> {
    row[0] + "\n"@ + label_line("Layout"@, row[1]) + label_line("Family"@, row[2]) + label_line(
        "Architecture"@,
        row[3],
    ) + label_line("Tasks"@, row[4]) + label_line("Storage"@, row[5]) + label_line("Path"@, row[6])
}

pub open spec fn paragraphs(rows: Seq<Seq<Seq<char>>>) -> Seq<char>
    decreases rows.len(),
{
    if rows.len() == 0 {
        Seq::empty()
    } else {
        paragraphs(rows.drop_last()) + (if rows.len() > 1 {
            "\n"@
        } else {
            ""@
        }) + paragraph(rows.last())
    }
}

fn add_label_line(text: &mut String, label: &str, value: &str)
    ensures
        final(text)@ == old(text)@ + label_line(label@, value@),
{
    let ghost before = text@;
    let column = pad_right(label, 12);
    let mut line = join3("  ", column.as_str(), "  ");
    line.push_str(value);
    line.push_str("\n");
    text.push_str(line.as_str());
}

fn make_paragraph(row: &Vec<String>) -> (r: String)
    requires
        row@.len() == 7,
    ensures
        r@ == paragraph(views(row@)),
{
    let ghost cells = views(row@);
    assert forall|i: int| 0 <= i < 7 implies cells[i] == (#[trigger] row@[i])@ by {}
    let mut r = join2(row[0].as_str(), "\n");
    add_label_line(&mut r, "Layout", row[1].as_str());
    add_label_line(&mut r, "Family", row[2].as_str());
    add_label_line(&mut r, "Architecture", row[3].as_str());
    add_label_line(&mut r, "Tasks", row[4].as_str());
    add_label_line(&mut r, "Storage", row[5].as_str());
    add_label_line(&mut r, "Path", row[6].as_str());
    r
}

// ---------------------------------------------------------------------------
// The list
// ---------------------------------------------------------------------------

/// The list of models. Names and paths stay whole: where the table would be
/// wider than the terminal, there are paragraphs instead.
pub open spec fn list_text(models: Seq<ListedModel>, home: Seq<char>, terminal_width: nat) -> Seq<char> {
    let rows = table_rows(models);
    if models.len() == 0 {
        "No matching models installed in "@ + home + "\n"@
    } else if table_width(rows) <= terminal_width {
        rows_text(rows, widths_of(rows))
    } else {
        paragraphs(rows_of(models))
    }
}

pub fn format_model_list(models: &Vec<ListedModel>, home: &str, terminal_width: u16) -> (r: String)
    ensures
        r@ == list_text(models@, home@, terminal_width as nat),
{
    if models.len() == 0 {
        return join3("No matching models installed in ", home, "\n");
    }
    let mut rows: Vec<Vec<String>> = Vec::new();
    rows.push(header_row());
    let mut i: usize = 0;
    while i < models.len()
        invariant
            i <= models@.len(),
            rows@.len() == i + 1,
            views(rows@[0]@) == headers(),
            forall|k: int| 0 <= k < rows@.len() ==> (#[trigger] rows@[k])@.len() == 7,
            forall|k: int| 0 <= k < i ==> views((#[trigger] rows@[k + 1])@) == row_of(models@[k]),
        decreases models@.len() - i,
    {
        rows.push(make_row(&models[i]));
        i = i + 1;
    }
    let ghost all = table_rows(models@);
    proof {
        assert forall|k: int| 0 <= k < all.len() implies row_views(rows@)[k] == all[k] by {
            if k > 0 {
                assert(views(rows@[(k - 1) + 1]@) == row_of(models@[k - 1]));
            }
        }
        assert(row_views(rows@) =~= all);
    }
    let mut widths: Vec<usize> = Vec::new();
    let mut total: usize = 12;
    let mut c: usize = 0;
    while c < 7
        invariant
            c <= 7,
            widths@.len() == c,
            all == row_views(rows@),
            forall|k: int| 0 <= k < rows@.len() ==> (#[trigger] rows@[k])@.len() == 7,
            forall|k: int| 0 <= k < c ==> #[trigger] widths@[k] == column_width(all, k),
            total == crate::chat::capped(12 + first_widths(all, c as int)),
        decreases 7 - c,
    {
        let width = measure_column(&rows, c);
        widths.push(width);
        total = total.saturating_add(width);
        c = c + 1;
    }
    proof {
        reveal_with_fuel(first_widths, 8);
        assert(12 + first_widths(all, 7) == table_width(all));
    }
    if total <= terminal_width as usize {
        assert(table_width(all) <= terminal_width);
        proof {
            assert forall|k: int| 0 <= k < 7 implies #[trigger] widths@[k] <= 65535 by {
                assert(widths@[k] == column_width(all, k));
            }
            assert(widths@.map_values(|w: usize| w as nat) =~= widths_of(all));
        }
        let mut text = String::new();
        let mut k: usize = 0;
        assert(all.take(0) =~= Seq::empty());
        assert(text@ =~= Seq::<char>::empty());
        while k < rows.len()
            invariant
                k <= rows@.len(),
                all == row_views(rows@),
                widths@.len() == 7,
                forall|j: int| 0 <= j < rows@.len() ==> (#[trigger] rows@[j])@.len() == 7,
                forall|j: int| 0 <= j < 7 ==> #[trigger] widths@[j] <= 65535,
                widths@.map_values(|w: usize| w as nat) == widths_of(all),
                text@ == rows_text(all.take(k as int), widths_of(all)),
            decreases rows@.len() - k,
        {
            assert(all.take(k + 1).drop_last() =~= all.take(k as int));
            assert(all[k as int] == views(rows@[k as int]@));
            let line = append_row(&rows[k], &widths);
            text.push_str(line.as_str());
            k = k + 1;
        }
        assert(all.take(k as int) =~= all);
        return text;
    }
    let ghost plain = rows_of(models@);
    let mut text = String::new();
    let mut k: usize = 0;
    assert(plain.take(0) =~= Seq::empty());
    assert(text@ =~= Seq::<char>::empty());
    while k < models.len()
        invariant
            k <= models@.len(),
            rows@.len() == models@.len() + 1,
            plain == rows_of(models@),
            forall|j: int| 0 <= j < rows@.len() ==> (#[trigger] rows@[j])@.len() == 7,
            forall|j: int|
                0 <= j < models@.len() ==> views((#[trigger] rows@[j + 1])@) == row_of(models@[j]),
            text@ == paragraphs(plain.take(k as int)),
        decreases models@.len() - k,
    {
        assert(plain.take(k + 1).drop_last() =~= plain.take(k as int));
        assert(views(rows@[k + 1]@) == plain[k as int]);
        let ghost before = text@;
        if k > 0 {
            text.push_str("\n");
        } else {
            proof {
                lemma_empty_text();
            }
            assert(before + ""@ =~= before);
        }
        let part = make_paragraph(&rows[k + 1]);
        text.push_str(part.as_str());
        k = k + 1;
    }
    assert(plain.take(k as int) =~= plain);
    text
}

/// The widths of the first columns together.
pub open spec fn first_widths(rows: Seq<Seq<Seq<char>>>, n: int) -> nat
    decreases n,
{
    if n <= 0 {
        0
    } else {
        first_widths(rows, n - 1) + column_width(rows, n - 1)
    }
}

// ---------------------------------------------------------------------------
// What every list holds
// ---------------------------------------------------------------------------

proof fn lemma_holds_part(before: Seq<char>, part: Seq<char>, after: Seq<char>)
    ensures
        holds(before + part + after, part),
{
    let whole = before + part + after;
    let at = before.len() as int;
    assert(whole.subrange(at, at + part.len()) =~= part);
    assert(occurs_at(whole, part, at));
}

proof fn lemma_holds_within(before: Seq<char>, inner: Seq<char>, after: Seq<char>, part: Seq<char>)
    requires
        holds(inner, part),
    ensures
        holds(before + inner + after, part),
{
    let i = choose|i: int| occurs_at(inner, part, i);
    let whole = before + inner + after;
    let at = before.len() + i;
    assert(whole.subrange(at, at + part.len()) =~= inner.subrange(i, i + part.len()));
    assert(occurs_at(whole, part, at));
}

proof fn lemma_rows_hold(rows: Seq<Seq<Seq<char>>>, widths: Seq<nat>, i: int)
    requires
        0 <= i < rows.len(),
    ensures
        holds(rows_text(rows, widths), rows[i][0]),
        holds(rows_text(rows, widths), rows[i][6]),
    decreases rows.len(),
{
    let before = rows_text(rows.drop_last(), widths);
    let last = row_text(rows.last(), widths);
    let none = Seq::<char>::empty();
    if i < rows.len() - 1 {
        lemma_rows_hold(rows.drop_last(), widths, i);
        assert(none + before + last =~= before + last);
        lemma_holds_within(none, before, last, rows[i][0]);
        lemma_holds_within(none, before, last, rows[i][6]);
    } else {
        let row = rows.last();
        lemma_holds_part(row_start(row, widths, 6) + "  "@, row[6], "\n"@);
        assert(last =~= row_start(row, widths, 6) + "  "@ + row[6] + "\n"@);
        lemma_row_start_holds(row, widths, 6);
        let rest = "  "@ + row[6] + "\n"@;
        assert(last =~= none + row_start(row, widths, 6) + rest);
        lemma_holds_within(none, row_start(row, widths, 6), rest, row[0]);
        assert(before + last =~= before + last + none);
        lemma_holds_within(before, last, none, row[0]);
        lemma_holds_within(before, last, none, row[6]);
    }
}

proof fn lemma_row_start_holds(row: Seq<Seq<char>>, widths: Seq<nat>, n: int)
    requires
        n >= 1,
    ensures
        holds(row_start(row, widths, n), row[0]),
    decreases n,
{
    let none = Seq::<char>::empty();
    if n == 1 {
        reveal_strlit("");
        let cell = in_columns(row[0], widths[0]);
        assert(row_start(row, widths, 0) =~= none);
        assert(row_start(row, widths, 1) =~= cell);
        if text_width(row[0]) >= widths[0] {
            assert(cell =~= none + row[0] + none);
            lemma_holds_part(none, row[0], none);
        } else {
            let fill = spaces((widths[0] - text_width(row[0])) as nat);
            assert(cell =~= none + row[0] + fill);
            lemma_holds_part(none, row[0], fill);
        }
    } else {
        lemma_row_start_holds(row, widths, n - 1);
        let first = row_start(row, widths, n - 1);
        let rest = "  "@ + in_columns(row[n - 1], widths[n - 1]);
        assert(row_start(row, widths, n) =~= none + first + rest);
        lemma_holds_within(none, first, rest, row[0]);
    }
}

proof fn lemma_paragraphs_hold(rows: Seq<Seq<Seq<char>>>, i: int)
    requires
        0 <= i < rows.len(),
    ensures
        holds(paragraphs(rows), rows[i][0]),
        holds(paragraphs(rows), rows[i][6]),
    decreases rows.len(),
{
    let none = Seq::<char>::empty();
    let before = paragraphs(rows.drop_last());
    let gap = if rows.len() > 1 {
        "\n"@
    } else {
        ""@
    };
    let last = paragraph(rows.last());
    if i < rows.len() - 1 {
        lemma_paragraphs_hold(rows.drop_last(), i);
        assert(paragraphs(rows) =~= none + before + (gap + last));
        lemma_holds_within(none, before, gap + last, rows[i][0]);
        lemma_holds_within(none, before, gap + last, rows[i][6]);
    } else {
        let row = rows.last();
        let middle = "\n"@ + label_line("Layout"@, row[1]) + label_line("Family"@, row[2])
            + label_line("Architecture"@, row[3]) + label_line("Tasks"@, row[4]) + label_line(
            "Storage"@,
            row[5],
        );
        let path = label_line("Path"@, row[6]);
        assert(last =~= none + row[0] + (middle + path));
        lemma_holds_part(none, row[0], middle + path);
        lemma_holds_part("  "@ + padded("Path"@, 12) + "  "@, row[6], "\n"@);
        assert(path =~= "  "@ + padded("Path"@, 12) + "  "@ + row[6] + "\n"@);
        assert(last =~= (row[0] + middle) + path + none);
        lemma_holds_within(row[0] + middle, path, none, row[6]);
        assert(paragraphs(rows) =~= (before + gap) + last + none);
        lemma_holds_within(before + gap, last, none, row[0]);
        lemma_holds_within(before + gap, last, none, row[6]);
    }
}

/// Every model is listed with its whole name and the whole path of where it is,
/// however wide the terminal is.
pub proof fn every_model_is_listed(
    models: Seq<ListedModel>,
    home: Seq<char>,
    terminal_width: nat,
    i: int,
)
    requires
        0 <= i < models.len(),
    ensures
        holds(list_text(models, home, terminal_width), models[i].manifest.id@),
        holds(list_text(models, home, terminal_width), models[i].location@),
{
    let rows = table_rows(models);
    if table_width(rows) <= terminal_width {
        assert(rows[i + 1] == row_of(models[i]));
        lemma_rows_hold(rows, widths_of(rows), i + 1);
    } else {
        assert(rows_of(models)[i] == row_of(models[i]));
        lemma_paragraphs_hold(rows_of(models), i);
    }
}

/// A model is shown in seven columns under their headers; what is not known of it is a
/// dash.
pub proof fn columns_show_what_they_are_headed(m: ListedModel)
    ensures
        headers().len() == 7 && row_of(m).len() == 7,
        headers()[0] == "MODEL"@ && row_of(m)[0] == m.manifest.id@,
        headers()[1] == "LAYOUT"@ && row_of(m)[1] == m.manifest.metadata.repository_layout@,
        headers()[2] == "FAMILY"@ && (m.manifest.metadata.family is Some ==> row_of(m)[2]
            == m.manifest.metadata.family->0@) && (m.manifest.metadata.family is None ==> row_of(
            m,
        )[2] == "-"@),
        headers()[3] == "ARCHITECTURE"@ && (m.manifest.architecture is Some ==> row_of(m)[3]
            == m.manifest.architecture->0@) && (m.manifest.architecture is None ==> row_of(m)[3]
            == "-"@),
        headers()[4] == "TASKS"@ && (m.tasks@.len() == 0 ==> row_of(m)[4] == "-"@) && (
        m.tasks@.len() > 0 ==> row_of(m)[4] == joined(views(m.tasks@), ","@)),
        headers()[5] == "STORAGE"@ && (m.manifest.storage is Managed <==> row_of(m)[5]
            == "managed"@) && (!(m.manifest.storage is Managed) ==> row_of(m)[5] == "external"@),
        headers()[6] == "PATH"@ && row_of(m)[6] == m.location@,
{
    reveal_strlit("managed");
    reveal_strlit("external");
    assert("managed"@.len() != "external"@.len());
}

/// A column is as wide as the widest of its texts, and the table is shown where all of
/// it fits.
pub proof fn columns_fit_their_texts(
    rows: Seq<Seq<Seq<char>>>,
    column: int,
    i: int,
    models: Seq<ListedModel>,
    home: Seq<char>,
    width: nat,
)
    ensures
        0 <= i < rows.len() ==> text_width(rows[i][column]) <= column_width(rows, column),
        rows.len() > 0 ==> exists|k: int|
            0 <= k < rows.len() && text_width(#[trigger] rows[k][column]) == column_width(
                rows,
                column,
            ) || column_width(rows, column) == 0,
        models.len() == 0 ==> list_text(models, home, width) == "No matching models installed in "@
            + home + "\n"@,
        models.len() > 0 && table_width(table_rows(models)) <= width ==> list_text(
            models,
            home,
            width,
        ) == rows_text(table_rows(models), widths_of(table_rows(models))),
        models.len() > 0 && table_width(table_rows(models)) > width ==> list_text(
            models,
            home,
            width,
        ) == paragraphs(rows_of(models)),
    decreases rows.len(),
{
    if rows.len() > 0 {
        let few = rows.drop_last();
        columns_fit_their_texts(few, column, i, models, home, width);
        if 0 <= i < few.len() {
            assert(few[i] == rows[i]);
        }
        let last = rows.len() - 1;
        if text_width(rows[last][column]) >= column_width(few, column) {
            assert(text_width(rows[last][column]) == column_width(rows, column));
        } else if few.len() > 0 {
            let k = choose|k: int|
                0 <= k < few.len() && text_width(#[trigger] few[k][column]) == column_width(
                    few,
                    column,
                ) || column_width(few, column) == 0;
            assert(rows[k][column] == few[k][column]);
        }
    }
}

} // verus!
