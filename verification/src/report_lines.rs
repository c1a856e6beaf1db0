//! Reports, line by line.

use vstd::prelude::*;

use crate::text::{join2, opt_str_view, pad_right, padded, spaces, views};

verus! {

/// The lines of a report as one text, each ended.
pub open spec fn lines_text(lines: Seq<Seq<char>>) -> Seq<char>
    decreases lines.len(),
{
    if lines.len() == 0 {
        Seq::empty()
    } else {
        lines_text(lines.drop_last()) + lines.last() + "\n"@
    }
}

pub fn text_of_lines(lines: &Vec<String>) -> (r: String)
    ensures
        r@ == lines_text(views(lines@)),
{
    let ghost all = views(lines@);
    let mut r = String::new();
    let mut i: usize = 0;
    assert(all.take(0) =~= Seq::empty());
    assert(r@ =~= Seq::<char>::empty());
    while i < lines.len()
        invariant
            i <= lines@.len(),
            all == views(lines@),
            r@ == lines_text(all.take(i as int)),
        decreases lines@.len() - i,
    {
        assert(all.take(i + 1).drop_last() =~= all.take(i as int));
        assert(all[i as int] == lines@[i as int]@);
        r.push_str(lines[i].as_str());
        r.push_str("\n");
        i = i + 1;
    }
    assert(all.take(all.len() as int) =~= all);
    r
}

/// A report is empty, or ends with the end of its last line.
pub proof fn reports_end_with_a_line(lines: Seq<Seq<char>>)
    requires
        lines.len() > 0,
    ensures
        "\n"@.is_suffix_of(lines_text(lines)),
{
    let text = lines_text(lines);
    let head = lines_text(lines.drop_last()) + lines.last();
    assert(text.skip(text.len() - "\n"@.len()) =~= "\n"@);
}

/// A line with a value behind its label, in a column of its own.
pub open spec fn stat(width: nat, label: Seq<char>, value: Seq<char>) -> Seq<Seq<char>> {
    seq![padded(label, width) + value]
}

/// The same, where there is a value.
pub open spec fn opt_stat(width: nat, label: Seq<char>, value: Option<Seq<char>>) -> Seq<Seq<char>> {
    match value {
        Some(value) => stat(width, label, value),
        None => Seq::empty(),
    }
}

pub open spec fn line(text: Seq<char>) -> Seq<Seq<char>> {
    seq![text]
}

pub fn add_line(lines: &mut Vec<String>, text: String)
    ensures
        views(final(lines)@) == views(old(lines)@) + line(text@),
{
    let ghost before = lines@;
    lines.push(text);
    assert(views(lines@) =~= views(before) + line(text@));
}

pub fn add_stat(lines: &mut Vec<String>, width: usize, label: &str, value: &str)
    ensures
        views(final(lines)@) == views(old(lines)@) + stat(width as nat, label@, value@),
{
    let column = pad_right(label, width);
    add_line(lines, join2(column.as_str(), value));
}

pub fn add_opt_stat(lines: &mut Vec<String>, width: usize, label: &str, value: Option<&str>)
    ensures
        views(final(lines)@) == views(old(lines)@) + opt_stat(
            width as nat,
            label@,
            opt_str_view(value),
        ),
{
    match value {
        Some(value) => {
            add_stat(lines, width, label, value);
        },
        None => {
            assert(views(lines@) + Seq::<Seq<char>>::empty() =~= views(lines@));
        },
    }
}

/// The lines behind others.
pub fn add_lines(lines: &mut Vec<String>, more: Vec<String>)
    ensures
        views(final(lines)@) == views(old(lines)@) + views(more@),
{
    let ghost before = lines@;
    let mut more = more;
    let ghost added = more@;
    lines.append(&mut more);
    assert(views(lines@) =~= views(before) + views(added));
}

pub fn no_lines() -> (r: Vec<String>)
    ensures
        views(r@) == Seq::<Seq<char>>::empty(),
{
    let r: Vec<String> = Vec::new();
    assert(views(r@) =~= Seq::<Seq<char>>::empty());
    r
}

pub proof fn lemma_from_nothing(lines: Seq<Seq<char>>)
    ensures
        Seq::<Seq<char>>::empty() + lines == lines,
{
    assert(Seq::<Seq<char>>::empty() + lines =~= lines);
}

/// A text in a column, and the space behind it.
pub open spec fn column(text: Seq<char>, width: nat) -> Seq<char> {
    padded(text, width) + " "@
}

pub fn add_column(row: &mut String, text: &str, width: usize)
    ensures
        final(row)@ == old(row)@ + column(text@, width as nat),
{
    let ghost before = row@;
    let cell = pad_right(text, width);
    let cell = join2(cell.as_str(), " ");
    row.push_str(cell.as_str());
}

pub fn empty_row() -> (r: String)
    ensures
        r@ == Seq::<char>::empty(),
{
    let r = String::new();
    assert(r@ =~= Seq::<char>::empty());
    r
}

/// A text behind as many spaces as it lacks of a width.
pub open spec fn flushed(text: Seq<char>, width: nat) -> Seq<char> {
    if text.len() >= width {
        text
    } else {
        spaces((width - text.len()) as nat) + text
    }
}

pub fn pad_left(text: &str, width: usize) -> (r: String)
    ensures
        r@ == flushed(text@, width as nat),
{
    let n: usize = text.unicode_len();
    if n >= width {
        return text.to_owned();
    }
    let missing: usize = width - n;
    let mut r = pad_right("", missing);
    proof {
        reveal_strlit("");
        assert(r@ =~= spaces(missing as nat));
    }
    r.push_str(text);
    r
}

// ---------------------------------------------------------------------------
// What rows are made of
// ---------------------------------------------------------------------------

/// A column is as wide as it is to be or as its text, which stands at its left; numbers
/// stand at its right.
pub proof fn texts_fill_their_columns(text: Seq<char>, width: nat)
    ensures
        text.is_prefix_of(padded(text, width)),
        text.is_suffix_of(flushed(text, width)),
        text.len() <= width ==> padded(text, width).len() == width && flushed(text, width).len()
            == width,
        text.len() >= width ==> padded(text, width) == text && flushed(text, width) == text,
        column(text, width) == padded(text, width) + " "@,
        forall|i: int|
            text.len() <= i < padded(text, width).len() ==> #[trigger] padded(text, width)[i]
                == ' ',
{
    assert(text =~= padded(text, width).take(text.len() as int));
    let f = flushed(text, width);
    assert(text =~= f.skip(f.len() - text.len()));
}

/// A line of statistics is shown where there is a value.
pub proof fn values_are_shown_by_their_labels(
    width: nat,
    label: Seq<char>,
    value: Seq<char>,
    lines: Seq<Seq<char>>,
)
    ensures
        stat(width, label, value) == seq![padded(label, width) + value],
        opt_stat(width, label, Some(value)) == stat(width, label, value),
        opt_stat(width, label, None).len() == 0,
        lines_text(Seq::empty()).len() == 0,
        lines_text(lines.push(value)) == lines_text(lines) + value + "\n"@,
{
    assert(lines.push(value).drop_last() =~= lines);
}

} // verus!
