//! One line of input that can be edited, and the history of the lines before it.

use vstd::prelude::*;

use crate::text::{
    char_is_space, chars_of, decimal, is_blank, is_space, join3, str_eq, str_is_blank, string_of,
    usize_text, views,
};

verus! {

/// The line being edited: its characters and where the cursor stands.
#[derive(Debug)]
pub struct EditableLine {
    pub buffer: Vec<char>,
    pub cursor: usize,
}

pub ghost struct LineView {
    pub text: Seq<char>,
    pub cursor: int,
}

impl Default for EditableLine {
    fn default() -> (r: Self)
        ensures
            r@ == (LineView { text: Seq::empty(), cursor: 0 }),
            r.wf(),
    {
        EditableLine { buffer: Vec::new(), cursor: 0 }
    }
}

/// The start of the word before `i`: white space is skipped first.
pub open spec fn word_start(s: Seq<char>, i: int) -> int {
    back_over_word(s, back_over_space(s, i))
}

pub open spec fn back_over_space(s: Seq<char>, i: int) -> int
    decreases i,
{
    if i > 0 && is_space(s[i - 1]) {
        back_over_space(s, i - 1)
    } else {
        i
    }
}

pub open spec fn back_over_word(s: Seq<char>, i: int) -> int
    decreases i,
{
    if i > 0 && !is_space(s[i - 1]) {
        back_over_word(s, i - 1)
    } else {
        i
    }
}

/// The start of the next word after `i`: the rest of this one is skipped first.
pub open spec fn next_word(s: Seq<char>, i: int) -> int {
    over_space(s, over_word(s, i))
}

pub open spec fn over_word(s: Seq<char>, i: int) -> int
    decreases s.len() - i,
{
    if 0 <= i < s.len() && !is_space(s[i]) {
        over_word(s, i + 1)
    } else {
        i
    }
}

pub open spec fn over_space(s: Seq<char>, i: int) -> int
    decreases s.len() - i,
{
    if 0 <= i < s.len() && is_space(s[i]) {
        over_space(s, i + 1)
    } else {
        i
    }
}

pub proof fn lemma_word_start_bounds(s: Seq<char>, i: int)
    requires
        0 <= i <= s.len(),
    ensures
        0 <= back_over_space(s, i) <= i,
        0 <= back_over_word(s, i) <= i,
    decreases i,
{
    if i > 0 {
        lemma_word_start_bounds(s, i - 1);
    }
}

pub proof fn lemma_next_word_bounds(s: Seq<char>, i: int)
    requires
        0 <= i <= s.len(),
    ensures
        i <= over_word(s, i) <= s.len(),
        i <= over_space(s, i) <= s.len(),
    decreases s.len() - i,
{
    if i < s.len() {
        lemma_next_word_bounds(s, i + 1);
    }
}

/// What an edit does to a line, and whether it did anything.
pub open spec fn line_insert(l: LineView, c: char) -> LineView {
    LineView { text: l.text.insert(l.cursor, c), cursor: l.cursor + 1 }
}

pub open spec fn line_backspace(l: LineView) -> LineView {
    if l.cursor == 0 {
        l
    } else {
        LineView { text: l.text.remove(l.cursor - 1), cursor: l.cursor - 1 }
    }
}

pub open spec fn line_delete(l: LineView) -> LineView {
    if l.cursor >= l.text.len() {
        l
    } else {
        LineView { text: l.text.remove(l.cursor), cursor: l.cursor }
    }
}

pub open spec fn line_delete_to_end(l: LineView) -> LineView {
    LineView { text: l.text.take(l.cursor), cursor: l.cursor }
}

pub open spec fn line_clear(l: LineView) -> LineView {
    if l.text.len() == 0 {
        l
    } else {
        LineView { text: Seq::empty(), cursor: 0 }
    }
}

pub open spec fn line_delete_word(l: LineView) -> LineView {
    let start = word_start(l.text, l.cursor);
    LineView { text: l.text.take(start) + l.text.skip(l.cursor), cursor: start }
}

pub open spec fn line_at(l: LineView, cursor: int) -> LineView {
    LineView { cursor, ..l }
}

pub open spec fn line_holding(text: Seq<char>) -> LineView {
    LineView { text, cursor: text.len() as int }
}

impl EditableLine {
    pub open spec fn view(&self) -> LineView {
        LineView { text: self.buffer@, cursor: self.cursor as int }
    }

    /// The cursor stands inside the line or at its end.
    pub open spec fn wf(&self) -> bool {
        self.cursor <= self.buffer@.len()
    }

    pub fn is_empty(&self) -> (r: bool)
        ensures
            r == (self@.text.len() == 0),
    {
        self.buffer.len() == 0
    }

    pub fn as_string(&self) -> (r: String)
        ensures
            r@ == self@.text,
    {
        string_of(&self.buffer)
    }

    /// Puts another text in place of the line, with the cursor at its end.
    pub fn replace(&mut self, value: &str)
        ensures
            final(self)@ == line_holding(value@),
            final(self).wf(),
    {
        self.buffer = chars_of(value);
        self.cursor = self.buffer.len();
    }

    /// Inserts a character at the cursor.
    pub fn insert(&mut self, ch: char)
        requires
            old(self).wf(),
            old(self)@.text.len() < usize::MAX,
        ensures
            final(self)@ == line_insert(old(self)@, ch),
            final(self).wf(),
    {
        self.buffer.insert(self.cursor, ch);
        self.cursor = self.cursor + 1;
    }

    /// Removes the character before the cursor.
    pub fn backspace(&mut self) -> (r: bool)
        requires
            old(self).wf(),
        ensures
            final(self)@ == line_backspace(old(self)@),
            final(self).wf(),
            r == (old(self)@.cursor > 0),
    {
        if self.cursor == 0 {
            return false;
        }
        self.cursor = self.cursor - 1;
        self.buffer.remove(self.cursor);
        true
    }

    /// Removes the character at the cursor.
    pub fn delete(&mut self) -> (r: bool)
        requires
            old(self).wf(),
        ensures
            final(self)@ == line_delete(old(self)@),
            final(self).wf(),
            r == (old(self)@.cursor < old(self)@.text.len()),
    {
        if self.cursor >= self.buffer.len() {
            return false;
        }
        self.buffer.remove(self.cursor);
        true
    }

    /// Removes everything from the cursor on.
    pub fn delete_to_end(&mut self) -> (r: bool)
        requires
            old(self).wf(),
        ensures
            final(self)@ == line_delete_to_end(old(self)@),
            final(self).wf(),
            r == (old(self)@.cursor < old(self)@.text.len()),
    {
        if self.cursor >= self.buffer.len() {
            assert(self.buffer@.take(self.cursor as int) =~= self.buffer@);
            return false;
        }
        self.buffer.truncate(self.cursor);
        assert(self.buffer@ =~= old(self).buffer@.take(self.cursor as int));
        true
    }

    /// Empties the line.
    pub fn clear(&mut self) -> (r: bool)
        requires
            old(self).wf(),
        ensures
            final(self)@ == line_clear(old(self)@),
            final(self).wf(),
            r == (old(self)@.text.len() > 0),
    {
        if self.buffer.len() == 0 {
            return false;
        }
        self.buffer.clear();
        self.cursor = 0;
        true
    }

    fn find_word_start(&self) -> (r: usize)
        requires
            self.wf(),
        ensures
            r == word_start(self@.text, self@.cursor),
            r <= self.cursor,
    {
        let mut i: usize = self.cursor;
        while i > 0 && char_is_space(self.buffer[i - 1])
            invariant
                i <= self.cursor <= self.buffer@.len(),
                back_over_space(self.buffer@, self.cursor as int) == back_over_space(
                    self.buffer@,
                    i as int,
                ),
            decreases i,
        {
            i = i - 1;
        }
        let ghost mid = i as int;
        while i > 0 && !char_is_space(self.buffer[i - 1])
            invariant
                i <= mid <= self.cursor <= self.buffer@.len(),
                back_over_word(self.buffer@, mid) == back_over_word(self.buffer@, i as int),
            decreases i,
        {
            i = i - 1;
        }
        i
    }

    /// Removes the word before the cursor, and the white space behind it.
    pub fn delete_word_before_cursor(&mut self) -> (r: bool)
        requires
            old(self).wf(),
        ensures
            final(self)@ == line_delete_word(old(self)@),
            final(self).wf(),
            r == (old(self)@.cursor > 0),
    {
        let ghost before = self.buffer@;
        let end: usize = self.cursor;
        if end == 0 {
            assert(before.take(0) + before.skip(0) =~= before);
            return false;
        }
        let start: usize = self.find_word_start();
        let mut k: usize = end;
        assert(self.buffer@ =~= before.take(k as int) + before.skip(end as int));
        while k > start
            invariant
                start <= k <= end <= before.len(),
                self.buffer@ == before.take(k as int) + before.skip(end as int),
                self.cursor == end,
            decreases k,
        {
            self.buffer.remove(k - 1);
            assert(self.buffer@ =~= before.take(k - 1) + before.skip(end as int));
            k = k - 1;
        }
        self.cursor = start;
        true
    }

    pub fn move_left(&mut self) -> (r: bool)
        requires
            old(self).wf(),
        ensures
            r == (old(self)@.cursor > 0),
            final(self)@ == line_at(
                old(self)@,
                if r {
                    old(self)@.cursor - 1
                } else {
                    0
                },
            ),
            final(self).wf(),
    {
        if self.cursor == 0 {
            return false;
        }
        self.cursor = self.cursor - 1;
        true
    }

    pub fn move_right(&mut self) -> (r: bool)
        requires
            old(self).wf(),
        ensures
            r == (old(self)@.cursor < old(self)@.text.len()),
            final(self)@ == line_at(
                old(self)@,
                if r {
                    old(self)@.cursor + 1
                } else {
                    old(self)@.cursor
                },
            ),
            final(self).wf(),
    {
        if self.cursor >= self.buffer.len() {
            return false;
        }
        self.cursor = self.cursor + 1;
        true
    }

    pub fn move_word_left(&mut self) -> (r: bool)
        requires
            old(self).wf(),
        ensures
            final(self)@ == line_at(old(self)@, word_start(old(self)@.text, old(self)@.cursor)),
            final(self).wf(),
            r == (old(self)@.cursor > 0),
    {
        if self.cursor == 0 {
            return false;
        }
        self.cursor = self.find_word_start();
        true
    }

    pub fn move_word_right(&mut self) -> (r: bool)
        requires
            old(self).wf(),
        ensures
            final(self)@ == line_at(old(self)@, next_word(old(self)@.text, old(self)@.cursor)),
            final(self).wf(),
            r == (old(self)@.cursor < old(self)@.text.len()),
    {
        let ghost at = self.cursor as int;
        let mut i: usize = self.cursor;
        if i >= self.buffer.len() {
            return false;
        }
        while i < self.buffer.len() && !char_is_space(self.buffer[i])
            invariant
                at <= i <= self.buffer@.len(),
                over_word(self.buffer@, at) == over_word(self.buffer@, i as int),
                self.cursor == at,
            decreases self.buffer@.len() - i,
        {
            i = i + 1;
        }
        let ghost mid = i as int;
        while i < self.buffer.len() && char_is_space(self.buffer[i])
            invariant
                at <= mid <= i <= self.buffer@.len(),
                over_space(self.buffer@, mid) == over_space(self.buffer@, i as int),
                self.cursor == at,
            decreases self.buffer@.len() - i,
        {
            i = i + 1;
        }
        self.cursor = i;
        true
    }

    pub fn move_home(&mut self) -> (r: bool)
        requires
            old(self).wf(),
        ensures
            final(self)@ == line_at(old(self)@, 0),
            final(self).wf(),
            r == (old(self)@.cursor > 0),
    {
        if self.cursor == 0 {
            return false;
        }
        self.cursor = 0;
        true
    }

    pub fn move_end(&mut self) -> (r: bool)
        requires
            old(self).wf(),
        ensures
            final(self)@ == line_at(old(self)@, old(self)@.text.len() as int),
            final(self).wf(),
            r == (old(self)@.cursor < old(self)@.text.len()),
    {
        if self.cursor == self.buffer.len() {
            return false;
        }
        self.cursor = self.buffer.len();
        true
    }
}

/// Removing what was just inserted gives back the line.
pub proof fn backspace_undoes_insert(l: LineView, c: char)
    requires
        0 <= l.cursor <= l.text.len(),
    ensures
        line_backspace(line_insert(l, c)) == l,
{
    assert(line_backspace(line_insert(l, c)).text =~= l.text);
}

/// Deleting at the cursor what was inserted, after stepping back over it, gives
/// back the line.
pub proof fn delete_undoes_insert(l: LineView, c: char)
    requires
        0 <= l.cursor <= l.text.len(),
    ensures
        line_delete(line_at(line_insert(l, c), l.cursor)) == l,
{
    assert(line_delete(line_at(line_insert(l, c), l.cursor)).text =~= l.text);
}

/// Deleting the word before the cursor removes exactly the characters that
/// moving a word to the left passes over.
pub proof fn delete_word_removes_what_the_move_passes(l: LineView)
    requires
        0 <= l.cursor <= l.text.len(),
    ensures
        ({
            let passed = line_at(l, word_start(l.text, l.cursor));
            let left = line_delete_word(l);
            &&& 0 <= passed.cursor <= l.cursor
            &&& left.cursor == passed.cursor
            &&& left.text == l.text.take(passed.cursor) + l.text.skip(l.cursor)
            &&& l.text == l.text.take(passed.cursor) + l.text.subrange(passed.cursor, l.cursor)
                + l.text.skip(l.cursor)
        }),
{
    lemma_word_start_bounds(l.text, l.cursor);
    lemma_word_start_bounds(l.text, back_over_space(l.text, l.cursor));
    assert(l.text =~= l.text.take(word_start(l.text, l.cursor)) + l.text.subrange(
        word_start(l.text, l.cursor),
        l.cursor,
    ) + l.text.skip(l.cursor));
}

// ---------------------------------------------------------------------------
// Commands and history
// ---------------------------------------------------------------------------

/// What a key asks of the line.
#[derive(Clone, Copy, Debug, PartialEq, Eq, Structural)]
pub enum LineEditCommand {
    Nothing,
    MoveLeft,
    MoveRight,
    MoveWordLeft,
    MoveWordRight,
    MoveHome,
    MoveEnd,
    Delete,
    HistoryPrevious,
    HistoryNext,
}

/// The number of lines that the history keeps.
pub const HISTORY_LIMIT: usize = 200;

/// The lines that were entered, oldest first.
#[derive(Debug)]
pub struct TerminalLineReader {
    pub history: Vec<String>,
}

impl Default for TerminalLineReader {
    fn default() -> (r: Self)
        ensures
            r@.len() == 0,
    {
        TerminalLineReader { history: Vec::new() }
    }
}

/// The history with one more line; blank lines and repetitions of the last one
/// are left out, and the oldest goes when there are too many.
pub open spec fn history_with(history: Seq<Seq<char>>, input: Seq<char>) -> Seq<Seq<char>> {
    if is_blank(input) || (history.len() > 0 && history.last() == input) {
        history
    } else if history.len() >= HISTORY_LIMIT {
        history.push(input).drop_first()
    } else {
        history.push(input)
    }
}

/// The line, the draft that was left for the history, and the place in the
/// history.
pub ghost struct EditState {
    pub line: LineView,
    pub draft: Seq<char>,
    pub index: Option<int>,
}

/// The place in the history is one of its lines.
pub open spec fn is_place(index: Option<int>, history: Seq<Seq<char>>) -> bool {
    index matches Some(i) ==> 0 <= i < history.len()
}

pub open spec fn state_previous(history: Seq<Seq<char>>, s: EditState) -> EditState {
    if history.len() == 0 || s.index == Some(0int) {
        s
    } else {
        match s.index {
            Some(i) => EditState {
                line: line_holding(history[i - 1]),
                draft: s.draft,
                index: Some(i - 1),
            },
            None => EditState {
                line: line_holding(history.last()),
                draft: s.line.text,
                index: Some(history.len() - 1),
            },
        }
    }
}

pub open spec fn state_next(history: Seq<Seq<char>>, s: EditState) -> EditState {
    match s.index {
        None => s,
        Some(i) => if i + 1 < history.len() {
            EditState { line: line_holding(history[i + 1]), draft: s.draft, index: Some(i + 1) }
        } else {
            EditState { line: line_holding(s.draft), draft: s.draft, index: None }
        },
    }
}

/// What a command makes of the line, and whether the line has to be drawn again.
pub open spec fn after_command(
    history: Seq<Seq<char>>,
    command: LineEditCommand,
    s: EditState,
) -> (EditState, bool) {
    let l = s.line;
    let inside = l.cursor < l.text.len();
    match command {
        LineEditCommand::Nothing => (s, false),
        LineEditCommand::MoveLeft => (
            EditState {
                line: line_at(
                    l,
                    if l.cursor > 0 {
                        l.cursor - 1
                    } else {
                        0
                    },
                ),
                ..s
            },
            l.cursor > 0,
        ),
        LineEditCommand::MoveRight => (
            EditState {
                line: line_at(
                    l,
                    if inside {
                        l.cursor + 1
                    } else {
                        l.cursor
                    },
                ),
                ..s
            },
            inside,
        ),
        LineEditCommand::MoveWordLeft => (
            EditState { line: line_at(l, word_start(l.text, l.cursor)), ..s },
            l.cursor > 0,
        ),
        LineEditCommand::MoveWordRight => (
            EditState { line: line_at(l, next_word(l.text, l.cursor)), ..s },
            inside,
        ),
        LineEditCommand::MoveHome => (EditState { line: line_at(l, 0), ..s }, l.cursor > 0),
        LineEditCommand::MoveEnd => (
            EditState { line: line_at(l, l.text.len() as int), ..s },
            inside,
        ),
        LineEditCommand::Delete => (EditState { line: line_delete(l), ..s }, inside),
        LineEditCommand::HistoryPrevious => (
            state_previous(history, s),
            history.len() > 0 && s.index != Some(0int),
        ),
        LineEditCommand::HistoryNext => (state_next(history, s), s.index is Some),
    }
}

pub open spec fn opt_int(n: Option<usize>) -> Option<int> {
    match n {
        Some(n) => Some(n as int),
        None => None,
    }
}

impl TerminalLineReader {
    pub open spec fn view(&self) -> Seq<Seq<char>> {
        views(self.history@)
    }

    /// Remembers a line that was entered.
    pub fn push_history(&mut self, input: &str)
        ensures
            final(self)@ == history_with(old(self)@, input@),
    {
        let n: usize = self.history.len();
        if str_is_blank(input) {
            return ;
        }
        if n > 0 {
            assert(self@.last() == self.history@.last()@);
            if str_eq(self.history[n - 1].as_str(), input) {
                return ;
            }
        }
        self.history.push(input.to_owned());
        assert(self@ =~= old(self)@.push(input@));
        if self.history.len() > HISTORY_LIMIT {
            self.history.remove(0);
            assert(self@ =~= old(self)@.push(input@).drop_first());
        }
    }

    /// Carries out a command; says whether the line has to be drawn again.
    pub fn apply_command(
        &self,
        command: LineEditCommand,
        line: &mut EditableLine,
        draft: &mut String,
        history_index: &mut Option<usize>,
    ) -> (r: bool)
        requires
            old(line).wf(),
            is_place(opt_int(*old(history_index)), self@),
        ensures
            final(line).wf(),
            is_place(opt_int(*final(history_index)), self@),
            (EditState {
                line: final(line)@,
                draft: final(draft)@,
                index: opt_int(*final(history_index)),
            }, r) == after_command(
                self@,
                command,
                (EditState {
                    line: old(line)@,
                    draft: old(draft)@,
                    index: opt_int(*old(history_index)),
                }),
            ),
    {
        match command {
            LineEditCommand::Nothing => false,
            LineEditCommand::MoveLeft => line.move_left(),
            LineEditCommand::MoveRight => line.move_right(),
            LineEditCommand::MoveWordLeft => line.move_word_left(),
            LineEditCommand::MoveWordRight => line.move_word_right(),
            LineEditCommand::MoveHome => line.move_home(),
            LineEditCommand::MoveEnd => line.move_end(),
            LineEditCommand::Delete => line.delete(),
            LineEditCommand::HistoryPrevious => self.history_previous(line, draft, history_index),
            LineEditCommand::HistoryNext => self.history_next(line, draft.as_str(), history_index),
        }
    }

    /// Shows the line before this one; the first step back keeps the draft.
    pub fn history_previous(
        &self,
        line: &mut EditableLine,
        draft: &mut String,
        history_index: &mut Option<usize>,
    ) -> (r: bool)
        requires
            old(line).wf(),
            is_place(opt_int(*old(history_index)), self@),
        ensures
            final(line).wf(),
            is_place(opt_int(*final(history_index)), self@),
            (EditState {
                line: final(line)@,
                draft: final(draft)@,
                index: opt_int(*final(history_index)),
            }) == state_previous(
                self@,
                (EditState {
                    line: old(line)@,
                    draft: old(draft)@,
                    index: opt_int(*old(history_index)),
                }),
            ),
            r == (self@.len() > 0 && opt_int(*old(history_index)) != Some(0int)),
    {
        assert(self@.len() == self.history@.len());
        if self.history.len() == 0 {
            return false;
        }
        let next_index: usize = match *history_index {
            Some(index) => {
                if index == 0 {
                    return false;
                }
                index - 1
            },
            None => {
                *draft = line.as_string();
                self.history.len() - 1
            },
        };
        *history_index = Some(next_index);
        assert(self@[next_index as int] == self.history@[next_index as int]@);
        line.replace(self.history[next_index].as_str());
        true
    }

    /// Shows the line after this one; behind the last one, the draft.
    pub fn history_next(
        &self,
        line: &mut EditableLine,
        draft: &str,
        history_index: &mut Option<usize>,
    ) -> (r: bool)
        requires
            old(line).wf(),
            is_place(opt_int(*old(history_index)), self@),
        ensures
            final(line).wf(),
            is_place(opt_int(*final(history_index)), self@),
            (EditState {
                line: final(line)@,
                draft: draft@,
                index: opt_int(*final(history_index)),
            }) == state_next(
                self@,
                (EditState {
                    line: old(line)@,
                    draft: draft@,
                    index: opt_int(*old(history_index)),
                }),
            ),
            r == (*old(history_index) is Some),
    {
        assert(self@.len() == self.history@.len());
        let index: usize = match *history_index {
            Some(index) => index,
            None => {
                return false;
            },
        };
        let n: usize = self.history.len();
        assert(index < n);
        if index + 1 < n {
            let next_index: usize = index + 1;
            *history_index = Some(next_index);
            assert(self@[next_index as int] == self.history@[next_index as int]@);
            line.replace(self.history[next_index].as_str());
        } else {
            *history_index = None;
            line.replace(draft);
        }
        true
    }
}

/// Going back from the line being typed and forward again gives back its text.
pub proof fn history_round_trip_restores_the_draft(history: Seq<Seq<char>>, s: EditState)
    requires
        history.len() > 0,
        s.index is None,
    ensures
        state_next(history, state_previous(history, s)).line == line_holding(s.line.text),
        state_next(history, state_previous(history, s)).index is None,
{
}

/// Going back from a line of the history and forward again shows that line.
pub proof fn history_step_back_and_forth(history: Seq<Seq<char>>, s: EditState)
    requires
        is_place(s.index, history),
        s.index matches Some(i) && i > 0,
    ensures
        state_next(history, state_previous(history, s)).index == s.index,
        state_next(history, state_previous(history, s)).line == line_holding(history[s.index->0]),
{
}

/// The history never grows beyond its limit, holds no blank line and never the
/// same line twice in a row, if it did not before.
pub proof fn history_stays_bounded(history: Seq<Seq<char>>, input: Seq<char>)
    requires
        history.len() <= HISTORY_LIMIT,
        forall|i: int| 0 <= i < history.len() ==> !is_blank(#[trigger] history[i]),
        forall|i: int, j: int|
            0 <= i && j == i + 1 && j < history.len() ==> #[trigger] history[i]
                != #[trigger] history[j],
    ensures
        history_with(history, input).len() <= HISTORY_LIMIT,
        forall|i: int|
            0 <= i < history_with(history, input).len() ==> !is_blank(
                #[trigger] history_with(history, input)[i],
            ),
        forall|i: int, j: int|
            0 <= i && j == i + 1 && j < history_with(history, input).len()
                ==> #[trigger] history_with(history, input)[i] != #[trigger] history_with(
                history,
                input,
            )[j],
{
    let after = history_with(history, input);
    if after != history {
        let pushed = history.push(input);
        let shift: int = if history.len() >= HISTORY_LIMIT {
            1
        } else {
            0
        };
        assert forall|i: int| 0 <= i < after.len() implies !is_blank(#[trigger] after[i]) by {
            assert(after[i] == pushed[i + shift]);
            if i + shift < history.len() {
                assert(pushed[i + shift] == history[i + shift]);
            }
        }
        assert forall|i: int, j: int|
            0 <= i && j == i + 1 && j < after.len() implies #[trigger] after[i]
            != #[trigger] after[j] by {
            assert(after[i] == pushed[i + shift]);
            assert(after[j] == pushed[j + shift]);
            if j + shift < history.len() {
                assert(history[i + shift] != history[j + shift]);
            } else {
                assert(history[i + shift] == history.last());
            }
        }
    }
}

// ---------------------------------------------------------------------------
// Drawing
// ---------------------------------------------------------------------------

/// The escape sequence that draws the prompt and the line again and puts the
/// cursor in its place.
pub open spec fn redraw_text(prompt: Seq<char>, l: LineView) -> Seq<char> {
    let drawn = "\r\x1b[2K"@ + prompt + l.text;
    let after = l.text.len() - l.cursor;
    if after > 0 {
        drawn + "\x1b["@ + decimal(after as nat) + "D"@
    } else {
        drawn
    }
}

/// What to print to show the line behind its prompt.
pub fn redraw_editable_line(prompt: &str, line: &EditableLine) -> (r: String)
    requires
        line.wf(),
    ensures
        r@ == redraw_text(prompt@, line@),
{
    let text = line.as_string();
    let after: usize = line.buffer.len() - line.cursor;
    let mut out = join3("\r\x1b[2K", prompt, text.as_str());
    if after > 0 {
        out.push_str("\x1b[");
        out.push_str(usize_text(after).as_str());
        out.push_str("D");
    }
    out
}

// ---------------------------------------------------------------------------
// What moving and remembering is for
// ---------------------------------------------------------------------------

/// A move to the left stops at the beginning of a word, and passes that word and the
/// blanks behind it alone.
pub proof fn moves_stop_at_words(s: Seq<char>, i: int)
    requires
        0 <= i <= s.len(),
    ensures
        ({
            let at = word_start(s, i);
            let gap = back_over_space(s, i);
            &&& 0 <= at <= gap <= i
            &&& forall|j: int| gap <= j < i ==> is_space(#[trigger] s[j])
            &&& forall|j: int| at <= j < gap ==> !is_space(#[trigger] s[j])
            &&& at > 0 ==> is_space(s[at - 1])
            &&& gap > 0 ==> at < gap
        }),
        ({
            let at = next_word(s, i);
            let gap = over_word(s, i);
            &&& i <= gap <= at <= s.len()
            &&& forall|j: int| i <= j < gap ==> !is_space(#[trigger] s[j])
            &&& forall|j: int| gap <= j < at ==> is_space(#[trigger] s[j])
            &&& at < s.len() ==> !is_space(s[at])
        }),
{
    lemma_word_start_bounds(s, i);
    let gap = back_over_space(s, i);
    lemma_back(s, i);
    lemma_word_start_bounds(s, gap);
    lemma_back(s, gap);
    lemma_next_word_bounds(s, i);
    lemma_over(s, i);
    let next = over_word(s, i);
    lemma_next_word_bounds(s, next);
    lemma_over(s, next);
}

proof fn lemma_back(s: Seq<char>, i: int)
    requires
        0 <= i <= s.len(),
    ensures
        forall|j: int| back_over_space(s, i) <= j < i ==> is_space(#[trigger] s[j]),
        back_over_space(s, i) > 0 ==> !is_space(s[back_over_space(s, i) - 1]),
        forall|j: int| back_over_word(s, i) <= j < i ==> !is_space(#[trigger] s[j]),
        back_over_word(s, i) > 0 ==> is_space(s[back_over_word(s, i) - 1]),
    decreases i,
{
    if i > 0 {
        lemma_back(s, i - 1);
    }
}

proof fn lemma_over(s: Seq<char>, i: int)
    requires
        0 <= i <= s.len(),
    ensures
        forall|j: int| i <= j < over_word(s, i) ==> !is_space(#[trigger] s[j]),
        over_word(s, i) < s.len() ==> is_space(s[over_word(s, i)]),
        forall|j: int| i <= j < over_space(s, i) ==> is_space(#[trigger] s[j]),
        over_space(s, i) < s.len() ==> !is_space(s[over_space(s, i)]),
    decreases s.len() - i,
{
    if i < s.len() {
        lemma_over(s, i + 1);
    }
}

/// What was entered is the last line of the history, unless it is blank; the oldest line
/// goes where there is no room.
pub proof fn entered_lines_are_remembered(history: Seq<Seq<char>>, input: Seq<char>)
    ensures
        !is_blank(input) ==> history_with(history, input).len() > 0 && history_with(
            history,
            input,
        ).last() == input,
        is_blank(input) ==> history_with(history, input) == history,
        !is_blank(input) && history.len() < HISTORY_LIMIT && (history.len() == 0 || history.last()
            != input) ==> history_with(history, input) == history.push(input),
        history.len() == HISTORY_LIMIT && !is_blank(input) && history.last() != input
            ==> history_with(history, input) == history.drop_first().push(input),
        history.len() > 0 && history.last() == input ==> history_with(history, input) == history,
{
    if history.len() == HISTORY_LIMIT {
        assert(history.push(input).drop_first() =~= history.drop_first().push(input));
    }
}

/// The arrows move by one character and stop at the ends of the line; the others go to
/// the ends, by words, or through the history.
pub proof fn commands_move_as_they_say(history: Seq<Seq<char>>, s: EditState)
    requires
        0 <= s.line.cursor <= s.line.text.len(),
    ensures
        s.line.cursor > 0 ==> after_command(history, LineEditCommand::MoveLeft, s).0.line.cursor
            == s.line.cursor - 1,
        s.line.cursor < s.line.text.len() ==> after_command(
            history,
            LineEditCommand::MoveRight,
            s,
        ).0.line.cursor == s.line.cursor + 1,
        s.line.cursor == 0 ==> after_command(history, LineEditCommand::MoveLeft, s).0 == s,
        s.line.cursor == s.line.text.len() ==> after_command(
            history,
            LineEditCommand::MoveRight,
            s,
        ).0 == s,
        after_command(history, LineEditCommand::MoveHome, s).0.line.cursor == 0,
        after_command(history, LineEditCommand::MoveEnd, s).0.line.cursor == s.line.text.len(),
        after_command(history, LineEditCommand::MoveWordLeft, s).0.line.cursor == word_start(
            s.line.text,
            s.line.cursor,
        ),
        after_command(history, LineEditCommand::MoveWordRight, s).0.line.cursor == next_word(
            s.line.text,
            s.line.cursor,
        ),
        s.line.cursor < s.line.text.len() ==> after_command(
            history,
            LineEditCommand::Delete,
            s,
        ).0.line.text == s.line.text.remove(s.line.cursor),
        history.len() > 0 && s.index is None ==> {
            let back = after_command(history, LineEditCommand::HistoryPrevious, s).0;
            back.line.text == history.last() && back.line.cursor == history.last().len()
        },
        after_command(history, LineEditCommand::Nothing, s) == (s, false),
        forall|command: LineEditCommand|
            !(#[trigger] after_command(history, command, s)).1 ==> after_command(
                history,
                command,
                s,
            ).0 == s || command is MoveWordLeft || command is MoveWordRight || command
                is HistoryPrevious,
{
}

/// What is drawn leaves the cursor where it stands in the line.
pub proof fn cursors_are_drawn_where_they_stand(prompt: Seq<char>, text: Seq<char>, n: nat)
    requires
        0 < n <= text.len(),
    ensures
        redraw_text(prompt, line_holding(text)) == "\r\x1b[2K"@ + prompt + text,
        redraw_text(prompt, line_at(line_holding(text), text.len() - n)) == redraw_text(
            prompt,
            line_holding(text),
        ) + "\x1b["@ + decimal(n) + "D"@,
{
}

} // verus!
