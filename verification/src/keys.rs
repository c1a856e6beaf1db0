//! From the bytes of a terminal to edits of a line: characters in UTF-8, escape
//! sequences, and the control keys of the line editor.

use vstd::prelude::*;
use vstd::utf8::{
    char_is_scalar, encode_scalar, last_continuation_byte, leading_byte_width_2,
    leading_byte_width_3, leading_byte_width_4, second_last_continuation_byte,
    third_last_continuation_byte,
};

use crate::line_edit::{
    after_command, history_with, line_at, line_backspace, line_clear, line_delete_to_end,
    line_delete_word, line_holding, line_insert, EditState, EditableLine, LineEditCommand, LineView,
    TerminalLineReader,
};

verus! {

// ---------------------------------------------------------------------------
// Characters
// ---------------------------------------------------------------------------

/// A Unicode scalar value.
pub open spec fn is_scalar_value(n: u32) -> bool {
    n < 0xd800 || 0xe000 <= n <= 0x10ffff
}

/// `char::from_u32`: a character exactly for the scalar values, and then the one
/// with this number.
#[verifier::external_body]
fn char_from_number(n: u32) -> (r: Option<char>)
    ensures
        match r {
            Some(c) => is_scalar_value(n) && c as int == n,
            None => !is_scalar_value(n),
        },
{
    char::from_u32(n)
}

/// How many bytes a character takes that starts with this byte; zero where none
/// does.
pub open spec fn utf8_width(first: u8) -> nat {
    if first < 0x80 {
        1
    } else if 0xc2 <= first <= 0xdf {
        2
    } else if 0xe0 <= first <= 0xef {
        3
    } else if 0xf0 <= first <= 0xf4 {
        4
    } else {
        0
    }
}

pub open spec fn is_continuation(b: u8) -> bool {
    0x80 <= b < 0xc0
}

/// The number that the bytes of one character encode.
pub open spec fn utf8_number(bytes: Seq<u8>) -> int {
    if bytes.len() == 1 {
        bytes[0] as int
    } else if bytes.len() == 2 {
        (bytes[0] - 0xc0) * 64 + (bytes[1] - 0x80)
    } else if bytes.len() == 3 {
        (bytes[0] - 0xe0) * 4096 + (bytes[1] - 0x80) * 64 + (bytes[2] - 0x80)
    } else {
        (bytes[0] - 0xf0) * 262144 + (bytes[1] - 0x80) * 4096 + (bytes[2] - 0x80) * 64 + (bytes[3]
            - 0x80)
    }
}

/// The least number that needs this many bytes.
pub open spec fn utf8_least(width: nat) -> int {
    if width == 1 {
        0
    } else if width == 2 {
        0x80
    } else if width == 3 {
        0x800
    } else {
        0x10000
    }
}

/// The character that the bytes encode, where they are the shortest encoding of
/// one.
pub open spec fn utf8_char(bytes: Seq<u8>) -> Option<char> {
    let n = utf8_number(bytes);
    if 1 <= bytes.len() <= 4 && utf8_width(bytes[0]) == bytes.len() && (forall|i: int|
        1 <= i < bytes.len() ==> is_continuation(#[trigger] bytes[i])) && utf8_least(bytes.len())
        <= n && is_scalar_value(n as u32) {
        Some(n as char)
    } else {
        None
    }
}

fn decode_utf8_char(bytes: &Vec<u8>) -> (r: Option<char>)
    requires
        1 <= bytes@.len() <= 4,
        utf8_width(bytes@[0]) == bytes@.len(),
    ensures
        r == utf8_char(bytes@),
{
    let n: usize = bytes.len();
    let mut i: usize = 1;
    while i < n
        invariant
            1 <= i <= n,
            n == bytes@.len(),
            forall|j: int| 1 <= j < i ==> is_continuation(#[trigger] bytes@[j]),
        decreases n - i,
    {
        if bytes[i] < 0x80 || bytes[i] >= 0xc0 {
            assert(!is_continuation(bytes@[i as int]));
            return None;
        }
        i = i + 1;
    }
    let b0: u32 = bytes[0] as u32;
    let number: u32 = if n == 1 {
        b0
    } else if n == 2 {
        assert(is_continuation(bytes@[1]));
        (b0 - 0xc0) * 64 + (bytes[1] as u32 - 0x80)
    } else if n == 3 {
        assert(is_continuation(bytes@[1]) && is_continuation(bytes@[2]));
        (b0 - 0xe0) * 4096 + (bytes[1] as u32 - 0x80) * 64 + (bytes[2] as u32 - 0x80)
    } else {
        assert(is_continuation(bytes@[1]) && is_continuation(bytes@[2]) && is_continuation(
            bytes@[3],
        ));
        (b0 - 0xf0) * 262144 + (bytes[1] as u32 - 0x80) * 4096 + (bytes[2] as u32 - 0x80) * 64 + (
        bytes[3] as u32 - 0x80)
    };
    let least: u32 = if n == 1 {
        0
    } else if n == 2 {
        0x80
    } else if n == 3 {
        0x800
    } else {
        0x10000
    };
    assert(number == utf8_number(bytes@));
    if number < least {
        return None;
    }
    let r = char_from_number(number);
    proof {
        let n = utf8_number(bytes@);
        assert(n as u32 == number);
        if r is Some {
            assert(r->0 as int == n);
            assert(n as char == r->0);
        }
    }
    r
}

/// What reading one character came to so far.
#[derive(Debug)]
pub enum CharStep {
    /// These bytes are there; the character needs more.
    More(Vec<u8>),
    /// The character, or nothing where the bytes are none.
    Done(Option<char>),
}

/// The bytes of a character that is not complete.
pub open spec fn is_partial_char(bytes: Seq<u8>) -> bool {
    1 <= bytes.len() < utf8_width(bytes[0])
}

/// Starts a character with its first byte.
pub fn read_utf8_char(first_byte: u8) -> (r: CharStep)
    ensures
        match r {
            CharStep::More(bytes) => bytes@ == seq![first_byte] && is_partial_char(bytes@),
            CharStep::Done(c) => utf8_width(first_byte) <= 1 && c == utf8_char(seq![first_byte]),
        },
{
    let mut bytes: Vec<u8> = Vec::new();
    bytes.push(first_byte);
    assert(bytes@ =~= seq![first_byte]);
    if first_byte < 0x80 {
        return CharStep::Done(decode_utf8_char(&bytes));
    }
    if 0xc2 <= first_byte && first_byte <= 0xf4 {
        return CharStep::More(bytes);
    }
    CharStep::Done(None)
}

/// Goes on with the next byte, or with none where the terminal sent none in
/// time: then there is no character.
pub fn continue_utf8_char(bytes: Vec<u8>, next: Option<u8>) -> (r: CharStep)
    requires
        is_partial_char(bytes@),
    ensures
        match next {
            None => r == CharStep::Done(None),
            Some(b) => {
                let more = bytes@.push(b);
                match r {
                    CharStep::More(now) => now@ == more && is_partial_char(now@),
                    CharStep::Done(c) => more.len() == utf8_width(bytes@[0]) && c == utf8_char(more),
                }
            },
        },
{
    let b = match next {
        Some(b) => b,
        None => {
            return CharStep::Done(None);
        },
    };
    let first: u8 = bytes[0];
    let width: usize = if first <= 0xdf {
        2
    } else if first <= 0xef {
        3
    } else {
        4
    };
    let mut now = bytes;
    now.push(b);
    if now.len() < width {
        CharStep::More(now)
    } else {
        CharStep::Done(decode_utf8_char(&now))
    }
}

proof fn lemma_two_bytes(n: u32)
    requires
        0x80 <= n < 0x800,
    ensures
        leading_byte_width_2(n) == 0xc0 + n / 64,
        last_continuation_byte(n) == 0x80 + n % 64,
{
    assert(0xC0u8 | ((n >> 6) & 0x1F) as u8 == 0xc0 + n / 64) by (bit_vector)
        requires
            n < 0x800,
    ;
    assert(0x80u8 | (n & 0x3F) as u8 == 0x80 + n % 64) by (bit_vector);
}

proof fn lemma_three_bytes(n: u32)
    requires
        0x800 <= n < 0x10000,
    ensures
        leading_byte_width_3(n) == 0xe0 + n / 4096,
        second_last_continuation_byte(n) == 0x80 + n / 64 % 64,
        last_continuation_byte(n) == 0x80 + n % 64,
{
    assert(0xE0u8 | ((n >> 12) & 0x0F) as u8 == 0xe0 + n / 4096) by (bit_vector)
        requires
            n < 0x10000,
    ;
    assert(0x80u8 | ((n >> 6) & 0x3F) as u8 == 0x80 + n / 64 % 64) by (bit_vector);
    assert(0x80u8 | (n & 0x3F) as u8 == 0x80 + n % 64) by (bit_vector);
}

proof fn lemma_four_bytes(n: u32)
    requires
        0x10000 <= n < 0x110000,
    ensures
        leading_byte_width_4(n) == 0xf0 + n / 262144,
        third_last_continuation_byte(n) == 0x80 + n / 4096 % 64,
        second_last_continuation_byte(n) == 0x80 + n / 64 % 64,
        last_continuation_byte(n) == 0x80 + n % 64,
{
    assert(0xF0u8 | ((n >> 18) & 0x7) as u8 == 0xf0 + n / 262144) by (bit_vector)
        requires
            n < 0x110000,
    ;
    assert(0x80u8 | ((n >> 12) & 0x3F) as u8 == 0x80 + n / 4096 % 64) by (bit_vector);
    assert(0x80u8 | ((n >> 6) & 0x3F) as u8 == 0x80 + n / 64 % 64) by (bit_vector);
    assert(0x80u8 | (n & 0x3F) as u8 == 0x80 + n % 64) by (bit_vector);
}

/// A character that is typed as the bytes of its UTF-8 encoding is read as
/// itself.
pub proof fn typed_characters_are_read(c: char)
    ensures
        utf8_char(encode_scalar(c as u32)) == Some(c),
{
    let n = c as u32;
    char_is_scalar(c);
    let bytes = encode_scalar(n);
    if n < 0x80 {
        assert((n & 0x7F) as u8 == n) by (bit_vector)
            requires
                n < 0x80,
        ;
    } else if n < 0x800 {
        lemma_two_bytes(n);
    } else if n < 0x10000 {
        lemma_three_bytes(n);
    } else {
        lemma_four_bytes(n);
    }
    assert(utf8_number(bytes) == n);
    assert(n as int as char == c);
}

// ---------------------------------------------------------------------------
// Escape sequences
// ---------------------------------------------------------------------------

/// How far an escape sequence has been read.
#[derive(Debug)]
pub enum EscapeState {
    /// Behind the escape character.
    Start,
    /// Behind `ESC O`.
    Single,
    /// Behind `ESC [`.
    Csi,
    /// Behind `ESC [` and these bytes.
    Numbered(Vec<u8>),
}

#[derive(Debug)]
pub enum EscapeStep {
    More(EscapeState),
    Done(LineEditCommand),
}

pub ghost enum EscapeView {
    Start,
    Single,
    Csi,
    Numbered(Seq<u8>),
}

pub ghost enum StepView {
    More(EscapeView),
    Done(LineEditCommand),
}

impl EscapeState {
    pub open spec fn view(&self) -> EscapeView {
        match self {
            EscapeState::Start => EscapeView::Start,
            EscapeState::Single => EscapeView::Single,
            EscapeState::Csi => EscapeView::Csi,
            EscapeState::Numbered(bytes) => EscapeView::Numbered(bytes@),
        }
    }
}

impl EscapeStep {
    pub open spec fn view(&self) -> StepView {
        match self {
            EscapeStep::More(state) => StepView::More(state@),
            EscapeStep::Done(command) => StepView::Done(*command),
        }
    }
}

/// Behind the escape character: `b`, `f`, `[` and `O` mean something.
pub open spec fn escape_step(byte: u8) -> StepView {
    if byte == 0x62 {
        StepView::Done(LineEditCommand::MoveWordLeft)
    } else if byte == 0x66 {
        StepView::Done(LineEditCommand::MoveWordRight)
    } else if byte == 0x5b {
        StepView::More(EscapeView::Csi)
    } else if byte == 0x4f {
        StepView::More(EscapeView::Single)
    } else {
        StepView::Done(LineEditCommand::Nothing)
    }
}

/// Behind `ESC O`: `H` and `F`.
pub open spec fn single_step(byte: u8) -> StepView {
    StepView::Done(
        if byte == 0x48 {
            LineEditCommand::MoveHome
        } else if byte == 0x46 {
            LineEditCommand::MoveEnd
        } else {
            LineEditCommand::Nothing
        },
    )
}

/// Behind `ESC [`: the arrow keys, home and end, or the start of a number.
pub open spec fn csi_step(byte: u8) -> StepView {
    if byte == 0x41 {
        StepView::Done(LineEditCommand::HistoryPrevious)
    } else if byte == 0x42 {
        StepView::Done(LineEditCommand::HistoryNext)
    } else if byte == 0x43 {
        StepView::Done(LineEditCommand::MoveRight)
    } else if byte == 0x44 {
        StepView::Done(LineEditCommand::MoveLeft)
    } else if byte == 0x48 {
        StepView::Done(LineEditCommand::MoveHome)
    } else if byte == 0x46 {
        StepView::Done(LineEditCommand::MoveEnd)
    } else if 0x31 <= byte <= 0x39 {
        StepView::More(EscapeView::Numbered(seq![byte]))
    } else {
        StepView::Done(LineEditCommand::Nothing)
    }
}

/// What `ESC [`, these bytes and `~` mean.
pub open spec fn tilde_command(bytes: Seq<u8>) -> LineEditCommand {
    if bytes == seq![0x31u8] || bytes == seq![0x37u8] {
        LineEditCommand::MoveHome
    } else if bytes == seq![0x33u8] {
        LineEditCommand::Delete
    } else if bytes == seq![0x34u8] || bytes == seq![0x38u8] {
        LineEditCommand::MoveEnd
    } else {
        LineEditCommand::Nothing
    }
}

/// Behind `ESC [` and a number: `~`, or a direction that a modifier turns into
/// a step over a word.
pub open spec fn numbered_step(bytes: Seq<u8>, byte: u8) -> StepView {
    let modified = bytes.contains(0x3bu8);
    if byte == 0x7e {
        StepView::Done(tilde_command(bytes))
    } else if byte == 0x43 {
        StepView::Done(
            if modified {
                LineEditCommand::MoveWordRight
            } else {
                LineEditCommand::MoveRight
            },
        )
    } else if byte == 0x44 {
        StepView::Done(
            if modified {
                LineEditCommand::MoveWordLeft
            } else {
                LineEditCommand::MoveLeft
            },
        )
    } else if byte == 0x48 {
        StepView::Done(LineEditCommand::MoveHome)
    } else if byte == 0x46 {
        StepView::Done(LineEditCommand::MoveEnd)
    } else if 0x30 <= byte <= 0x39 || byte == 0x3b {
        StepView::More(EscapeView::Numbered(bytes.push(byte)))
    } else {
        StepView::Done(LineEditCommand::Nothing)
    }
}

/// One step through an escape sequence; a sequence that breaks off means
/// nothing.
pub open spec fn sequence_step(state: EscapeView, next: Option<u8>) -> StepView {
    match next {
        None => StepView::Done(LineEditCommand::Nothing),
        Some(byte) => match state {
            EscapeView::Start => escape_step(byte),
            EscapeView::Single => single_step(byte),
            EscapeView::Csi => csi_step(byte),
            EscapeView::Numbered(bytes) => numbered_step(bytes, byte),
        },
    }
}

pub fn read_csi_command(first: u8) -> (r: EscapeStep)
    ensures
        r@ == csi_step(first),
{
    if first == 0x41 {
        EscapeStep::Done(LineEditCommand::HistoryPrevious)
    } else if first == 0x42 {
        EscapeStep::Done(LineEditCommand::HistoryNext)
    } else if first == 0x43 {
        EscapeStep::Done(LineEditCommand::MoveRight)
    } else if first == 0x44 {
        EscapeStep::Done(LineEditCommand::MoveLeft)
    } else if first == 0x48 {
        EscapeStep::Done(LineEditCommand::MoveHome)
    } else if first == 0x46 {
        EscapeStep::Done(LineEditCommand::MoveEnd)
    } else if 0x31 <= first && first <= 0x39 {
        let mut bytes: Vec<u8> = Vec::new();
        bytes.push(first);
        assert(bytes@ =~= seq![first]);
        EscapeStep::More(EscapeState::Numbered(bytes))
    } else {
        EscapeStep::Done(LineEditCommand::Nothing)
    }
}

fn has_byte(bytes: &Vec<u8>, byte: u8) -> (r: bool)
    ensures
        r == bytes@.contains(byte),
{
    let mut i: usize = 0;
    while i < bytes.len()
        invariant
            i <= bytes@.len(),
            forall|j: int| 0 <= j < i ==> bytes@[j] != byte,
        decreases bytes@.len() - i,
    {
        if bytes[i] == byte {
            assert(bytes@[i as int] == byte);
            return true;
        }
        i = i + 1;
    }
    false
}

fn numbered_tilde(bytes: &Vec<u8>) -> (r: LineEditCommand)
    ensures
        r == tilde_command(bytes@),
{
    if bytes.len() != 1 {
        return LineEditCommand::Nothing;
    }
    let b: u8 = bytes[0];
    assert(bytes@ =~= seq![b]);
    assert(seq![b][0] == b && seq![0x31u8][0] == 0x31 && seq![0x33u8][0] == 0x33 && seq![0x34u8][0]
        == 0x34 && seq![0x37u8][0] == 0x37 && seq![0x38u8][0] == 0x38);
    if b == 0x31 || b == 0x37 {
        LineEditCommand::MoveHome
    } else if b == 0x33 {
        LineEditCommand::Delete
    } else if b == 0x34 || b == 0x38 {
        LineEditCommand::MoveEnd
    } else {
        LineEditCommand::Nothing
    }
}

pub fn read_numbered_csi_command(bytes: Vec<u8>, byte: u8) -> (r: EscapeStep)
    ensures
        r@ == numbered_step(bytes@, byte),
{
    if byte == 0x7e {
        EscapeStep::Done(numbered_tilde(&bytes))
    } else if byte == 0x43 {
        if has_byte(&bytes, 0x3b) {
            EscapeStep::Done(LineEditCommand::MoveWordRight)
        } else {
            EscapeStep::Done(LineEditCommand::MoveRight)
        }
    } else if byte == 0x44 {
        if has_byte(&bytes, 0x3b) {
            EscapeStep::Done(LineEditCommand::MoveWordLeft)
        } else {
            EscapeStep::Done(LineEditCommand::MoveLeft)
        }
    } else if byte == 0x48 {
        EscapeStep::Done(LineEditCommand::MoveHome)
    } else if byte == 0x46 {
        EscapeStep::Done(LineEditCommand::MoveEnd)
    } else if (0x30 <= byte && byte <= 0x39) || byte == 0x3b {
        let mut more = bytes;
        more.push(byte);
        EscapeStep::More(EscapeState::Numbered(more))
    } else {
        EscapeStep::Done(LineEditCommand::Nothing)
    }
}

/// Goes one byte further through an escape sequence; `next` is missing where
/// the terminal sent nothing in time.
pub fn read_escape_command(state: EscapeState, next: Option<u8>) -> (r: EscapeStep)
    ensures
        r@ == sequence_step(state@, next),
{
    let byte: u8 = match next {
        Some(byte) => byte,
        None => {
            return EscapeStep::Done(LineEditCommand::Nothing);
        },
    };
    match state {
        EscapeState::Start => if byte == 0x62 {
            EscapeStep::Done(LineEditCommand::MoveWordLeft)
        } else if byte == 0x66 {
            EscapeStep::Done(LineEditCommand::MoveWordRight)
        } else if byte == 0x5b {
            EscapeStep::More(EscapeState::Csi)
        } else if byte == 0x4f {
            EscapeStep::More(EscapeState::Single)
        } else {
            EscapeStep::Done(LineEditCommand::Nothing)
        },
        EscapeState::Single => if byte == 0x48 {
            EscapeStep::Done(LineEditCommand::MoveHome)
        } else if byte == 0x46 {
            EscapeStep::Done(LineEditCommand::MoveEnd)
        } else {
            EscapeStep::Done(LineEditCommand::Nothing)
        },
        EscapeState::Csi => read_csi_command(byte),
        EscapeState::Numbered(bytes) => read_numbered_csi_command(bytes, byte),
    }
}

/// Whatever an escape sequence means, it never changes the text of the line but
/// by deleting at the cursor or by showing a line of the history.
pub proof fn escape_commands_keep_the_text(
    history: Seq<Seq<char>>,
    command: LineEditCommand,
    s: EditState,
)
    requires
        !(command is Delete),
        !(command is HistoryPrevious),
        !(command is HistoryNext),
    ensures
        after_command(history, command, s).0.line.text == s.line.text,
        after_command(history, command, s).0.draft == s.draft,
        after_command(history, command, s).0.index == s.index,
{
}

// ---------------------------------------------------------------------------
// The keys of the line editor
// ---------------------------------------------------------------------------

/// What one byte does to the line.
#[derive(Debug)]
pub enum LineStep {
    /// The line was edited; draw it again where this says so.
    Edited(bool),
    /// The line was entered.
    Entered(String),
    /// The end of the input.
    Closed,
    /// The input was broken off.
    Interrupted,
    /// The start of an escape sequence.
    Escape,
    /// The first byte of a character.
    Character,
}

pub ghost enum LineStepView {
    Edited(LineView, bool),
    Entered(Seq<char>),
    Closed,
    Interrupted,
    Escape,
    Character,
}

/// What a byte means to the line editor.
pub open spec fn line_step(l: LineView, byte: u8) -> LineStepView {
    if byte == 0x0d || byte == 0x0a {
        LineStepView::Entered(l.text)
    } else if byte == 0x04 && l.text.len() == 0 {
        LineStepView::Closed
    } else if byte == 0x03 {
        LineStepView::Interrupted
    } else if byte == 0x01 {
        LineStepView::Edited(line_at(l, 0), l.cursor > 0)
    } else if byte == 0x05 {
        LineStepView::Edited(line_at(l, l.text.len() as int), l.cursor < l.text.len())
    } else if byte == 0x0b {
        LineStepView::Edited(line_delete_to_end(l), l.cursor < l.text.len())
    } else if byte == 0x15 {
        LineStepView::Edited(line_clear(l), l.text.len() > 0)
    } else if byte == 0x17 {
        LineStepView::Edited(line_delete_word(l), l.cursor > 0)
    } else if byte == 0x7f || byte == 0x08 {
        LineStepView::Edited(line_backspace(l), l.cursor > 0)
    } else if byte == 0x1b {
        LineStepView::Escape
    } else if byte >= 0x20 {
        LineStepView::Character
    } else {
        LineStepView::Edited(l, false)
    }
}

/// The line after these characters were typed into an empty one.
pub open spec fn typed(text: Seq<char>) -> LineView
    decreases text.len(),
{
    if text.len() == 0 {
        line_holding(Seq::empty())
    } else {
        line_insert(typed(text.drop_last()), text.last())
    }
}

/// What is typed and entered is what is read.
pub proof fn typed_lines_are_entered(text: Seq<char>)
    ensures
        typed(text) == line_holding(text),
        line_step(typed(text), 0x0d) == LineStepView::Entered(text),
        line_step(typed(text), 0x0a) == LineStepView::Entered(text),
    decreases text.len(),
{
    if text.len() == 0 {
        assert(text =~= Seq::empty());
    } else {
        typed_lines_are_entered(text.drop_last());
        assert(line_insert(line_holding(text.drop_last()), text.last()).text =~= text);
    }
}

impl TerminalLineReader {
    /// Takes one byte that does not stand inside an escape sequence or a
    /// character. A line that is entered goes into the history.
    pub fn read_line(&mut self, line: &mut EditableLine, byte: u8) -> (r: LineStep)
        requires
            old(line).wf(),
        ensures
            final(line).wf(),
            match line_step(old(line)@, byte) {
                LineStepView::Edited(after, redraw) => r == LineStep::Edited(redraw) && final(line)@
                    == after && final(self)@ == old(self)@,
                LineStepView::Entered(text) => r matches LineStep::Entered(input) && input@ == text
                    && final(self)@ == history_with(old(self)@, text) && final(line)@ == old(line)@,
                LineStepView::Closed => r is Closed && final(self)@ == old(self)@ && final(line)@
                    == old(line)@,
                LineStepView::Interrupted => r is Interrupted && final(self)@ == old(self)@
                    && final(line)@ == old(line)@,
                LineStepView::Escape => r is Escape && final(self)@ == old(self)@ && final(line)@
                    == old(line)@,
                LineStepView::Character => r is Character && final(self)@ == old(self)@
                    && final(line)@ == old(line)@,
            },
    {
        if byte == 0x0d || byte == 0x0a {
            let input = line.as_string();
            self.push_history(input.as_str());
            return LineStep::Entered(input);
        }
        if byte == 0x04 && line.is_empty() {
            return LineStep::Closed;
        }
        if byte == 0x03 {
            return LineStep::Interrupted;
        }
        if byte == 0x01 {
            return LineStep::Edited(line.move_home());
        }
        if byte == 0x05 {
            return LineStep::Edited(line.move_end());
        }
        if byte == 0x0b {
            return LineStep::Edited(line.delete_to_end());
        }
        if byte == 0x15 {
            return LineStep::Edited(line.clear());
        }
        if byte == 0x17 {
            return LineStep::Edited(line.delete_word_before_cursor());
        }
        if byte == 0x7f || byte == 0x08 {
            return LineStep::Edited(line.backspace());
        }
        if byte == 0x1b {
            return LineStep::Escape;
        }
        if byte >= 0x20 {
            return LineStep::Character;
        }
        LineStep::Edited(false)
    }
}

// ---------------------------------------------------------------------------
// What keys do
// ---------------------------------------------------------------------------

/// The keys of a terminal do what is printed on them: the arrows, home and end, delete,
/// and with a modifier the arrows move by words.
pub proof fn keys_do_what_they_are_for(bytes: Seq<u8>, modifier: u8)
    ensures
        sequence_step(EscapeView::Start, Some(0x5bu8)) == StepView::More(EscapeView::Csi),
        sequence_step(EscapeView::Start, Some(0x4fu8)) == StepView::More(EscapeView::Single),
        sequence_step(EscapeView::Csi, Some(0x41u8)) == StepView::Done(
            LineEditCommand::HistoryPrevious,
        ),
        sequence_step(EscapeView::Csi, Some(0x42u8)) == StepView::Done(
            LineEditCommand::HistoryNext,
        ),
        sequence_step(EscapeView::Csi, Some(0x43u8)) == StepView::Done(LineEditCommand::MoveRight),
        sequence_step(EscapeView::Csi, Some(0x44u8)) == StepView::Done(LineEditCommand::MoveLeft),
        sequence_step(EscapeView::Csi, Some(0x48u8)) == StepView::Done(LineEditCommand::MoveHome),
        sequence_step(EscapeView::Csi, Some(0x46u8)) == StepView::Done(LineEditCommand::MoveEnd),
        sequence_step(EscapeView::Single, Some(0x48u8)) == StepView::Done(
            LineEditCommand::MoveHome,
        ),
        sequence_step(EscapeView::Single, Some(0x46u8)) == StepView::Done(LineEditCommand::MoveEnd),
        sequence_step(EscapeView::Start, Some(0x62u8)) == StepView::Done(
            LineEditCommand::MoveWordLeft,
        ),
        sequence_step(EscapeView::Start, Some(0x66u8)) == StepView::Done(
            LineEditCommand::MoveWordRight,
        ),
        sequence_step(EscapeView::Numbered(seq![0x33u8]), Some(0x7eu8)) == StepView::Done(
            LineEditCommand::Delete,
        ),
        sequence_step(EscapeView::Numbered(seq![0x31u8]), Some(0x7eu8)) == StepView::Done(
            LineEditCommand::MoveHome,
        ),
        sequence_step(EscapeView::Numbered(seq![0x37u8]), Some(0x7eu8)) == StepView::Done(
            LineEditCommand::MoveHome,
        ),
        sequence_step(EscapeView::Numbered(seq![0x34u8]), Some(0x7eu8)) == StepView::Done(
            LineEditCommand::MoveEnd,
        ),
        sequence_step(EscapeView::Numbered(seq![0x38u8]), Some(0x7eu8)) == StepView::Done(
            LineEditCommand::MoveEnd,
        ),
        bytes.contains(0x3bu8) ==> sequence_step(EscapeView::Numbered(bytes), Some(0x43u8))
            == StepView::Done(LineEditCommand::MoveWordRight) && sequence_step(
            EscapeView::Numbered(bytes),
            Some(0x44u8),
        ) == StepView::Done(LineEditCommand::MoveWordLeft),
        !bytes.contains(0x3bu8) ==> sequence_step(EscapeView::Numbered(bytes), Some(0x43u8))
            == StepView::Done(LineEditCommand::MoveRight) && sequence_step(
            EscapeView::Numbered(bytes),
            Some(0x44u8),
        ) == StepView::Done(LineEditCommand::MoveLeft),
        sequence_step(EscapeView::Numbered(bytes), Some(0x3bu8)) == StepView::More(
            EscapeView::Numbered(bytes.push(0x3b)),
        ),
        forall|state: EscapeView| #[trigger]
            sequence_step(state, None) == StepView::Done(LineEditCommand::Nothing),
        0x31 <= modifier <= 0x39 ==> sequence_step(EscapeView::Csi, Some(modifier))
            == StepView::More(EscapeView::Numbered(seq![modifier])),
{
    assert(seq![0x33u8][0] == 0x33 && seq![0x31u8][0] == 0x31 && seq![0x37u8][0] == 0x37
        && seq![0x34u8][0] == 0x34 && seq![0x38u8][0] == 0x38);
}

/// Control keys edit the line: to its ends, from it to its end, all of it, a word and a
/// character.
pub proof fn control_keys_edit_the_line(l: LineView)
    requires
        0 <= l.cursor <= l.text.len(),
    ensures
        line_step(l, 0x01) matches LineStepView::Edited(after, _) && after.cursor == 0 && after.text
            == l.text,
        line_step(l, 0x05) matches LineStepView::Edited(after, _) && after.cursor == l.text.len()
            && after.text == l.text,
        line_step(l, 0x0b) matches LineStepView::Edited(after, _) && after.text == l.text.take(
            l.cursor,
        ) && after.cursor == l.cursor,
        line_step(l, 0x15) matches LineStepView::Edited(after, _) && after.text.len() == 0,
        line_step(l, 0x17) == line_step(l, 0x17) && (line_step(l, 0x17) matches
            LineStepView::Edited(after, _) && after == line_delete_word(l)),
        line_step(l, 0x7f) == line_step(l, 0x08),
        l.cursor > 0 ==> (line_step(l, 0x7f) matches LineStepView::Edited(after, changed)
            && after.text == l.text.remove(l.cursor - 1) && after.cursor == l.cursor - 1
            && changed),
        line_step(l, 0x03) is Interrupted,
        line_step(l, 0x04) is Closed <==> l.text.len() == 0,
        line_step(l, 0x1b) is Escape,
        line_step(l, 0x41) is Character && line_step(l, 0xc3) is Character && line_step(l, 0x20)
            is Character,
{
}

} // verus!
