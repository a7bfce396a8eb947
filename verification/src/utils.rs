//! Terminal-side decisions: the inputs the screens react to, the choice list,
//! the text prompt, centring a box, scrolling, and naming downloaded files.

use vstd::prelude::*;

use ratatui::layout::{Constraint, Layout, Rect};

use crate::text::{law_last_piece, split_last, split_on};

verus! {

broadcast use vstd::string::group_string_axioms;

// ---------------------------------------------------------------------------
// Inputs
// ---------------------------------------------------------------------------

/// A key, as far as the screens tell keys apart.
#[derive(Clone, Copy, Debug, PartialEq, Eq, Structural)]
pub enum Key {
    Esc,
    Up,
    Down,
    Left,
    Right,
    Enter,
    Backspace,
    Char(char),
    Other,
}

/// A mouse button.
#[derive(Clone, Copy, Debug, PartialEq, Eq, Structural)]
pub enum Button {
    Left,
    Right,
    Middle,
}

/// One terminal event, as far as the screens tell events apart.
#[derive(Clone, Copy, Debug, PartialEq, Eq, Structural)]
pub enum Input {
    /// A key went down (releases and repeats are `Other`).
    Press(Key),
    /// A mouse button came up.
    MouseUp(Button),
    ScrollUp,
    ScrollDown,
    /// Anything else: focus, resize, paste, other mouse motion.
    Other,
}

/// Moves the cursor one line up: `Up`, `w` or scrolling up.
pub open spec fn moves_up(input: Input) -> bool {
    input == Input::Press(Key::Up) || input == Input::Press(Key::Char('w')) || input
        == Input::ScrollUp
}

/// Moves the cursor one line down: `Down`, `s` or scrolling down.
pub open spec fn moves_down(input: Input) -> bool {
    input == Input::Press(Key::Down) || input == Input::Press(Key::Char('s')) || input
        == Input::ScrollDown
}

/// The cursor after a move up (it stops at the first line).
pub open spec fn line_up(line: usize) -> usize {
    if line == 0 {
        0
    } else {
        (line - 1) as usize
    }
}

/// The cursor kept on the list: at most the last line.
pub open spec fn clamped(line: usize, len: usize) -> usize {
    if line < len {
        line
    } else {
        (len - 1) as usize
    }
}

/// Keeps the cursor on a non-empty list of `len` lines.
pub fn clamp_line(line: usize, len: usize) -> (r: usize)
    requires
        len > 0,
    ensures
        r == clamped(line, len),
        r < len,
{
    if line < len {
        line
    } else {
        len - 1
    }
}

fn is_up(input: Input) -> (r: bool)
    ensures
        r == moves_up(input),
{
    match input {
        Input::Press(Key::Up) | Input::Press(Key::Char('w')) | Input::ScrollUp => true,
        _ => false,
    }
}

fn is_down(input: Input) -> (r: bool)
    ensures
        r == moves_down(input),
{
    match input {
        Input::Press(Key::Down) | Input::Press(Key::Char('s')) | Input::ScrollDown => true,
        _ => false,
    }
}

/// The cursor after `input`: one line up, one line down, or where it was.
pub open spec fn moved(line: usize, input: Input) -> usize {
    if moves_up(input) {
        line_up(line)
    } else if moves_down(input) {
        (line + 1) as usize
    } else {
        line
    }
}

/// Moves the cursor: up or down one line, or not at all. Moving down past
/// the end is left to the next clamp.
pub fn move_line(line: usize, len: usize, input: Input) -> (r: usize)
    requires
        line < len,
    ensures
        r == moved(line, input),
        r <= len,
{
    if is_up(input) {
        line.saturating_sub(1)
    } else if is_down(input) {
        line + 1
    } else {
        line
    }
}

/// Cursor moves undo each other inside the list: down then up returns to
/// the line below the last, and up then down to any line but the first.
pub proof fn law_moves_undo(line: usize, len: usize)
    ensures
        line + 1 < len ==> moved(
            clamped(moved(line, Input::Press(Key::Down)), len),
            Input::Press(Key::Up),
        ) == line,
        0 < line < len ==> clamped(
            moved(clamped(moved(line, Input::Press(Key::Up)), len), Input::Press(Key::Down)),
            len,
        ) == line,
{
}

/// Clamping leaves a cursor on the list where it is, and any cursor ends on
/// the list.
pub proof fn law_clamp_keeps_lines(line: usize, len: usize)
    requires
        len > 0,
    ensures
        clamped(line, len) < len,
        line < len ==> clamped(line, len) == line,
        line >= len ==> clamped(line, len) == len - 1,
        clamped(clamped(line, len), len) == clamped(line, len),
{
}

// ---------------------------------------------------------------------------
// The choice list
// ---------------------------------------------------------------------------

/// What the choice list does with one input.
#[derive(Clone, Copy, Debug, PartialEq, Eq, Structural)]
pub enum SelectStep {
    /// Leave without a choice.
    Cancel,
    /// Put the cursor on this line.
    Move(usize),
    /// Leave with this line chosen.
    Choose(usize),
    /// Nothing to do.
    Ignore,
}

/// Picks the line under the cursor: `Left`, `Right`, any other character
/// key, or releasing the left or right mouse button.
pub open spec fn chooses(input: Input) -> bool {
    match input {
        Input::Press(Key::Left) | Input::Press(Key::Right) | Input::Press(Key::Char(_)) => true,
        Input::MouseUp(Button::Left) | Input::MouseUp(Button::Right) => true,
        _ => false,
    }
}

/// The choice list's answer to `input` with the cursor on `line`. The
/// tests run in this order, so `w` and `s` move rather than choose.
pub open spec fn select_outcome(line: usize, input: Input) -> SelectStep {
    if input == Input::Press(Key::Esc) {
        SelectStep::Cancel
    } else if moves_up(input) {
        SelectStep::Move(line_up(line))
    } else if moves_down(input) {
        SelectStep::Move((line + 1) as usize)
    } else if chooses(input) {
        SelectStep::Choose(line)
    } else {
        SelectStep::Ignore
    }
}

/// One step of the choice list over `len` values, the cursor clamped on
/// `line`. A choice is always a line of the list.
pub fn select_step(line: usize, len: usize, input: Input) -> (r: SelectStep)
    requires
        line < len,
    ensures
        r == select_outcome(line, input),
        r matches SelectStep::Choose(i) ==> i < len,
        r matches SelectStep::Move(i) ==> i <= len,
{
    match input {
        Input::Press(Key::Esc) => SelectStep::Cancel,
        _ => {
            if is_up(input) || is_down(input) {
                SelectStep::Move(move_line(line, len, input))
            } else {
                match input {
                    Input::Press(Key::Left)
                    | Input::Press(Key::Right)
                    | Input::Press(Key::Char(_))
                    | Input::MouseUp(Button::Left)
                    | Input::MouseUp(Button::Right) => SelectStep::Choose(line),
                    _ => SelectStep::Ignore,
                }
            }
        },
    }
}

/// What each input does in the choice list, the cursor on `line` of
/// `len`: `Up`, `w` and scrolling up go to the previous line (staying on
/// the first); `Down`, `s` and scrolling down to the next; `Left`, `Right`,
/// any other character key and a left or right click choose this line;
/// `Esc` cancels; enter, backspace, a middle click and anything else do
/// nothing.
pub proof fn law_select_inputs(line: usize, len: usize, c: char)
    requires
        line < len,
    ensures
        line > 0 ==> select_outcome(line, Input::Press(Key::Up)) == SelectStep::Move(
            (line - 1) as usize,
        ),
        line > 0 ==> select_outcome(line, Input::Press(Key::Char('w'))) == SelectStep::Move(
            (line - 1) as usize,
        ),
        line > 0 ==> select_outcome(line, Input::ScrollUp) == SelectStep::Move((line - 1) as usize),
        line == 0 ==> select_outcome(line, Input::Press(Key::Up)) == SelectStep::Move(0),
        line == 0 ==> select_outcome(line, Input::Press(Key::Char('w'))) == SelectStep::Move(0),
        line == 0 ==> select_outcome(line, Input::ScrollUp) == SelectStep::Move(0),
        select_outcome(line, Input::Press(Key::Down)) == SelectStep::Move((line + 1) as usize),
        select_outcome(line, Input::Press(Key::Char('s'))) == SelectStep::Move((line + 1) as usize),
        select_outcome(line, Input::ScrollDown) == SelectStep::Move((line + 1) as usize),
        select_outcome(line, Input::Press(Key::Left)) == SelectStep::Choose(line),
        select_outcome(line, Input::Press(Key::Right)) == SelectStep::Choose(line),
        c != 'w' && c != 's' ==> select_outcome(line, Input::Press(Key::Char(c)))
            == SelectStep::Choose(line),
        select_outcome(line, Input::MouseUp(Button::Left)) == SelectStep::Choose(line),
        select_outcome(line, Input::MouseUp(Button::Right)) == SelectStep::Choose(line),
        select_outcome(line, Input::Press(Key::Esc)) == SelectStep::Cancel,
        select_outcome(line, Input::Press(Key::Enter)) == SelectStep::Ignore,
        select_outcome(line, Input::Press(Key::Backspace)) == SelectStep::Ignore,
        select_outcome(line, Input::MouseUp(Button::Middle)) == SelectStep::Ignore,
        select_outcome(line, Input::Other) == SelectStep::Ignore,
{
}

/// Shown in place of an empty choice list.
pub const NOTHING_FOUND: &'static str = "Nothing found...";

/// Any key press or mouse button release closes the empty-list notice.
pub open spec fn dismisses(input: Input) -> bool {
    input is Press || input is MouseUp
}

/// Whether `input` closes the empty-list notice.
pub fn notice_dismissed(input: Input) -> (r: bool)
    ensures
        r == dismisses(input),
{
    match input {
        Input::Press(_) | Input::MouseUp(_) => true,
        _ => false,
    }
}

// ---------------------------------------------------------------------------
// Scrolling
// ---------------------------------------------------------------------------

/// Lines scrolled off the top so that the cursor stays in the upper half:
/// with `h2` half the height less one, the cursor line (taken as a `u16`)
/// less `h2`, when it is past `h2`.
pub open spec fn scroll_for(line: usize, height: u16) -> u16 {
    let l = line as u16;
    let h2 = (height / 2 - 1) as u16;
    if l > h2 {
        (l - h2) as u16
    } else {
        0
    }
}

/// The list scrolls only as far as needed: not at all while the cursor is
/// within the first half of the frame less one row, else just enough to
/// keep it on that row.
pub proof fn law_scroll_minimal(line: usize, height: u16)
    requires
        height >= 2,
        line <= u16::MAX,
    ensures
        line <= height / 2 - 1 ==> scroll_for(line, height) == 0,
        line > height / 2 - 1 ==> scroll_for(line, height) == line - (height / 2 - 1),
{
    assert((line as u16) as int == line) by (bit_vector)
        requires
            line <= 0xffffusize,
    ;
}

/// The scroll offset of a list drawn in a frame `height` rows tall. The
/// cursor line is never scrolled out of view.
pub fn scroll_offset(line: usize, height: u16) -> (r: u16)
    requires
        height >= 2,
    ensures
        r == scroll_for(line, height),
        line <= u16::MAX ==> r <= line && line - r <= height / 2 - 1,
{
    let h2 = height / 2 - 1;
    let l = line as u16;
    if l > h2 {
        l - h2
    } else {
        0
    }
}

// ---------------------------------------------------------------------------
// Centring
// ---------------------------------------------------------------------------

/// A rectangle of terminal cells.
#[derive(Clone, Copy, Debug, PartialEq, Eq, Structural)]
pub struct Area {
    pub x: u16,
    pub y: u16,
    pub width: u16,
    pub height: u16,
}

/// The axis along which an area is cut.
#[derive(Clone, Copy, Debug, PartialEq, Eq, Structural)]
pub enum Direction {
    Horizontal,
    Vertical,
}

/// The three lengths that centre `size` in `total`: the margin (half of
/// `total` less half of `size`, at least 0), `size`, the same margin.
pub open spec fn centring(total: u16, size: u16) -> (u16, u16, u16) {
    let m: int = total / 2 - size / 2;
    let margin = if m < 0 {
        0u16
    } else {
        m as u16
    };
    (margin, size, margin)
}

/// The margins on both sides are equal: half the total less half the size,
/// and 0 when that is negative; the middle is the size asked for.
pub proof fn law_centring(total: u16, size: u16)
    ensures
        centring(total, size).1 == size,
        centring(total, size).0 == centring(total, size).2,
        total / 2 >= size / 2 ==> centring(total, size).0 == total / 2 - size / 2,
        total / 2 < size / 2 ==> centring(total, size).0 == 0,
{
}

/// See `centring`.
pub fn centred_lengths(total: u16, size: u16) -> (r: (u16, u16, u16))
    ensures
        r == centring(total, size),
{
    let margin = (total / 2).saturating_sub(size / 2);
    (margin, size, margin)
}

/// `area` lies within the `u16` coordinate range: its right and bottom
/// edges do not pass `u16::MAX`.
pub open spec fn in_range(area: Area) -> bool {
    area.x + area.width <= u16::MAX && area.y + area.height <= u16::MAX
}

/// Where `area` starts along `direction`.
pub open spec fn start(direction: Direction, area: Area) -> int {
    match direction {
        Direction::Horizontal => area.x as int,
        Direction::Vertical => area.y as int,
    }
}

/// The length of `area` along `direction`.
pub open spec fn extent(direction: Direction, area: Area) -> int {
    match direction {
        Direction::Horizontal => area.width as int,
        Direction::Vertical => area.height as int,
    }
}

/// `piece` spans the whole of `area` across `direction`.
pub open spec fn spans_across(direction: Direction, area: Area, piece: Area) -> bool {
    match direction {
        Direction::Horizontal => piece.y == area.y && piece.height == area.height,
        Direction::Vertical => piece.x == area.x && piece.width == area.width,
    }
}

/// The three pieces cover `area` along `direction`, one after the other and
/// each spanning it across: the first starts where `area` starts, each
/// next one where the previous one ends, and the last ends where `area` ends.
pub open spec fn tiles(direction: Direction, area: Area, pieces: Seq<Area>) -> bool {
    &&& pieces.len() == 3
    &&& spans_across(direction, area, pieces[0])
    &&& spans_across(direction, area, pieces[1])
    &&& spans_across(direction, area, pieces[2])
    &&& start(direction, pieces[0]) == start(direction, area)
    &&& start(direction, pieces[0]) + extent(direction, pieces[0]) == start(direction, pieces[1])
    &&& start(direction, pieces[1]) + extent(direction, pieces[1]) == start(direction, pieces[2])
    &&& start(direction, pieces[2]) + extent(direction, pieces[2]) == start(direction, area)
        + extent(direction, area)
}

pub open spec fn abs(x: int) -> int {
    if x < 0 {
        -x
    } else {
        x
    }
}

/// How far, in all, the pieces' lengths are from the lengths asked for.
pub open spec fn deviation(direction: Direction, pieces: Seq<Area>, lengths: (u16, u16, u16)) -> int {
    abs(extent(direction, pieces[0]) - lengths.0) + abs(extent(direction, pieces[1]) - lengths.1)
        + abs(extent(direction, pieces[2]) - lengths.2)
}

/// ratatui's `Layout::split` on a default layout (no margin, last piece
/// stretched to the end) with the given direction and three `Length`
/// constraints, on an area that stays within the `u16` range (past it the
/// saturated edges make the required constraints contradict each other and
/// the solver's `unwrap` panics).
/// Claimed: the required constraints hold, so the three pieces tile the
/// area (each spans it across, the first starts at its start, each next one
/// where the previous ends, the last ends at its end); and the `Length`
/// constraints, all of one strength, are violated as little as the tiling
/// allows, so the lengths are off from those asked for by exactly the
/// difference between the area's extent and their sum, in all. Which piece
/// takes that difference is not claimed: the cassowary solver breaks such
/// ties in the iteration order of hash maps seeded per process.
#[verifier::external_body]
fn split_lengths(direction: Direction, area: Area, lengths: (u16, u16, u16)) -> (r: Vec<Area>)
    requires
        in_range(area),
    ensures
        tiles(direction, area, r@),
        deviation(direction, r@, lengths) == abs(
            extent(direction, area) - (lengths.0 + lengths.1 + lengths.2),
        ),
{
    let direction = match direction {
        Direction::Horizontal => ratatui::layout::Direction::Horizontal,
        Direction::Vertical => ratatui::layout::Direction::Vertical,
    };
    let rect = Rect { x: area.x, y: area.y, width: area.width, height: area.height };
    let constraints = [Constraint::Length(lengths.0), Constraint::Length(lengths.1), Constraint::Length(lengths.2)];
    let chunks = Layout::default().direction(direction).constraints(constraints).split(rect);
    chunks.iter().map(|c| Area { x: c.x, y: c.y, width: c.width, height: c.height }).collect()
}

/// `size` centres exactly in `total`: it fits, and both have the same parity
/// so the two margins and `size` add up to `total`.
pub open spec fn centres_exactly(total: u16, size: u16) -> bool {
    size <= total && total % 2 == size % 2
}

/// The box `width` by `height` with equal margins on each side in `frame`.
pub open spec fn centred_box(frame: Area, width: u16, height: u16) -> Area {
    Area {
        x: (frame.x + (frame.width - width) / 2) as u16,
        y: (frame.y + (frame.height - height) / 2) as u16,
        width,
        height,
    }
}

/// `inner` lies within `outer`.
pub open spec fn inside(outer: Area, inner: Area) -> bool {
    &&& outer.x <= inner.x
    &&& inner.x + inner.width <= outer.x + outer.width
    &&& outer.y <= inner.y
    &&& inner.y + inner.height <= outer.y + outer.height
}

/// What a centred cut of `total` cells for `size` gives along one axis,
/// the middle piece starting `offset` cells in and `len` long: a size of
/// at least the whole is cut down to the whole; a size that fits is off by
/// at most one cell in length and in offset from the margin asked for; one
/// that centres exactly is exact.
pub open spec fn centred_along(total: u16, size: u16, offset: int, len: int) -> bool {
    &&& size >= total ==> offset == 0 && len == total
    &&& size <= total ==> abs(len - size) <= 1 && abs(offset - centring(total, size).0) <= 1
    &&& centres_exactly(total, size) ==> offset == (total - size) / 2 && len == size
}

/// The middle piece of a centred three-way cut, along one axis.
proof fn lemma_centred_piece(direction: Direction, area: Area, size: u16, pieces: Seq<Area>)
    requires
        tiles(direction, area, pieces),
        deviation(direction, pieces, centring(extent(direction, area) as u16, size)) == abs(
            extent(direction, area) - (centring(extent(direction, area) as u16, size).0 * 2
                + size),
        ),
    ensures
        centred_along(
            extent(direction, area) as u16,
            size,
            start(direction, pieces[1]) - start(direction, area),
            extent(direction, pieces[1]),
        ),
{
    let total = extent(direction, area);
    assert(0 <= total <= u16::MAX) by {
        match direction {
            Direction::Horizontal => {},
            Direction::Vertical => {},
        }
    }
    assert(extent(direction, pieces[0]) >= 0 && extent(direction, pieces[1]) >= 0 && extent(
        direction,
        pieces[2],
    ) >= 0) by {
        match direction {
            Direction::Horizontal => {},
            Direction::Vertical => {},
        }
    }
}

/// A box `width` by `height` in the middle of `frame`: the middle row of a
/// vertical three-way split with `centring(frame.height, height)`, then the
/// middle column of a horizontal split of that row with
/// `centring(frame.width, width)`. The box lies within the frame; along each
/// axis, a size of at least the frame's gives the whole frame, a size that
/// fits is placed within one cell of the margin asked for and is at most one
/// cell off in length, and one that centres exactly is placed exactly.
pub fn center_chunks(frame: Area, width: u16, height: u16) -> (r: Area)
    requires
        in_range(frame),
    ensures
        inside(frame, r),
        centred_along(frame.width, width, r.x - frame.x, r.width as int),
        centred_along(frame.height, height, r.y - frame.y, r.height as int),
        centres_exactly(frame.width, width) && centres_exactly(frame.height, height) ==> r
            == centred_box(frame, width, height),
{
    let rows = split_lengths(Direction::Vertical, frame, centred_lengths(frame.height, height));
    let row = rows[1];
    proof {
        lemma_centred_piece(Direction::Vertical, frame, height, rows@);
    }
    let columns = split_lengths(Direction::Horizontal, row, centred_lengths(frame.width, width));
    proof {
        lemma_centred_piece(Direction::Horizontal, row, width, columns@);
    }
    columns[1]
}

// ---------------------------------------------------------------------------
// The text prompt
// ---------------------------------------------------------------------------

/// Shown in the prompt while nothing has been typed.
pub const PLACEHOLDER: &'static str = "Start typing...";

/// A line of text being typed.
pub struct Prompt {
    pub text: Vec<char>,
}

/// The text after one input, and whether typing is over: a character is
/// added, backspace removes the last one, enter ends.
pub open spec fn prompt_after(text: Seq<char>, input: Input) -> (Seq<char>, bool) {
    match input {
        Input::Press(Key::Char(c)) => (text.push(c), false),
        Input::Press(Key::Backspace) => (if text.len() == 0 {
            text
        } else {
            text.drop_last()
        }, false),
        Input::Press(Key::Enter) => (text, true),
        _ => (text, false),
    }
}

/// Backspace takes back the character just typed, and enter changes
/// nothing but ends typing.
pub proof fn law_backspace_undoes_typing(text: Seq<char>, c: char)
    ensures
        prompt_after(prompt_after(text, Input::Press(Key::Char(c))).0, Input::Press(Key::Backspace))
            == (text, false),
        prompt_after(text, Input::Press(Key::Enter)) == (text, true),
{
    assert(text.push(c).drop_last() =~= text);
}

/// What each input does to the prompt: a character key adds that
/// character at the end, backspace takes the last one off (none: nothing),
/// enter ends typing, anything else changes nothing.
pub proof fn law_prompt_inputs(text: Seq<char>, c: char)
    ensures
        prompt_after(text, Input::Press(Key::Char(c))) == (text.push(c), false),
        text.len() > 0 ==> prompt_after(text, Input::Press(Key::Backspace)) == (text.subrange(
            0,
            text.len() - 1,
        ), false),
        text.len() == 0 ==> prompt_after(text, Input::Press(Key::Backspace)) == (text, false),
        prompt_after(text, Input::Press(Key::Enter)) == (text, true),
        prompt_after(text, Input::Press(Key::Esc)) == (text, false),
        prompt_after(text, Input::ScrollUp) == (text, false),
        prompt_after(text, Input::MouseUp(Button::Left)) == (text, false),
        prompt_after(text, Input::Other) == (text, false),
{
}

impl Prompt {
    /// An empty prompt.
    pub fn new() -> (r: Prompt)
        ensures
            r.text@.len() == 0,
    {
        Prompt { text: Vec::new() }
    }

    /// Applies one input; true when typing is over.
    pub fn handle(&mut self, input: Input) -> (done: bool)
        ensures
            (final(self).text@, done) == prompt_after(old(self).text@, input),
    {
        match input {
            Input::Press(Key::Char(c)) => {
                self.text.push(c);
                false
            },
            Input::Press(Key::Backspace) => {
                let _ = self.text.pop();
                false
            },
            Input::Press(Key::Enter) => true,
            _ => false,
        }
    }

    /// The text typed so far.
    pub fn text(&self) -> (r: String)
        ensures
            r@ == self.text@,
    {
        let mut r = String::new();
        let mut i: usize = 0;
        while i < self.text.len()
            invariant
                i <= self.text@.len(),
                r@ == self.text@.take(i as int),
            decreases self.text.len() - i,
        {
            crate::text::push_char(&mut r, self.text[i]);
            assert(self.text@.take(i + 1) =~= self.text@.take(i as int).push(self.text@[i as int]));
            i += 1;
        }
        assert(self.text@.take(self.text@.len() as int) =~= self.text@);
        r
    }
}

/// The prompt box width: four more than the longer of the shown text and
/// the prompt (byte lengths taken as `u16`); nothing when adding four
/// overflows.
pub open spec fn box_width(shown_len: usize, prompt_len: usize) -> Option<u16> {
    let a: int = (shown_len as u16) as int + 4;
    let b: int = (prompt_len as u16) as int + 4;
    if a > u16::MAX || b > u16::MAX {
        None
    } else if a >= b {
        Some(a as u16)
    } else {
        Some(b as u16)
    }
}

/// The prompt box is four cells wider than the wider of the shown text and
/// the prompt (each taken as a `u16`), and there is none when either plus
/// four passes `u16::MAX`.
pub proof fn law_box_width(shown_len: usize, prompt_len: usize)
    ensures
        box_width(shown_len, prompt_len) matches Some(w) ==> w >= (shown_len as u16) + 4 && w
            >= (prompt_len as u16) + 4 && (w == (shown_len as u16) + 4 || w == (prompt_len as u16)
            + 4),
        box_width(shown_len, prompt_len) is None <==> ((shown_len as u16) + 4 > u16::MAX || (
        prompt_len as u16) + 4 > u16::MAX),
{
}

/// See `box_width`.
pub fn prompt_box_width(shown_len: usize, prompt_len: usize) -> (r: Option<u16>)
    ensures
        r == box_width(shown_len, prompt_len),
{
    let a = shown_len as u16;
    let b = prompt_len as u16;
    if a > u16::MAX - 4 || b > u16::MAX - 4 {
        return None;
    }
    let a = a + 4;
    let b = b + 4;
    Some(if a >= b {
        a
    } else {
        b
    })
}

// ---------------------------------------------------------------------------
// Downloads
// ---------------------------------------------------------------------------

/// The folder, next to the executable, that torrents are saved in.
pub const TORRENT_DIR: &'static str = "torrents/";

/// The file name a torrent link is saved under: what follows its last `/`
/// (the whole link when it has none).
pub fn torrent_file_name(link: &str) -> (r: String)
    ensures
        r@ == split_on(link@, "/"@).last(),
        r@.len() <= link@.len(),
        link@.subrange(link@.len() - r@.len(), link@.len() as int) == r@,
        forall|i: int| 0 <= i < r@.len() ==> r@[i] != '/',
        r@.len() < link@.len() ==> link@[link@.len() - r@.len() - 1] == '/',
{
    proof {
        reveal_strlit("/");
        assert("/"@ =~= seq!['/']);
        law_last_piece(link@);
    }
    split_last(link, "/")
}

} // verus!
