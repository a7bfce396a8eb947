//! The watch list screen: what each input does to the list and the text of
//! each line.

use vstd::prelude::*;

use crate::anilist::Anime;
use crate::text::{decimal, law_decimal_written, push_char, push_decimal, written_as};
use crate::utils::{line_up, move_line, moves_down, moves_up, Button, Input, Key};

verus! {

broadcast use vstd::string::group_string_axioms;

/// The title of the screen.
pub const TITLE: &'static str = "Watching";

/// What the watch list screen does with one input.
#[derive(Clone, Copy, Debug, PartialEq, Eq, Structural)]
pub enum MenuAction {
    /// Leave the screen.
    Exit,
    /// Put the cursor on this line.
    Move(usize),
    /// Move the progress of this entry by `delta`, then reload the list.
    Update { index: usize, delta: i32 },
    /// Look for the next episode of this entry.
    Watch(usize),
    /// Nothing to do.
    Ignore,
}

/// Marks one more episode watched: `Right`, `d`, or releasing the right
/// mouse button.
pub open spec fn increments(input: Input) -> bool {
    input == Input::Press(Key::Right) || input == Input::Press(Key::Char('d')) || input
        == Input::MouseUp(Button::Right)
}

/// Marks one episode fewer watched: `Left`, `a`, or releasing the left
/// mouse button.
pub open spec fn decrements(input: Input) -> bool {
    input == Input::Press(Key::Left) || input == Input::Press(Key::Char('a')) || input
        == Input::MouseUp(Button::Left)
}

/// Looks for the next episode: space or enter.
pub open spec fn watches(input: Input) -> bool {
    input == Input::Press(Key::Char(' ')) || input == Input::Press(Key::Enter)
}

/// The screen's answer to `input` with the cursor on `line`.
pub open spec fn menu_outcome(line: usize, input: Input) -> MenuAction {
    if input == Input::Press(Key::Esc) {
        MenuAction::Exit
    } else if moves_up(input) {
        MenuAction::Move(line_up(line))
    } else if moves_down(input) {
        MenuAction::Move((line + 1) as usize)
    } else if increments(input) {
        MenuAction::Update { index: line, delta: 1 }
    } else if decrements(input) {
        MenuAction::Update { index: line, delta: -1i32 }
    } else if watches(input) {
        MenuAction::Watch(line)
    } else {
        MenuAction::Ignore
    }
}

/// One step of the screen over a list of `len` entries, the cursor clamped
/// on `line`. Every entry it names is on the list.
pub fn menu_step(line: usize, len: usize, input: Input) -> (r: MenuAction)
    requires
        line < len,
    ensures
        r == menu_outcome(line, input),
        r matches MenuAction::Move(i) ==> i <= len,
        r matches MenuAction::Update { index, delta } ==> index < len,
        r matches MenuAction::Watch(i) ==> i < len,
{
    match input {
        Input::Press(Key::Esc) => MenuAction::Exit,
        Input::Press(Key::Up)
        | Input::Press(Key::Char('w'))
        | Input::ScrollUp
        | Input::Press(Key::Down)
        | Input::Press(Key::Char('s'))
        | Input::ScrollDown => MenuAction::Move(move_line(line, len, input)),
        Input::Press(Key::Right) | Input::Press(Key::Char('d')) | Input::MouseUp(
            Button::Right,
        ) => MenuAction::Update { index: line, delta: 1 },
        Input::Press(Key::Left) | Input::Press(Key::Char('a')) | Input::MouseUp(Button::Left) => {
            MenuAction::Update { index: line, delta: -1i32 }
        },
        Input::Press(Key::Char(' ')) | Input::Press(Key::Enter) => MenuAction::Watch(line),
        _ => MenuAction::Ignore,
    }
}

/// What each input does on the watch list, the cursor on `line` of `len`:
/// `Down`, `s` and scrolling down go to the next line; `Up`, `w` and
/// scrolling up to the previous one (staying on the first); `Right`, `d`
/// and a right click mark one more episode of this entry, `Left`, `a` and a
/// left click one fewer; space and enter look for its next episode; `Esc`
/// leaves; other keys do nothing.
pub proof fn law_menu_inputs(line: usize, len: usize, c: char)
    requires
        line < len,
    ensures
        menu_outcome(line, Input::Press(Key::Down)) == MenuAction::Move((line + 1) as usize),
        menu_outcome(line, Input::Press(Key::Char('s'))) == MenuAction::Move((line + 1) as usize),
        menu_outcome(line, Input::ScrollDown) == MenuAction::Move((line + 1) as usize),
        line > 0 ==> menu_outcome(line, Input::Press(Key::Up)) == MenuAction::Move(
            (line - 1) as usize,
        ),
        line > 0 ==> menu_outcome(line, Input::Press(Key::Char('w'))) == MenuAction::Move(
            (line - 1) as usize,
        ),
        line > 0 ==> menu_outcome(line, Input::ScrollUp) == MenuAction::Move((line - 1) as usize),
        line == 0 ==> menu_outcome(line, Input::Press(Key::Up)) == MenuAction::Move(0),
        line == 0 ==> menu_outcome(line, Input::Press(Key::Char('w'))) == MenuAction::Move(0),
        line == 0 ==> menu_outcome(line, Input::ScrollUp) == MenuAction::Move(0),
        menu_outcome(line, Input::Press(Key::Right)) == (MenuAction::Update { index: line, delta: 1 }),
        menu_outcome(line, Input::Press(Key::Char('d'))) == (MenuAction::Update {
            index: line,
            delta: 1,
        }),
        menu_outcome(line, Input::MouseUp(Button::Right)) == (MenuAction::Update {
            index: line,
            delta: 1,
        }),
        menu_outcome(line, Input::Press(Key::Left)) == (MenuAction::Update { index: line, delta: -1i32 }),
        menu_outcome(line, Input::Press(Key::Char('a'))) == (MenuAction::Update {
            index: line,
            delta: -1i32,
        }),
        menu_outcome(line, Input::MouseUp(Button::Left)) == (MenuAction::Update {
            index: line,
            delta: -1i32,
        }),
        menu_outcome(line, Input::Press(Key::Char(' '))) == MenuAction::Watch(line),
        menu_outcome(line, Input::Press(Key::Enter)) == MenuAction::Watch(line),
        menu_outcome(line, Input::Press(Key::Esc)) == MenuAction::Exit,
        c != 'w' && c != 's' && c != 'a' && c != 'd' && c != ' ' ==> menu_outcome(
            line,
            Input::Press(Key::Char(c)),
        ) == MenuAction::Ignore,
        menu_outcome(line, Input::Press(Key::Backspace)) == MenuAction::Ignore,
        menu_outcome(line, Input::MouseUp(Button::Middle)) == MenuAction::Ignore,
        menu_outcome(line, Input::Other) == MenuAction::Ignore,
{
}

/// After looking for the next episode of entry `index`: when one was
/// fetched, one more episode is marked watched.
pub fn after_watch(index: usize, fetched: bool) -> (r: MenuAction)
    ensures
        r == (if fetched {
            MenuAction::Update { index, delta: 1 }
        } else {
            MenuAction::Ignore
        }),
{
    if fetched {
        MenuAction::Update { index, delta: 1 }
    } else {
        MenuAction::Ignore
    }
}

/// A call the screen makes on the outside world.
#[derive(Clone, Copy, Debug, PartialEq, Eq, Structural)]
pub enum Call {
    /// Fetch the watch list (again).
    Load,
    /// Move the progress of this entry by `delta`.
    Update { index: usize, delta: i32 },
    /// Look for the next episode of this entry.
    Watch(usize),
}

/// The calls an action makes, in order: an update is followed by a reload
/// of the list; a watch looks for the episode; the rest make none.
pub open spec fn call_plan(action: MenuAction) -> Seq<Call> {
    match action {
        MenuAction::Update { index, delta } => seq![Call::Update { index, delta }, Call::Load],
        MenuAction::Watch(index) => seq![Call::Watch(index)],
        _ => seq![],
    }
}

/// The calls for a run of actions, one after the other.
pub open spec fn plan_all(actions: Seq<MenuAction>) -> Seq<Call>
    decreases actions.len(),
{
    if actions.len() == 0 {
        seq![]
    } else {
        plan_all(actions.drop_last()) + call_plan(actions.last())
    }
}

/// The calls of a whole visit of the screen: the list is loaded once, then
/// each action's calls follow.
pub open spec fn session_calls(actions: Seq<MenuAction>) -> Seq<Call> {
    seq![Call::Load] + plan_all(actions)
}

/// The calls to make when the screen opens: one load of the list.
pub fn opening_calls() -> (r: Vec<Call>)
    ensures
        r@ == seq![Call::Load],
{
    let mut r: Vec<Call> = Vec::new();
    r.push(Call::Load);
    r
}

/// The calls to make for `action`, in order.
pub fn calls_for(action: MenuAction) -> (r: Vec<Call>)
    ensures
        r@ == call_plan(action),
{
    let mut r: Vec<Call> = Vec::new();
    match action {
        MenuAction::Update { index, delta } => {
            r.push(Call::Update { index, delta });
            r.push(Call::Load);
        },
        MenuAction::Watch(index) => r.push(Call::Watch(index)),
        _ => {},
    }
    r
}

/// How many of the calls are loads.
pub open spec fn loads(calls: Seq<Call>) -> nat
    decreases calls.len(),
{
    if calls.len() == 0 {
        0
    } else {
        loads(calls.drop_last()) + if calls.last() is Load {
            1nat
        } else {
            0nat
        }
    }
}

/// How many of the calls are updates.
pub open spec fn updates(calls: Seq<Call>) -> nat
    decreases calls.len(),
{
    if calls.len() == 0 {
        0
    } else {
        updates(calls.drop_last()) + if calls.last() is Update {
            1nat
        } else {
            0nat
        }
    }
}

/// Counting adds up over consecutive runs of calls.
pub proof fn lemma_counts_add(a: Seq<Call>, b: Seq<Call>)
    ensures
        loads(a + b) == loads(a) + loads(b),
        updates(a + b) == updates(a) + updates(b),
    decreases b.len(),
{
    if b.len() == 0 {
        assert(a + b =~= a);
    } else {
        lemma_counts_add(a, b.drop_last());
        assert((a + b).drop_last() =~= a + b.drop_last());
        assert((a + b).last() == b.last());
    }
}

/// Each update is directly followed by a load, and each load after the
/// first directly follows an update.
pub open spec fn reloads_after_updates(calls: Seq<Call>) -> bool {
    &&& forall|i: int| 0 <= i < calls.len() && #[trigger] calls[i] is Update ==> i + 1 < calls.len()
        && calls[i + 1] is Load
    &&& forall|i: int| 0 < i < calls.len() && #[trigger] calls[i] is Load ==> calls[i - 1] is Update
}

/// The calls come in blocks: an update directly followed by a load, or a
/// watch on its own.
pub open spec fn paired(calls: Seq<Call>) -> bool
    decreases calls.len(),
{
    if calls.len() == 0 {
        true
    } else if calls.last() is Watch {
        paired(calls.drop_last())
    } else if calls.last() is Load {
        calls.len() >= 2 && calls[calls.len() - 2] is Update && paired(
            calls.take(calls.len() - 2),
        )
    } else {
        false
    }
}

proof fn lemma_paired_concat(a: Seq<Call>, b: Seq<Call>)
    requires
        paired(a),
        paired(b),
    ensures
        paired(a + b),
    decreases b.len(),
{
    if b.len() == 0 {
        assert(a + b =~= a);
    } else if b.last() is Watch {
        lemma_paired_concat(a, b.drop_last());
        assert((a + b).drop_last() =~= a + b.drop_last());
    } else {
        let n = b.len();
        lemma_paired_concat(a, b.take(n - 2));
        assert((a + b).take(a.len() + n - 2) =~= a + b.take(n - 2));
        assert((a + b)[a.len() + n - 2] == b[n - 2]);
    }
}

proof fn lemma_paired_counts(s: Seq<Call>)
    requires
        paired(s),
    ensures
        loads(s) == updates(s),
    decreases s.len(),
{
    if s.len() == 0 {
    } else if s.last() is Watch {
        lemma_paired_counts(s.drop_last());
        assert(loads(s) == loads(s.drop_last()));
        assert(updates(s) == updates(s.drop_last()));
    } else {
        let n = s.len();
        let t = s.take(n - 2);
        lemma_paired_counts(t);
        assert(s.drop_last().drop_last() =~= t);
        assert(s.drop_last().last() == s[n - 2]);
        assert(loads(s) == loads(s.drop_last()) + 1);
        assert(loads(s.drop_last()) == loads(t));
        assert(updates(s) == updates(s.drop_last()));
        assert(updates(s.drop_last()) == updates(t) + 1);
    }
}

proof fn lemma_paired_adjacent(s: Seq<Call>)
    requires
        paired(s),
    ensures
        forall|i: int| 0 <= i < s.len() && #[trigger] s[i] is Update ==> i + 1 < s.len() && s[i
            + 1] is Load,
        forall|i: int| 0 <= i < s.len() && #[trigger] s[i] is Load ==> 0 < i && s[i - 1] is Update,
    decreases s.len(),
{
    if s.len() == 0 {
    } else if s.last() is Watch {
        let t = s.drop_last();
        lemma_paired_adjacent(t);
        assert forall|i: int| 0 <= i < s.len() && #[trigger] s[i] is Update implies i + 1 < s.len()
            && s[i + 1] is Load by {
            assert(i < t.len());
            assert(s[i] == t[i]);
            assert(s[i + 1] == t[i + 1]);
        }
        assert forall|i: int| 0 <= i < s.len() && #[trigger] s[i] is Load implies 0 < i && s[i
            - 1] is Update by {
            assert(i < t.len());
            assert(s[i] == t[i]);
            assert(s[i - 1] == t[i - 1]);
        }
    } else {
        let n = s.len();
        let t = s.take(n - 2);
        lemma_paired_adjacent(t);
        assert forall|i: int| 0 <= i < s.len() && #[trigger] s[i] is Update implies i + 1 < s.len()
            && s[i + 1] is Load by {
            if i < n - 2 {
                assert(s[i] == t[i]);
                if i + 1 < n - 2 {
                    assert(s[i + 1] == t[i + 1]);
                }
            }
        }
        assert forall|i: int| 0 <= i < s.len() && #[trigger] s[i] is Load implies 0 < i && s[i
            - 1] is Update by {
            if i < n - 2 {
                assert(s[i] == t[i]);
                assert(s[i - 1] == t[i - 1]);
            }
        }
    }
}

proof fn lemma_plan_paired(actions: Seq<MenuAction>)
    ensures
        paired(plan_all(actions)),
    decreases actions.len(),
{
    if actions.len() > 0 {
        lemma_plan_paired(actions.drop_last());
        let last = call_plan(actions.last());
        assert(paired(last)) by {
            match actions.last() {
                MenuAction::Update { index, delta } => {
                    assert(last.len() == 2);
                    assert(last.last() == Call::Load);
                    assert(last[0] == Call::Update { index, delta });
                    assert(last.take(0) =~= seq![]);
                    assert(paired(last.take(0)));
                },
                MenuAction::Watch(index) => {
                    assert(last.drop_last() =~= seq![]);
                    assert(paired(last.drop_last()));
                },
                _ => {},
            }
        }
        lemma_paired_concat(plan_all(actions.drop_last()), last);
    }
}

/// One load in front of calls that come in blocks: one load more than
/// updates.
proof fn lemma_opening_counts(plan: Seq<Call>)
    requires
        paired(plan),
    ensures
        loads(seq![Call::Load] + plan) == 1 + updates(seq![Call::Load] + plan),
{
    lemma_paired_counts(plan);
    lemma_counts_add(seq![Call::Load], plan);
    let one = seq![Call::Load];
    assert(one.drop_last() =~= seq![]);
    assert(loads(one) == loads(one.drop_last()) + 1);
    assert(updates(one) == updates(one.drop_last()));
}

/// A load in front of calls that come in blocks.
proof fn lemma_opening_then_paired(plan: Seq<Call>)
    requires
        paired(plan),
    ensures
        reloads_after_updates(seq![Call::Load] + plan),
{
    lemma_paired_adjacent(plan);
    let calls = seq![Call::Load] + plan;
    assert forall|i: int| 0 < i < calls.len() implies #[trigger] calls[i] == plan[i - 1] by {}
    assert forall|i: int| 0 <= i < calls.len() && #[trigger] calls[i] is Update implies i + 1
        < calls.len() && calls[i + 1] is Load by {
        assert(calls[i] == plan[i - 1]);
        assert(calls[i + 1] == plan[i]);
    }
    assert forall|i: int| 0 < i < calls.len() && #[trigger] calls[i] is Load implies calls[i
        - 1] is Update by {
        assert(calls[i] == plan[i - 1]);
        if i > 1 {
            assert(calls[i - 1] == plan[i - 2]);
        }
    }
}

/// Every update of an entry is followed by exactly one reload of the list,
/// and the list is loaded at no other time but once when the screen opens:
/// over any run of actions, the loads number one more than the updates, each
/// update is directly followed by a load, and each load but the first
/// directly follows an update.
pub proof fn law_reload_after_each_update(actions: Seq<MenuAction>)
    ensures
        loads(session_calls(actions)) == 1 + updates(session_calls(actions)),
        reloads_after_updates(session_calls(actions)),
        session_calls(actions)[0] == Call::Load,
{
    let plan = plan_all(actions);
    lemma_plan_paired(actions);
    lemma_opening_counts(plan);
    lemma_opening_then_paired(plan);
}

/// `<name> <progress>/<episodes>`.
pub open spec fn entry_text(anime: Anime) -> Seq<char> {
    anime.name@ + seq![' '] + decimal(anime.progress as nat) + seq!['/'] + decimal(
        anime.episodes as nat,
    )
}

/// An entry's line is its whole name, a space, the progress in decimal, a
/// `/`, and the episode count in decimal.
pub proof fn law_entry_text(anime: Anime)
    ensures
        ({
            let t = entry_text(anime);
            let n = anime.name@.len() as int;
            exists|k: int|
                #![trigger t.subrange(n + 1, k)]
                n + 1 < k < t.len() && t.subrange(0, n) == anime.name@ && t[n] == ' ' && written_as(
                    t.subrange(n + 1, k),
                    anime.progress as int,
                ) && t[k] == '/' && written_as(t.subrange(k + 1, t.len() as int), anime.episodes as int)
        }),
{
    law_decimal_written(anime.progress as nat);
    law_decimal_written(anime.episodes as nat);
    let t = entry_text(anime);
    let n = anime.name@.len() as int;
    let k = n + 1 + decimal(anime.progress as nat).len();
    assert(t.subrange(0, n) =~= anime.name@);
    assert(t.subrange(n + 1, k) =~= decimal(anime.progress as nat));
    assert(t.subrange(k + 1, t.len() as int) =~= decimal(anime.episodes as nat));
}

/// The text of an entry's line.
pub fn entry_line(anime: &Anime) -> (r: String)
    ensures
        r@ == entry_text(*anime),
{
    let mut r = anime.name.clone();
    push_char(&mut r, ' ');
    push_decimal(&mut r, anime.progress);
    push_char(&mut r, '/');
    push_decimal(&mut r, anime.episodes);
    r
}

} // verus!
