use ndnd::anilist::Anime;
use ndnd::pages::menu::{after_watch, calls_for, entry_line, menu_step, opening_calls, Call, MenuAction};
use ndnd::utils::{
    center_chunks, centred_lengths, clamp_line, notice_dismissed, prompt_box_width, scroll_offset,
    select_step, torrent_file_name, Area, Button, Input, Key, Prompt, SelectStep,
};

#[test]
fn select_moves_and_chooses() {
    assert_eq!(select_step(2, 5, Input::Press(Key::Up)), SelectStep::Move(1));
    assert_eq!(select_step(2, 5, Input::Press(Key::Char('w'))), SelectStep::Move(1));
    assert_eq!(select_step(0, 5, Input::ScrollUp), SelectStep::Move(0));
    assert_eq!(select_step(4, 5, Input::Press(Key::Down)), SelectStep::Move(5));
    assert_eq!(select_step(2, 5, Input::Press(Key::Char('s'))), SelectStep::Move(3));
    assert_eq!(select_step(2, 5, Input::ScrollDown), SelectStep::Move(3));
    assert_eq!(select_step(2, 5, Input::Press(Key::Right)), SelectStep::Choose(2));
    assert_eq!(select_step(2, 5, Input::Press(Key::Left)), SelectStep::Choose(2));
    assert_eq!(select_step(2, 5, Input::Press(Key::Char('x'))), SelectStep::Choose(2));
    assert_eq!(select_step(2, 5, Input::Press(Key::Char(' '))), SelectStep::Choose(2));
    assert_eq!(select_step(2, 5, Input::MouseUp(Button::Left)), SelectStep::Choose(2));
    assert_eq!(select_step(2, 5, Input::MouseUp(Button::Right)), SelectStep::Choose(2));
}

#[test]
fn select_cancels_and_ignores() {
    assert_eq!(select_step(2, 5, Input::Press(Key::Esc)), SelectStep::Cancel);
    assert_eq!(select_step(2, 5, Input::Press(Key::Enter)), SelectStep::Ignore);
    assert_eq!(select_step(2, 5, Input::Press(Key::Backspace)), SelectStep::Ignore);
    assert_eq!(select_step(2, 5, Input::MouseUp(Button::Middle)), SelectStep::Ignore);
    assert_eq!(select_step(2, 5, Input::Other), SelectStep::Ignore);
}

#[test]
fn clamp_keeps_the_cursor_on_the_list() {
    assert_eq!(clamp_line(5, 5), 4);
    assert_eq!(clamp_line(3, 5), 3);
    assert_eq!(clamp_line(100, 1), 0);
}

#[test]
fn down_then_up_returns() {
    let down = match select_step(1, 5, Input::Press(Key::Down)) {
        SelectStep::Move(l) => clamp_line(l, 5),
        _ => unreachable!(),
    };
    assert_eq!(select_step(down, 5, Input::Press(Key::Up)), SelectStep::Move(1));
}

#[test]
fn notice_closes_on_press_or_release() {
    assert!(notice_dismissed(Input::Press(Key::Other)));
    assert!(notice_dismissed(Input::Press(Key::Char('q'))));
    assert!(notice_dismissed(Input::MouseUp(Button::Middle)));
    assert!(!notice_dismissed(Input::ScrollDown));
    assert!(!notice_dismissed(Input::Other));
}

#[test]
fn scroll_keeps_the_cursor_visible() {
    assert_eq!(scroll_offset(0, 24), 0);
    assert_eq!(scroll_offset(11, 24), 0);
    assert_eq!(scroll_offset(12, 24), 1);
    assert_eq!(scroll_offset(30, 24), 19);
    assert_eq!(scroll_offset(5, 2), 5);
    assert_eq!(scroll_offset(65536 + 3, 10), 0);
    for line in 0..200usize {
        let s = scroll_offset(line, 20) as usize;
        assert!(s <= line && line - s <= 9);
    }
}

#[test]
fn centring_lengths() {
    assert_eq!(centred_lengths(24, 4), (10, 4, 10));
    assert_eq!(centred_lengths(24, 3), (11, 3, 11));
    assert_eq!(centred_lengths(10, 30), (0, 30, 0));
}

#[test]
fn centre_of_an_even_frame() {
    let frame = Area { x: 0, y: 0, width: 80, height: 24 };
    assert_eq!(center_chunks(frame, 20, 4), Area { x: 30, y: 10, width: 20, height: 4 });
    assert_eq!(center_chunks(frame, 80, 24), frame);
}

#[test]
fn centre_of_an_offset_frame() {
    let frame = Area { x: 3, y: 2, width: 40, height: 11 };
    assert_eq!(center_chunks(frame, 10, 3), Area { x: 18, y: 6, width: 10, height: 3 });
    let wide = Area { x: 0, y: 0, width: 121, height: 31 };
    assert_eq!(center_chunks(wide, 15, 1), Area { x: 53, y: 15, width: 15, height: 1 });
}

fn inside(outer: Area, inner: Area) -> bool {
    outer.x <= inner.x
        && inner.x as u32 + inner.width as u32 <= outer.x as u32 + outer.width as u32
        && outer.y <= inner.y
        && inner.y as u32 + inner.height as u32 <= outer.y as u32 + outer.height as u32
}

#[test]
fn centre_with_differing_parity_is_within_a_cell() {
    let frame = Area { x: 0, y: 0, width: 80, height: 24 };
    let r = center_chunks(frame, 19, 3);
    assert!(inside(frame, r));
    assert!((r.width as i32 - 19).abs() <= 1 && (r.height as i32 - 3).abs() <= 1);
    assert!((r.x as i32 - 31).abs() <= 1 && (r.y as i32 - 11).abs() <= 1);
    let notice = center_chunks(frame, 16, 1);
    assert!(inside(frame, notice));
    assert!((notice.height as i32 - 1).abs() <= 1 && (notice.y as i32 - 12).abs() <= 1);
}

#[test]
fn oversized_box_is_the_whole_frame() {
    let frame = Area { x: 2, y: 1, width: 30, height: 9 };
    assert_eq!(center_chunks(frame, 100, 50), frame);
    assert_eq!(center_chunks(frame, 30, 9), frame);
    let r = center_chunks(frame, 40, 3);
    assert_eq!((r.x, r.width), (2, 30));
    assert!(inside(frame, r));
}

#[test]
fn prompt_types_and_erases() {
    let mut p = Prompt::new();
    assert!(!p.handle(Input::Press(Key::Char('h'))));
    assert!(!p.handle(Input::Press(Key::Char('é'))));
    assert!(!p.handle(Input::Press(Key::Char('x'))));
    assert!(!p.handle(Input::Press(Key::Backspace)));
    assert_eq!(p.text(), "hé");
    assert!(!p.handle(Input::ScrollUp));
    assert!(!p.handle(Input::Press(Key::Esc)));
    assert!(p.handle(Input::Press(Key::Enter)));
    assert_eq!(p.text(), "hé");
    let mut q = Prompt::new();
    assert!(!q.handle(Input::Press(Key::Backspace)));
    assert_eq!(q.text(), "");
}

#[test]
fn prompt_box_widths() {
    assert_eq!(prompt_box_width(15, 4), Some(19));
    assert_eq!(prompt_box_width(2, 30), Some(34));
    assert_eq!(prompt_box_width(65531, 0), Some(65535));
    assert_eq!(prompt_box_width(65532, 0), None);
    assert_eq!(prompt_box_width(0, 65532), None);
    assert_eq!(prompt_box_width(65536 + 1, 0), Some(5));
}

#[test]
fn torrent_names() {
    assert_eq!(torrent_file_name("https://nyaa.si/download/1730000.torrent"), "1730000.torrent");
    assert_eq!(torrent_file_name("file.torrent"), "file.torrent");
}

#[test]
fn menu_inputs() {
    assert_eq!(menu_step(1, 3, Input::Press(Key::Esc)), MenuAction::Exit);
    assert_eq!(menu_step(1, 3, Input::Press(Key::Char('w'))), MenuAction::Move(0));
    assert_eq!(menu_step(0, 3, Input::Press(Key::Up)), MenuAction::Move(0));
    assert_eq!(menu_step(2, 3, Input::ScrollDown), MenuAction::Move(3));
    assert_eq!(menu_step(1, 3, Input::Press(Key::Right)), MenuAction::Update { index: 1, delta: 1 });
    assert_eq!(menu_step(1, 3, Input::Press(Key::Char('d'))), MenuAction::Update { index: 1, delta: 1 });
    assert_eq!(menu_step(1, 3, Input::MouseUp(Button::Right)), MenuAction::Update { index: 1, delta: 1 });
    assert_eq!(menu_step(1, 3, Input::Press(Key::Left)), MenuAction::Update { index: 1, delta: -1 });
    assert_eq!(menu_step(1, 3, Input::Press(Key::Char('a'))), MenuAction::Update { index: 1, delta: -1 });
    assert_eq!(menu_step(1, 3, Input::MouseUp(Button::Left)), MenuAction::Update { index: 1, delta: -1 });
    assert_eq!(menu_step(1, 3, Input::Press(Key::Char(' '))), MenuAction::Watch(1));
    assert_eq!(menu_step(1, 3, Input::Press(Key::Enter)), MenuAction::Watch(1));
    assert_eq!(menu_step(1, 3, Input::Press(Key::Char('x'))), MenuAction::Ignore);
    assert_eq!(menu_step(1, 3, Input::MouseUp(Button::Middle)), MenuAction::Ignore);
}

#[test]
fn menu_after_watching() {
    assert_eq!(after_watch(2, true), MenuAction::Update { index: 2, delta: 1 });
    assert_eq!(after_watch(2, false), MenuAction::Ignore);
}

#[test]
fn menu_line_text() {
    let a = Anime { id: 1, name: String::from("Frieren"), progress: 3, episodes: 28 };
    assert_eq!(entry_line(&a), "Frieren 3/28");
}

#[test]
fn each_update_is_followed_by_one_reload() {
    assert_eq!(opening_calls(), vec![Call::Load]);
    assert_eq!(calls_for(MenuAction::Update { index: 2, delta: -1 }), vec![Call::Update { index: 2, delta: -1 }, Call::Load]);
    assert_eq!(calls_for(MenuAction::Watch(1)), vec![Call::Watch(1)]);
    assert!(calls_for(MenuAction::Ignore).is_empty());
    assert!(calls_for(MenuAction::Move(3)).is_empty());
    assert!(calls_for(MenuAction::Exit).is_empty());
    let actions = [
        MenuAction::Update { index: 0, delta: 1 },
        MenuAction::Move(1),
        MenuAction::Watch(1),
        after_watch(1, true),
        MenuAction::Watch(0),
        after_watch(0, false),
        MenuAction::Update { index: 1, delta: -1 },
    ];
    let mut calls = opening_calls();
    for a in actions {
        calls.extend(calls_for(a));
    }
    let loads = calls.iter().filter(|c| **c == Call::Load).count();
    let updates = calls.iter().filter(|c| matches!(c, Call::Update { .. })).count();
    assert_eq!(updates, 3);
    assert_eq!(loads, 1 + updates);
    for i in 1..calls.len() {
        if calls[i] == Call::Load {
            assert!(matches!(calls[i - 1], Call::Update { .. }));
        }
    }
}
