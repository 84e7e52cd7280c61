use follow_audit::browser::{App, Frame, Row};

fn names(count: usize) -> Vec<String> {
    (0..count).map(|i| format!("user{}", i)).collect()
}

fn row(username: &str, is_selected: bool) -> Row {
    Row { username: username.to_string(), is_selected }
}

#[test]
fn new_browser_selects_the_first_row() {
    let app = App::new(names(3));
    assert_eq!(app.selected(), 0);
    assert_eq!(app.scroll_offset(), 0);
    assert_eq!(app.non_mutual_follows(), &names(3));
    assert_eq!(app.get_selected_username(), Some(&"user0".to_string()));
}

#[test]
fn next_stops_on_the_last_row() {
    let mut app = App::new(names(3));
    app.next();
    assert_eq!(app.selected(), 1);
    app.next();
    assert_eq!(app.selected(), 2);
    for _ in 0..5 {
        app.next();
        assert_eq!(app.selected(), 2);
    }
    assert_eq!(app.get_selected_username(), Some(&"user2".to_string()));
}

#[test]
fn previous_stops_on_the_first_row() {
    let mut app = App::new(names(3));
    for _ in 0..5 {
        app.previous();
        assert_eq!(app.selected(), 0);
    }
    app.next();
    app.next();
    app.previous();
    assert_eq!(app.selected(), 1);
    app.previous();
    app.previous();
    assert_eq!(app.selected(), 0);
}

#[test]
fn moves_do_not_scroll_or_change_the_list() {
    let mut app = App::new(names(4));
    app.next();
    app.next();
    app.previous();
    assert_eq!(app.scroll_offset(), 0);
    assert_eq!(app.non_mutual_follows(), &names(4));
}

#[test]
fn empty_browser_selects_nothing() {
    let mut app = App::new(Vec::new());
    assert_eq!(app.get_selected_username(), None);
    app.next();
    assert_eq!(app.selected(), 0);
    app.previous();
    assert_eq!(app.selected(), 0);
    app.adjust_scroll(5);
    assert_eq!(app.scroll_offset(), 0);
    assert_eq!(app.plan(5), Vec::<Row>::new());
    assert_eq!(app.get_selected_username(), None);
}

#[test]
fn single_row_browser_stays_put() {
    let mut app = App::new(names(1));
    app.next();
    app.previous();
    app.next();
    assert_eq!(app.selected(), 0);
    assert_eq!(app.get_selected_username(), Some(&"user0".to_string()));
}

#[test]
fn scroll_follows_the_selection_down() {
    let mut app = App::new(names(10));
    for _ in 0..5 {
        app.next();
    }
    app.adjust_scroll(3);
    assert_eq!(app.scroll_offset(), 3);
    app.next();
    app.adjust_scroll(3);
    assert_eq!(app.scroll_offset(), 4);
    app.adjust_scroll(3);
    assert_eq!(app.scroll_offset(), 4);
}

#[test]
fn scroll_follows_the_selection_up() {
    let mut app = App::new(names(10));
    for _ in 0..9 {
        app.next();
    }
    app.adjust_scroll(4);
    assert_eq!(app.scroll_offset(), 6);
    app.previous();
    app.adjust_scroll(4);
    assert_eq!(app.scroll_offset(), 6);
    for _ in 0..4 {
        app.previous();
    }
    app.adjust_scroll(4);
    assert_eq!(app.scroll_offset(), 4);
    assert_eq!(app.selected(), 4);
}

#[test]
fn scroll_keeps_still_while_the_selection_is_visible() {
    let mut app = App::new(names(10));
    app.next();
    app.next();
    app.adjust_scroll(3);
    assert_eq!(app.scroll_offset(), 0);
    app.next();
    app.adjust_scroll(3);
    assert_eq!(app.scroll_offset(), 1);
    app.previous();
    app.adjust_scroll(3);
    assert_eq!(app.scroll_offset(), 1);
}

#[test]
fn selection_is_visible_after_any_moves_and_a_scroll() {
    let mut app = App::new(names(7));
    let moves = [1, 1, 1, 0, 1, 1, 1, 1, 1, 1, 0, 0, 0, 0, 0, 0, 0, 1, 1, 0, 1];
    for height in 1..9usize {
        for step in moves {
            if step == 1 {
                app.next();
            } else {
                app.previous();
            }
            app.adjust_scroll(height);
            assert!(app.selected() < 7);
            assert!(app.scroll_offset() <= app.selected());
            assert!(app.selected() < app.scroll_offset() + height);
        }
    }
}

#[test]
fn window_resize_brings_the_selection_back() {
    let mut app = App::new(names(20));
    for _ in 0..12 {
        app.next();
    }
    app.adjust_scroll(10);
    assert_eq!(app.scroll_offset(), 3);
    app.adjust_scroll(4);
    assert_eq!(app.scroll_offset(), 9);
    app.adjust_scroll(1);
    assert_eq!(app.scroll_offset(), 12);
    app.adjust_scroll(20);
    assert_eq!(app.scroll_offset(), 12);
}

#[test]
fn scroll_for_a_window_without_rows() {
    let mut app = App::new(names(5));
    app.next();
    app.next();
    app.adjust_scroll(0);
    assert_eq!(app.scroll_offset(), 3);
    assert_eq!(app.plan(0), Vec::<Row>::new());
    app.adjust_scroll(0);
    assert_eq!(app.scroll_offset(), 2);
    app.adjust_scroll(2);
    assert_eq!(app.scroll_offset(), 2);
}

#[test]
fn plan_gives_the_rows_of_the_window() {
    let mut app = App::new(names(6));
    for _ in 0..4 {
        app.next();
    }
    app.adjust_scroll(3);
    assert_eq!(
        app.plan(3),
        vec![row("user2", false), row("user3", false), row("user4", true)]
    );
    app.previous();
    app.adjust_scroll(3);
    assert_eq!(
        app.plan(3),
        vec![row("user2", false), row("user3", true), row("user4", false)]
    );
}

#[test]
fn plan_stops_at_the_end_of_the_list() {
    let mut app = App::new(names(4));
    assert_eq!(
        app.plan(10),
        vec![row("user0", true), row("user1", false), row("user2", false), row("user3", false)]
    );
    for _ in 0..3 {
        app.next();
    }
    app.adjust_scroll(2);
    assert_eq!(app.plan(2), vec![row("user2", false), row("user3", true)]);
    assert_eq!(app.plan(usize::MAX), vec![row("user2", false), row("user3", true)]);
    assert_eq!(app.plan(1), vec![row("user2", false)]);
}

#[test]
fn plan_never_gives_more_rows_than_the_window_has() {
    let mut app = App::new(names(9));
    for step in 0..20usize {
        if step % 3 == 2 {
            app.previous();
        } else {
            app.next();
        }
        for height in 0..12usize {
            app.adjust_scroll(height);
            let rows = app.plan(height);
            assert!(rows.len() <= height);
            assert!(app.scroll_offset() + rows.len() <= 9 || rows.is_empty());
            let marked = rows.iter().filter(|row| row.is_selected).count();
            assert_eq!(marked, if height == 0 { 0 } else { 1 });
            for (i, row) in rows.iter().enumerate() {
                assert_eq!(row.username, format!("user{}", app.scroll_offset() + i));
                assert_eq!(row.is_selected, app.scroll_offset() + i == app.selected());
            }
        }
    }
}

#[test]
fn frame_scrolls_and_counts_from_one() {
    let mut app = App::new(names(8));
    for _ in 0..6 {
        app.next();
    }
    let frame = app.frame(3);
    assert_eq!(
        frame,
        Frame {
            rows: vec![row("user4", false), row("user5", false), row("user6", true)],
            total: 8,
            position: 7,
        }
    );
    assert_eq!(app.scroll_offset(), 4);
    let first = App::new(names(2)).frame(5);
    assert_eq!(
        first,
        Frame { rows: vec![row("user0", true), row("user1", false)], total: 2, position: 1 }
    );
}

#[test]
fn clone_keeps_the_state() {
    let mut app = App::new(names(5));
    app.next();
    app.next();
    app.adjust_scroll(1);
    let copy = app.clone();
    assert_eq!(copy.selected(), 2);
    assert_eq!(copy.scroll_offset(), 2);
    assert_eq!(copy.non_mutual_follows(), app.non_mutual_follows());
}
