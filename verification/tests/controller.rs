use rush::app::{App, Focus, REFRESH_THRESHOLD_MS};
use rush::process::ListerOutcome;

fn fresh() -> App {
    App::new("rush".to_string())
}

#[test]
fn new_app_starts_on_tab_bar() {
    let app = fresh();
    assert_eq!(app.focus, Focus::Tab);
    assert_eq!(app.tabs.index, 0);
    assert_eq!(app.tabs.titles, vec!["process", "tab1", "tab2"]);
    assert!(!app.should_quit);
    assert_eq!(app.title, "rush");
}

#[test]
fn down_from_tab_bar_enters_filter_input_only_on_first_tab() {
    let mut app = fresh();
    app.on_down();
    assert_eq!(app.focus, Focus::ProcessInput);

    let mut app = fresh();
    app.on_right();
    assert_eq!(app.tabs.index, 1);
    app.on_down();
    assert_eq!(app.focus, Focus::Tab);
}

#[test]
fn down_from_filter_input_enters_list_and_selects_first_row() {
    let mut app = fresh();
    app.on_down();
    app.on_down();
    assert_eq!(app.focus, Focus::ProcessList);
    assert_eq!(app.process.content.selected, Some(0));
}

#[test]
fn character_in_list_returns_to_filter_input_and_clears_cursor() {
    let mut app = fresh();
    app.on_down();
    app.on_down();
    let refresh = app.on_key('x');
    assert_eq!(app.focus, Focus::ProcessInput);
    assert_eq!(app.process.content.selected, None);
    assert!(!refresh);
    // the character is discarded, not appended to the filter
    assert_eq!(app.process.procname, "");
}

#[test]
fn up_from_filter_input_returns_to_tab_bar() {
    let mut app = fresh();
    app.on_down();
    app.on_up();
    assert_eq!(app.focus, Focus::Tab);
}

#[test]
fn up_and_down_move_the_cursor_in_the_list() {
    let mut app = fresh();
    app.process.refresh(&ListerOutcome::Text("HDR\none\ntwo".to_string()));
    app.on_down();
    app.on_down();
    assert_eq!(app.process.content.selected, Some(0));
    app.on_down();
    assert_eq!(app.process.content.selected, Some(1));
    app.on_down();
    assert_eq!(app.process.content.selected, Some(2));
    app.on_down();
    assert_eq!(app.process.content.selected, Some(0));
    app.on_up();
    assert_eq!(app.process.content.selected, Some(2));
}

#[test]
fn left_and_right_move_tabs_only_from_tab_bar() {
    let mut app = fresh();
    app.on_right();
    assert_eq!(app.tabs.index, 1);
    app.on_left();
    assert_eq!(app.tabs.index, 0);
    app.on_left();
    assert_eq!(app.tabs.index, 2);

    app.on_left();
    app.on_down();
    // focus stays on the tab bar for a non-zero tab, so keys still move tabs
    app.on_right();
    assert_eq!(app.tabs.index, 2);

    let mut app = fresh();
    app.on_down();
    assert_eq!(app.focus, Focus::ProcessInput);
    app.on_left();
    app.on_right();
    assert_eq!(app.tabs.index, 0);
}

#[test]
fn quit_from_tab_bar_on_q() {
    let mut app = fresh();
    let refresh = app.on_key('q');
    assert!(app.should_quit);
    assert!(!refresh);
}

#[test]
fn other_characters_on_tab_bar_do_nothing() {
    let mut app = fresh();
    app.on_key('x');
    assert!(!app.should_quit);
    assert_eq!(app.process.procname, "");
}

#[test]
fn q_in_filter_input_is_appended_and_does_not_quit() {
    let mut app = fresh();
    app.on_down();
    let refresh = app.on_key('q');
    assert_eq!(app.process.procname, "q");
    assert!(!app.should_quit);
    assert!(refresh);
}

#[test]
fn backspace_edits_only_in_filter_input() {
    let mut app = fresh();
    let refresh = app.on_backspace();
    assert!(!refresh);
    app.on_down();
    app.on_key('a');
    app.on_key('b');
    let refresh = app.on_backspace();
    assert!(refresh);
    assert_eq!(app.process.procname, "a");
}

#[test]
fn ticks_under_the_threshold_trigger_no_refresh() {
    let mut app = fresh();
    assert!(!app.on_tick(250));
    assert!(!app.on_tick(250));
    assert!(!app.on_tick(250));
    assert_eq!(app.process.tick, 750);
    assert!(!app.on_tick(249));
    assert_eq!(app.process.tick, 999);
}

#[test]
fn ticks_summing_to_the_threshold_trigger_exactly_one_refresh() {
    let mut app = fresh();
    let mut refreshes = 0;
    for _ in 0..4 {
        if app.on_tick(250) {
            refreshes += 1;
        }
    }
    assert_eq!(refreshes, 1);
    assert_eq!(app.process.tick, 0);
}

#[test]
fn one_large_tick_reaches_the_threshold() {
    let mut app = fresh();
    assert!(app.on_tick(REFRESH_THRESHOLD_MS as u32));
    assert_eq!(app.process.tick, 0);
}
