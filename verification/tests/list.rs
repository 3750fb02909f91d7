use rush::process::{ListerOutcome, ProcessState, StatefulList};

const EXEC_PREFIX: &str = "Failed to exec ps -ef, err msg:";
const DECODE_PREFIX: &str = "Failed to convert output to utf8 string, msg:";

fn text(s: &str) -> ListerOutcome {
    ListerOutcome::Text(s.to_string())
}

#[test]
fn refresh_keeps_header_and_matching_lines_in_order() {
    let mut st = ProcessState::new();
    st.append_filter_char('s');
    st.append_filter_char('h');
    st.refresh(&text("PID CMD\n1 bash\n2 vim\n3 zsh\n4 cargo"));
    assert_eq!(st.content.items, vec!["PID CMD", "1 bash", "3 zsh"]);
}

#[test]
fn refresh_with_empty_filter_keeps_every_line() {
    let mut st = ProcessState::new();
    st.refresh(&text("PID CMD\n1 bash\n2 vim"));
    assert_eq!(st.content.items, vec!["PID CMD", "1 bash", "2 vim"]);
}

#[test]
fn refresh_keeps_header_even_when_it_does_not_match() {
    let mut st = ProcessState::new();
    st.append_filter_char('z');
    st.refresh(&text("PID CMD\n1 bash"));
    assert_eq!(st.content.items, vec!["PID CMD"]);
}

#[test]
fn filter_match_is_case_sensitive_and_untrimmed() {
    let mut st = ProcessState::new();
    st.append_filter_char('B');
    st.refresh(&text("HDR\nbash\nBash"));
    assert_eq!(st.content.items, vec!["HDR", "Bash"]);
}

#[test]
fn refresh_splits_lines_like_the_lister_output() {
    let mut st = ProcessState::new();
    st.refresh(&text("HDR\r\none\r\ntwo\n"));
    assert_eq!(st.content.items, vec!["HDR", "one", "two"]);
}

#[test]
fn refresh_of_empty_text_clears_the_list() {
    let mut st = ProcessState::new();
    st.refresh(&text("HDR\nline"));
    st.refresh(&text(""));
    assert!(st.content.items.is_empty());
}

#[test]
fn refresh_is_idempotent_for_a_deterministic_lister() {
    let mut st = ProcessState::new();
    st.append_filter_char('a');
    let outcome = text("HDR\nbash\nvim\ncargo");
    st.refresh(&outcome);
    let once = st.content.items.clone();
    st.refresh(&outcome);
    assert_eq!(st.content.items, once);
}

#[test]
fn refresh_rebuilds_rather_than_patches() {
    let mut st = ProcessState::new();
    st.refresh(&text("HDR\nfirst"));
    st.refresh(&text("HDR\nsecond"));
    assert_eq!(st.content.items, vec!["HDR", "second"]);
}

#[test]
fn exec_failure_yields_exactly_two_diagnostic_lines() {
    let mut st = ProcessState::new();
    st.refresh(&ListerOutcome::ExecFailed("No such file or directory".to_string()));
    assert_eq!(st.content.items.len(), 2);
    assert_eq!(st.content.items[0], EXEC_PREFIX);
    assert_eq!(st.content.items[1], "No such file or directory");
}

#[test]
fn decode_failure_yields_its_own_prefix() {
    let mut st = ProcessState::new();
    st.refresh(&ListerOutcome::DecodeFailed("invalid utf-8".to_string()));
    assert_eq!(st.content.items.len(), 2);
    assert_eq!(st.content.items[0], DECODE_PREFIX);
    assert_eq!(st.content.items[1], "invalid utf-8");
    assert_ne!(EXEC_PREFIX, DECODE_PREFIX);
}

#[test]
fn refresh_does_not_touch_filter_cursor_or_tick() {
    let mut st = ProcessState::new();
    st.append_filter_char('a');
    st.content.select(Some(1));
    st.refresh(&text("HDR\nbash\ncargo"));
    assert_eq!(st.procname, "a");
    assert_eq!(st.content.selected, Some(1));
    assert_eq!(st.tick, 0);
}

#[test]
fn remove_filter_char_drops_last_and_is_safe_on_empty() {
    let mut st = ProcessState::new();
    st.append_filter_char('a');
    st.append_filter_char('b');
    st.remove_filter_char();
    assert_eq!(st.procname, "a");
    st.remove_filter_char();
    assert_eq!(st.procname, "");
    st.remove_filter_char();
    assert_eq!(st.procname, "");
}

fn list_of(n: usize) -> StatefulList {
    let items = (0..n).map(|i| format!("line{}", i)).collect::<Vec<_>>();
    StatefulList { items, selected: None }
}

#[test]
fn selection_moves_forward_and_wraps() {
    let mut list = list_of(3);
    list.select(Some(1));
    list.move_selection(true);
    assert_eq!(list.selected, Some(2));
    list.move_selection(true);
    assert_eq!(list.selected, Some(0));
}

#[test]
fn selection_moves_backward_and_wraps() {
    let mut list = list_of(3);
    list.select(Some(1));
    list.move_selection(false);
    assert_eq!(list.selected, Some(0));
    list.move_selection(false);
    assert_eq!(list.selected, Some(2));
}

#[test]
fn selection_cycle_returns_to_start() {
    let mut list = list_of(4);
    list.select(Some(2));
    for _ in 0..4 {
        list.move_selection(true);
    }
    assert_eq!(list.selected, Some(2));
    for _ in 0..4 {
        list.move_selection(false);
    }
    assert_eq!(list.selected, Some(2));
}

#[test]
fn cleared_cursor_stays_cleared() {
    let mut list = list_of(3);
    list.move_selection(true);
    assert_eq!(list.selected, None);
}

#[test]
fn empty_list_clears_the_cursor_instead_of_moving() {
    let mut list = list_of(0);
    list.select(Some(5));
    list.move_selection(true);
    assert_eq!(list.selected, None);
    list.select(Some(5));
    list.move_selection(false);
    assert_eq!(list.selected, None);
}

#[test]
fn dangling_cursor_wraps_to_first_on_forward_move() {
    let mut list = list_of(3);
    list.select(Some(10));
    list.move_selection(true);
    assert_eq!(list.selected, Some(0));
}
