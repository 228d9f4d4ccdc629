use iconify_rs::messages::{MessageColor, MessageQueue};
use iconify_rs::{Action, Cli, Config, Key, Mode, Requery, Session};

fn strings(v: &[&str]) -> Vec<String> {
    v.iter().map(|s| s.to_string()).collect()
}

fn args(prefix: Option<&str>, q: Option<&str>) -> Cli {
    Cli {
        prefix: prefix.map(String::from),
        generate_icons_cache: false,
        fetch_collections: false,
        preview: false,
        browse: true,
        no_browse: false,
        verbose: false,
        output_svg: false,
        reset_config: false,
        query: q.map(String::from),
    }
}

const COLS: u16 = 20; // two cells a row
const ROWS: u16 = 30;
const NOW: i64 = 1_000;

fn corpus() -> Vec<String> {
    strings(&["mdi:home", "mdi:cat", "fa:home", "fa:dog", "mdi:dog"])
}

fn started(q: Option<&str>) -> Session {
    let mut s = Session::new(&args(None, q));
    s.requery(Requery::Refresh, Some(corpus()), COLS, ROWS, NOW);
    s
}

fn type_text(s: &mut Session, text: &str) {
    for c in text.chars() {
        assert!(matches!(s.handle_key(Key::Char(c), COLS, NOW), Action::Nothing));
    }
}

#[test]
fn session_starts_browsing_with_initial_search() {
    let s = Session::new(&args(Some("mdi"), Some("home")));
    assert_eq!(s.search_string, "mdi:home");
    assert_eq!(s.mode, Mode::Browsing);
    assert!(s.results.is_empty());
}

#[test]
fn refresh_fills_results_and_resets_selection() {
    let s = started(Some("home"));
    assert_eq!(s.results, strings(&["mdi:home", "fa:home"]));
    assert_eq!(s.selected_index, 0);
    assert_eq!(s.previously_selected_index, None);
    assert!(s.messages.messages.is_empty());
}

#[test]
fn typing_edits_the_search_text() {
    let mut s = started(None);
    assert!(matches!(s.handle_key(Key::Char('s'), COLS, NOW), Action::Nothing));
    assert_eq!(s.mode, Mode::Searching);
    type_text(&mut s, "dog");
    assert_eq!(s.search_string, "dog");
    s.handle_key(Key::Backspace, COLS, NOW);
    assert_eq!(s.search_string, "do");
    assert_eq!(s.status_line(), Some("Enter search: do".to_string()));
}

#[test]
fn arrows_do_not_move_while_searching() {
    let mut s = started(None);
    s.handle_key(Key::Char('s'), COLS, NOW);
    s.handle_key(Key::Right, COLS, NOW);
    assert_eq!(s.selected_index, 0);
}

#[test]
fn commit_requeries_and_returns_to_browsing() {
    let mut s = started(None);
    s.handle_key(Key::Char('s'), COLS, NOW);
    type_text(&mut s, "fa:");
    assert!(matches!(s.handle_key(Key::Enter, COLS, NOW), Action::Requery(Requery::Commit)));
    assert_eq!(s.mode, Mode::Browsing);
    s.requery(Requery::Commit, Some(corpus()), COLS, ROWS, NOW);
    assert_eq!(s.results, strings(&["fa:home", "fa:dog"]));
    assert_eq!(s.mode, Mode::Browsing);
}

#[test]
fn empty_commit_warns_and_keeps_searching() {
    let mut s = started(None);
    s.handle_key(Key::Char('s'), COLS, NOW);
    type_text(&mut s, "zebra");
    s.handle_key(Key::Enter, COLS, NOW);
    s.requery(Requery::Commit, Some(corpus()), COLS, ROWS, NOW);
    assert_eq!(s.mode, Mode::Searching);
    assert_eq!(s.search_string, "zebra");
    let m = s.messages.current(NOW).unwrap();
    assert_eq!(m.message, "No icons matching search string.");
    assert_eq!(m.color, MessageColor::Yellow);
}

#[test]
fn invalid_commit_keeps_results_and_warns() {
    let mut s = started(Some("home"));
    s.handle_key(Key::Char('s'), COLS, NOW);
    type_text(&mut s, "&");
    s.handle_key(Key::Enter, COLS, NOW);
    s.requery(Requery::Commit, Some(corpus()), COLS, ROWS, NOW);
    assert_eq!(s.mode, Mode::Searching);
    assert_eq!(s.results, strings(&["mdi:home", "fa:home"]));
    assert_eq!(s.messages.current(NOW).unwrap().message, "Invalid search string.");
}

#[test]
fn failed_retrieval_empties_results_and_warns() {
    let mut s = started(None);
    s.requery(Requery::Refresh, None, COLS, ROWS, NOW);
    assert!(s.results.is_empty());
    assert_eq!(s.mode, Mode::Browsing);
    assert_eq!(s.messages.current(NOW).unwrap().message, "Could not load the icons.");
}

#[test]
fn escape_leaves_search_without_changes() {
    let mut s = started(None);
    s.handle_key(Key::Char('s'), COLS, NOW);
    type_text(&mut s, "x");
    s.handle_key(Key::Esc, COLS, NOW);
    assert_eq!(s.mode, Mode::Browsing);
    assert_eq!(s.search_string, "x");
    assert_eq!(s.results.len(), 5);
}

#[test]
fn escape_or_q_quits_while_browsing() {
    let mut s = started(None);
    assert!(matches!(s.handle_key(Key::Esc, COLS, NOW), Action::Quit));
    assert!(matches!(s.handle_key(Key::Char('q'), COLS, NOW), Action::Quit));
}

#[test]
fn enter_selects_the_current_icon() {
    let mut s = started(None);
    s.handle_key(Key::Char('l'), COLS, NOW);
    s.handle_key(Key::Char('j'), COLS, NOW);
    assert_eq!(s.selected_index, 3);
    assert_eq!(s.previously_selected_index, Some(1));
    assert_eq!(s.status_line(), Some("fa:dog".to_string()));
    match s.handle_key(Key::Enter, COLS, NOW) {
        Action::Select(id) => assert_eq!(id, "fa:dog"),
        other => panic!("expected a selection, got {:?}", other),
    }
}

#[test]
fn down_on_last_row_keeps_selection() {
    let mut s = started(None);
    s.handle_key(Key::Down, COLS, NOW);
    s.handle_key(Key::Down, COLS, NOW);
    assert_eq!(s.selected_index, 4);
    assert_eq!(s.previously_selected_index, Some(2));
    s.handle_key(Key::Down, COLS, NOW);
    assert_eq!(s.selected_index, 4);
    assert_eq!(s.previously_selected_index, Some(2));
}

#[test]
fn copy_pushes_a_message() {
    let mut s = started(None);
    match s.handle_key(Key::Char('c'), COLS, NOW) {
        Action::Copy(id) => assert_eq!(id, "mdi:home"),
        other => panic!("expected a copy, got {:?}", other),
    }
    let m = s.messages.current(NOW).unwrap();
    assert_eq!(m.message, "Copied 'mdi:home' to clipboard!");
    assert_eq!(m.color, MessageColor::Green);
    assert_eq!(m.delete_at, NOW + 2000);
}

#[test]
fn custom_copy_uses_the_template() {
    let mut s = started(None);
    match s.handle_key(Key::Char('C'), COLS, NOW) {
        Action::CopyCustom(id) => assert_eq!(id, "mdi:home"),
        other => panic!("expected a custom copy, got {:?}", other),
    }
    let config = Config { default_browse: None, custom_output: Some("<Icon icon=\"{icon}\" />".to_string()) };
    assert_eq!(s.custom_output_for(&config, "mdi:home", NOW), Some("<Icon icon=\"mdi:home\" />".to_string()));
    assert_eq!(s.messages.current(NOW).unwrap().message, "Custom output copied to clipboard.");
    let none = Config { default_browse: None, custom_output: Some(String::new()) };
    assert_eq!(s.custom_output_for(&none, "mdi:home", NOW), None);
    assert_eq!(s.messages.current(NOW).unwrap().message, "No custom output defined.");
}

#[test]
fn g_narrows_to_the_selected_collection() {
    let mut s = started(None);
    s.handle_key(Key::Right, COLS, NOW);
    s.handle_key(Key::Right, COLS, NOW);
    assert!(matches!(s.handle_key(Key::Char('g'), COLS, NOW), Action::Requery(Requery::Collection)));
    assert_eq!(s.search_string, "fa:");
    assert_eq!(s.messages.current(NOW).unwrap().message, "Showing collection 'fa'");
    s.requery(Requery::Collection, Some(corpus()), COLS, ROWS, NOW);
    assert_eq!(s.results, strings(&["fa:home", "fa:dog"]));
    assert_eq!(s.selected_index, 0);
}

#[test]
fn keys_on_empty_results_do_nothing() {
    let mut s = Session::new(&args(None, None));
    assert!(matches!(s.handle_key(Key::Enter, COLS, NOW), Action::Nothing));
    assert!(matches!(s.handle_key(Key::Char('c'), COLS, NOW), Action::Nothing));
    assert!(matches!(s.handle_key(Key::Char('g'), COLS, NOW), Action::Nothing));
    assert!(matches!(s.handle_key(Key::Right, COLS, NOW), Action::Nothing));
    assert_eq!(s.selected_index, 0);
    assert_eq!(s.status_line(), None);
}

#[test]
fn message_queue_shows_newest_and_prunes_expired() {
    let mut q = MessageQueue::new();
    q.push("first".to_string(), MessageColor::Blue, 0);
    q.push("second".to_string(), MessageColor::Green, 1_000);
    assert_eq!(q.current(1_500).unwrap().message, "second");
    q.prune(2_500);
    assert_eq!(q.messages.len(), 1);
    assert_eq!(q.messages[0].message, "second");
    assert!(q.current(3_001).is_none());
    q.prune(3_001);
    assert!(q.messages.is_empty());
}

#[test]
fn resize_reruns_the_committed_search_not_the_edited_text() {
    let mut s = started(Some("home"));
    s.handle_key(Key::Char('s'), COLS, NOW);
    type_text(&mut s, "cat");
    s.handle_key(Key::Esc, COLS, NOW);
    assert_eq!(s.search_string, "homecat");
    s.requery(Requery::Refresh, Some(corpus()), COLS, ROWS, NOW);
    assert_eq!(s.results, strings(&["mdi:home", "fa:home"]));
    assert_eq!(s.committed_query, Some("home".to_string()));
}

#[test]
fn commit_becomes_the_search_a_resize_reruns() {
    let mut s = started(None);
    s.handle_key(Key::Char('s'), COLS, NOW);
    type_text(&mut s, "mdi:dog");
    s.handle_key(Key::Enter, COLS, NOW);
    s.requery(Requery::Commit, Some(corpus()), COLS, ROWS, NOW);
    assert_eq!(s.committed_prefix, Some("mdi".to_string()));
    assert_eq!(s.committed_query, Some("dog".to_string()));
    s.handle_key(Key::Char('s'), COLS, NOW);
    type_text(&mut s, "x");
    s.handle_key(Key::Esc, COLS, NOW);
    s.requery(Requery::Refresh, Some(corpus()), COLS, ROWS, NOW);
    assert_eq!(s.results, strings(&["mdi:dog"]));
}

#[test]
fn current_message_is_newest_unexpired_one() {
    let mut q = MessageQueue::new();
    q.push("older".to_string(), MessageColor::Green, 3_000);
    q.push("newer".to_string(), MessageColor::Yellow, -1_000);
    assert_eq!(q.current(2_000).unwrap().message, "older");
    assert!(q.current(5_001).is_none());
}
