use tmenu::catalog::build_catalog;
use tmenu::entry::{display_line, to_entry, AppEntry, RawEntry};
use tmenu::filter::{filter, matches_entry};
use tmenu::lifecycle::{selection_plan, LaunchStep};
use tmenu::menu::{Action, InputMode, Key, Tmenu};
use tmenu::text::{chars_ci_eq, contains_ci, fold_char, str_eq};

fn chars(s: &str) -> Vec<char> {
    s.chars().collect()
}

fn entry(name: &str, description: Option<&str>, command: &str) -> AppEntry {
    AppEntry {
        name: String::from(name),
        description: description.map(String::from),
        command: String::from(command),
    }
}

fn raw(
    name: Option<&str>,
    exec_cmd: Option<&str>,
    generic_name: Option<&str>,
    no_display: Option<&str>,
) -> RawEntry {
    RawEntry {
        name: name.map(String::from),
        exec_cmd: exec_cmd.map(String::from),
        generic_name: generic_name.map(String::from),
        no_display: no_display.map(String::from),
    }
}

fn menu_over(entries: Vec<AppEntry>) -> Tmenu {
    Tmenu::new(entries)
}

#[test]
fn fold_char_lowers_ascii_uppercase_only() {
    assert_eq!(fold_char('A'), 'a' as u32);
    assert_eq!(fold_char('Z'), 'z' as u32);
    assert_eq!(fold_char('a'), 'a' as u32);
    assert_eq!(fold_char('0'), '0' as u32);
    assert_eq!(fold_char('['), '[' as u32);
    assert_eq!(fold_char('é'), 'é' as u32);
}

#[test]
fn chars_match_up_to_ascii_case() {
    assert!(chars_ci_eq('F', 'f'));
    assert!(chars_ci_eq('f', 'F'));
    assert!(chars_ci_eq('7', '7'));
    assert!(!chars_ci_eq('a', 'b'));
}

#[test]
fn contains_ci_finds_substrings_case_insensitively() {
    assert!(contains_ci("Firefox", &chars("fi")));
    assert!(contains_ci("firefox", &chars("FIRE")));
    assert!(contains_ci("Web Browser", &chars("brow")));
    assert!(!contains_ci("Firefox", &chars("fox2")));
    assert!(!contains_ci("fi", &chars("fire")));
    assert!(contains_ci("anything", &chars("")));
    assert!(contains_ci("", &chars("")));
}

#[test]
fn str_eq_compares_contents() {
    assert!(str_eq("true", "true"));
    assert!(!str_eq("true", "True"));
    assert!(!str_eq("true", "tru"));
    assert!(str_eq("", ""));
}

#[test]
fn to_entry_accepts_a_complete_shortcut() {
    let e = to_entry(raw(Some("Firefox"), Some("firefox"), Some("Web Browser"), None)).unwrap();
    assert_eq!(e.name, "Firefox");
    assert_eq!(e.description.as_deref(), Some("Web Browser"));
    assert_eq!(e.command, "firefox");
}

#[test]
fn to_entry_skips_missing_name_or_command() {
    assert!(to_entry(raw(None, Some("firefox"), None, None)).is_none());
    assert!(to_entry(raw(Some("Firefox"), None, None, None)).is_none());
    assert!(to_entry(raw(Some(""), Some("firefox"), None, None)).is_none());
    assert!(to_entry(raw(Some("Firefox"), Some(""), None, None)).is_none());
}

#[test]
fn to_entry_honours_the_hidden_mark() {
    assert!(to_entry(raw(Some("Files"), Some("nautilus"), None, Some("true"))).is_none());
    assert!(to_entry(raw(Some("Files"), Some("nautilus"), None, Some("false"))).is_some());
    assert!(to_entry(raw(Some("Files"), Some("nautilus"), None, Some("True"))).is_some());
    assert!(to_entry(raw(Some("Files"), Some("nautilus"), None, None)).is_some());
}

#[test]
fn catalog_keeps_scan_order() {
    let c = build_catalog(vec![
        raw(Some("B"), Some("b"), None, None),
        raw(Some("A"), Some("a"), None, None),
        raw(Some("C"), Some("c"), None, None),
    ]);
    let names: Vec<&str> = c.iter().map(|e| e.name.as_str()).collect();
    assert_eq!(names, ["B", "A", "C"]);
}

#[test]
fn duplicate_names_keep_the_first_command() {
    let c = build_catalog(vec![
        raw(Some("Editor"), Some("vim"), None, None),
        raw(Some("Editor"), Some("emacs"), None, None),
    ]);
    assert_eq!(c.len(), 1);
    assert_eq!(c[0].command, "vim");
}

#[test]
fn hidden_or_incomplete_shortcuts_never_enter_the_catalog() {
    let c = build_catalog(vec![
        raw(Some("Hidden"), Some("x"), None, Some("true")),
        raw(Some("NoCommand"), None, None, None),
        raw(None, Some("y"), None, None),
        raw(Some("Shown"), Some("z"), None, None),
    ]);
    assert_eq!(c.len(), 1);
    assert_eq!(c[0].name, "Shown");
}

#[test]
fn three_shortcut_scan_then_search() {
    let c = build_catalog(vec![
        raw(Some("Firefox"), Some("firefox"), Some("Web Browser"), None),
        raw(Some("Files"), Some("nautilus"), None, Some("true")),
        raw(Some("Terminal"), Some("xterm"), None, None),
    ]);
    let names: Vec<&str> = c.iter().map(|e| e.name.as_str()).collect();
    assert_eq!(names, ["Firefox", "Terminal"]);

    let v = filter(&c, &chars("fi"));
    assert_eq!(v, [0]);
    assert_eq!(c[v[0]].name, "Firefox");
}

#[test]
fn empty_search_text_keeps_the_whole_catalog() {
    let c = vec![
        entry("Firefox", Some("Web Browser"), "firefox"),
        entry("Terminal", None, "xterm"),
        entry("Files", None, "nautilus"),
    ];
    assert_eq!(filter(&c, &chars("")), [0, 1, 2]);
}

#[test]
fn filtering_preserves_catalog_order() {
    let c = vec![
        entry("Terminal", None, "xterm"),
        entry("Files", None, "nautilus"),
        entry("Firefox", None, "firefox"),
    ];
    assert_eq!(filter(&c, &chars("f")), [1, 2]);
}

#[test]
fn descriptions_are_searched_too() {
    let c = vec![
        entry("Firefox", Some("Web Browser"), "firefox"),
        entry("Terminal", None, "xterm"),
    ];
    assert_eq!(filter(&c, &chars("browser")), [0]);
    assert!(matches_entry(&c[0], &chars("WEB")));
    assert!(!matches_entry(&c[1], &chars("browser")));
}

#[test]
fn default_state_is_empty_and_browsing() {
    let t = Tmenu::default();
    assert!(t.input.is_empty());
    assert!(t.app_list.is_empty());
    assert!(t.shown.is_empty());
    assert_eq!(t.index, 0);
    assert_eq!(t.mode, InputMode::Browsing);
}

#[test]
fn cursor_wraps_both_ways() {
    let mut t = menu_over(vec![
        entry("A", None, "a"),
        entry("B", None, "b"),
        entry("C", None, "c"),
    ]);
    assert_eq!(t.index, 0);
    t.previous();
    assert_eq!(t.index, 2);
    t.next();
    assert_eq!(t.index, 0);
}

#[test]
fn a_full_cycle_returns_to_the_start() {
    let mut t = menu_over(vec![
        entry("A", None, "a"),
        entry("B", None, "b"),
        entry("C", None, "c"),
    ]);
    t.next();
    let start = t.index;
    for _ in 0..3 {
        t.next();
    }
    assert_eq!(t.index, start);
    for _ in 0..3 {
        t.previous();
    }
    assert_eq!(t.index, start);
}

#[test]
fn cursor_moves_are_no_ops_on_an_empty_view() {
    let mut t = Tmenu::default();
    t.next();
    assert_eq!(t.index, 0);
    t.previous();
    assert_eq!(t.index, 0);

    let mut t = menu_over(vec![entry("A", None, "a")]);
    assert_eq!(t.handle_key(Key::Char('/')), Action::Continue);
    for c in "zzz".chars() {
        assert_eq!(t.handle_key(Key::Char(c)), Action::Continue);
    }
    assert!(t.shown.is_empty());
    t.next();
    t.previous();
    assert_eq!(t.index, 0);
}

#[test]
fn slash_enters_editing_and_escape_returns() {
    let mut t = menu_over(vec![entry("A", None, "a")]);
    assert_eq!(t.mode, InputMode::Browsing);
    t.handle_key(Key::Char('/'));
    assert_eq!(t.mode, InputMode::Editing);
    t.handle_key(Key::Esc);
    assert_eq!(t.mode, InputMode::Browsing);
}

#[test]
fn confirming_a_search_returns_to_browsing() {
    let mut t = menu_over(vec![entry("A", None, "a")]);
    t.handle_key(Key::Char('/'));
    t.handle_key(Key::Char('a'));
    assert_eq!(t.mode, InputMode::Editing);
    t.handle_key(Key::Enter);
    assert_eq!(t.mode, InputMode::Browsing);
    assert_eq!(t.input, ['a']);
}

#[test]
fn typing_filters_and_backspace_widens() {
    let mut t = menu_over(vec![
        entry("Firefox", Some("Web Browser"), "firefox"),
        entry("Terminal", None, "xterm"),
        entry("Files", None, "nautilus"),
    ]);
    t.handle_key(Key::Char('/'));
    t.handle_key(Key::Char('f'));
    t.handle_key(Key::Char('i'));
    assert_eq!(t.input, ['f', 'i']);
    assert_eq!(t.shown, [0, 2]);
    t.handle_key(Key::Char('r'));
    assert_eq!(t.shown, [0]);
    t.handle_key(Key::Backspace);
    assert_eq!(t.shown, [0, 2]);
    t.handle_key(Key::Backspace);
    t.handle_key(Key::Backspace);
    assert_eq!(t.shown, [0, 1, 2]);
    t.handle_key(Key::Backspace);
    assert_eq!(t.input, Vec::<char>::new());
    assert_eq!(t.shown, [0, 1, 2]);
}

#[test]
fn the_cursor_is_rederived_when_the_view_shrinks() {
    let mut t = menu_over(vec![
        entry("Alpha", None, "a"),
        entry("Beta", None, "b"),
        entry("Gamma", None, "c"),
    ]);
    t.next();
    t.next();
    assert_eq!(t.index, 2);
    t.handle_key(Key::Char('/'));
    t.handle_key(Key::Char('a'));
    assert_eq!(t.shown, [0, 1, 2]);
    assert_eq!(t.index, 2);
    t.handle_key(Key::Char('m'));
    assert_eq!(t.shown, [2]);
    assert_eq!(t.index, 0);
}

#[test]
fn enter_while_browsing_launches_the_highlighted_entry() {
    let mut t = menu_over(vec![
        entry("Firefox", None, "firefox"),
        entry("Terminal", None, "xterm"),
    ]);
    t.next();
    let a = t.handle_key(Key::Enter);
    assert_eq!(a, Action::Launch(1));
    match a {
        Action::Launch(ci) => assert_eq!(t.app_list[ci].command, "xterm"),
        _ => unreachable!(),
    }
}

#[test]
fn enter_on_an_empty_view_launches_nothing() {
    let mut t = Tmenu::default();
    assert_eq!(t.handle_key(Key::Enter), Action::Continue);
}

#[test]
fn escape_while_browsing_quits() {
    let mut t = menu_over(vec![entry("A", None, "a")]);
    assert_eq!(t.handle_key(Key::Esc), Action::Quit);
}

#[test]
fn ignored_keys_change_nothing() {
    let mut t = menu_over(vec![entry("A", None, "a")]);
    assert_eq!(t.handle_key(Key::Other), Action::Continue);
    assert_eq!(t.handle_key(Key::Backspace), Action::Continue);
    assert_eq!(t.handle_key(Key::Char('x')), Action::Continue);
    assert_eq!(t.mode, InputMode::Browsing);
    assert_eq!(t.input, Vec::<char>::new());
    assert_eq!(t.shown, [0]);
    assert_eq!(t.index, 0);
}

#[test]
fn selection_restores_the_terminal_before_spawning() {
    let mut t = menu_over(vec![entry("Firefox", None, "firefox")]);
    let a = t.handle_key(Key::Enter);
    assert_eq!(a, Action::Launch(0));

    // Replay the plan the way the event loop would, recording each signal.
    let mut signals: Vec<&str> = Vec::new();
    for step in selection_plan() {
        match step {
            LaunchStep::RestoreTerminal => signals.push("raw mode disabled"),
            LaunchStep::SpawnCommand => signals.push("spawned"),
            LaunchStep::ExitSuccess => signals.push("exited"),
        }
    }
    let restore = signals.iter().position(|s| *s == "raw mode disabled").unwrap();
    let spawn = signals.iter().position(|s| *s == "spawned").unwrap();
    assert!(restore < spawn);
    assert_eq!(signals.last(), Some(&"exited"));
}

#[test]
fn display_lines_show_the_description_when_present() {
    assert_eq!(
        display_line(&entry("Firefox", Some("Web Browser"), "firefox")),
        "Firefox [Web Browser]"
    );
    assert_eq!(display_line(&entry("Terminal", None, "xterm")), "Terminal");
    assert_eq!(display_line(&entry("Files", Some(""), "nautilus")), "Files");
}
