//! End-to-end tests of the pager core against concrete values.

use streampager::adapter::{parse_line, SourceBuffer};
use streampager::controller::{
    Controller, Effect, Event, ExitStatus, SessionEnd, StartConfig,
};
use streampager::error::Error;
use streampager::keymap::{Action, Binding, KeymapTable, Mode};
use streampager::line::Line;
use streampager::render::{line_segments, matches_in_view, plan_rows, visible_range};
use streampager::search::{Match, SearchState};
use streampager::store::LineStore;

fn plain_line(source: usize, text: &str) -> Line {
    Line { source, text: text.to_string(), styles: Vec::new() }
}

fn chars(s: &str) -> Vec<char> {
    s.chars().collect()
}

const KEY_Q: u32 = 113;
const KEY_SLASH: u32 = 47;
const KEY_ENTER: u32 = 13;
const KEY_ESC: u32 = 27;
const KEY_DOWN: u32 = 106;
const KEY_UP: u32 = 107;
const KEY_N: u32 = 110;

fn test_keymap() -> KeymapTable {
    let entries = vec![
        Binding { mode: Mode::Streaming, keys: vec![KEY_Q], action: Action::Quit },
        Binding { mode: Mode::FullScreen, keys: vec![KEY_Q], action: Action::Quit },
        Binding { mode: Mode::FullScreen, keys: vec![KEY_SLASH], action: Action::SearchBegin },
        Binding { mode: Mode::FullScreen, keys: vec![KEY_DOWN], action: Action::ScrollDown },
        Binding { mode: Mode::FullScreen, keys: vec![KEY_UP], action: Action::ScrollUp },
        Binding { mode: Mode::FullScreen, keys: vec![KEY_N], action: Action::SearchNext },
        Binding { mode: Mode::SearchInput, keys: vec![KEY_ENTER], action: Action::SearchAccept },
        Binding { mode: Mode::SearchInput, keys: vec![KEY_ESC], action: Action::SearchCancel },
    ];
    KeymapTable::new(entries).expect("no duplicates")
}

fn key(code: u32) -> Event {
    let ch = char::from_u32(code);
    Event::Key { code, ch }
}

// Line store: indices are contiguous from zero and entries come back
// exactly as appended.

#[test]
fn store_append_returns_contiguous_indices() {
    let mut store = LineStore::new();
    assert_eq!(store.len(), 0);
    for i in 0..5usize {
        let idx = store.append(plain_line(0, &format!("line {i}")));
        assert_eq!(idx, i);
        assert_eq!(store.len(), i + 1);
    }
    for i in 0..5usize {
        let l = store.get(i);
        assert_eq!(l.text, format!("line {i}"));
        assert_eq!(l.source, 0);
    }
}

#[test]
fn store_append_never_mutates_earlier_entries() {
    let mut store = LineStore::new();
    store.append(plain_line(1, "first"));
    let before = store.get(0).text.clone();
    store.append(plain_line(2, "second"));
    store.append(plain_line(3, "third"));
    assert_eq!(store.get(0).text, before);
    assert_eq!(store.get(1).text, "second");
    assert_eq!(store.get(2).text, "third");
}

// Search: ordered matches, exact positions, determinism.

#[test]
fn search_finds_ordered_matches() {
    let mut store = LineStore::new();
    store.append(plain_line(0, "abcabc"));
    store.append(plain_line(0, "xxabx"));
    let mut s = SearchState::new(chars("ab")).expect("valid pattern");
    s.extend(&store);
    let got = s.all_matches().clone();
    assert_eq!(
        got,
        vec![
            Match { line: 0, start: 0, end: 2 },
            Match { line: 0, start: 3, end: 5 },
            Match { line: 1, start: 2, end: 4 },
        ]
    );
}

#[test]
fn search_rerun_is_deterministic() {
    let mut store = LineStore::new();
    store.append(plain_line(0, "needle haystack needle"));
    store.append(plain_line(0, "no matches here"));
    store.append(plain_line(0, "needle"));
    let mut a = SearchState::new(chars("needle")).unwrap();
    a.extend(&store);
    let mut b = SearchState::new(chars("needle")).unwrap();
    b.extend(&store);
    assert_eq!(a.all_matches(), b.all_matches());
    assert_eq!(a.all_matches().len(), 3);
}

#[test]
fn search_extend_is_incremental() {
    let mut store = LineStore::new();
    store.append(plain_line(0, "zab"));
    let mut s = SearchState::new(chars("ab")).unwrap();
    s.extend(&store);
    assert_eq!(s.all_matches().len(), 1);
    store.append(plain_line(0, "ab ab"));
    s.extend(&store);
    assert_eq!(
        s.all_matches().clone(),
        vec![
            Match { line: 0, start: 1, end: 3 },
            Match { line: 1, start: 0, end: 2 },
            Match { line: 1, start: 3, end: 5 },
        ]
    );
}

#[test]
fn search_empty_pattern_matches_every_position() {
    let mut store = LineStore::new();
    store.append(plain_line(0, "ab"));
    let mut s = SearchState::new(Vec::new()).expect("empty pattern is valid");
    s.extend(&store);
    assert_eq!(
        s.all_matches().clone(),
        vec![
            Match { line: 0, start: 0, end: 0 },
            Match { line: 0, start: 1, end: 1 },
            Match { line: 0, start: 2, end: 2 },
        ]
    );
}

#[test]
fn search_on_empty_store_finds_nothing() {
    let store = LineStore::new();
    let mut s = SearchState::new(chars("x")).unwrap();
    s.extend(&store);
    assert!(s.all_matches().is_empty());
    assert!(s.next_match(0, 0, true).is_none());
}

#[test]
fn search_rejects_invalid_pattern() {
    let err = SearchState::new(chars("(")).err().expect("must fail");
    match err {
        Error::Pattern { pattern } => assert_eq!(pattern, chars("(")),
        other => panic!("wrong error kind: {other:?}"),
    }
}

#[test]
fn search_next_and_prev() {
    let mut store = LineStore::new();
    store.append(plain_line(0, "x"));
    store.append(plain_line(0, "hit"));
    store.append(plain_line(0, "x"));
    store.append(plain_line(0, "hit"));
    let mut s = SearchState::new(chars("hit")).unwrap();
    s.extend(&store);
    let next = s.next_match(0, usize::MAX, true).expect("match after line 0");
    assert_eq!(next.line, 1);
    let next2 = s.next_match(1, usize::MAX, true).expect("match after line 1");
    assert_eq!(next2.line, 3);
    assert!(s.next_match(3, usize::MAX, true).is_none());
    let prev = s.next_match(3, 0, false).expect("match before line 3");
    assert_eq!(prev.line, 1);
    assert!(s.next_match(1, 0, false).is_none());
}

// Keymap: duplicate rejection and lookup.

#[test]
fn keymap_rejects_duplicate_binding() {
    let entries = vec![
        Binding { mode: Mode::FullScreen, keys: vec![KEY_Q], action: Action::Quit },
        Binding { mode: Mode::FullScreen, keys: vec![KEY_UP], action: Action::ScrollUp },
        Binding { mode: Mode::FullScreen, keys: vec![KEY_Q], action: Action::ScrollDown },
    ];
    match KeymapTable::new(entries) {
        Err(Error::Configuration { first, second }) => {
            assert_eq!((first, second), (0, 2));
        }
        Err(other) => panic!("wrong error kind: {other:?}"),
        Ok(_) => panic!("duplicate binding was accepted"),
    }
}

#[test]
fn keymap_same_keys_in_distinct_modes_are_allowed() {
    let entries = vec![
        Binding { mode: Mode::FullScreen, keys: vec![KEY_Q], action: Action::Quit },
        Binding { mode: Mode::Streaming, keys: vec![KEY_Q], action: Action::Quit },
    ];
    assert!(KeymapTable::new(entries).is_ok());
}

#[test]
fn keymap_resolves_sequences() {
    let entries = vec![
        Binding { mode: Mode::FullScreen, keys: vec![KEY_Q], action: Action::Quit },
        Binding { mode: Mode::FullScreen, keys: vec![KEY_UP, KEY_UP], action: Action::ScrollTop },
    ];
    let t = KeymapTable::new(entries).unwrap();
    assert_eq!(t.resolve(Mode::FullScreen, &vec![KEY_Q]), Some(Action::Quit));
    assert_eq!(t.resolve(Mode::Streaming, &vec![KEY_Q]), None);
    assert_eq!(t.resolve(Mode::FullScreen, &vec![KEY_UP]), None);
    assert!(t.awaits_more(Mode::FullScreen, &vec![KEY_UP]));
    assert!(!t.awaits_more(Mode::FullScreen, &vec![KEY_Q]));
    assert_eq!(
        t.resolve(Mode::FullScreen, &vec![KEY_UP, KEY_UP]),
        Some(Action::ScrollTop)
    );
}

// Mode transitions.

#[test]
fn streaming_flips_to_fullscreen_at_exactly_one_height() {
    let height = 4usize;
    let (mut c, eff0) = Controller::new(StartConfig::Standard, test_keymap(), 1, 80, height);
    assert_eq!(eff0, vec![]);
    assert_eq!(c.current_mode(), Mode::Streaming);
    for i in 0..height - 1 {
        let eff = c.step(Event::SourceLine { source: 0, line: plain_line(0, &format!("l{i}")) });
        assert_eq!(eff, vec![Effect::StreamLine { index: i }]);
        assert_eq!(c.current_mode(), Mode::Streaming);
    }
    // One more line reaches exactly one terminal height.
    let eff = c.step(Event::SourceLine { source: 0, line: plain_line(0, "last") });
    assert_eq!(c.current_mode(), Mode::FullScreen);
    assert_eq!(eff, vec![Effect::EnterAlternate, Effect::Repaint]);
    // The bottom-most visible line is the store's last index.
    assert_eq!(c.viewport_top() + height - 1, c.lines().len() - 1);
}

#[test]
fn immediate_fullscreen_enters_alternate_before_any_line() {
    let (c, eff0) = Controller::new(StartConfig::Fullscreen, test_keymap(), 1, 80, 24);
    assert_eq!(eff0, vec![Effect::EnterAlternate, Effect::Repaint]);
    assert_eq!(c.current_mode(), Mode::FullScreen);
    assert_eq!(c.lines().len(), 0);
}

#[test]
fn delayed_waits_for_timer() {
    let (mut c, _) = Controller::new(StartConfig::Delayed, test_keymap(), 1, 80, 24);
    for i in 0..5 {
        c.step(Event::SourceLine { source: 0, line: plain_line(0, &format!("l{i}")) });
        assert_eq!(c.current_mode(), Mode::Streaming);
    }
    let eff = c.step(Event::TimerFired);
    assert_eq!(c.current_mode(), Mode::FullScreen);
    assert_eq!(eff, vec![Effect::EnterAlternate, Effect::Repaint]);
}

#[test]
fn delayed_also_flips_when_screen_fills_first() {
    let (mut c, _) = Controller::new(StartConfig::Delayed, test_keymap(), 1, 80, 2);
    c.step(Event::SourceLine { source: 0, line: plain_line(0, "a") });
    assert_eq!(c.current_mode(), Mode::Streaming);
    c.step(Event::SourceLine { source: 0, line: plain_line(0, "b") });
    assert_eq!(c.current_mode(), Mode::FullScreen);
}

#[test]
fn no_alternate_never_invokes_alternate_screen() {
    let (mut c, eff0) = Controller::new(StartConfig::NoAlternate, test_keymap(), 1, 80, 2);
    let mut all = eff0;
    for i in 0..6 {
        all.extend(c.step(Event::SourceLine { source: 0, line: plain_line(0, &format!("l{i}")) }));
    }
    assert_eq!(c.current_mode(), Mode::FullScreen);
    all.extend(c.step(key(KEY_Q)));
    assert!(c.session_end().is_some());
    assert!(!all.contains(&Effect::EnterAlternate));
    assert!(!all.contains(&Effect::LeaveAlternate));
}

// Failure locality and exit status.

#[test]
fn source_failure_leaves_other_source_intact() {
    let (mut c, _) = Controller::new(StartConfig::Standard, test_keymap(), 2, 80, 100);
    c.step(Event::SourceLine { source: 1, line: plain_line(1, "healthy 1") });
    let eff = c.step(Event::SourceFailed { source: 0 });
    assert_eq!(eff, vec![Effect::StatusSourceFailed { source: 0 }]);
    c.step(Event::SourceLine { source: 1, line: plain_line(1, "healthy 2") });
    assert_eq!(c.lines().len(), 2);
    assert_eq!(c.lines().get(0).text, "healthy 1");
    assert_eq!(c.lines().get(1).text, "healthy 2");
    // A failure on one of two sources does not turn the exit status
    // into a failure by itself.
    c.step(key(KEY_Q));
    assert_eq!(c.session_end(), Some(SessionEnd::Quit(ExitStatus::Normal)));
}

#[test]
fn quit_after_all_sources_failed_reports_source_failure() {
    let (mut c, _) = Controller::new(StartConfig::Standard, test_keymap(), 2, 80, 24);
    c.step(Event::SourceFailed { source: 0 });
    c.step(Event::SourceFailed { source: 1 });
    c.step(key(KEY_Q));
    assert_eq!(c.session_end(), Some(SessionEnd::Quit(ExitStatus::SourceFailure)));
}

#[test]
fn quit_restores_screen_and_stops_processing() {
    let height = 2usize;
    let (mut c, _) = Controller::new(StartConfig::Standard, test_keymap(), 1, 80, height);
    c.step(Event::SourceLine { source: 0, line: plain_line(0, "a") });
    c.step(Event::SourceLine { source: 0, line: plain_line(0, "b") });
    assert_eq!(c.current_mode(), Mode::FullScreen);
    let eff = c.step(key(KEY_Q));
    assert_eq!(eff, vec![Effect::LeaveAlternate]);
    assert_eq!(c.session_end(), Some(SessionEnd::Quit(ExitStatus::Normal)));
    // Later events are absorbed without change or effect.
    let eff2 = c.step(Event::SourceLine { source: 0, line: plain_line(0, "late") });
    assert_eq!(eff2, vec![]);
    assert_eq!(c.lines().len(), 2);
}

#[test]
fn quit_from_streaming_without_alternate_has_no_restore() {
    let (mut c, _) = Controller::new(StartConfig::Standard, test_keymap(), 1, 80, 24);
    c.step(Event::SourceLine { source: 0, line: plain_line(0, "a") });
    let eff = c.step(key(KEY_Q));
    assert_eq!(eff, vec![]);
    assert_eq!(c.session_end(), Some(SessionEnd::Quit(ExitStatus::Normal)));
}

// Search through the controller.

#[test]
fn search_input_collects_literals_and_accept_runs_search() {
    let (mut c, _) = Controller::new(StartConfig::Fullscreen, test_keymap(), 1, 80, 24);
    c.step(Event::SourceLine { source: 0, line: plain_line(0, "alpha") });
    c.step(Event::SourceLine { source: 0, line: plain_line(0, "beta") });
    c.step(key(KEY_SLASH));
    assert_eq!(c.current_mode(), Mode::SearchInput);
    for ch in "beta".chars() {
        let eff = c.step(Event::Key { code: ch as u32, ch: Some(ch) });
        assert_eq!(eff, vec![Effect::StatusSearchInput]);
    }
    assert_eq!(c.pending_pattern().clone(), chars("beta"));
    let eff = c.step(key(KEY_ENTER));
    assert_eq!(eff, vec![Effect::Repaint]);
    assert_eq!(c.current_mode(), Mode::FullScreen);
    let ms = c.active_matches().expect("search active").clone();
    assert_eq!(ms, vec![Match { line: 1, start: 0, end: 4 }]);
}

#[test]
fn invalid_pattern_reenters_search_input() {
    let (mut c, _) = Controller::new(StartConfig::Fullscreen, test_keymap(), 1, 80, 24);
    c.step(key(KEY_SLASH));
    let open = '(';
    c.step(Event::Key { code: open as u32, ch: Some(open) });
    let eff = c.step(key(KEY_ENTER));
    assert_eq!(eff, vec![Effect::StatusSearchError]);
    assert_eq!(c.current_mode(), Mode::SearchInput);
    assert!(c.pending_pattern().is_empty());
}

#[test]
fn search_next_scrolls_to_match() {
    let (mut c, _) = Controller::new(StartConfig::Fullscreen, test_keymap(), 1, 80, 24);
    for i in 0..30 {
        let text = if i == 17 { "target".to_string() } else { format!("line {i}") };
        c.step(Event::SourceLine { source: 0, line: plain_line(0, &text) });
    }
    c.step(key(KEY_SLASH));
    for ch in "target".chars() {
        c.step(Event::Key { code: ch as u32, ch: Some(ch) });
    }
    c.step(key(KEY_ENTER));
    assert_eq!(c.viewport_top(), 0);
    c.step(key(KEY_N));
    assert_eq!(c.viewport_top(), 17);
}

// Adapter: byte chunks into decoded lines.

#[test]
fn adapter_splits_lines_without_losing_bytes() {
    let mut buf = SourceBuffer::new();
    let lines = buf.feed(&b"ab\ncd".to_vec());
    assert_eq!(lines, vec![b"ab".to_vec()]);
    let lines = buf.feed(&b"ef\n\nrest".to_vec());
    assert_eq!(lines, vec![b"cdef".to_vec(), b"".to_vec()]);
    let lines = buf.feed(&b"\n".to_vec());
    assert_eq!(lines, vec![b"rest".to_vec()]);
}

#[test]
fn ansi_sequences_become_style_runs() {
    let l = parse_line(0, b"\x1b[31mred\x1b[0m plain".to_vec(), "t").unwrap();
    assert_eq!(l.text, "red plain");
    assert_eq!(l.styles.len(), 1);
    assert_eq!((l.styles[0].start, l.styles[0].end, l.styles[0].style), (0, 3, 31));
}

#[test]
fn ansi_trailing_style_run_is_closed() {
    let l = parse_line(0, b"a\x1b[107mbold".to_vec(), "t").unwrap();
    assert_eq!(l.text, "abold");
    assert_eq!(l.styles.len(), 1);
    assert_eq!((l.styles[0].start, l.styles[0].end, l.styles[0].style), (1, 5, 107));
}

#[test]
fn ansi_non_sgr_sequences_are_stripped_without_runs() {
    let l = parse_line(0, b"\x1b[2Jhi\x1bthere".to_vec(), "t").unwrap();
    assert_eq!(l.text, "hithere");
    assert!(l.styles.is_empty());
}

#[test]
fn parse_line_decodes_utf8() {
    let l = parse_line(3, "héllo".as_bytes().to_vec(), "title").expect("valid utf-8");
    assert_eq!(l.text, "héllo");
    assert_eq!(l.source, 3);
    assert!(l.styles.is_empty());
}

#[test]
fn parse_line_reports_failure_with_title() {
    let err = parse_line(0, vec![0xff, 0xfe], "cmd output").err().expect("invalid utf-8");
    match err {
        Error::SourceIo { title } => assert_eq!(title, "cmd output"),
        other => panic!("wrong error kind: {other:?}"),
    }
}

// Renderer layout.

#[test]
fn visible_range_clamps_to_store() {
    assert_eq!(visible_range(10, 2, 3), (2, 5));
    assert_eq!(visible_range(10, 8, 5), (8, 10));
    assert_eq!(visible_range(10, 12, 5), (10, 10));
    assert_eq!(visible_range(0, 0, 5), (0, 0));
}

#[test]
fn plan_rows_lists_visible_indices() {
    assert_eq!(plan_rows(10, 2, 3), vec![2, 3, 4]);
    assert_eq!(plan_rows(4, 2, 10), vec![2, 3]);
    assert!(plan_rows(0, 0, 10).is_empty());
}

#[test]
fn matches_in_view_clips_to_painted_range() {
    let ms = vec![
        Match { line: 0, start: 0, end: 1 },
        Match { line: 3, start: 2, end: 4 },
        Match { line: 3, start: 5, end: 6 },
        Match { line: 9, start: 0, end: 1 },
    ];
    assert_eq!(
        matches_in_view(&ms, 1, 5),
        vec![Match { line: 3, start: 2, end: 4 }, Match { line: 3, start: 5, end: 6 }]
    );
    assert_eq!(matches_in_view(&ms, 4, 9), vec![]);
}

#[test]
fn line_segments_rounds_up() {
    assert_eq!(line_segments(0, 80), 1);
    assert_eq!(line_segments(80, 80), 1);
    assert_eq!(line_segments(81, 80), 2);
    assert_eq!(line_segments(160, 80), 2);
    assert_eq!(line_segments(161, 80), 3);
}

// Errors carry their context.

#[test]
fn error_context_wrapping() {
    let e = Error::ChannelBroken.with_file("log.txt");
    match e {
        Error::WithFile { error, file } => {
            assert_eq!(file, "log.txt");
            assert!(matches!(*error, Error::ChannelBroken));
        }
        other => panic!("wrong error kind: {other:?}"),
    }
    let e = Error::ChannelBroken.with_command("make all");
    match e {
        Error::WithCommand { error, command } => {
            assert_eq!(command, "make all");
            assert!(matches!(*error, Error::ChannelBroken));
        }
        other => panic!("wrong error kind: {other:?}"),
    }
}

#[test]
fn resize_is_clamped_and_repaints_in_fullscreen() {
    let (mut c, _) = Controller::new(StartConfig::Fullscreen, test_keymap(), 1, 80, 24);
    let eff = c.step(Event::Resize { width: 0, height: 0 });
    assert_eq!(eff, vec![Effect::Repaint]);
    assert_eq!(c.dimensions(), (1, 1));
    let eff = c.step(Event::Resize { width: 100, height: 50 });
    assert_eq!(eff, vec![Effect::Repaint]);
    assert_eq!(c.dimensions(), (100, 50));
}

#[test]
fn input_loss_is_fatal_and_restores_screen() {
    let (mut c, _) = Controller::new(StartConfig::Fullscreen, test_keymap(), 1, 80, 24);
    let eff = c.step(Event::InputClosed);
    assert_eq!(eff, vec![Effect::LeaveAlternate]);
    assert_eq!(c.session_end(), Some(SessionEnd::TerminalLost));
}

#[test]
fn progress_updates_bypass_the_store() {
    let (mut c, _) = Controller::new(StartConfig::Standard, test_keymap(), 1, 80, 24);
    let eff = c.step(Event::Progress { source: 0, text: "42%".to_string() });
    assert_eq!(eff, vec![Effect::StatusProgress { source: 0 }]);
    assert_eq!(c.lines().len(), 0);
    assert_eq!(c.progress_of(0).as_deref(), Some("42%"));
}
