use feedterm::app::{Action, App, Block};
use feedterm::event::{poll_timeout, tick_due, Event};
use feedterm::feed::Feed;
use feedterm::keys::Key;
use feedterm::store::{feeds_text, parse_feeds};

fn feeds(urls: &[&str]) -> Vec<Feed> {
    urls.iter().map(|u| Feed::new(u.to_string())).collect()
}

fn urls_of(app: &App) -> Vec<String> {
    app.feeds.iter().map(|f| f.url.clone()).collect()
}

fn press(app: &mut App, c: char) -> Action {
    app.handle(Event::Input(Key::Char(c)))
}

#[test]
fn blank_line_is_skipped() {
    let parsed = parse_feeds("http://a.com\n\nhttp://b.com\n");
    let urls: Vec<String> = parsed.iter().map(|f| f.url.clone()).collect();
    assert_eq!(urls, vec!["http://a.com".to_string(), "http://b.com".to_string()]);
}

#[test]
fn lines_are_trimmed_and_last_line_needs_no_break() {
    let parsed = parse_feeds("  http://a.com\t\r\n   \nhttp://b.com");
    let urls: Vec<String> = parsed.iter().map(|f| f.url.clone()).collect();
    assert_eq!(urls, vec!["http://a.com".to_string(), "http://b.com".to_string()]);
}

#[test]
fn line_of_unicode_whitespace_is_blank() {
    assert!(parse_feeds("\u{A0}\n").is_empty());
    assert!(parse_feeds("\u{3000}\u{2003}\u{85}\n\u{A0}").is_empty());
}

#[test]
fn unicode_whitespace_is_trimmed_like_str_trim() {
    let text = "\u{3000}http://a.com\u{A0}\n\u{2028}\n\u{1680}http://b.com\u{202F}\u{205F}\n";
    let parsed = parse_feeds(text);
    let urls: Vec<String> = parsed.iter().map(|f| f.url.clone()).collect();
    let expected: Vec<String> = text
        .lines()
        .map(str::trim)
        .filter(|l| !l.is_empty())
        .map(|l| l.to_string())
        .collect();
    assert_eq!(urls, expected);
    assert_eq!(urls, vec!["http://a.com".to_string(), "http://b.com".to_string()]);
}

#[test]
fn empty_text_has_no_feeds() {
    assert!(parse_feeds("").is_empty());
    assert!(parse_feeds("\n\n  \n").is_empty());
}

#[test]
fn duplicates_are_kept_in_order() {
    let parsed = parse_feeds("http://x\nhttp://y\nhttp://x\n");
    let urls: Vec<String> = parsed.iter().map(|f| f.url.clone()).collect();
    assert_eq!(urls, vec!["http://x", "http://y", "http://x"]);
}

#[test]
fn save_ends_every_url_with_a_break() {
    assert_eq!(feeds_text(&feeds(&["http://a.com", "http://b.com"])), "http://a.com\nhttp://b.com\n");
    assert_eq!(feeds_text(&Vec::new()), "");
}

#[test]
fn save_then_load_gives_the_list_back() {
    let list = feeds(&["http://a.com", "http://b.com", "http://a.com"]);
    let back = parse_feeds(&feeds_text(&list));
    let a: Vec<String> = list.iter().map(|f| f.url.clone()).collect();
    let b: Vec<String> = back.iter().map(|f| f.url.clone()).collect();
    assert_eq!(a, b);
}

#[test]
fn j_on_last_entry_wraps_to_first() {
    let mut app = App::with_feeds(feeds(&["a", "b", "c"]));
    app.selected = Some(2);
    assert!(press(&mut app, 'j') == Action::Continue);
    assert_eq!(app.selected, Some(0));
}

#[test]
fn k_on_first_entry_wraps_to_last() {
    let mut app = App::with_feeds(feeds(&["a", "b", "c"]));
    assert_eq!(app.selected, Some(0));
    press(&mut app, 'k');
    assert_eq!(app.selected, Some(2));
}

#[test]
fn moving_down_n_times_comes_back() {
    let mut app = App::with_feeds(feeds(&["a", "b", "c", "d"]));
    app.selected = Some(1);
    for _ in 0..4 {
        app.move_down();
    }
    assert_eq!(app.selected, Some(1));
}

#[test]
fn up_undoes_down() {
    for start in 0..3usize {
        let mut app = App::with_feeds(feeds(&["a", "b", "c"]));
        app.selected = Some(start);
        app.move_down();
        app.move_up();
        assert_eq!(app.selected, Some(start));
    }
}

#[test]
fn moves_on_empty_list_keep_no_selection() {
    let mut app = App::new();
    press(&mut app, 'j');
    assert_eq!(app.selected, None);
    press(&mut app, 'k');
    assert_eq!(app.selected, None);
    assert!(press(&mut app, 'd') == Action::Continue);
    assert!(app.feeds.is_empty());
}

#[test]
fn deleting_only_entry_leaves_nothing() {
    let mut app = App::with_feeds(feeds(&["http://a.com"]));
    assert_eq!(app.selected, Some(0));
    assert!(press(&mut app, 'd') == Action::Persist);
    assert!(app.feeds.is_empty());
    assert_eq!(app.selected, None);
    assert_eq!(feeds_text(&app.feeds), "");
}

#[test]
fn deleting_last_entry_moves_selection_back() {
    let mut app = App::with_feeds(feeds(&["a", "b", "c"]));
    app.selected = Some(2);
    assert!(app.delete_selected());
    assert_eq!(urls_of(&app), vec!["a", "b"]);
    assert_eq!(app.selected, Some(1));
}

#[test]
fn deleting_middle_entry_keeps_position() {
    let mut app = App::with_feeds(feeds(&["a", "b", "c"]));
    app.selected = Some(1);
    assert!(app.delete_selected());
    assert_eq!(urls_of(&app), vec!["a", "c"]);
    assert_eq!(app.selected, Some(1));
}

#[test]
fn reload_clamps_and_selects() {
    let mut app = App::with_feeds(feeds(&["a", "b", "c"]));
    app.selected = Some(2);
    app.reload(feeds(&["x"]));
    assert_eq!(app.selected, Some(0));
    app.reload(Vec::new());
    assert_eq!(app.selected, None);
    app.reload(feeds(&["y", "z"]));
    assert_eq!(app.selected, Some(0));
    assert_eq!(urls_of(&app), vec!["y", "z"]);
}

#[test]
fn r_and_q_ask_the_loop_and_change_nothing() {
    let mut app = App::with_feeds(feeds(&["a", "b"]));
    assert!(press(&mut app, 'r') == Action::Reload);
    assert!(press(&mut app, 'q') == Action::Quit);
    assert!(press(&mut app, 'x') == Action::Continue);
    assert!(app.handle(Event::Input(Key::Other)) == Action::Continue);
    assert_eq!(app.selected, Some(0));
    assert_eq!(urls_of(&app), vec!["a", "b"]);
    assert_eq!(app.tick_count, 0);
}

#[test]
fn tick_counts_and_wraps() {
    let mut app = App::new();
    assert!(app.handle(Event::Tick) == Action::Continue);
    assert_eq!(app.tick_count, 1);
    app.tick_count = u64::MAX;
    app.tick();
    assert_eq!(app.tick_count, 0);
    assert!(matches!(app.active_block, Block::Feeds));
}

#[test]
fn load_reads_feed_file_text() {
    let app = App::load("http://a.com\n\n  http://b.com \n");
    assert_eq!(urls_of(&app), vec!["http://a.com", "http://b.com"]);
    assert_eq!(app.selected, Some(0));
    assert_eq!(app.tick_count, 0);
    let empty = App::load("");
    assert!(empty.feeds.is_empty());
    assert_eq!(empty.selected, None);
}

#[test]
fn new_app_is_empty() {
    let app = App::new();
    assert!(app.feeds.is_empty());
    assert_eq!(app.tick_count, 0);
    assert_eq!(app.selected, None);
}

#[test]
fn feed_starts_without_channel() {
    let f = Feed::new("http://a.com".to_string());
    assert_eq!(f.url, "http://a.com");
    assert!(f.channel.is_none());
    assert!(f.is_loaded());
}

#[test]
fn key_decoding() {
    assert!(matches!(Key::decode(Some('j')), Key::Char('j')));
    assert!(matches!(Key::decode(Some('e')), Key::Char('e')));
    assert!(matches!(Key::decode(None), Key::Other));
}

#[test]
fn poll_wait_is_what_is_left_of_the_interval() {
    assert_eq!(poll_timeout(17, 0), 17);
    assert_eq!(poll_timeout(17, 5), 12);
    assert_eq!(poll_timeout(17, 17), 0);
    assert_eq!(poll_timeout(17, 40), 0);
    assert!(!tick_due(17, 16));
    assert!(tick_due(17, 17));
    assert!(tick_due(17, 30));
}

#[test]
fn idle_hundred_ms_at_seventeen_ms_gives_five_to_seven_ticks() {
    let interval: u64 = 17;
    let mut now: u64 = 0;
    let mut last_tick: u64 = 0;
    let mut ticks = 0;
    while now < 100 {
        let wait = poll_timeout(interval, now - last_tick);
        now += wait.max(1);
        if now > 100 {
            break;
        }
        if tick_due(interval, now - last_tick) {
            ticks += 1;
            last_tick = now;
        }
    }
    assert!((5..=7).contains(&ticks), "ticks: {}", ticks);
}

#[test]
fn listener_delivers_events_in_order() {
    let (tx, rx) = std::sync::mpsc::channel();
    let listener = feedterm::event::EventListener::new(rx);
    tx.send(Event::Input(Key::Char('a'))).unwrap();
    tx.send(Event::Tick).unwrap();
    assert!(matches!(listener.next(), Ok(Event::Input(Key::Char('a')))));
    assert!(matches!(listener.next(), Ok(Event::Tick)));
    drop(tx);
    assert!(listener.next().is_err());
}
