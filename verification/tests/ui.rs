use shellcaster::types::Episode;
use shellcaster::types::LockVec;
use shellcaster::types::Message;
use shellcaster::types::Podcast;
use shellcaster::ui::colors::set_colors;
use shellcaster::ui::colors::ColorType;
use shellcaster::ui::colors::Colors;
use shellcaster::ui::control::decide;
use shellcaster::ui::control::feed_request;
use shellcaster::ui::control::layout;
use shellcaster::ui::control::ActiveMenu;
use shellcaster::ui::control::Decision;
use shellcaster::ui::control::Directive;
use shellcaster::ui::control::Effect;
use shellcaster::ui::control::Facts;
use shellcaster::ui::control::Interface;
use shellcaster::ui::control::Layout;
use shellcaster::ui::control::UserAction;
use shellcaster::ui::input::Echo;
use shellcaster::ui::input::Key;
use shellcaster::ui::input::LineEditor;
use shellcaster::ui::input::Progress;
use shellcaster::ui::panel::DrawOp;
use shellcaster::ui::panel::Panel;
use shellcaster::ui::panel::TextStyle;
use shellcaster::ui::place::is_anchored;
use shellcaster::ui::place::resized_to;
use shellcaster::ui::place::settled;
use shellcaster::ui::place::stepped;
use shellcaster::ui::place::NO_SELECTION;
use shellcaster::ui::welcome::format_keys;
use shellcaster::ui::welcome::format_welcome_hint;
use shellcaster::ui::MainMessage;
use shellcaster::ui::UiMsg;

fn facts(pod_len: usize, ep_len: usize) -> Facts {
    Facts {
        pod_len,
        ep_len,
        pod_index: 2,
        ep_index: 5,
        pod_played: if pod_len > 2 { Some(false) } else { None },
        ep_played: if ep_len > 5 { Some(true) } else { None },
    }
}

fn quiet(effect: Effect) -> Decision {
    Decision { effect, message: UiMsg::Noop }
}

fn say(message: UiMsg) -> Decision {
    Decision { effect: Effect::Nothing, message }
}

#[test]
fn keys_that_move_the_cursor() {
    let pods = ActiveMenu::PodcastMenu;
    let eps = ActiveMenu::EpisodeMenu;
    let f = facts(3, 6);
    assert_eq!(decide(UserAction::Down, pods, &f), quiet(Effect::ScrollPodcasts(1)));
    assert_eq!(decide(UserAction::Up, pods, &f), quiet(Effect::ScrollPodcasts(-1)));
    assert_eq!(decide(UserAction::Down, eps, &f), quiet(Effect::ScrollEpisodes(1)));
    assert_eq!(decide(UserAction::Up, eps, &f), quiet(Effect::ScrollEpisodes(-1)));
    let none = facts(0, 0);
    assert_eq!(decide(UserAction::Down, pods, &none), quiet(Effect::Nothing));
    assert_eq!(decide(UserAction::Up, pods, &none), quiet(Effect::Nothing));
    assert_eq!(decide(UserAction::Down, eps, &none), quiet(Effect::Nothing));
    assert_eq!(decide(UserAction::Up, eps, &none), quiet(Effect::Nothing));
    let no_eps = facts(3, 0);
    assert_eq!(decide(UserAction::Down, eps, &no_eps), quiet(Effect::Nothing));
    assert_eq!(decide(UserAction::Up, eps, &no_eps), quiet(Effect::ScrollEpisodes(-1)));
}

#[test]
fn keys_that_change_the_menu_in_use() {
    let pods = ActiveMenu::PodcastMenu;
    let eps = ActiveMenu::EpisodeMenu;
    let f = facts(3, 6);
    assert_eq!(decide(UserAction::Right, pods, &f), quiet(Effect::FocusEpisodes));
    assert_eq!(decide(UserAction::Right, eps, &f), quiet(Effect::Nothing));
    assert_eq!(decide(UserAction::Left, eps, &f), quiet(Effect::FocusPodcasts));
    assert_eq!(decide(UserAction::Left, pods, &f), quiet(Effect::Nothing));
    assert_eq!(decide(UserAction::Right, pods, &facts(3, 0)), quiet(Effect::Nothing));
    assert_eq!(decide(UserAction::Right, pods, &facts(0, 0)), quiet(Effect::Nothing));
    assert_eq!(decide(UserAction::Left, eps, &facts(0, 0)), quiet(Effect::Nothing));
}

#[test]
fn keys_that_ask_the_main_thread() {
    let pods = ActiveMenu::PodcastMenu;
    let eps = ActiveMenu::EpisodeMenu;
    let f = facts(3, 6);
    let none = facts(0, 0);
    assert_eq!(decide(UserAction::Sync, pods, &f), say(UiMsg::Sync(2)));
    assert_eq!(decide(UserAction::Sync, pods, &none), say(UiMsg::Noop));
    assert_eq!(decide(UserAction::SyncAll, eps, &f), say(UiMsg::SyncAll));
    assert_eq!(decide(UserAction::SyncAll, eps, &none), say(UiMsg::Noop));
    assert_eq!(decide(UserAction::Play, pods, &f), say(UiMsg::Play(2, 5)));
    assert_eq!(decide(UserAction::Play, pods, &facts(3, 0)), say(UiMsg::Noop));
    assert_eq!(decide(UserAction::Download, pods, &f), say(UiMsg::Download(2, 5)));
    assert_eq!(decide(UserAction::Download, pods, &facts(3, 0)), say(UiMsg::Noop));
    assert_eq!(decide(UserAction::DownloadAll, pods, &f), say(UiMsg::DownloadAll(2)));
    assert_eq!(decide(UserAction::DownloadAll, pods, &none), say(UiMsg::Noop));
    assert_eq!(decide(UserAction::Quit, pods, &none), say(UiMsg::Quit));
    assert_eq!(decide(UserAction::Quit, eps, &f), say(UiMsg::Quit));
    assert_eq!(decide(UserAction::AddFeed, pods, &none), quiet(Effect::AskFeedUrl));
}

#[test]
fn keys_that_mark_as_played() {
    let pods = ActiveMenu::PodcastMenu;
    let eps = ActiveMenu::EpisodeMenu;
    let f = facts(3, 6);
    assert_eq!(
        decide(UserAction::MarkPlayed, eps, &f),
        Decision { effect: Effect::ShowPlayed(false), message: UiMsg::MarkPlayed(2, 5, false) }
    );
    assert_eq!(decide(UserAction::MarkPlayed, pods, &f), say(UiMsg::Noop));
    assert_eq!(decide(UserAction::MarkPlayed, eps, &facts(3, 5)), say(UiMsg::Noop));
    assert_eq!(decide(UserAction::MarkAllPlayed, pods, &f), say(UiMsg::MarkAllPlayed(2, true)));
    assert_eq!(decide(UserAction::MarkAllPlayed, eps, &f), say(UiMsg::MarkAllPlayed(2, true)));
    assert_eq!(decide(UserAction::MarkAllPlayed, pods, &facts(2, 6)), say(UiMsg::Noop));
}

#[test]
fn keys_without_effect() {
    let f = facts(3, 6);
    for action in [
        UserAction::Delete,
        UserAction::DeleteAll,
        UserAction::Remove,
        UserAction::RemoveAll,
        UserAction::Search,
    ] {
        assert_eq!(decide(action, ActiveMenu::PodcastMenu, &f), say(UiMsg::Noop));
        assert_eq!(decide(action, ActiveMenu::EpisodeMenu, &f), say(UiMsg::Noop));
    }
}

#[test]
fn feed_request_needs_an_address() {
    assert_eq!(feed_request(String::new()), UiMsg::Noop);
    assert_eq!(
        feed_request("https://example.com/feed.xml".to_string()),
        UiMsg::AddFeed("https://example.com/feed.xml".to_string())
    );
}

#[test]
fn screen_layout() {
    assert_eq!(layout(24, 80), Layout { height: 23, pod_cols: 40, ep_cols: 41, ep_left: 39 });
    assert_eq!(layout(30, 101), Layout { height: 29, pod_cols: 50, ep_cols: 52, ep_left: 49 });
    assert_eq!(layout(0, 0), Layout { height: -1, pod_cols: 0, ep_cols: 1, ep_left: -1 });
    assert_eq!(layout(-5, -7), layout(0, 0));
    assert_eq!(
        layout(i32::MAX, i32::MAX),
        Layout {
            height: i32::MAX - 1,
            pod_cols: 1073741823,
            ep_cols: 1073741825,
            ep_left: 1073741822
        }
    );
}

fn episode(id: i64, title: &str, played: bool) -> Episode {
    Episode {
        id,
        pod_id: 1,
        title: title.to_string(),
        url: String::new(),
        description: String::new(),
        pubdate: None,
        duration: None,
        path: None,
        played,
    }
}

fn podcasts(n: i64) -> LockVec<Podcast> {
    LockVec::new(
        (0..n)
            .map(|i| Podcast {
                id: i,
                title: format!("Podcast {}", i),
                url: String::new(),
                description: None,
                author: None,
                explicit: None,
                last_checked: 0,
                episodes: LockVec::new(
                    (0..i + 2).map(|k| episode(k, &format!("Episode {}.{}", i, k), k == 0)).collect(),
                ),
                any_unplayed: true,
            })
            .collect(),
    )
}

#[test]
fn interface_starts_on_the_first_podcast() {
    let items = podcasts(3);
    let ui = Interface::new(&items, 24, 80);
    assert_eq!(ui.n_row, 24);
    assert_eq!(ui.n_col, 80);
    assert_eq!(ui.active_menu, ActiveMenu::PodcastMenu);
    assert!(!ui.welcome);
    assert_eq!(ui.podcast_menu.panel.get_rows(), 21);
    assert_eq!(ui.podcast_menu.panel.get_cols(), 35);
    assert_eq!(ui.episode_menu.panel.get_rows(), 21);
    assert_eq!(ui.episode_menu.panel.get_cols(), 36);
    assert_eq!(ui.podcast_menu.panel.get_row(0).2, ColorType::HighlightedActive);
    assert_eq!(ui.podcast_menu.panel.get_row(0).0, "Podcast 0                     (1/2)");
    assert_eq!(ui.episode_menu.panel.get_row(0).0, "Episode 0.0");
    assert_eq!(ui.episode_menu.panel.get_row(1).0, "Episode 0.1");
    assert_eq!(ui.episode_menu.panel.get_row(2).0, "");
    let f = ui.facts();
    assert_eq!((f.pod_len, f.ep_len, f.pod_index, f.ep_index), (3, 2, 0, 0));
    assert_eq!((f.pod_played, f.ep_played), (Some(false), Some(true)));
}

#[test]
fn interface_without_podcasts_shows_the_welcome() {
    let items = podcasts(0);
    let mut ui = Interface::new(&items, 24, 80);
    assert!(ui.welcome);
    let f = ui.facts();
    assert_eq!((f.pod_len, f.ep_len), (0, 0));
    assert_eq!((f.pod_played, f.ep_played), (None, None));
    assert_eq!(ui.handle_action(UserAction::Down), say(UiMsg::Noop));
    assert_eq!(ui.handle_action(UserAction::Sync), say(UiMsg::Noop));
    assert_eq!(ui.handle_action(UserAction::AddFeed), quiet(Effect::AskFeedUrl));
    assert_eq!(ui.handle_action(UserAction::Quit), say(UiMsg::Quit));
    assert!(ui.welcome);
}

#[test]
fn welcome_comes_down_with_the_first_podcast() {
    let items = podcasts(0);
    let mut ui = Interface::new(&items, 24, 80);
    assert!(ui.welcome);
    ui.podcast_menu.items = podcasts(1);
    assert_eq!(ui.handle_message(MainMessage::UiUpdateMenus), Directive::Repainted);
    assert!(ui.welcome);
    let _ = ui.handle_action(UserAction::Search);
    assert!(!ui.welcome);
}

#[test]
fn moving_through_podcasts_shows_their_episodes() {
    let items = podcasts(3);
    let mut ui = Interface::new(&items, 24, 80);
    assert_eq!(ui.handle_action(UserAction::Down), quiet(Effect::ScrollPodcasts(1)));
    assert_eq!(ui.podcast_menu.selected, 1);
    assert_eq!(ui.episode_menu.items.len(), 3);
    assert_eq!(ui.episode_menu.panel.get_row(2).0, "Episode 1.2");
    assert_eq!((ui.episode_menu.top_row, ui.episode_menu.selected), (0, 0));
    assert_eq!(ui.handle_action(UserAction::Sync), say(UiMsg::Sync(1)));
    assert_eq!(ui.handle_action(UserAction::Play), say(UiMsg::Play(1, 0)));
    assert_eq!(ui.handle_action(UserAction::DownloadAll), say(UiMsg::DownloadAll(1)));
    assert_eq!(ui.handle_action(UserAction::MarkAllPlayed), say(UiMsg::MarkAllPlayed(1, true)));
    assert_eq!(ui.handle_action(UserAction::Up), quiet(Effect::ScrollPodcasts(-1)));
    assert_eq!(ui.podcast_menu.selected, 0);
    assert_eq!(ui.episode_menu.items.len(), 2);
}

#[test]
fn moving_between_the_menus() {
    let items = podcasts(3);
    let mut ui = Interface::new(&items, 24, 80);
    assert_eq!(ui.handle_action(UserAction::MarkPlayed), say(UiMsg::Noop));
    assert_eq!(ui.handle_action(UserAction::Left), quiet(Effect::Nothing));
    assert_eq!(ui.handle_action(UserAction::Right), quiet(Effect::FocusEpisodes));
    assert_eq!(ui.active_menu, ActiveMenu::EpisodeMenu);
    assert_eq!(ui.podcast_menu.panel.get_row(0).2, ColorType::Highlighted);
    assert_eq!(ui.episode_menu.panel.get_row(0).2, ColorType::HighlightedActive);

    assert_eq!(ui.handle_action(UserAction::Down), quiet(Effect::ScrollEpisodes(1)));
    assert_eq!(ui.episode_menu.selected, 1);
    assert_eq!(ui.podcast_menu.selected, 0);
    assert_eq!(ui.handle_action(UserAction::Download), say(UiMsg::Download(0, 1)));
    assert_eq!(
        ui.handle_action(UserAction::MarkPlayed),
        Decision { effect: Effect::ShowPlayed(true), message: UiMsg::MarkPlayed(0, 1, true) }
    );
    assert_eq!(
        ui.episode_menu.panel.get_row(1),
        ("Episode 0.1".to_string(), TextStyle::Normal, ColorType::HighlightedActive)
    );

    assert_eq!(ui.handle_action(UserAction::Left), quiet(Effect::FocusPodcasts));
    assert_eq!(ui.active_menu, ActiveMenu::PodcastMenu);
    assert_eq!(ui.podcast_menu.panel.get_row(0).2, ColorType::HighlightedActive);
    assert_eq!(ui.episode_menu.panel.get_row(1).2, ColorType::Normal);
}

#[test]
fn messages_of_the_main_thread() {
    let items = podcasts(2);
    let mut ui = Interface::new(&items, 24, 80);
    assert_eq!(
        ui.handle_message(MainMessage::UiSpawnMsgWin("Done".to_string(), 5000, false)),
        Directive::ShowMessage("Done".to_string(), 5000, false)
    );
    assert_eq!(ui.handle_message(MainMessage::UiTearDown), Directive::TearDown);
    items.replace(1, Podcast {
        id: 1,
        title: "Renamed".to_string(),
        url: String::new(),
        description: None,
        author: None,
        explicit: None,
        last_checked: 0,
        episodes: LockVec::new(Vec::new()),
        any_unplayed: false,
    }).unwrap();
    assert_eq!(ui.podcast_menu.panel.get_row(1).0, "Podcast 1                     (1/3)");
    assert_eq!(ui.handle_message(MainMessage::UiUpdateMenus), Directive::Repainted);
    assert_eq!(ui.podcast_menu.panel.get_row(1).0, "Renamed                       (0/0)");
    assert_eq!(ui.podcast_menu.panel.get_row(1).1, TextStyle::Normal);
    ui.update_menus();
    assert_eq!(ui.podcast_menu.panel.get_row(0).0, "Podcast 0                     (1/2)");
}

#[test]
fn interface_resize() {
    let items = podcasts(30);
    let mut ui = Interface::new(&items, 24, 80);
    for _ in 0..20 {
        ui.handle_action(UserAction::Down);
    }
    assert_eq!((ui.podcast_menu.top_row, ui.podcast_menu.selected), (0, 20));
    ui.resize(13, 60);
    assert_eq!((ui.n_row, ui.n_col), (13, 60));
    assert_eq!(ui.podcast_menu.panel.get_rows(), 10);
    assert_eq!(ui.podcast_menu.panel.get_cols(), 25);
    assert_eq!(ui.episode_menu.panel.get_cols(), 26);
    assert_eq!((ui.podcast_menu.top_row, ui.podcast_menu.selected), (11, 9));
    assert_eq!(ui.podcast_menu.panel.get_row(9).0, "Podcast 20");
    assert_eq!(ui.podcast_menu.panel.get_row(9).2, ColorType::HighlightedActive);
    assert_eq!(ui.episode_menu.panel.get_row(0).2, ColorType::Normal);
}

#[test]
fn message_wraps_what_a_thread_says() {
    let m: Message<u8, bool> = Message::Ui(UiMsg::Sync(3));
    assert!(matches!(m, Message::Ui(UiMsg::Sync(3))));
    let m: Message<u8, bool> = Message::Feed(7);
    assert!(matches!(m, Message::Feed(7)));
    let m: Message<u8, bool> = Message::Dl(true);
    assert!(matches!(m, Message::Dl(true)));
}

fn keys(names: &[&str]) -> Vec<String> {
    names.iter().map(|n| n.to_string()).collect()
}

#[test]
fn keys_in_the_welcome_text() {
    assert_eq!(format_keys(&keys(&[])), "<missing>");
    assert_eq!(format_keys(&keys(&["a"])), "\"a\"");
    assert_eq!(format_keys(&keys(&["a", "A"])), "\"a\" or \"A\"");
    assert_eq!(format_keys(&keys(&["a", "b", "c"])), ", or \"a\", or \"b\", \"c\"");
    assert_eq!(
        format_keys(&keys(&["q", "Q", "Esc", "x"])),
        ", or \"q\", or \"Q\", or \"Esc\", \"x\""
    );
}

#[test]
fn welcome_hint() {
    assert_eq!(
        format_welcome_hint(&keys(&["a"]), &keys(&["q", "Q"])),
        "Your podcast list is currently empty. Press \"a\" to add a new podcast feed, or \"q\" or \"Q\" to quit."
    );
    assert_eq!(
        format_welcome_hint(&keys(&[]), &keys(&[])),
        "Your podcast list is currently empty. Press <missing> to add a new podcast feed, or <missing> to quit."
    );
}

fn typed(editor: &mut LineEditor, text: &str) {
    for c in text.chars() {
        let _ = editor.apply(Key::Character(c));
    }
}

#[test]
fn typing_a_line() {
    let mut editor = LineEditor::new();
    assert_eq!(editor.apply(Key::Character('h')), Progress::Editing(Echo::Insert('h', 1)));
    assert_eq!(editor.apply(Key::Character('é')), Progress::Editing(Echo::Insert('é', 2)));
    assert_eq!(editor.apply(Key::Character('y')), Progress::Editing(Echo::Insert('y', 3)));
    assert_eq!(editor.apply(Key::Other), Progress::Editing(Echo::Nothing));
    assert_eq!(editor.apply(Key::Enter), Progress::Done("héy".to_string()));
}

#[test]
fn giving_up_a_line() {
    let mut editor = LineEditor::new();
    typed(&mut editor, "http://example.com");
    assert_eq!(editor.apply(Key::Cancel), Progress::Done(String::new()));
    let mut empty = LineEditor::new();
    assert_eq!(empty.apply(Key::Enter), Progress::Done(String::new()));
}

#[test]
fn taking_characters_out() {
    let mut editor = LineEditor::new();
    typed(&mut editor, "añbc");
    assert_eq!(editor.apply(Key::Backspace), Progress::Editing(Echo::DeleteAt(3)));
    assert_eq!(editor.apply(Key::Left), Progress::Editing(Echo::MoveTo(2)));
    assert_eq!(editor.apply(Key::Left), Progress::Editing(Echo::MoveTo(1)));
    assert_eq!(editor.apply(Key::Delete), Progress::Editing(Echo::DeleteHere));
    assert_eq!(editor.apply(Key::Right), Progress::Editing(Echo::MoveTo(2)));
    assert_eq!(editor.apply(Key::Right), Progress::Editing(Echo::Nothing));
    assert_eq!(editor.apply(Key::Delete), Progress::Editing(Echo::Nothing));
    assert_eq!(editor.apply(Key::Backspace), Progress::Editing(Echo::DeleteAt(1)));
    assert_eq!(editor.apply(Key::Backspace), Progress::Editing(Echo::DeleteAt(0)));
    assert_eq!(editor.apply(Key::Backspace), Progress::Editing(Echo::Nothing));
    assert_eq!(editor.apply(Key::Left), Progress::Editing(Echo::Nothing));
    assert_eq!(editor.apply(Key::Enter), Progress::Done(String::new()));
}

#[test]
fn a_character_goes_to_the_end_of_the_line() {
    let mut editor = LineEditor::new();
    typed(&mut editor, "abc");
    let _ = editor.apply(Key::Left);
    let _ = editor.apply(Key::Left);
    assert_eq!(editor.apply(Key::Character('x')), Progress::Editing(Echo::Insert('x', 2)));
    assert_eq!(editor.apply(Key::Backspace), Progress::Editing(Echo::DeleteAt(1)));
    assert_eq!(editor.apply(Key::Enter), Progress::Done("acx".to_string()));
}

#[test]
fn color_pairs() {
    let colors = set_colors();
    assert_eq!(colors.get(ColorType::Normal), 0);
    assert_eq!(colors.get(ColorType::Highlighted), 1);
    assert_eq!(colors.get(ColorType::HighlightedActive), 2);
    assert_eq!(colors.get(ColorType::Error), 3);

    let mut own = Colors::new();
    assert_eq!(own.lookup(ColorType::Normal), None);
    own.insert(ColorType::Error, 7);
    assert_eq!(own.lookup(ColorType::Error), Some(7));
    assert_eq!(own.get(ColorType::Error), 7);
    own.insert(ColorType::Error, -2);
    assert_eq!(own.get(ColorType::Error), -2);
    assert_eq!(own.lookup(ColorType::Highlighted), None);
    own.insert(ColorType::Highlighted, 1);
    own.insert(ColorType::Normal, 4);
    own.insert(ColorType::HighlightedActive, 5);
    assert_eq!(own.get(ColorType::Highlighted), 1);
    assert_eq!(own.get(ColorType::Normal), 4);
    assert_eq!(own.get(ColorType::HighlightedActive), 5);
}

fn panel(rows: i32, cols: i32) -> Panel {
    Panel::new(set_colors(), "Test".to_string(), 0, rows + 2, cols + 5, 0, 0)
}

fn rows_of(p: &Panel) -> Vec<String> {
    (0..p.get_rows()).map(|r| p.get_row(r as usize).0).collect()
}

#[test]
fn panel_sizes() {
    let p = panel(5, 20);
    assert_eq!((p.get_rows(), p.get_cols()), (5, 20));
    assert_eq!((p.get_height(), p.get_width()), (7, 25));
    let p = Panel::new(set_colors(), "Tiny".to_string(), 0, 2, 5, 0, 0);
    assert_eq!((p.get_rows(), p.get_cols()), (0, 0));
    let p = Panel::new(set_colors(), "Less".to_string(), 0, -4, i32::MIN, 0, 0);
    assert_eq!((p.get_rows(), p.get_cols()), (0, 0));
    let p = Panel::new(set_colors(), "One".to_string(), 0, 3, 6, 0, 0);
    assert_eq!((p.get_rows(), p.get_cols()), (1, 1));
}

#[test]
fn panel_rows_move_with_insert_and_delete() {
    let mut p = panel(4, 20);
    for (i, t) in ["a", "b", "c", "d"].iter().enumerate() {
        p.write_line(i as i32, t.to_string());
    }
    assert_eq!(rows_of(&p), vec!["a", "b", "c", "d"]);
    p.delete_line(1);
    assert_eq!(rows_of(&p), vec!["a", "c", "d", ""]);
    p.insert_line(0, "z".to_string());
    assert_eq!(rows_of(&p), vec!["z", "a", "c", "d"]);
    p.insert_line(3, "last".to_string());
    assert_eq!(rows_of(&p), vec!["z", "a", "c", "last"]);
    p.delete_line(3);
    assert_eq!(rows_of(&p), vec!["z", "a", "c", ""]);
    p.change_attr(1, TextStyle::Bold, ColorType::Error);
    assert_eq!(p.get_row(1), ("a".to_string(), TextStyle::Bold, ColorType::Error));
    p.write_line(1, "new".to_string());
    assert_eq!(p.get_row(1), ("new".to_string(), TextStyle::Normal, ColorType::Normal));
    p.erase();
    assert_eq!(rows_of(&p), vec!["", "", "", ""]);
}

#[test]
fn panel_leaves_rows_outside_the_window_alone() {
    let mut p = panel(2, 20);
    p.write_line(0, "a".to_string());
    p.write_line(1, "b".to_string());
    let _ = p.take_ops();
    p.write_line(2, "c".to_string());
    p.write_line(-1, "c".to_string());
    p.insert_line(2, "c".to_string());
    p.insert_line(i32::MIN, "c".to_string());
    p.delete_line(2);
    p.delete_line(-1);
    p.change_attr(2, TextStyle::Bold, ColorType::Error);
    p.change_attr(i32::MAX, TextStyle::Bold, ColorType::Error);
    assert_eq!(rows_of(&p), vec!["a", "b"]);
    assert_eq!(p.take_ops(), vec![]);
}

#[test]
fn panel_records_what_is_done() {
    let mut p = panel(3, 20);
    p.init();
    p.erase();
    p.write_line(0, "a".to_string());
    p.insert_line(1, "b".to_string());
    p.delete_line(2);
    p.change_attr(0, TextStyle::Bold, ColorType::Highlighted);
    p.resize(6, 30, 1, 2);
    p.refresh();
    assert_eq!(
        p.take_ops(),
        vec![
            DrawOp::Init,
            DrawOp::Erase,
            DrawOp::WriteLine(0, "a".to_string()),
            DrawOp::InsertLine(1, "b".to_string()),
            DrawOp::DeleteLine(2),
            DrawOp::ChangeAttr(0, TextStyle::Bold, ColorType::Highlighted),
            DrawOp::Resize(6, 30, 1, 2),
            DrawOp::Refresh,
        ]
    );
    assert_eq!(p.take_ops(), vec![]);
    assert_eq!(rows_of(&p), vec!["a", "b", "", ""]);
}

#[test]
fn panel_resize_keeps_the_rows_that_fit() {
    let mut p = panel(3, 20);
    for (i, t) in ["a", "b", "c"].iter().enumerate() {
        p.write_line(i as i32, t.to_string());
    }
    p.resize(2 + 2, 25, 0, 0);
    assert_eq!(rows_of(&p), vec!["a", "b"]);
    p.resize(4 + 2, 25, 0, 0);
    assert_eq!(rows_of(&p), vec!["a", "b", "", ""]);
    p.resize(0, 0, 0, 0);
    assert_eq!(rows_of(&p), Vec::<String>::new());
    assert_eq!((p.get_height(), p.get_width()), (0, 0));
}

#[test]
fn panel_breaks_long_text_into_rows() {
    let mut p = panel(4, 5);
    assert_eq!(p.write_wrap_line(0, "abcdefghijkl".to_string()), 3);
    assert_eq!(rows_of(&p), vec!["abcde", "fghij", "kl", ""]);
    let mut p = panel(4, 5);
    assert_eq!(p.write_wrap_line(1, "abcde".to_string()), 1);
    assert_eq!(rows_of(&p), vec!["", "abcde", "", ""]);
    let mut p = panel(4, 5);
    assert_eq!(p.write_wrap_line(2, "abcdefghijklmnopqrstuvw".to_string()), 2);
    assert_eq!(rows_of(&p), vec!["", "", "abcde", "fghij"]);
    let mut p = panel(4, 5);
    assert_eq!(p.write_wrap_line(0, String::new()), 0);
    assert_eq!(p.write_wrap_line(4, "abc".to_string()), 0);
    assert_eq!(p.write_wrap_line(-1, "abc".to_string()), 0);
    assert_eq!(rows_of(&p), vec!["", "", "", ""]);
    let mut p = panel(4, 0);
    assert_eq!(p.write_wrap_line(0, "abc".to_string()), 0);
    let mut p = panel(2, 3);
    assert_eq!(p.write_wrap_line(0, "añb😉cd".to_string()), 2);
    assert_eq!(rows_of(&p), vec!["añb", "😉cd"]);
}

#[test]
fn places() {
    // a repaint settles window and cursor
    assert_eq!(settled(0, 0, 0, 7, 5), (0, 0));
    assert_eq!(settled(0, 2, 4, 7, 5), (2, 4));
    assert_eq!(settled(0, 5, 4, 7, 5), (2, 4));
    assert_eq!(settled(0, 5, 4, 3, 5), (0, 2));
    assert_eq!(settled(0, 0, -1, 3, 5), (0, 0));
    assert_eq!(settled(2, 0, -1, 3, 5), (0, 2));
    assert_eq!(settled(0, -4, 9, 7, 5), (1, 4));
    assert_eq!(settled(0, 0, 100, 50, 5), (45, 4));
    assert_eq!(settled(0, 0, 0, 0, 5), (0, NO_SELECTION));
    // a window without a row for the list: the cursor stands on the
    // first row of the list, and on its entry
    assert_eq!(settled(5, 3, 6, 9, 5), (4, 5));
    assert_eq!(settled(5, 4, NO_SELECTION, 9, 5), (0, 5));
    assert_eq!(settled(5, 4, NO_SELECTION, 9, 8), (0, 5));
    assert_eq!(settled(5, 30, 6, 9, 5), (8, 5));
    assert_eq!(settled(0, 3, 2, 9, 0), (5, 0));
    assert_eq!(settled(0, 1, -1, 1, 0), (0, 0));
    assert_eq!(settled(0, 4, -1, 3, 0), (2, 0));
    assert_eq!(settled(0, 2, 4, 7, 12), (0, 6));
    assert_eq!(settled(0, i32::MAX, i32::MAX, usize::MAX, i32::MAX), (0, i32::MAX - 1));

    // a step moves the cursor, and the window at its edges
    assert_eq!(stepped(0, 0, 0, 7, 5, 1), (0, 1));
    assert_eq!(stepped(0, 0, 4, 7, 5, 1), (1, 4));
    assert_eq!(stepped(0, 2, 4, 7, 5, 1), (2, 4));
    assert_eq!(stepped(0, 2, 0, 7, 5, -1), (1, 0));
    assert_eq!(stepped(0, 0, 0, 7, 5, -1), (0, 0));
    assert_eq!(stepped(0, 0, 2, 3, 5, 1), (0, 2));
    assert_eq!(stepped(3, 1, 5, 7, 6, 1), (2, 5));
    assert_eq!(stepped(3, 1, 3, 7, 6, -1), (0, 3));
    assert_eq!(stepped(0, 1, 2, 7, 5, 0), (1, 2));
    assert_eq!(stepped(3, 0, 3, 7, 2, 1), (1, 3));
    assert_eq!(stepped(3, 6, 3, 7, 2, 1), (6, 3));
    assert_eq!(stepped(3, 1, 3, 7, 2, -1), (0, 3));
    assert_eq!(stepped(0, 0, 0, 1, 0, -1), (0, 0));

    // a resize keeps the cursor on its entry
    assert_eq!(resized_to(0, 0, 6, 5), (2, 4));
    assert_eq!(resized_to(0, 0, 4, 10), (0, 4));
    assert_eq!(resized_to(0, 3, 4, 5), (3, 4));
    assert_eq!(resized_to(0, 3, 4, 1), (7, 0));
    assert_eq!(resized_to(0, 3, 4, 0), (8, -1));
    assert_eq!(resized_to(0, i32::MAX, i32::MAX, 1), (i32::MAX, 0));
    assert_eq!(resized_to(0, 0, -1, 0), (0, -1));

    assert!(is_anchored(0, 2, 4, 7, 5));
    assert!(!is_anchored(0, 3, 4, 7, 5));
    assert!(!is_anchored(0, 0, 5, 7, 5));
    assert!(!is_anchored(0, 0, -1, 7, 5));
    assert!(!is_anchored(1, 0, 0, 7, 5));
    assert!(!is_anchored(0, 0, 0, 0, 5));
    assert!(is_anchored(0, 9, 0, 10, 5));
    assert!(is_anchored(3, 0, 3, 7, 2));
    assert!(!is_anchored(3, 0, 4, 7, 2));
    assert!(!is_anchored(0, 1, -1, 1, 0));
}

#[test]
fn any_key_takes_the_welcome_down_once_there_is_a_podcast() {
    let mut ui = Interface::new(&podcasts(0), 24, 80);
    assert!(ui.welcome);
    ui.key_pressed();
    assert!(ui.welcome);
    ui.podcast_menu.items = podcasts(2);
    ui.key_pressed();
    assert!(!ui.welcome);
    ui.key_pressed();
    assert!(!ui.welcome);
    assert_eq!(ui.active_menu, ActiveMenu::PodcastMenu);
}

#[test]
fn mark_requests_carry_the_state_of_the_entry_under_the_cursor() {
    let items = podcasts(2);
    let mut ui = Interface::new(&items, 24, 80);
    // the first episode of each podcast is played, the others are not
    assert_eq!(ui.handle_action(UserAction::Right), quiet(Effect::FocusEpisodes));
    assert_eq!(
        ui.handle_action(UserAction::MarkPlayed),
        Decision { effect: Effect::ShowPlayed(false), message: UiMsg::MarkPlayed(0, 0, false) }
    );
    ui.handle_action(UserAction::Down);
    assert_eq!(
        ui.handle_action(UserAction::MarkPlayed),
        Decision { effect: Effect::ShowPlayed(true), message: UiMsg::MarkPlayed(0, 1, true) }
    );
    // the request changes nothing in the store
    assert_eq!(ui.episode_menu.items.map(|ep| ep.played), vec![true, false]);
    // once the store holds the episode as played, the request turns over
    ui.episode_menu.items.replace(1, episode(1, "Episode 0.1", true)).unwrap();
    assert_eq!(
        ui.handle_action(UserAction::MarkPlayed),
        Decision { effect: Effect::ShowPlayed(false), message: UiMsg::MarkPlayed(0, 1, false) }
    );
    assert_eq!(ui.handle_action(UserAction::MarkAllPlayed), say(UiMsg::MarkAllPlayed(0, true)));
}

#[test]
fn showing_an_episode_as_played_is_recorded() {
    let items = podcasts(1);
    let mut ui = Interface::new(&items, 24, 80);
    ui.handle_action(UserAction::Right);
    ui.handle_action(UserAction::Down);
    let _ = ui.episode_menu.panel.take_ops();
    ui.handle_action(UserAction::MarkPlayed);
    assert_eq!(
        ui.episode_menu.panel.take_ops(),
        vec![
            DrawOp::ChangeAttr(1, TextStyle::Normal, ColorType::HighlightedActive),
            DrawOp::Refresh,
        ]
    );
}

#[test]
fn setting_up_and_resizing_are_recorded() {
    let items = podcasts(2);
    let mut ui = Interface::new(&items, 7, 80);
    assert_eq!(
        ui.podcast_menu.panel.take_ops(),
        vec![
            DrawOp::Init,
            DrawOp::Erase,
            DrawOp::WriteLine(0, "Podcast 0                     (1/2)".to_string()),
            DrawOp::ChangeAttr(0, TextStyle::Bold, ColorType::Normal),
            DrawOp::WriteLine(1, "Podcast 1                     (1/3)".to_string()),
            DrawOp::ChangeAttr(1, TextStyle::Bold, ColorType::Normal),
            DrawOp::Refresh,
            DrawOp::ChangeAttr(0, TextStyle::Bold, ColorType::HighlightedActive),
            DrawOp::Refresh,
        ]
    );
    assert_eq!(
        ui.episode_menu.panel.take_ops(),
        vec![
            DrawOp::Init,
            DrawOp::Erase,
            DrawOp::WriteLine(0, "Episode 0.0".to_string()),
            DrawOp::ChangeAttr(0, TextStyle::Normal, ColorType::Normal),
            DrawOp::WriteLine(1, "Episode 0.1".to_string()),
            DrawOp::ChangeAttr(1, TextStyle::Bold, ColorType::Normal),
            DrawOp::Refresh,
        ]
    );

    ui.resize(4, 60);
    assert_eq!(
        ui.podcast_menu.panel.take_ops(),
        vec![
            DrawOp::Resize(3, 30, 0, 0),
            DrawOp::Erase,
            DrawOp::WriteLine(0, "Podcast 0".to_string()),
            DrawOp::ChangeAttr(0, TextStyle::Bold, ColorType::Normal),
            DrawOp::Refresh,
            DrawOp::ChangeAttr(0, TextStyle::Bold, ColorType::HighlightedActive),
            DrawOp::Refresh,
        ]
    );
    assert_eq!(
        ui.episode_menu.panel.take_ops(),
        vec![
            DrawOp::Resize(3, 31, 0, 29),
            DrawOp::Erase,
            DrawOp::WriteLine(0, "Episode 0.0".to_string()),
            DrawOp::ChangeAttr(0, TextStyle::Normal, ColorType::Normal),
            DrawOp::Refresh,
        ]
    );

    assert_eq!(ui.handle_message(MainMessage::UiUpdateMenus), Directive::Repainted);
    assert_eq!(
        ui.podcast_menu.panel.take_ops(),
        vec![
            DrawOp::Erase,
            DrawOp::WriteLine(0, "Podcast 0".to_string()),
            DrawOp::ChangeAttr(0, TextStyle::Bold, ColorType::Normal),
            DrawOp::Refresh,
        ]
    );
    assert_eq!(ui.podcast_menu.panel.get_row(0).2, ColorType::Normal);
}

#[test]
fn requests_name_the_podcast_under_the_cursor_on_a_screen_without_rows() {
    let items = podcasts(1);
    let mut ui = Interface::new(&items, 3, 80);
    assert_eq!(ui.podcast_menu.panel.get_rows(), 0);
    assert_eq!((ui.podcast_menu.top_row, ui.podcast_menu.selected), (0, 0));
    assert_eq!(ui.handle_action(UserAction::Sync), say(UiMsg::Sync(0)));
    assert_eq!(ui.handle_action(UserAction::Down), quiet(Effect::ScrollPodcasts(1)));
    assert_eq!(ui.handle_action(UserAction::Sync), say(UiMsg::Sync(0)));
    assert_eq!(ui.handle_action(UserAction::Play), say(UiMsg::Play(0, 0)));

    let mut ui = Interface::new(&podcasts(3), 0, 0);
    ui.handle_action(UserAction::Down);
    ui.handle_action(UserAction::Down);
    ui.handle_action(UserAction::Down);
    assert_eq!(ui.handle_action(UserAction::DownloadAll), say(UiMsg::DownloadAll(2)));
    assert_eq!(ui.episode_menu.items.len(), 4);
}
