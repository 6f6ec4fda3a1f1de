//! What the interface does on a key: which menu moves, and what the main
//! thread is asked to do.

use vstd::prelude::*;
use vstd::string::StringExecFns;
use crate::store::Entries;
use crate::types::Episode;
use crate::types::LockVec;
use crate::types::Menuable;
use crate::types::Podcast;
use crate::ui::MainMessage;
use crate::ui::UiMsg;
use crate::ui::colors::ColorType;
use crate::ui::colors::color_pairs;
use crate::ui::colors::set_colors;
use crate::ui::menu::Menu;
use crate::ui::menu::style_of;
use crate::ui::panel::DrawOp;
use crate::ui::panel::Frame;
use crate::ui::panel::Panel;
use crate::ui::panel::lines_styled;
use crate::ui::place::place_of;
use crate::ui::place::reach;
use crate::ui::place::settle;

verus! {

/// What the user can ask for with a key.
#[derive(PartialEq, Eq, Structural, Copy, Clone, Debug)]
pub enum UserAction {
    Left,
    Right,
    Up,
    Down,
    AddFeed,
    Sync,
    SyncAll,
    Play,
    MarkPlayed,
    MarkAllPlayed,
    Download,
    DownloadAll,
    Delete,
    DeleteAll,
    Remove,
    RemoveAll,
    Search,
    Quit,
}

/// The menu that keys act on.
#[derive(PartialEq, Eq, Structural, Copy, Clone, Debug)]
pub enum ActiveMenu {
    PodcastMenu,
    EpisodeMenu,
}

/// What is known of the two lists when a key arrives: how many podcasts
/// and episodes there are, which of them the cursors are on, and whether
/// these count as played, as far as the cursors are on an entry.
#[derive(Copy, Clone, Debug)]
pub struct Facts {
    pub pod_len: usize,
    pub ep_len: usize,
    pub pod_index: usize,
    pub ep_index: usize,
    pub pod_played: Option<bool>,
    pub ep_played: Option<bool>,
}

/// What a key does to the menus.
#[derive(PartialEq, Eq, Structural, Copy, Clone, Debug)]
pub enum Effect {
    Nothing,
    /// Step the podcast menu, and show the episodes of the podcast that the
    /// cursor is then on.
    ScrollPodcasts(i32),
    /// Step the episode menu.
    ScrollEpisodes(i32),
    /// Make the podcast menu the one in use.
    FocusPodcasts,
    /// Make the episode menu the one in use.
    FocusEpisodes,
    /// Show the episode under the cursor as played or not.
    ShowPlayed(bool),
    /// Ask the user for the address of a feed.
    AskFeedUrl,
}

/// What a key leads to: a change of the menus, and a request to the main
/// thread.
#[derive(Debug, PartialEq, Eq)]
pub struct Decision {
    pub effect: Effect,
    pub message: UiMsg,
}

/// The decision on `action` while `active` is the menu in use.
///
/// * Up and down step the menu in use, if its list has entries.
/// * Left and right change the menu in use; right needs an episode to go to.
/// * Requests that name a podcast need a podcast, those that name an episode
///   need an episode; marking an episode works in the episode menu only and
///   turns its state over, marking a podcast turns over the state of the
///   podcast.
/// * Quit is always passed on; the other keys do nothing.
pub open spec fn decided(action: UserAction, active: ActiveMenu, facts: Facts) -> Decision {
    let nothing = Decision { effect: Effect::Nothing, message: UiMsg::Noop };
    match action {
        UserAction::Down => match active {
            ActiveMenu::PodcastMenu => if facts.pod_len > 0 {
                Decision { effect: Effect::ScrollPodcasts(1), message: UiMsg::Noop }
            } else {
                nothing
            },
            ActiveMenu::EpisodeMenu => if facts.ep_len > 0 {
                Decision { effect: Effect::ScrollEpisodes(1), message: UiMsg::Noop }
            } else {
                nothing
            },
        },
        UserAction::Up => match active {
            ActiveMenu::PodcastMenu => if facts.pod_len > 0 {
                Decision { effect: Effect::ScrollPodcasts(-1i32), message: UiMsg::Noop }
            } else {
                nothing
            },
            ActiveMenu::EpisodeMenu => if facts.pod_len > 0 {
                Decision { effect: Effect::ScrollEpisodes(-1i32), message: UiMsg::Noop }
            } else {
                nothing
            },
        },
        UserAction::Left => if facts.pod_len > 0 && active == ActiveMenu::EpisodeMenu {
            Decision { effect: Effect::FocusPodcasts, message: UiMsg::Noop }
        } else {
            nothing
        },
        UserAction::Right => if facts.pod_len > 0 && facts.ep_len > 0 && active
            == ActiveMenu::PodcastMenu {
            Decision { effect: Effect::FocusEpisodes, message: UiMsg::Noop }
        } else {
            nothing
        },
        UserAction::AddFeed => Decision { effect: Effect::AskFeedUrl, message: UiMsg::Noop },
        UserAction::Sync => if facts.pod_len > 0 {
            Decision { effect: Effect::Nothing, message: UiMsg::Sync(facts.pod_index) }
        } else {
            nothing
        },
        UserAction::SyncAll => if facts.pod_len > 0 {
            Decision { effect: Effect::Nothing, message: UiMsg::SyncAll }
        } else {
            nothing
        },
        UserAction::Play => if facts.ep_len > 0 {
            Decision {
                effect: Effect::Nothing,
                message: UiMsg::Play(facts.pod_index, facts.ep_index),
            }
        } else {
            nothing
        },
        UserAction::MarkPlayed => match facts.ep_played {
            Some(played) => if active == ActiveMenu::EpisodeMenu && facts.ep_len > 0 {
                Decision {
                    effect: Effect::ShowPlayed(!played),
                    message: UiMsg::MarkPlayed(facts.pod_index, facts.ep_index, !played),
                }
            } else {
                nothing
            },
            None => nothing,
        },
        UserAction::MarkAllPlayed => match facts.pod_played {
            Some(played) => if facts.pod_len > 0 {
                Decision {
                    effect: Effect::Nothing,
                    message: UiMsg::MarkAllPlayed(facts.pod_index, !played),
                }
            } else {
                nothing
            },
            None => nothing,
        },
        UserAction::Download => if facts.ep_len > 0 {
            Decision {
                effect: Effect::Nothing,
                message: UiMsg::Download(facts.pod_index, facts.ep_index),
            }
        } else {
            nothing
        },
        UserAction::DownloadAll => if facts.pod_len > 0 {
            Decision { effect: Effect::Nothing, message: UiMsg::DownloadAll(facts.pod_index) }
        } else {
            nothing
        },
        UserAction::Quit => Decision { effect: Effect::Nothing, message: UiMsg::Quit },
        _ => nothing,
    }
}

/// The menu in use after `effect`.
pub open spec fn focus_after(active: ActiveMenu, effect: Effect) -> ActiveMenu {
    match effect {
        Effect::FocusPodcasts => ActiveMenu::PodcastMenu,
        Effect::FocusEpisodes => ActiveMenu::EpisodeMenu,
        _ => active,
    }
}

/// Decides what `action` leads to.
pub fn decide(action: UserAction, active: ActiveMenu, facts: &Facts) -> (r: Decision)
    ensures
        r == decided(action, active, *facts),
{
    let mut effect = Effect::Nothing;
    let mut message = UiMsg::Noop;
    let in_episodes = match active {
        ActiveMenu::PodcastMenu => false,
        ActiveMenu::EpisodeMenu => true,
    };
    let pods = facts.pod_len > 0;
    let eps = facts.ep_len > 0;
    match action {
        UserAction::Down => {
            if in_episodes && eps {
                effect = Effect::ScrollEpisodes(1);
            } else if !in_episodes && pods {
                effect = Effect::ScrollPodcasts(1);
            }
        },
        UserAction::Up => {
            if in_episodes && pods {
                effect = Effect::ScrollEpisodes(-1);
            } else if !in_episodes && pods {
                effect = Effect::ScrollPodcasts(-1);
            }
        },
        UserAction::Left => {
            if pods && in_episodes {
                effect = Effect::FocusPodcasts;
            }
        },
        UserAction::Right => {
            if pods && eps && !in_episodes {
                effect = Effect::FocusEpisodes;
            }
        },
        UserAction::AddFeed => {
            effect = Effect::AskFeedUrl;
        },
        UserAction::Sync => {
            if pods {
                message = UiMsg::Sync(facts.pod_index);
            }
        },
        UserAction::SyncAll => {
            if pods {
                message = UiMsg::SyncAll;
            }
        },
        UserAction::Play => {
            if eps {
                message = UiMsg::Play(facts.pod_index, facts.ep_index);
            }
        },
        UserAction::MarkPlayed => {
            if let Some(played) = facts.ep_played {
                if in_episodes && eps {
                    effect = Effect::ShowPlayed(!played);
                    message = UiMsg::MarkPlayed(facts.pod_index, facts.ep_index, !played);
                }
            }
        },
        UserAction::MarkAllPlayed => {
            if let Some(played) = facts.pod_played {
                if pods {
                    message = UiMsg::MarkAllPlayed(facts.pod_index, !played);
                }
            }
        },
        UserAction::Download => {
            if eps {
                message = UiMsg::Download(facts.pod_index, facts.ep_index);
            }
        },
        UserAction::DownloadAll => {
            if pods {
                message = UiMsg::DownloadAll(facts.pod_index);
            }
        },
        UserAction::Quit => {
            message = UiMsg::Quit;
        },
        _ => {},
    }
    Decision { effect, message }
}

/// What the user's answer to the question for a feed's address leads to:
/// a request to add the feed, or nothing if the answer is empty.
pub fn feed_request(url: String) -> (r: UiMsg)
    ensures
        r == if url@.len() == 0 {
            UiMsg::Noop
        } else {
            UiMsg::AddFeed(url)
        },
{
    if url.as_str().is_empty() {
        UiMsg::Noop
    } else {
        UiMsg::AddFeed(url)
    }
}

/// How the screen is shared out: the height of both windows, the width of
/// the podcast window, which starts at the left edge, and the width and the
/// left edge of the episode window.
#[derive(PartialEq, Eq, Structural, Copy, Clone, Debug)]
pub struct Layout {
    pub height: i32,
    pub pod_cols: i32,
    pub ep_cols: i32,
    pub ep_left: i32,
}

/// The layout on a screen of `n_row` rows and `n_col` columns. The last row
/// of the screen is left to messages. The podcast window takes the left
/// half; the episode window starts on the podcast window's last column and
/// takes the rest. A negative size counts as zero.
pub open spec fn layout_of(n_row: i32, n_col: i32) -> Layout {
    let rows = if n_row < 0 {
        0
    } else {
        n_row as int
    };
    let cols = if n_col < 0 {
        0
    } else {
        n_col as int
    };
    let pod_cols = cols / 2;
    Layout {
        height: (rows - 1) as i32,
        pod_cols: pod_cols as i32,
        ep_cols: (cols - pod_cols + 1) as i32,
        ep_left: (pod_cols - 1) as i32,
    }
}

/// Shares out a screen of `n_row` rows and `n_col` columns.
pub fn layout(n_row: i32, n_col: i32) -> (r: Layout)
    ensures
        r == layout_of(n_row, n_col),
{
    let rows: i32 = if n_row < 0 {
        0
    } else {
        n_row
    };
    let cols: i32 = if n_col < 0 {
        0
    } else {
        n_col
    };
    let pod_cols: i32 = cols / 2;
    Layout { height: rows - 1, pod_cols, ep_cols: cols - pod_cols + 1, ep_left: pod_cols - 1 }
}

/// Whether `frame` is that of the podcast menu's panel on a screen of
/// `n_row` rows and `n_col` columns.
pub open spec fn podcast_frame(frame: Frame, n_row: i32, n_col: i32) -> bool {
    let place = layout_of(n_row, n_col);
    &&& frame.n_row == place.height
    &&& frame.n_col == place.pod_cols
    &&& frame.start_y == 0
    &&& frame.start_x == 0
    &&& frame.screen_pos == 0
    &&& frame.title == "Podcasts"@
    &&& frame.colors@ == color_pairs()
}

/// Whether `frame` is that of the episode menu's panel on a screen of
/// `n_row` rows and `n_col` columns.
pub open spec fn episode_frame(frame: Frame, n_row: i32, n_col: i32) -> bool {
    let place = layout_of(n_row, n_col);
    &&& frame.n_row == place.height
    &&& frame.n_col == place.ep_cols
    &&& frame.start_y == 0
    &&& frame.start_x == place.ep_left
    &&& frame.screen_pos == 1
    &&& frame.title == "Episodes"@
    &&& frame.colors@ == color_pairs()
}

/// What a message of the main thread leaves for the terminal to do.
#[derive(Debug, PartialEq, Eq)]
pub enum Directive {
    /// The menus have been repainted.
    Repainted,
    /// Show a message for a number of milliseconds; the flag marks an error.
    ShowMessage(String, u64, bool),
    /// Restore the terminal and stop.
    TearDown,
}

/// The two menus of the interface, and which of them is in use.
pub struct Interface {
    pub n_row: i32,
    pub n_col: i32,
    pub podcast_menu: Menu<Podcast>,
    pub episode_menu: Menu<Episode>,
    pub active_menu: ActiveMenu,
    /// Whether the welcome window is up: it is until there is a podcast.
    pub welcome: bool,
}

impl Interface {
    /// Both panels have a row of text for each of their rows.
    pub open spec fn wf(&self) -> bool {
        self.podcast_menu.panel.wf() && self.episode_menu.panel.wf()
    }

    /// Whether `facts` tell of the menus: the lengths are those of their
    /// lists, the positions are those under their cursors, and a played
    /// state is known exactly where the cursor is on an entry; it is then
    /// that of this entry in a state of the menu's store.
    pub open spec fn tells(&self, facts: Facts) -> bool {
        &&& facts.pod_len == self.podcast_menu.items.ids().len()
        &&& facts.ep_len == self.episode_menu.items.ids().len()
        &&& facts.pod_index == self.podcast_menu.cursor_idx()
        &&& facts.ep_index == self.episode_menu.cursor_idx()
        &&& facts.pod_played is Some <==> facts.pod_index < facts.pod_len
        &&& facts.ep_played is Some <==> facts.ep_index < facts.ep_len
        &&& facts.pod_index < facts.pod_len ==> exists|pods: Entries<Podcast>|
            #[trigger] self.podcast_menu.items.holds(pods) && facts.pod_played == Some(
                pods.items()[facts.pod_index as int].played(),
            )
        &&& facts.ep_index < facts.ep_len ==> exists|eps: Entries<Episode>|
            #[trigger] self.episode_menu.items.holds(eps) && facts.ep_played == Some(
                eps.items()[facts.ep_index as int].played(),
            )
    }

    /// Whether the podcast menu is one over `items` that has been set up:
    /// made with a blank panel, drawn, and shown as the menu in use.
    pub open spec fn podcasts_set_up(&self, items: LockVec<Podcast>) -> bool {
        exists|blank: Menu<Podcast>, drawn: Menu<Podcast>|
            #[trigger] blank.fresh(items) && blank.panel.same_frame(&self.podcast_menu.panel)
                && #[trigger] drawn.drawn_from(&blank) && self.podcast_menu.shown_active_from(
                &drawn,
            )
    }

    /// Whether the episode menu is one that has been set up: made with a
    /// blank panel, and drawn.
    pub open spec fn episodes_set_up(&self) -> bool {
        exists|blank: Menu<Episode>|
            #[trigger] blank.fresh(self.episode_menu.items) && blank.panel.same_frame(
                &self.episode_menu.panel,
            ) && self.episode_menu.drawn_from(&blank)
    }

    /// Sets up both menus on a screen of `n_row` rows and `n_col` columns:
    /// the podcast menu over `items`, in use, and the episode menu over the
    /// episodes of the first podcast. The welcome window is up if there is
    /// no podcast.
    pub fn new(items: &LockVec<Podcast>, n_row: i32, n_col: i32) -> (r: Interface)
        ensures
            r.wf(),
            r.n_row == n_row,
            r.n_col == n_col,
            r.active_menu == ActiveMenu::PodcastMenu,
            r.welcome == (items.ids().len() == 0),
            r.podcast_menu.items == *items,
            r.podcast_menu.panel.height() == layout_of(n_row, n_col).height,
            r.podcast_menu.panel.width() == layout_of(n_row, n_col).pod_cols,
            r.episode_menu.panel.height() == layout_of(n_row, n_col).height,
            r.episode_menu.panel.width() == layout_of(n_row, n_col).ep_cols,
            r.podcast_menu.place() == settle(
                place_of(0, 0, 0),
                reach(items.ids().len() as int),
                r.podcast_menu.panel.rows(),
            ),
            r.episode_menu.place() == settle(
                place_of(0, 0, 0),
                reach(r.episode_menu.items.ids().len() as int),
                r.episode_menu.panel.rows(),
            ),
            exists|pods: Entries<Podcast>|
                items.holds(pods) && if pods.items().len() > 0 {
                    r.episode_menu.items == pods.items()[0].episodes
                } else {
                    r.episode_menu.items.ids().len() == 0
                },
            podcast_frame(r.podcast_menu.panel.frame(), n_row, n_col),
            episode_frame(r.episode_menu.panel.frame(), n_row, n_col),
            r.podcasts_set_up(*items),
            r.episodes_set_up(),
    {
        let colors = set_colors();
        let place = layout(n_row, n_col);
        let podcast_panel = Panel::new(
            colors.clone(),
            String::from_str("Podcasts"),
            0,
            place.height,
            place.pod_cols,
            0,
            0,
        );
        let mut podcast_menu = Menu::new(podcast_panel, None, items.clone());
        let ghost blank_podcasts = podcast_menu;
        podcast_menu.init();
        let ghost drawn_podcasts = podcast_menu;
        podcast_menu.activate();
        proof {
            reveal_strlit("Podcasts");
            reveal_strlit("Episodes");
            blank_podcasts.panel.lemma_lines_len();
        }

        let episode_panel = Panel::new(
            colors,
            String::from_str("Episodes"),
            1,
            place.height,
            place.ep_cols,
            0,
            place.ep_left,
        );
        let first = items.clone_podcast(0);
        let ghost pods = choose|pods: Entries<Podcast>|
            items.holds(pods) && match first {
                Some(pod) => 0 < pods.items().len() && pod == pods.items()[0],
                None => 0 >= pods.items().len(),
            };
        let first_pod: LockVec<Episode> = match first {
            Some(pod) => pod.episodes,
            None => LockVec::new(Vec::new()),
        };
        let mut episode_menu = Menu::new(episode_panel, None, first_pod);
        let ghost blank_episodes = episode_menu;
        episode_menu.init();

        let welcome = items.is_empty();
        assert(blank_podcasts.fresh(*items) && blank_podcasts.panel.same_frame(&podcast_menu.panel)
            && drawn_podcasts.drawn_from(&blank_podcasts) && podcast_menu.shown_active_from(
            &drawn_podcasts,
        ));
        assert(blank_episodes.fresh(episode_menu.items) && blank_episodes.panel.same_frame(
            &episode_menu.panel,
        ) && episode_menu.drawn_from(&blank_episodes));
        assert(items.holds(pods) && if pods.items().len() > 0 {
            episode_menu.items == pods.items()[0].episodes
        } else {
            episode_menu.items.ids().len() == 0
        });
        Interface {
            n_row,
            n_col,
            podcast_menu,
            episode_menu,
            active_menu: ActiveMenu::PodcastMenu,
            welcome,
        }
    }

    /// Takes note that the user has pressed a key, whatever it asks for:
    /// the welcome window comes down once there is a podcast. Nothing else
    /// changes.
    pub fn key_pressed(&mut self)
        ensures
            final(self).welcome == (old(self).welcome && old(self).podcast_menu.items.ids().len()
                == 0),
            final(self).n_row == old(self).n_row,
            final(self).n_col == old(self).n_col,
            final(self).active_menu == old(self).active_menu,
            final(self).podcast_menu == old(self).podcast_menu,
            final(self).episode_menu == old(self).episode_menu,
    {
        if self.welcome && !self.podcast_menu.items.is_empty() {
            self.welcome = false;
        }
    }

    /// Looks up what a decision on a key needs to know.
    pub fn facts(&self) -> (r: Facts)
        ensures
            self.tells(r),
    {
        let pod_index: usize = self.podcast_menu.get_menu_idx(self.podcast_menu.selected);
        let ep_index: usize = self.episode_menu.get_menu_idx(self.episode_menu.selected);
        let pod_len: usize = self.podcast_menu.items.len();
        let ep_len: usize = self.episode_menu.items.len();
        let pod_played: Option<bool> = if pod_index < pod_len {
            self.podcast_menu.items.map_single_by_index(pod_index, podcast_played)
        } else {
            None
        };
        let ep_played: Option<bool> = if ep_index < ep_len {
            self.episode_menu.items.map_single_by_index(ep_index, episode_played)
        } else {
            None
        };
        Facts { pod_len, ep_len, pod_index, ep_index, pod_played, ep_played }
    }

    /// Whether this is `before` with both menus settled where a repaint
    /// leaves them.
    pub open spec fn settled_from(&self, before: &Interface) -> bool {
        &&& self.active_menu == before.active_menu
        &&& self.welcome == before.welcome
        &&& self.podcast_menu.items == before.podcast_menu.items
        &&& self.episode_menu.items == before.episode_menu.items
        &&& self.podcast_menu.place() == before.podcast_menu.place_after_repaint()
        &&& self.episode_menu.place() == before.episode_menu.place_after_repaint()
    }

    /// Whether this is `before` with both menus repainted, each from a
    /// state of its store: the panels show header and list, and have the
    /// steps of the repaint on record.
    pub open spec fn menus_repainted_from(&self, before: &Interface) -> bool {
        &&& self.n_row == before.n_row
        &&& self.n_col == before.n_col
        &&& self.active_menu == before.active_menu
        &&& self.welcome == before.welcome
        &&& exists|pods: Entries<Podcast>|
            before.podcast_menu.items.holds(pods) && self.podcast_menu.repainted_from(
                &before.podcast_menu,
                pods.items(),
            )
        &&& exists|eps: Entries<Episode>|
            before.episode_menu.items.holds(eps) && self.episode_menu.repainted_from(
                &before.episode_menu,
                eps.items(),
            )
    }

    /// Repaints both menus from their stores.
    pub fn update_menus(&mut self)
        requires
            old(self).wf(),
        ensures
            final(self).wf(),
            final(self).n_row == old(self).n_row,
            final(self).n_col == old(self).n_col,
            final(self).active_menu == old(self).active_menu,
            final(self).welcome == old(self).welcome,
            final(self).podcast_menu.items == old(self).podcast_menu.items,
            final(self).episode_menu.items == old(self).episode_menu.items,
            final(self).podcast_menu.place() == old(self).podcast_menu.place_after_repaint(),
            final(self).episode_menu.place() == old(self).episode_menu.place_after_repaint(),
            final(self).menus_repainted_from(old(self)),
    {
        self.podcast_menu.update_items();
        self.episode_menu.update_items();
    }

    /// Whether the menus are those of `before` with the cursors shown as
    /// the menu in use asks: the row of the podcast menu's cursor carries the
    /// active highlight, and so does that of the episode menu's cursor if
    /// the episode menu is the one in use; otherwise the episode menu is as
    /// it was.
    pub open spec fn focus_shown_from(&self, before: &Interface) -> bool {
        &&& self.n_row == before.n_row
        &&& self.n_col == before.n_col
        &&& self.active_menu == before.active_menu
        &&& self.welcome == before.welcome
        &&& exists|pods: Entries<Podcast>|
            before.podcast_menu.items.holds(pods) && self.podcast_menu.highlighted_from(
                &before.podcast_menu,
                pods.items(),
                ColorType::HighlightedActive,
            )
        &&& match before.active_menu {
            ActiveMenu::PodcastMenu => self.episode_menu == before.episode_menu,
            ActiveMenu::EpisodeMenu => exists|eps: Entries<Episode>|
                before.episode_menu.items.holds(eps) && self.episode_menu.highlighted_from(
                    &before.episode_menu,
                    eps.items(),
                    ColorType::HighlightedActive,
                ),
        }
    }

    /// Shows the cursors as the menu in use asks: the podcast menu's
    /// always in the color of the menu in use, the episode menu's too if it
    /// is the one in use.
    fn show_focus(&mut self)
        requires
            old(self).wf(),
        ensures
            final(self).wf(),
            final(self).focus_shown_from(old(self)),
            final(self).n_row == old(self).n_row,
            final(self).n_col == old(self).n_col,
            final(self).active_menu == old(self).active_menu,
            final(self).welcome == old(self).welcome,
            final(self).podcast_menu.items == old(self).podcast_menu.items,
            final(self).episode_menu.items == old(self).episode_menu.items,
            final(self).podcast_menu.header == old(self).podcast_menu.header,
            final(self).episode_menu.header == old(self).episode_menu.header,
            final(self).podcast_menu.place() == old(self).podcast_menu.place(),
            final(self).episode_menu.place() == old(self).episode_menu.place(),
            final(self).podcast_menu.panel.same_frame(&old(self).podcast_menu.panel),
            final(self).episode_menu.panel.same_frame(&old(self).episode_menu.panel),
    {
        self.podcast_menu.activate();
        match self.active_menu {
            ActiveMenu::PodcastMenu => {},
            ActiveMenu::EpisodeMenu => {
                self.episode_menu.activate();
            },
        }
    }

    /// Whether this is `before` with the panels of both menus fitted to a
    /// screen of `n_row` rows and `n_col` columns: each panel has its new
    /// size and place and the resize on record, and each cursor stays on its
    /// entry.
    pub open spec fn fitted_from(&self, before: &Interface, n_row: i32, n_col: i32) -> bool {
        let place = layout_of(n_row, n_col);
        &&& self.n_row == n_row
        &&& self.n_col == n_col
        &&& self.active_menu == before.active_menu
        &&& self.welcome == before.welcome
        &&& self.podcast_menu.resized_from(
            &before.podcast_menu,
            place.height,
            place.pod_cols,
            0,
            0,
        )
        &&& self.episode_menu.resized_from(
            &before.episode_menu,
            place.height,
            place.ep_cols,
            0,
            place.ep_left,
        )
    }

    /// Whether this is what a resize to a screen of `n_row` rows and
    /// `n_col` columns makes of `before`: the panels are fitted, then both
    /// menus are repainted, then the cursors are shown as the menu in use
    /// asks.
    pub open spec fn resized_from(&self, before: &Interface, n_row: i32, n_col: i32) -> bool {
        exists|fitted: Interface, painted: Interface|
            #[trigger] fitted.fitted_from(before, n_row, n_col)
                && #[trigger] painted.menus_repainted_from(&fitted) && self.focus_shown_from(
                &painted,
            )
    }

    /// Fits both menus to a screen of `n_row` rows and `n_col` columns,
    /// repaints them and shows the cursors again.
    pub fn resize(&mut self, n_row: i32, n_col: i32)
        requires
            old(self).wf(),
        ensures
            final(self).wf(),
            final(self).resized_from(old(self), n_row, n_col),
            final(self).n_row == n_row,
            final(self).n_col == n_col,
            final(self).active_menu == old(self).active_menu,
            final(self).welcome == old(self).welcome,
            final(self).podcast_menu.panel.height() == layout_of(n_row, n_col).height,
            final(self).podcast_menu.panel.width() == layout_of(n_row, n_col).pod_cols,
            final(self).episode_menu.panel.height() == layout_of(n_row, n_col).height,
            final(self).episode_menu.panel.width() == layout_of(n_row, n_col).ep_cols,
            final(self).podcast_menu.items == old(self).podcast_menu.items,
            final(self).episode_menu.items == old(self).episode_menu.items,
            final(self).podcast_menu.place() == old(self).podcast_menu.place_after_fit(
                layout_of(n_row, n_col).height,
                layout_of(n_row, n_col).pod_cols,
            ),
            final(self).episode_menu.place() == old(self).episode_menu.place_after_fit(
                layout_of(n_row, n_col).height,
                layout_of(n_row, n_col).ep_cols,
            ),
    {
        self.n_row = n_row;
        self.n_col = n_col;
        let place = layout(n_row, n_col);
        self.podcast_menu.resize(place.height, place.pod_cols, 0, 0);
        self.episode_menu.resize(place.height, place.ep_cols, 0, place.ep_left);
        let ghost fitted = *self;
        self.update_menus();
        let ghost painted = *self;
        self.show_focus();
        assert(fitted.fitted_from(old(self), n_row, n_col) && painted.menus_repainted_from(&fitted)
            && self.focus_shown_from(&painted));
    }

    /// Acts on a message of the main thread, and says what is left for the
    /// terminal to do.
    pub fn handle_message(&mut self, message: MainMessage) -> (r: Directive)
        requires
            old(self).wf(),
        ensures
            final(self).wf(),
            match message {
                MainMessage::UiUpdateMenus => {
                    &&& r == Directive::Repainted
                    &&& final(self).settled_from(old(self))
                    &&& final(self).menus_repainted_from(old(self))
                },
                MainMessage::UiSpawnMsgWin(text, duration, error) => r == Directive::ShowMessage(
                    text,
                    duration,
                    error,
                ) && *final(self) == *old(self),
                MainMessage::UiTearDown => r == Directive::TearDown && *final(self) == *old(self),
            },
    {
        match message {
            MainMessage::UiUpdateMenus => {
                self.update_menus();
                Directive::Repainted
            },
            MainMessage::UiSpawnMsgWin(text, duration, error) => Directive::ShowMessage(
                text,
                duration,
                error,
            ),
            MainMessage::UiTearDown => Directive::TearDown,
        }
    }
}

/// The record of a panel of `rows` rows after row `selected` has been shown
/// as played or not in the active highlight: the row is given style and
/// color, if the panel has it, and the window is shown.
pub open spec fn shown_played_record(
    before: Seq<DrawOp>,
    selected: i32,
    rows: int,
    played: bool,
) -> Seq<DrawOp> {
    if 0 <= selected < rows {
        before.push(
            DrawOp::ChangeAttr(selected, style_of(played), ColorType::HighlightedActive),
        ).push(DrawOp::Refresh)
    } else {
        before.push(DrawOp::Refresh)
    }
}

impl Interface {
    /// Whether the episode menu lists the episodes of the podcast of `pods`
    /// that the cursor of the podcast menu is on, or nothing where that
    /// cursor is on no podcast.
    pub open spec fn lists_episodes_of(&self, pods: Seq<Podcast>) -> bool {
        let at = self.podcast_menu.cursor_idx();
        if at < pods.len() {
            self.episode_menu.items == pods[at].episodes
        } else {
            self.episode_menu.items.ids().len() == 0
        }
    }

    /// Whether the menus are what `effect` makes of those of `before`.
    ///
    /// * A step of the podcast menu is followed by a repaint of the episode
    ///   menu from its start, over the episodes of the podcast under the
    ///   cursor.
    /// * A change of the menu in use highlights the cursors anew: that of
    ///   the menu in use in the active color, that of the podcast menu
    ///   otherwise in the plain highlight, that of the episode menu
    ///   otherwise in normal color.
    /// * Showing an episode as played or not restyles the cursor's row.
    pub open spec fn moved_from(&self, before: &Interface, effect: Effect) -> bool {
        match effect {
            Effect::Nothing => self.podcast_menu == before.podcast_menu && self.episode_menu
                == before.episode_menu,
            Effect::AskFeedUrl => self.podcast_menu == before.podcast_menu && self.episode_menu
                == before.episode_menu,
            Effect::ScrollPodcasts(lines) => {
                &&& exists|pods: Entries<Podcast>|
                    before.podcast_menu.items.holds(pods) && self.podcast_menu.scrolled_from(
                        &before.podcast_menu,
                        pods.items(),
                        lines,
                    )
                &&& exists|pods: Entries<Podcast>|
                    self.podcast_menu.items.holds(pods) && self.lists_episodes_of(pods.items())
                &&& exists|eps: Entries<Episode>, start: Menu<Episode>|
                    start.items.holds(eps) && start.top_row == 0 && start.selected == 0 && start.panel
                        == before.episode_menu.panel && start.header == before.episode_menu.header
                        && self.episode_menu.repainted_from(&start, eps.items())
            },
            Effect::ScrollEpisodes(lines) => {
                &&& self.podcast_menu == before.podcast_menu
                &&& exists|eps: Entries<Episode>|
                    before.episode_menu.items.holds(eps) && self.episode_menu.scrolled_from(
                        &before.episode_menu,
                        eps.items(),
                        lines,
                    )
            },
            Effect::FocusPodcasts => {
                &&& exists|pods: Entries<Podcast>|
                    before.podcast_menu.items.holds(pods) && self.podcast_menu.highlighted_from(
                        &before.podcast_menu,
                        pods.items(),
                        ColorType::HighlightedActive,
                    )
                &&& exists|eps: Entries<Episode>|
                    before.episode_menu.items.holds(eps) && self.episode_menu.highlighted_from(
                        &before.episode_menu,
                        eps.items(),
                        ColorType::Normal,
                    )
            },
            Effect::FocusEpisodes => {
                &&& exists|pods: Entries<Podcast>|
                    before.podcast_menu.items.holds(pods) && self.podcast_menu.highlighted_from(
                        &before.podcast_menu,
                        pods.items(),
                        ColorType::Highlighted,
                    )
                &&& exists|eps: Entries<Episode>|
                    before.episode_menu.items.holds(eps) && self.episode_menu.highlighted_from(
                        &before.episode_menu,
                        eps.items(),
                        ColorType::HighlightedActive,
                    )
            },
            Effect::ShowPlayed(played) => {
                &&& self.podcast_menu == before.podcast_menu
                &&& self.episode_menu.place() == before.episode_menu.place()
                &&& self.episode_menu.items == before.episode_menu.items
                &&& self.episode_menu.header == before.episode_menu.header
                &&& self.episode_menu.panel.same_frame(&before.episode_menu.panel)
                &&& self.episode_menu.panel.lines() == lines_styled(
                    before.episode_menu.panel.lines(),
                    before.episode_menu.selected as int,
                    style_of(played),
                    ColorType::HighlightedActive,
                )
                &&& self.episode_menu.panel.recorded() == shown_played_record(
                    before.episode_menu.panel.recorded(),
                    before.episode_menu.selected,
                    before.episode_menu.panel.rows(),
                    played,
                )
            },
        }
    }

    /// Acts on a key. The menus move as the decision's effect says, and
    /// the welcome window comes down once there is a podcast. What is to
    /// be sent to the main thread, and whether the user is to be asked for
    /// a feed's address, stands in the decision.
    pub fn handle_action(&mut self, action: UserAction) -> (r: Decision)
        requires
            old(self).wf(),
        ensures
            final(self).wf(),
            final(self).n_row == old(self).n_row,
            final(self).n_col == old(self).n_col,
            exists|facts: Facts|
                old(self).tells(facts) && r == #[trigger] decided(
                    action,
                    old(self).active_menu,
                    facts,
                ) && final(self).welcome == (old(self).welcome && facts.pod_len == 0),
            final(self).active_menu == focus_after(old(self).active_menu, r.effect),
            final(self).moved_from(old(self), r.effect),
    {
        let facts = self.facts();
        if self.welcome && facts.pod_len > 0 {
            self.welcome = false;
        }
        let decision = decide(action, self.active_menu, &facts);
        match decision.effect {
            Effect::ScrollPodcasts(lines) => {
                self.podcast_menu.scroll(lines);
                self.episode_menu.top_row = 0;
                self.episode_menu.selected = 0;
                let under_cursor = self.podcast_menu.get_episodes();
                let ghost pods = choose|pods: Entries<Podcast>|
                    self.podcast_menu.items.holds(pods) && match under_cursor {
                        Some(list) => self.podcast_menu.cursor_idx() < pods.items().len() && list
                            == pods.items()[self.podcast_menu.cursor_idx()].episodes,
                        None => self.podcast_menu.cursor_idx() >= pods.items().len(),
                    };
                self.episode_menu.items = match under_cursor {
                    Some(list) => list,
                    None => LockVec::new(Vec::new()),
                };
                let ghost start = self.episode_menu;
                self.episode_menu.update_items();
                proof {
                    assert(self.podcast_menu.items.holds(pods) && self.lists_episodes_of(pods.items()));
                    let eps = choose|eps: Entries<Episode>|
                        start.items.holds(eps) && self.episode_menu.repainted_from(&start, eps.items());
                    assert(start.items.holds(eps) && start.top_row == 0 && start.selected == 0);
                    assert(start.panel == old(self).episode_menu.panel);
                    assert(start.header == old(self).episode_menu.header);
                    assert(self.episode_menu.repainted_from(&start, eps.items()));
                }
            },
            Effect::ScrollEpisodes(lines) => {
                self.episode_menu.scroll(lines);
            },
            Effect::FocusPodcasts => {
                self.active_menu = ActiveMenu::PodcastMenu;
                self.podcast_menu.activate();
                self.episode_menu.deactivate();
            },
            Effect::FocusEpisodes => {
                self.active_menu = ActiveMenu::EpisodeMenu;
                self.podcast_menu.deactivate();
                self.episode_menu.activate();
            },
            Effect::ShowPlayed(played) => {
                let row: i32 = self.episode_menu.selected;
                self.episode_menu.set_attrs(row, played, ColorType::HighlightedActive);
                self.episode_menu.panel.refresh();
            },
            Effect::AskFeedUrl => {},
            Effect::Nothing => {},
        }
        assert(old(self).tells(facts) && decision == decided(action, old(self).active_menu, facts));
        decision
    }
}

fn podcast_played(pod: &Podcast) -> (b: bool)
    ensures
        b == pod.played(),
{
    pod.is_played()
}

fn episode_played(ep: &Episode) -> (b: bool)
    ensures
        b == ep.played(),
{
    ep.is_played()
}

} // verus!
