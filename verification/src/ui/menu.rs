use vstd::prelude::*;
use crate::selection::all_toggled;
use crate::selection::change_selections;
use crate::selection::selections_changed;
use crate::selection::toggle_all;
use crate::store::Entries;
use crate::types::Episode;
use crate::types::LockVec;
use crate::types::Menuable;
use crate::types::NewEpisode;
use crate::types::Podcast;
use crate::ui::colors::ColorType;
use crate::ui::panel::DrawOp;
use crate::ui::panel::Frame;
use crate::ui::panel::Line;
use crate::ui::panel::Panel;
use crate::ui::panel::Step;
use crate::ui::panel::TextStyle;
use crate::ui::panel::blank_line;
use crate::ui::panel::blank_lines;
use crate::ui::panel::inner_cols;
use crate::ui::panel::inner_rows;
use crate::ui::panel::lemma_lines_wrapped_len;
use crate::ui::panel::lemma_steps_of;
use crate::ui::panel::lines_deleted;
use crate::ui::panel::lines_fitted;
use crate::ui::panel::lines_inserted;
use crate::ui::panel::lines_styled;
use crate::ui::panel::lines_wrapped;
use crate::ui::panel::lines_written;
use crate::ui::panel::wrap_count;
use crate::ui::panel::wrap_steps;
use crate::ui::place::Place;
use crate::ui::place::anchored;
use crate::ui::place::index_at;
use crate::ui::place::is_anchored;
use crate::ui::place::lemma_settle_fixed;
use crate::ui::place::lemma_settle_valid;
use crate::ui::place::lemma_step;
use crate::ui::place::place_of;
use crate::ui::place::valid;
use crate::ui::place::NO_SELECTION;
use crate::ui::place::reach;
use crate::ui::place::resized;
use crate::ui::place::resized_to;
use crate::ui::place::settle;
use crate::ui::place::settled;
use crate::ui::place::step;
use crate::ui::place::stepped;

verus! {

/// The style of a list entry's row: bold until the entry has been played.
pub open spec fn style_of(played: bool) -> TextStyle {
    if played {
        TextStyle::Normal
    } else {
        TextStyle::Bold
    }
}

/// Whether a row shows an entry: one of its titles for `cols` columns, in
/// the style that tells whether it has been played.
pub open spec fn shows<T: Menuable>(line: Line, item: T, cols: int) -> bool {
    &&& item.titled(cols as usize, line.text)
    &&& line.style == style_of(item.played())
}

/// Whether the rows from `from` on show the list: row `start_row` shows the
/// entry at `top_row`, each row below it the next entry, in normal color,
/// and the rows for which the list has no entry are blank.
pub open spec fn list_painted<T: Menuable>(
    lines: Seq<Line>,
    items: Seq<T>,
    start_row: int,
    top_row: int,
    cols: int,
    from: int,
) -> bool {
    forall|r: int|
        from <= r < lines.len() ==> if 0 <= top_row + r - start_row < items.len() {
            shows(#[trigger] lines[r], items[top_row + r - start_row], cols) && lines[r].color
                == ColorType::Normal
        } else {
            lines[r] == blank_line()
        }
}

/// The first row that a menu uses for its list: the first row without a
/// header, and two rows below the header's rows with one.
pub open spec fn header_rows(header: Option<String>, cols: int, rows: int) -> int {
    match header {
        Some(h) => wrap_count(h@.len() as int, cols, 0, rows) + 2,
        None => 0,
    }
}

/// The rows of a blank window on which a header has been written.
pub open spec fn header_painted(header: Option<String>, cols: int, rows: int) -> Seq<Line> {
    match header {
        Some(h) => lines_wrapped(
            blank_lines(rows),
            0,
            h@,
            cols,
            wrap_count(h@.len() as int, cols, 0, rows),
        ),
        None => blank_lines(rows),
    }
}

/// A list shown through a window of a panel, with a cursor on one of its
/// rows.
///
/// * `start_row` is the first row that the list uses: 0 without a header,
///   else the row below the header and a gap.
/// * `top_row` is the position in the list of the entry shown on
///   `start_row`.
/// * `selected` is the row of the cursor, or `NO_SELECTION` over an empty
///   list. Over a list with entries the cursor is never above `start_row`
///   after a repaint or a scroll; in a window that ends above `start_row`
///   it stands on `start_row`, below the window.
pub struct Menu<T: Clone + Menuable> {
    pub panel: Panel,
    pub header: Option<String>,
    pub items: LockVec<T>,
    pub start_row: i32,
    pub top_row: i32,
    pub selected: i32,
}

impl<T: Clone + Menuable> Menu<T> {
    /// The place of window and cursor.
    pub open spec fn place(&self) -> Place {
        place_of(self.start_row, self.top_row, self.selected)
    }

    /// Whether this is a menu over `items` that has not been painted yet:
    /// its panel is blank and has nothing on record, it has no header, and
    /// window and cursor are at the start.
    pub open spec fn fresh(&self, items: LockVec<T>) -> bool {
        &&& self.panel.lines() == blank_lines(self.panel.rows())
        &&& self.panel.recorded() == Seq::<DrawOp>::empty()
        &&& self.header is None
        &&& self.items == items
        &&& self.start_row == 0
        &&& self.top_row == 0
        &&& self.selected == 0
    }

    /// Creates a menu over `items`, with window and cursor at the start.
    pub fn new(panel: Panel, header: Option<String>, items: LockVec<T>) -> (r: Self)
        ensures
            r.panel == panel,
            r.header == header,
            r.items == items,
            r.start_row == 0,
            r.top_row == 0,
            r.selected == 0,
    {
        Menu { panel, header, items, start_row: 0, top_row: 0, selected: 0 }
    }

    /// The position in the list that a row of the panel stands for. Neither
    /// the row nor the position is checked against the window or the list;
    /// a row above the start of the list gives `usize::MAX`, which is no
    /// position of any list.
    pub fn get_menu_idx(&self, screen_y: i32) -> (r: usize)
        ensures
            r == menu_idx(self.top_row as int, screen_y as int, self.start_row as int),
    {
        let idx: i64 = self.top_row as i64 + screen_y as i64 - self.start_row as i64;
        if idx < 0 {
            usize::MAX
        } else if idx as u64 > usize::MAX as u64 {
            usize::MAX
        } else {
            idx as usize
        }
    }
}

/// The position in the list that row `screen_y` stands for.
pub open spec fn menu_idx(top_row: int, screen_y: int, start_row: int) -> int {
    let idx = top_row + screen_y - start_row;
    if 0 <= idx <= usize::MAX {
        idx
    } else {
        usize::MAX as int
    }
}

/// Whether `lines` are the rows of a window after a repaint: the header on
/// the rows above `start_row`, blank where it has no text, and the list from
/// `start_row` on.
pub open spec fn repainted<T: Menuable>(
    lines: Seq<Line>,
    header: Option<String>,
    items: Seq<T>,
    p: Place,
    cols: int,
    rows: int,
) -> bool {
    &&& lines.len() == rows
    &&& forall|r: int|
        0 <= r < rows && r < p.start_row ==> #[trigger] lines[r] == header_painted(
            header,
            cols,
            rows,
        )[r]
    &&& list_painted(lines, items, p.start_row, p.top_row, cols, p.start_row)
}

/// The steps that write a header from the first row down.
pub open spec fn header_steps(header: Option<String>, cols: int, rows: int) -> Seq<Step> {
    match header {
        Some(h) => wrap_steps(0, h@, cols, wrap_count(h@.len() as int, cols, 0, rows)),
        None => Seq::empty(),
    }
}

/// How many rows of a window of `rows` rows show an entry of a list of
/// `len` entries: the rows from `start_row` on, as far as the list reaches
/// from `top_row`.
pub open spec fn shown_rows(p: Place, len: int, rows: int) -> int {
    let room = rows - p.start_row;
    let left = len - p.top_row;
    if room <= 0 || left <= 0 {
        0
    } else if left < room {
        left
    } else {
        room
    }
}

/// The steps that paint `count` rows of a list from `start_row` down: for
/// each row its text is written, and then it is given its style in normal
/// color. Text and style are those that the row shows in `lines`.
pub open spec fn list_steps(lines: Seq<Line>, start_row: int, count: int) -> Seq<Step> {
    Seq::new(
        (2 * count) as nat,
        |j: int|
            if j % 2 == 0 {
                Step::WriteLine((start_row + j / 2) as i32, lines[start_row + j / 2].text)
            } else {
                Step::ChangeAttr(
                    (start_row + j / 2) as i32,
                    lines[start_row + j / 2].style,
                    ColorType::Normal,
                )
            },
    )
}

/// The steps of a repaint that leaves the rows `lines`: the window is
/// erased, the header is written, the rows of the list are painted from
/// `start_row` down, and the window is shown.
pub open spec fn repaint_steps(
    header: Option<String>,
    lines: Seq<Line>,
    p: Place,
    len: int,
    cols: int,
    rows: int,
) -> Seq<Step> {
    seq![Step::Erase] + header_steps(header, cols, rows) + list_steps(
        lines,
        p.start_row,
        shown_rows(p, len, rows),
    ) + seq![Step::Refresh]
}

/// A record that has grown by the steps of a repaint, one after the other,
/// has grown by the repaint.
proof fn lemma_repaint_record(log: Seq<Step>, head: Seq<Step>, list: Seq<Step>)
    ensures
        (log.push(Step::Erase) + head + list).push(Step::Refresh) == log + (seq![Step::Erase] + head
            + list + seq![Step::Refresh]),
{
    assert((log.push(Step::Erase) + head + list).push(Step::Refresh) =~= log + (seq![Step::Erase]
        + head + list + seq![Step::Refresh]));
}

impl<T: Clone + Menuable> Menu<T> {
    /// Writes the header, if there is one, and returns the first row for
    /// the list.
    fn print_header(&mut self) -> (r: i32)
        requires
            old(self).panel.wf(),
            old(self).panel.lines() == blank_lines(old(self).panel.rows()),
        ensures
            final(self).panel.wf(),
            final(self).panel.same_frame(&old(self).panel),
            final(self).header == old(self).header,
            final(self).items == old(self).items,
            final(self).start_row == old(self).start_row,
            final(self).top_row == old(self).top_row,
            final(self).selected == old(self).selected,
            r == header_rows(old(self).header, old(self).panel.cols(), old(self).panel.rows()),
            final(self).panel.lines() == header_painted(
                old(self).header,
                old(self).panel.cols(),
                old(self).panel.rows(),
            ),
            final(self).panel.steps() == old(self).panel.steps() + header_steps(
                old(self).header,
                old(self).panel.cols(),
                old(self).panel.rows(),
            ),
            0 <= r <= old(self).panel.rows() + 2,
    {
        match &self.header {
            Some(header) => {
                let text = header.clone();
                let n: i32 = self.panel.write_wrap_line(0, text);
                n + 2
            },
            None => {
                assert(self.panel.steps() =~= old(self).panel.steps() + Seq::<Step>::empty());
                0
            },
        }
    }

    /// Whether this menu is what a repaint from `items` makes of `before`:
    /// the first row of the list follows from the header, window and cursor
    /// are settled, and the panel shows header and list.
    pub open spec fn repainted_from(&self, before: &Menu<T>, items: Seq<T>) -> bool {
        &&& self.panel.same_frame(&before.panel)
        &&& self.header == before.header
        &&& self.items == before.items
        &&& self.start_row == header_rows(before.header, before.panel.cols(), before.panel.rows())
        &&& self.place() == settle(
            place_of(self.start_row, before.top_row, before.selected),
            reach(items.len() as int),
            before.panel.rows(),
        )
        &&& repainted(
            self.panel.lines(),
            before.header,
            items,
            self.place(),
            before.panel.cols(),
            before.panel.rows(),
        )
        &&& self.panel.steps() == before.panel.steps() + repaint_steps(
            before.header,
            self.panel.lines(),
            self.place(),
            items.len() as int,
            before.panel.cols(),
            before.panel.rows(),
        )
    }

    /// Paints the window anew from `entries`, and settles window and cursor
    /// on them.
    fn repaint(&mut self, entries: &Entries<T>)
        requires
            old(self).panel.wf(),
            entries.wf(),
        ensures
            final(self).panel.wf(),
            final(self).repainted_from(old(self), entries.items()),
            final(self).panel.lines().len() == old(self).panel.rows(),
    {
        let ghost log = self.panel.steps();
        self.panel.erase();
        proof {
            lemma_steps_of(old(self).panel.recorded(), Seq::empty(), DrawOp::Erase);
        }
        let start: i32 = self.print_header();
        let rows: i32 = self.panel.get_rows();
        let cols: i32 = self.panel.get_cols();
        let (top, selected) = settled(start, self.top_row, self.selected, entries.len(), rows);
        self.start_row = start;
        self.top_row = top;
        self.selected = selected;
        proof {
            self.panel.lemma_lines_len();
            match &self.header {
                Some(h) => {
                    lemma_lines_wrapped_len(
                        blank_lines(rows as int),
                        0,
                        h@,
                        cols as int,
                        wrap_count(h@.len() as int, cols as int, 0, rows as int),
                    );
                },
                None => {},
            }
        }
        let ghost head = self.panel.lines();
        let ghost items = entries.items();
        let ghost base = log.push(Step::Erase) + header_steps(
            old(self).header,
            cols as int,
            rows as int,
        );
        proof {
            assert forall|r: int| start <= r < rows implies #[trigger] head[r] == blank_line() by {
                assert(blank_lines(rows as int)[r] == blank_line());
            }
            assert(self.panel.steps() =~= base + list_steps(self.panel.lines(), start as int, 0));
        }
        let mut i: i32 = start;
        while i < rows
            invariant
                self.panel.wf(),
                self.panel.same_frame(&old(self).panel),
                self.panel.rows() == rows,
                self.panel.cols() == cols,
                self.header == old(self).header,
                self.items == old(self).items,
                self.start_row == start,
                self.top_row == top,
                self.selected == selected,
                entries.wf(),
                items == entries.items(),
                0 <= start <= i,
                i <= rows || i == start,
                0 <= top,
                0 <= cols,
                head.len() == rows,
                self.panel.lines().len() == rows,
                forall|r: int|
                    0 <= r < rows && (r < start || r >= i) ==> #[trigger] self.panel.lines()[r]
                        == head[r],
                forall|r: int| start <= r < rows ==> #[trigger] head[r] == blank_line(),
                list_painted(
                    self.panel.lines().subrange(0, if i < rows { i as int } else { rows as int }),
                    items,
                    start as int,
                    top as int,
                    cols as int,
                    start as int,
                ),
                self.panel.steps() == base + list_steps(
                    self.panel.lines(),
                    start as int,
                    shown_rows(place_of(start, top, selected), items.len() as int, i as int),
                ),
            decreases rows - i,
        {
            let ghost before = self.panel.lines();
            let ghost log_before = self.panel.recorded();
            let ghost shown = shown_rows(place_of(start, top, selected), items.len() as int, i as int);
            let idx: usize = self.get_menu_idx(i);
            match entries.get_ref(idx) {
                Some(el) => {
                    let title = el.get_title(cols as usize);
                    let played = el.is_played();
                    let ghost written = title;
                    self.panel.write_line(i, title);
                    let style = if played {
                        TextStyle::Normal
                    } else {
                        TextStyle::Bold
                    };
                    self.panel.change_attr(i, style, ColorType::Normal);
                    proof {
                        self.panel.lemma_lines_len();
                        let one = DrawOp::WriteLine(i, written);
                        let two = DrawOp::ChangeAttr(i, style, ColorType::Normal);
                        lemma_steps_of(log_before, Seq::empty(), one);
                        lemma_steps_of(log_before.push(one), Seq::empty(), two);
                        assert(shown == i - start);
                        assert(self.panel.steps() =~= base + list_steps(
                            self.panel.lines(),
                            start as int,
                            shown + 1,
                        ));
                    }
                },
                None => {
                    assert(self.panel.steps() =~= base + list_steps(
                        self.panel.lines(),
                        start as int,
                        shown,
                    ));
                },
            }
            proof {
                let now = self.panel.lines();
                let upto = now.subrange(0, i + 1);
                assert forall|r: int| start <= r < upto.len() implies if 0 <= top + r - start
                    < items.len() {
                    shows(#[trigger] upto[r], items[top + r - start], cols as int) && upto[r].color
                        == ColorType::Normal
                } else {
                    upto[r] == blank_line()
                } by {
                    if r < i {
                        assert(before.subrange(0, i as int)[r] == before[r]);
                        assert(upto[r] == before[r]);
                    }
                }
            }
            i = i + 1;
        }
        proof {
            assert(self.panel.lines().subrange(0, rows as int) =~= self.panel.lines());
        }
        let ghost log_painted = self.panel.recorded();
        let ghost shown = shown_rows(self.place(), items.len() as int, rows as int);
        assert(self.panel.steps() == base + list_steps(self.panel.lines(), start as int, shown));
        self.panel.refresh();
        proof {
            lemma_steps_of(log_painted, Seq::empty(), DrawOp::Refresh);
            lemma_repaint_record(
                log,
                header_steps(old(self).header, cols as int, rows as int),
                list_steps(self.panel.lines(), start as int, shown),
            );
        }
    }
}

impl<T: Clone + Menuable> Menu<T> {
    /// The place on which a repaint of this menu settles.
    pub open spec fn place_after_repaint(&self) -> Place {
        settle(
            Place {
                start_row: header_rows(self.header, self.panel.cols(), self.panel.rows()),
                top_row: self.top_row as int,
                selected: self.selected as int,
            },
            reach(self.items.ids().len() as int),
            self.panel.rows(),
        )
    }

    /// The place of this menu after its panel has been given `n_row` rows
    /// and `n_col` columns, border included, and it has been repainted.
    pub open spec fn place_after_fit(&self, n_row: i32, n_col: i32) -> Place {
        let rows = inner_rows(n_row as int);
        let moved = resized(self.place(), rows);
        settle(
            Place {
                start_row: header_rows(self.header, inner_cols(n_col as int), rows),
                top_row: moved.top_row,
                selected: moved.selected,
            },
            reach(self.items.ids().len() as int),
            rows,
        )
    }

    /// Whether window and cursor are where a repaint leaves them: over an
    /// empty list no entry is selected; over a list with entries the cursor
    /// is on an entry and not above the first row of the list, and the
    /// window is not scrolled further than the list needs. This holds in
    /// every window.
    pub open spec fn rests_on_the_list(&self) -> bool {
        let len = reach(self.items.ids().len() as int);
        if len == 0 {
            self.selected == NO_SELECTION && self.top_row == 0
        } else {
            valid(self.place(), len, self.panel.rows())
        }
    }

    /// The place to which a step in the direction of `lines` takes this
    /// menu: over an empty list nowhere; from a cursor that is on a row of
    /// the list and on an entry by one step; from any other place by one
    /// step from where a repaint settles. This is so in every window, also
    /// in one that has no row for the list.
    pub open spec fn place_after_scroll(&self, lines: i32) -> Place {
        let len = reach(self.items.ids().len() as int);
        let rows = self.panel.rows();
        if len == 0 {
            self.place()
        } else if anchored(self.place(), len, rows) {
            step(self.place(), len, rows, lines as int)
        } else {
            step(self.place_after_repaint(), len, rows, lines as int)
        }
    }

    /// Whether this menu is `before` with the frame of its panel drawn:
    /// that step is recorded, and nothing else differs.
    pub open spec fn framed_from(&self, before: &Menu<T>) -> bool {
        &&& self.panel.same_frame(&before.panel)
        &&& self.panel.lines() == before.panel.lines()
        &&& self.panel.recorded() == before.panel.recorded().push(DrawOp::Init)
        &&& self.header == before.header
        &&& self.items == before.items
        &&& self.place() == before.place()
    }

    /// Whether this menu is what drawing the frame and then a repaint from
    /// `items` make of `before`.
    pub open spec fn initialised_from(&self, before: &Menu<T>, items: Seq<T>) -> bool {
        exists|framed: Menu<T>|
            #[trigger] framed.framed_from(before) && self.repainted_from(&framed, items)
    }

    /// Whether this menu is `before` with its frame drawn and its list
    /// painted from a state of its store.
    pub open spec fn drawn_from(&self, before: &Menu<T>) -> bool {
        exists|e: Entries<T>| before.items.holds(e) && self.initialised_from(before, e.items())
    }

    /// Whether this menu is `before` with the row of its cursor in the
    /// active highlight, styled as its entry in a state of its store asks.
    pub open spec fn shown_active_from(&self, before: &Menu<T>) -> bool {
        exists|e: Entries<T>|
            before.items.holds(e) && self.highlighted_from(
                before,
                e.items(),
                ColorType::HighlightedActive,
            )
    }

    /// Draws the frame and paints the list.
    pub fn init(&mut self)
        requires
            old(self).panel.wf(),
        ensures
            final(self).panel.wf(),
            final(self).items == old(self).items,
            final(self).place() == old(self).place_after_repaint(),
            final(self).rests_on_the_list(),
            exists|e: Entries<T>|
                old(self).items.holds(e) && final(self).initialised_from(old(self), e.items()),
    {
        self.panel.init();
        let ghost framed = *self;
        self.update_items();
        proof {
            self.panel.lemma_same_rows(&old(self).panel);
        }
        proof {
            let e = choose|e: Entries<T>|
                framed.items.holds(e) && self.repainted_from(&framed, e.items());
            assert(framed.framed_from(old(self)) && self.repainted_from(&framed, e.items()));
            assert(old(self).items.holds(e) && self.initialised_from(old(self), e.items()));
        }
    }

    /// Paints header and list anew from what the store holds now. Where
    /// the list has become shorter than the cursor's entry, the cursor moves
    /// to the last entry; where the store is empty, no entry is selected.
    pub fn update_items(&mut self)
        requires
            old(self).panel.wf(),
        ensures
            final(self).panel.wf(),
            final(self).items == old(self).items,
            final(self).place() == old(self).place_after_repaint(),
            final(self).rests_on_the_list(),
            exists|e: Entries<T>| old(self).items.holds(e) && final(self).repainted_from(old(self), e.items()),
    {
        let items = self.items.clone();
        let handle = items.read();
        self.repaint(handle.borrow());
        assert(old(self).items.holds(handle@) && self.repainted_from(old(self), handle@.items()));
        proof {
            let len = reach(self.items.ids().len() as int);
            if len > 0 {
                lemma_settle_valid(
                    place_of(self.start_row, old(self).top_row, old(self).selected),
                    len,
                    old(self).panel.rows(),
                );
            }
        }
        handle.release_read();
    }

    /// Gives row `index` the style of a played or an unplayed entry, and
    /// the color `color`.
    pub fn set_attrs(&mut self, index: i32, played: bool, color: ColorType)
        requires
            old(self).panel.wf(),
        ensures
            final(self).panel.wf(),
            final(self).panel.same_frame(&old(self).panel),
            final(self).header == old(self).header,
            final(self).items == old(self).items,
            final(self).place() == old(self).place(),
            final(self).panel.lines() == lines_styled(
                old(self).panel.lines(),
                index as int,
                style_of(played),
                color,
            ),
            final(self).panel.recorded() == if 0 <= index < old(self).panel.rows() {
                old(self).panel.recorded().push(DrawOp::ChangeAttr(index, style_of(played), color))
            } else {
                old(self).panel.recorded()
            },
    {
        let style = if played {
            TextStyle::Normal
        } else {
            TextStyle::Bold
        };
        self.panel.change_attr(index, style, color);
    }

    /// Whether this menu is `before` with the cursor's row in `color`: the
    /// row of the cursor carries the style of its entry and the color, and
    /// nothing changes where the cursor is on no entry of `items`.
    pub open spec fn highlighted_from(&self, before: &Menu<T>, items: Seq<T>, color: ColorType) -> bool {
        let at = menu_idx(before.top_row as int, before.selected as int, before.start_row as int);
        &&& self.panel.same_frame(&before.panel)
        &&& self.header == before.header
        &&& self.items == before.items
        &&& self.place() == before.place()
        &&& self.panel.lines() == if at < items.len() {
            lines_styled(
                before.panel.lines(),
                before.selected as int,
                style_of(items[at].played()),
                color,
            )
        } else {
            before.panel.lines()
        }
        &&& self.panel.recorded() == if at < items.len() {
            if 0 <= before.selected < before.panel.rows() {
                before.panel.recorded().push(
                    DrawOp::ChangeAttr(before.selected, style_of(items[at].played()), color),
                ).push(DrawOp::Refresh)
            } else {
                before.panel.recorded().push(DrawOp::Refresh)
            }
        } else {
            before.panel.recorded()
        }
    }

    /// Gives the cursor's row the style of its entry in `entries` and the
    /// color `color`.
    fn highlight_over(&mut self, entries: &Entries<T>, color: ColorType)
        requires
            old(self).panel.wf(),
            entries.wf(),
        ensures
            final(self).panel.wf(),
            final(self).highlighted_from(old(self), entries.items(), color),
    {
        let idx: usize = self.get_menu_idx(self.selected);
        match entries.get_ref(idx) {
            Some(el) => {
                let played = el.is_played();
                self.set_attrs(self.selected, played, color);
                self.panel.refresh();
            },
            None => {},
        }
    }

    /// Gives the cursor's row the style of its entry and the color `color`.
    fn highlight(&mut self, color: ColorType)
        requires
            old(self).panel.wf(),
        ensures
            final(self).panel.wf(),
            exists|e: Entries<T>|
                old(self).items.holds(e) && final(self).highlighted_from(old(self), e.items(), color),
    {
        let items = self.items.clone();
        let handle = items.read();
        self.highlight_over(handle.borrow(), color);
        assert(old(self).items.holds(handle@) && self.highlighted_from(old(self), handle@.items(), color));
        handle.release_read();
    }

    /// Whether this menu is `before` repainted from `items` and then
    /// highlighted as the menu in use.
    pub open spec fn refreshed_from(&self, before: &Menu<T>, items: Seq<T>) -> bool {
        exists|mid: Menu<T>|
            #[trigger] mid.repainted_from(before, items) && self.highlighted_from(
                &mid,
                items,
                ColorType::HighlightedActive,
            )
    }

    /// Highlights the cursor's row: in the color of the menu in use if
    /// `active_menu`, else in that of a menu not in use. Nothing happens
    /// where the cursor is on no entry.
    pub fn highlight_selected(&mut self, active_menu: bool)
        requires
            old(self).panel.wf(),
        ensures
            final(self).panel.wf(),
            exists|e: Entries<T>|
                old(self).items.holds(e) && final(self).highlighted_from(
                    old(self),
                    e.items(),
                    if active_menu {
                        ColorType::HighlightedActive
                    } else {
                        ColorType::Highlighted
                    },
                ),
    {
        if active_menu {
            self.highlight(ColorType::HighlightedActive);
        } else {
            self.highlight(ColorType::Highlighted);
        }
    }

    /// Shows the menu as the one in use: the cursor's row takes the color
    /// of the active highlight.
    pub fn activate(&mut self)
        requires
            old(self).panel.wf(),
        ensures
            final(self).panel.wf(),
            exists|e: Entries<T>|
                old(self).items.holds(e) && final(self).highlighted_from(
                    old(self),
                    e.items(),
                    ColorType::HighlightedActive,
                ),
    {
        self.highlight(ColorType::HighlightedActive);
    }
}

/// The rows after the window has moved with a step from `before` to
/// `after`: down, the first row of the list leaves and `title` enters on the
/// last row; up, `title` enters on the first row of the list and the last
/// row leaves. Where the window has not moved the rows are as they were.
pub open spec fn lines_shifted(lines: Seq<Line>, before: Place, after: Place, title: Seq<char>) -> Seq<
    Line,
> {
    let last = lines.len() - 1;
    if after.top_row > before.top_row {
        lines_written(lines_deleted(lines_deleted(lines, before.start_row), last), last, title)
    } else if after.top_row < before.top_row {
        lines_inserted(lines, before.start_row, title)
    } else {
        lines
    }
}

/// The row on which the entry that the cursor leaves stands after a step.
pub open spec fn left_row(before: Place, after: Place) -> int {
    before.selected - (after.top_row - before.top_row)
}

/// The rows after a step from `before` to `after` over `items`: the window
/// moves as `lines_shifted` says, the row that the cursor leaves goes back
/// to normal color, if it is still a row of the list, and the cursor's new
/// row takes the color of the active highlight. Both carry the style of
/// their entry.
pub open spec fn lines_stepped<T: Menuable>(
    lines: Seq<Line>,
    before: Place,
    after: Place,
    items: Seq<T>,
    title: Seq<char>,
) -> Seq<Line> {
    let shifted = lines_shifted(lines, before, after, title);
    let left = left_row(before, after);
    let calmed = if before.start_row <= left {
        lines_styled(shifted, left, style_of(items[index_at(before)].played()), ColorType::Normal)
    } else {
        shifted
    };
    lines_styled(
        calmed,
        after.selected,
        style_of(items[index_at(after)].played()),
        ColorType::HighlightedActive,
    )
}

/// What is painted for a step from `before` to `after` in a window of
/// `rows` rows: where the window moves down, the first row of the list is
/// taken out, then the last row, and `title` is written there; where it
/// moves up, a row with `title` is put in on the first row of the list.
/// Then the row that the cursor leaves is styled, if the list still uses it,
/// then the row of the cursor, and the window is shown. No other row is
/// painted.
pub open spec fn ops_stepped<T: Menuable>(
    before: Place,
    after: Place,
    rows: int,
    items: Seq<T>,
    title: String,
) -> Seq<DrawOp> {
    let start = before.start_row as i32;
    let last = (rows - 1) as i32;
    let shift = if after.top_row > before.top_row {
        seq![DrawOp::DeleteLine(start), DrawOp::DeleteLine(last), DrawOp::WriteLine(last, title)]
    } else if after.top_row < before.top_row {
        seq![DrawOp::InsertLine(start, title)]
    } else {
        Seq::empty()
    };
    let left = left_row(before, after);
    let calm = if before.start_row <= left < rows {
        seq![
            DrawOp::ChangeAttr(
                left as i32,
                style_of(items[index_at(before)].played()),
                ColorType::Normal,
            ),
        ]
    } else {
        Seq::empty()
    };
    shift + calm + seq![
        DrawOp::ChangeAttr(
            after.selected as i32,
            style_of(items[index_at(after)].played()),
            ColorType::HighlightedActive,
        ),
        DrawOp::Refresh,
    ]
}

impl<T: Clone + Menuable> Menu<T> {
    /// Whether this menu is what a step in the direction of `lines` over
    /// `items` makes of `before`.
    ///
    /// * Over an empty list nothing changes.
    /// * Where the cursor of `before` is on a row of the list and on an
    ///   entry, window and cursor take the step, and the panel is repainted
    ///   as far as the step asks: see `lines_stepped`. An entry that enters
    ///   the window shows one of its titles. In a window without a row for
    ///   the list nothing is painted.
    /// * Where it is not, because the list or the window has changed, the
    ///   menu is repainted and settled first. The step is taken from there,
    ///   with one more repaint where the window moves, and the row of the
    ///   cursor takes the active highlight.
    pub open spec fn scrolled_from(&self, before: &Menu<T>, items: Seq<T>, lines: i32) -> bool {
        let len = reach(items.len() as int);
        let rows = before.panel.rows();
        let cols = before.panel.cols();
        &&& self.panel.same_frame(&before.panel)
        &&& self.header == before.header
        &&& self.items == before.items
        &&& if items.len() == 0 {
            &&& self.place() == before.place()
            &&& self.panel.lines() == before.panel.lines()
            &&& self.panel.recorded() == before.panel.recorded()
        } else if anchored(before.place(), len, rows) {
            let after = step(before.place(), len, rows, lines as int);
            &&& self.place() == after
            &&& if before.start_row < rows {
                exists|title: String|
                    {
                        &&& after.top_row != before.top_row ==> items[index_at(after)].titled(
                            cols as usize,
                            title@,
                        )
                        &&& self.panel.lines() == #[trigger] lines_stepped(
                            before.panel.lines(),
                            before.place(),
                            after,
                            items,
                            title@,
                        )
                        &&& self.panel.recorded() == before.panel.recorded() + ops_stepped(
                            before.place(),
                            after,
                            rows,
                            items,
                            title,
                        )
                    }
            } else {
                &&& self.panel.lines() == before.panel.lines()
                &&& self.panel.recorded() == before.panel.recorded()
            }
        } else {
            exists|rested: Menu<T>, painted: Menu<T>|
                #[trigger] rested.repainted_from(before, items)
                    && #[trigger] painted.stepped_from(&rested, items, lines)
                    && self.highlighted_from(&painted, items, ColorType::HighlightedActive)
        }
    }

    /// This menu with window and cursor moved.
    pub open spec fn moved_to(&self, top_row: i32, selected: i32) -> Menu<T> {
        Menu { top_row, selected, ..*self }
    }

    /// Whether this menu is what a step in the direction of `lines` makes
    /// of `rested`, a menu that has just been repainted from `items`: window
    /// and cursor take the step, and where the window moves the menu is
    /// repainted once more.
    pub open spec fn stepped_from(&self, rested: &Menu<T>, items: Seq<T>, lines: i32) -> bool {
        let after = step(
            rested.place(),
            reach(items.len() as int),
            rested.panel.rows(),
            lines as int,
        );
        let shifted = rested.moved_to(after.top_row as i32, after.selected as i32);
        if after.top_row != rested.top_row {
            self.repainted_from(&shifted, items)
        } else {
            *self == shifted
        }
    }
}

impl<T: Clone + Menuable> Menu<T> {
    /// Takes one step over `entries` from a place whose cursor is on an
    /// entry, and repaints what the step changes.
    fn step_over(&mut self, entries: &Entries<T>, lines: i32)
        requires
            old(self).panel.wf(),
            entries.wf(),
            anchored(
                old(self).place(),
                reach(entries.items().len() as int),
                old(self).panel.rows(),
            ),
        ensures
            final(self).panel.wf(),
            final(self).scrolled_from(old(self), entries.items(), lines),
    {
        let rows: i32 = self.panel.get_rows();
        let cols: i32 = self.panel.get_cols();
        let start: i32 = self.start_row;
        let top: i32 = self.top_row;
        let selected: i32 = self.selected;
        let ghost items = entries.items();
        let ghost before = self.place();
        let ghost first = self.panel.lines();
        let (top2, selected2) = stepped(start, top, selected, entries.len(), rows, lines);
        let ghost after = place_of(start, top2, selected2);
        proof {
            lemma_step(before, reach(items.len() as int), rows as int, lines as int);
            self.panel.lemma_lines_len();
        }
        let left_idx: usize = self.get_menu_idx(selected);
        self.top_row = top2;
        self.selected = selected2;
        if start >= rows {
            // the window has no row for the list: there is nothing to paint
            return;
        }
        let new_idx: usize = self.get_menu_idx(selected2);
        let ghost mut title: String = arbitrary();
        let ghost log = self.panel.recorded();
        if top2 > top {
            let el = entries.get_ref(new_idx).unwrap();
            let text = el.get_title(cols as usize);
            proof {
                title = text;
            }
            self.panel.delete_line(start);
            self.panel.delete_line(rows - 1);
            self.panel.write_line(rows - 1, text);
        } else if top2 < top {
            let el = entries.get_ref(new_idx).unwrap();
            let text = el.get_title(cols as usize);
            proof {
                title = text;
            }
            self.panel.insert_line(start, text);
        }
        assert(self.panel.lines() == lines_shifted(first, before, after, title@));
        let left: i32 = selected - (top2 - top);
        if start <= left {
            let played = entries.get_ref(left_idx).unwrap().is_played();
            self.set_attrs(left, played, ColorType::Normal);
        }
        let played = entries.get_ref(new_idx).unwrap().is_played();
        self.set_attrs(selected2, played, ColorType::HighlightedActive);
        self.panel.refresh();
        assert(self.panel.lines() == lines_stepped(first, before, after, items, title@));
        assert(self.panel.recorded() =~= log + ops_stepped(before, after, rows as int, items, title));
    }

    /// Moves the cursor by one entry: down for a positive `lines`, up for a
    /// negative one. The cursor does not pass the ends of the list. Where
    /// it would leave the window, the window moves by one row instead, and
    /// only the row that enters is painted. Over an empty list nothing
    /// happens.
    pub fn scroll(&mut self, lines: i32)
        requires
            old(self).panel.wf(),
        ensures
            final(self).panel.wf(),
            final(self).items == old(self).items,
            final(self).place() == old(self).place_after_scroll(lines),
            final(self).items.ids().len() > 0 ==> anchored(
                final(self).place(),
                reach(final(self).items.ids().len() as int),
                final(self).panel.rows(),
            ),
            exists|e: Entries<T>| old(self).items.holds(e) && final(self).scrolled_from(old(self), e.items(), lines),
    {
        let items = self.items.clone();
        let handle = items.read();
        let entries = handle.borrow();
        let len: usize = entries.len();
        let rows: i32 = self.panel.get_rows();
        if len == 0 {
            assert(self.scrolled_from(old(self), handle@.items(), lines));
        } else if is_anchored(self.start_row, self.top_row, self.selected, len, rows) {
            self.step_over(entries, lines);
            assert(self.scrolled_from(old(self), handle@.items(), lines));
        } else {
            self.repaint(entries);
            let ghost n = reach(entries.items().len() as int);
            let ghost rested = self.place();
            let ghost first = *self;
            proof {
                lemma_settle_valid(
                    place_of(self.start_row, old(self).top_row, old(self).selected),
                    n,
                    rows as int,
                );
            }
            let (top, selected) = stepped(
                self.start_row,
                self.top_row,
                self.selected,
                len,
                rows,
                lines,
            );
            proof {
                lemma_step(rested, n, rows as int, lines as int);
                lemma_settle_fixed(place_of(self.start_row, top, selected), n, rows as int);
            }
            if top != self.top_row {
                self.top_row = top;
                self.selected = selected;
                assert(*self == first.moved_to(top, selected));
                self.repaint(entries);
            } else {
                self.selected = selected;
                assert(*self == first.moved_to(top, selected));
            }
            let ghost painted = *self;
            self.highlight_over(entries, ColorType::HighlightedActive);
            proof {
                assert(first.repainted_from(old(self), entries.items()));
                assert(painted.stepped_from(&first, entries.items(), lines));
                assert(self.highlighted_from(
                    &painted,
                    entries.items(),
                    ColorType::HighlightedActive,
                ));
                assert(self.place() == step(rested, n, rows as int, lines as int));
                assert(self.scrolled_from(old(self), handle@.items(), lines));
            }
        }
        assert(old(self).items.holds(handle@) && self.scrolled_from(old(self), handle@.items(), lines));
        handle.release_read();
    }

    /// Whether this menu is `before` after its panel has been given a new
    /// size and place: the panel has that size and place, keeps the rows
    /// that fit and has blank rows for the rest, and has the resize on
    /// record; the cursor stays on its entry.
    pub open spec fn resized_from(
        &self,
        before: &Menu<T>,
        n_row: i32,
        n_col: i32,
        start_y: i32,
        start_x: i32,
    ) -> bool {
        &&& self.panel.frame() == (Frame { n_row, n_col, start_y, start_x, ..before.panel.frame() })
        &&& self.panel.lines() == lines_fitted(before.panel.lines(), inner_rows(n_row as int))
        &&& self.panel.recorded() == before.panel.recorded().push(
            DrawOp::Resize(n_row, n_col, start_y, start_x),
        )
        &&& self.header == before.header
        &&& self.items == before.items
        &&& self.place() == resized(before.place(), inner_rows(n_row as int))
    }

    /// Gives the panel a new size and place. Where the cursor would fall
    /// below the window, the window scrolls so that the cursor stays on its
    /// entry, on the last row. Nothing is painted.
    pub fn resize(&mut self, n_row: i32, n_col: i32, start_y: i32, start_x: i32)
        requires
            old(self).panel.wf(),
        ensures
            final(self).panel.wf(),
            final(self).panel.height() == n_row,
            final(self).panel.width() == n_col,
            final(self).header == old(self).header,
            final(self).items == old(self).items,
            final(self).place() == resized(old(self).place(), final(self).panel.rows()),
            final(self).panel.lines() == lines_fitted(
                old(self).panel.lines(),
                final(self).panel.rows(),
            ),
            final(self).panel.recorded() == old(self).panel.recorded().push(
                DrawOp::Resize(n_row, n_col, start_y, start_x),
            ),
            final(self).resized_from(old(self), n_row, n_col, start_y, start_x),
    {
        self.panel.resize(n_row, n_col, start_y, start_x);
        let rows: i32 = self.panel.get_rows();
        let (top, selected) = resized_to(self.start_row, self.top_row, self.selected, rows);
        self.top_row = top;
        self.selected = selected;
    }
}

impl Menu<Podcast> {
    /// A handle on the episodes of the podcast under the cursor, if the
    /// cursor is on a podcast.
    pub fn get_episodes(&self) -> (r: Option<LockVec<Episode>>)
        ensures
            r is Some <==> self.cursor_idx() < self.items.ids().len(),
            exists|e: Entries<Podcast>|
                self.items.holds(e) && match r {
                    Some(list) => self.cursor_idx() < e.items().len() && list
                        == e.items()[self.cursor_idx()].episodes,
                    None => self.cursor_idx() >= e.items().len(),
                },
    {
        let handle = self.items.read();
        let index: usize = self.get_menu_idx(self.selected);
        let r = match handle.borrow().get_ref(index) {
            Some(pod) => Some(pod.episodes.clone()),
            None => None,
        };
        assert(self.items.holds(handle@) && match r {
            Some(list) => self.cursor_idx() < handle@.items().len() && list
                == handle@.items()[self.cursor_idx()].episodes,
            None => self.cursor_idx() >= handle@.items().len(),
        });
        handle.release_read();
        r
    }

    /// Shows the menu as one not in use: the cursor's row takes the color
    /// of the plain highlight.
    pub fn deactivate(&mut self)
        requires
            old(self).panel.wf(),
        ensures
            final(self).panel.wf(),
            exists|e: Entries<Podcast>|
                old(self).items.holds(e) && final(self).highlighted_from(old(self), e.items(), ColorType::Highlighted),
    {
        self.highlight(ColorType::Highlighted);
    }
}

impl Menu<Episode> {
    /// Shows the menu as one not in use: the cursor's row goes back to
    /// normal color.
    pub fn deactivate(&mut self)
        requires
            old(self).panel.wf(),
        ensures
            final(self).panel.wf(),
            exists|e: Entries<Episode>|
                old(self).items.holds(e) && final(self).highlighted_from(old(self), e.items(), ColorType::Normal),
    {
        self.highlight(ColorType::Normal);
    }
}

impl<T: Clone + Menuable> Menu<T> {
    /// The position in the list of the entry under the cursor.
    pub open spec fn cursor_idx(&self) -> int {
        menu_idx(self.top_row as int, self.selected as int, self.start_row as int)
    }
}

impl Menu<NewEpisode> {
    /// Whether this menu is `before` after its store went from `from` to
    /// `to`: repainted and highlighted if an entry was changed, and as it
    /// was if none was.
    pub open spec fn reselected_from(
        &self,
        before: &Menu<NewEpisode>,
        from: Seq<NewEpisode>,
        to: Seq<NewEpisode>,
        changed: bool,
    ) -> bool {
        if changed {
            self.refreshed_from(before, to)
        } else {
            *self == *before && to == from
        }
    }

    /// Turns over the mark of the episode under the cursor, and repaints
    /// the menu if there is such an episode.
    pub fn select_item(&mut self)
        requires
            old(self).panel.wf(),
        ensures
            final(self).panel.wf(),
            exists|from: Entries<NewEpisode>, to: Entries<NewEpisode>|
                old(self).items.holds(from) && old(self).items.holds(to) && to.items() == selections_changed(
                    from.items(),
                    seq![old(self).cursor_idx() as usize],
                    None,
                ) && final(self).reselected_from(
                    old(self),
                    from.items(),
                    to.items(),
                    old(self).cursor_idx() < from.items().len(),
                ),
    {
        let mut indexes: Vec<usize> = Vec::new();
        indexes.push(self.get_menu_idx(self.selected));
        assert(indexes@ =~= seq![old(self).cursor_idx() as usize]);
        let _ = self.change_item_selections(indexes, None);
    }

    /// Marks every episode, or clears every mark if all episodes are
    /// marked, and repaints the menu if the list is not empty.
    pub fn select_all_items(&mut self)
        requires
            old(self).panel.wf(),
        ensures
            final(self).panel.wf(),
            exists|from: Entries<NewEpisode>, to: Entries<NewEpisode>|
                old(self).items.holds(from) && old(self).items.holds(to) && to.items() == all_toggled(from.items())
                    && final(self).reselected_from(
                    old(self),
                    from.items(),
                    to.items(),
                    from.items().len() > 0,
                ),
    {
        let items = self.items.clone();
        let (mut entries, handle) = items.write();
        let ghost from = entries;
        let changed = toggle_all(&mut entries);
        if changed {
            self.repaint(&entries);
            let ghost mid = *self;
            self.highlight_over(&entries, ColorType::HighlightedActive);
            assert(mid.repainted_from(old(self), entries.items()));
        } else {
            assert(entries.items() =~= from.items());
        }
        assert(old(self).items.holds(from) && old(self).items.holds(entries) && entries.items() == all_toggled(from.items())
            && self.reselected_from(old(self), from.items(), entries.items(), from.items().len() > 0));
        handle.release_write(entries);
    }

    /// Changes the mark of the episode at each of `indexes`: to `selection`,
    /// or to its opposite where `selection` is `None`. Repaints the menu and
    /// returns `true` if an episode was changed.
    fn change_item_selections(&mut self, indexes: Vec<usize>, selection: Option<bool>) -> (r: bool)
        requires
            old(self).panel.wf(),
        ensures
            final(self).panel.wf(),
            exists|from: Entries<NewEpisode>, to: Entries<NewEpisode>|
                old(self).items.holds(from) && old(self).items.holds(to) && to.items() == selections_changed(
                    from.items(),
                    indexes@,
                    selection,
                ) && r == crate::selection::any_within(indexes@, from.items().len())
                    && final(self).reselected_from(old(self), from.items(), to.items(), r),
    {
        let items = self.items.clone();
        let (mut entries, handle) = items.write();
        let ghost from = entries;
        let changed = change_selections(&mut entries, &indexes, selection);
        if changed {
            self.repaint(&entries);
            let ghost mid = *self;
            self.highlight_over(&entries, ColorType::HighlightedActive);
            assert(mid.repainted_from(old(self), entries.items()));
        } else {
            proof {
                crate::selection::lemma_unchanged_outside(from.items(), indexes@, selection);
            }
        }
        assert(old(self).items.holds(from) && old(self).items.holds(entries) && entries.items() == selections_changed(
            from.items(),
            indexes@,
            selection,
        ) && changed == crate::selection::any_within(indexes@, from.items().len())
            && self.reselected_from(old(self), from.items(), entries.items(), changed));
        handle.release_write(entries);
        changed
    }
}

} // verus!
