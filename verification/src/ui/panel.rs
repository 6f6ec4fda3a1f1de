//! The rows of a bordered window, kept in memory, with a record of what
//! was done to them for whoever paints the terminal.

use vstd::prelude::*;
use vstd::string::StrSliceExecFns;
use vstd::string::StringExecFns;
use crate::text::char_substring;
use crate::text::substring_of;
use crate::ui::colors::ColorType;
use crate::ui::colors::Colors;

verus! {

/// How heavy a row's text is drawn.
#[derive(PartialEq, Eq, Structural, Copy, Clone, Debug)]
pub enum TextStyle {
    Normal,
    Bold,
}

/// One step of painting, for the terminal to repeat. Rows and columns count
/// from the first row and column inside the border.
#[derive(Debug, PartialEq, Eq)]
pub enum DrawOp {
    /// Draw the border and the title.
    Init,
    /// Clear the rows and draw the border again.
    Erase,
    /// Show what has been painted.
    Refresh,
    /// Write text at the start of a row.
    WriteLine(i32, String),
    /// Push a row and those below it down by one, and write text on the
    /// row; the last row is lost.
    InsertLine(i32, String),
    /// Take a row out; those below it move up, and the last row is blank.
    DeleteLine(i32),
    /// Give a row a style and a color.
    ChangeAttr(i32, TextStyle, ColorType),
    /// Give the window a new size and place: rows, columns, top, left.
    Resize(i32, i32, i32, i32),
}

/// A step of painting as contracts speak of it: a `DrawOp` with the text
/// it carries in place of the string.
pub ghost enum Step {
    Init,
    Erase,
    Refresh,
    WriteLine(i32, Seq<char>),
    InsertLine(i32, Seq<char>),
    DeleteLine(i32),
    ChangeAttr(i32, TextStyle, ColorType),
    Resize(i32, i32, i32, i32),
}

impl View for DrawOp {
    type V = Step;

    open spec fn view(&self) -> Step {
        match self {
            DrawOp::Init => Step::Init,
            DrawOp::Erase => Step::Erase,
            DrawOp::Refresh => Step::Refresh,
            DrawOp::WriteLine(y, text) => Step::WriteLine(*y, text@),
            DrawOp::InsertLine(y, text) => Step::InsertLine(*y, text@),
            DrawOp::DeleteLine(y) => Step::DeleteLine(*y),
            DrawOp::ChangeAttr(y, style, color) => Step::ChangeAttr(*y, *style, *color),
            DrawOp::Resize(n_row, n_col, y, x) => Step::Resize(*n_row, *n_col, *y, *x),
        }
    }
}

/// The steps of a record.
pub open spec fn steps_of(ops: Seq<DrawOp>) -> Seq<Step> {
    Seq::new(ops.len(), |i: int| ops[i]@)
}

/// The steps of a record that has grown are the steps it had and those of
/// what was added.
pub proof fn lemma_steps_of(ops: Seq<DrawOp>, more: Seq<DrawOp>, op: DrawOp)
    ensures
        steps_of(ops + more) == steps_of(ops) + steps_of(more),
        steps_of(ops.push(op)) == steps_of(ops).push(op@),
        steps_of(Seq::<DrawOp>::empty()) == Seq::<Step>::empty(),
{
    assert(steps_of(ops + more) =~= steps_of(ops) + steps_of(more));
    assert(steps_of(ops.push(op)) =~= steps_of(ops).push(op@));
    assert(steps_of(Seq::<DrawOp>::empty()) =~= Seq::<Step>::empty());
}

/// The steps that write the first `count` pieces of `text`, each of `cols`
/// characters, from row `start_y` down.
pub open spec fn wrap_steps(start_y: int, text: Seq<char>, cols: int, count: int) -> Seq<Step> {
    Seq::new(
        count as nat,
        |k: int| Step::WriteLine((start_y + k) as i32, substring_of(text, k * cols, cols)),
    )
}

/// What a row shows.
pub ghost struct Line {
    pub text: Seq<char>,
    pub style: TextStyle,
    pub color: ColorType,
}

/// A row without text.
pub open spec fn blank_line() -> Line {
    Line { text: Seq::empty(), style: TextStyle::Normal, color: ColorType::Normal }
}

/// `n` rows without text.
pub open spec fn blank_lines(n: int) -> Seq<Line> {
    Seq::new(n as nat, |i: int| blank_line())
}

/// The rows after text has been written on row `y`.
pub open spec fn lines_written(lines: Seq<Line>, y: int, text: Seq<char>) -> Seq<Line> {
    if 0 <= y < lines.len() {
        lines.update(y, Line { text, style: TextStyle::Normal, color: ColorType::Normal })
    } else {
        lines
    }
}

/// The rows after row `y` has been taken out.
pub open spec fn lines_deleted(lines: Seq<Line>, y: int) -> Seq<Line> {
    if 0 <= y < lines.len() {
        lines.remove(y).push(blank_line())
    } else {
        lines
    }
}

/// The rows after a row with `text` has been put in at `y`.
pub open spec fn lines_inserted(lines: Seq<Line>, y: int, text: Seq<char>) -> Seq<Line> {
    if 0 <= y < lines.len() {
        lines.insert(
            y,
            Line { text, style: TextStyle::Normal, color: ColorType::Normal },
        ).drop_last()
    } else {
        lines
    }
}

/// The rows after row `y` has been given a style and a color.
pub open spec fn lines_styled(lines: Seq<Line>, y: int, style: TextStyle, color: ColorType) -> Seq<
    Line,
> {
    if 0 <= y < lines.len() {
        lines.update(y, Line { text: lines[y].text, style, color })
    } else {
        lines
    }
}

/// How many rows lie inside the border of a window of `n_row` rows.
pub open spec fn inner_rows(n_row: int) -> int {
    if n_row > 2 {
        n_row - 2
    } else {
        0
    }
}

/// How many columns of text a window of `n_col` columns has, inside border
/// and margins.
pub open spec fn inner_cols(n_col: int) -> int {
    if n_col > 5 {
        n_col - 5
    } else {
        0
    }
}

/// What no painting changes of a window: its size, its place on the
/// screen, its title and its colors.
pub ghost struct Frame {
    pub n_row: i32,
    pub n_col: i32,
    pub start_y: i32,
    pub start_x: i32,
    pub screen_pos: usize,
    pub colors: Colors,
    pub title: Seq<char>,
}

/// A window on the screen: its rows, its size and place, and what has been
/// done to it since the record was last taken.
#[derive(Debug)]
pub struct Panel {
    window: Vec<(String, TextStyle, ColorType)>,
    screen_pos: usize,
    colors: Colors,
    title: String,
    n_row: i32,
    n_col: i32,
    start_y: i32,
    start_x: i32,
    pending: Vec<DrawOp>,
}

impl Panel {
    /// The rows inside the border, from the top.
    pub closed spec fn lines(&self) -> Seq<Line> {
        Seq::new(
            self.window@.len(),
            |i: int|
                Line {
                    text: self.window@[i].0@,
                    style: self.window@[i].1,
                    color: self.window@[i].2,
                },
        )
    }

    /// Size, place, title and colors of the window.
    pub closed spec fn frame(&self) -> Frame {
        Frame {
            n_row: self.n_row,
            n_col: self.n_col,
            start_y: self.start_y,
            start_x: self.start_x,
            screen_pos: self.screen_pos,
            colors: self.colors,
            title: self.title@,
        }
    }

    /// The height of the window, border included.
    pub open spec fn height(&self) -> int {
        self.frame().n_row as int
    }

    /// The width of the window, border and margins included.
    pub open spec fn width(&self) -> int {
        self.frame().n_col as int
    }

    /// The number of rows inside the border.
    pub open spec fn rows(&self) -> int {
        inner_rows(self.height())
    }

    /// The number of columns of text.
    pub open spec fn cols(&self) -> int {
        inner_cols(self.width())
    }

    /// There is one row of text for each row inside the border.
    pub closed spec fn wf(&self) -> bool {
        self.window@.len() == inner_rows(self.n_row as int)
    }

    /// A panel has as many rows of text as rows inside its border.
    pub proof fn lemma_lines_len(&self)
        requires
            self.wf(),
        ensures
            self.lines().len() == self.rows(),
    {
    }

    /// A window of `n_row` rows and `n_col` columns, border included, with
    /// blank rows.
    pub fn new(
        colors: Colors,
        title: String,
        screen_pos: usize,
        n_row: i32,
        n_col: i32,
        start_y: i32,
        start_x: i32,
    ) -> (r: Panel)
        ensures
            r.wf(),
            r.frame() == (Frame { n_row, n_col, start_y, start_x, screen_pos, colors, title: title@ }),
            r.lines() == blank_lines(inner_rows(n_row as int)),
            r.recorded() == Seq::<DrawOp>::empty(),
    {
        let rows: i32 = if n_row > 2 {
            n_row - 2
        } else {
            0
        };
        let mut window: Vec<(String, TextStyle, ColorType)> = Vec::new();
        let mut i: i32 = 0;
        while i < rows
            invariant
                0 <= i <= rows,
                window@.len() == i,
                forall|k: int|
                    0 <= k < i ==> (#[trigger] window@[k]).0@ == Seq::<char>::empty()
                        && window@[k].1 == TextStyle::Normal && window@[k].2 == ColorType::Normal,
            decreases rows - i,
        {
            window.push((String::new(), TextStyle::Normal, ColorType::Normal));
            i = i + 1;
        }
        let r = Panel {
            window,
            screen_pos,
            colors,
            title,
            n_row,
            n_col,
            start_y,
            start_x,
            pending: Vec::new(),
        };
        assert(r.lines() =~= blank_lines(inner_rows(n_row as int)));
        r
    }

    /// The number of rows inside the border.
    pub fn get_rows(&self) -> (r: i32)
        ensures
            r == self.rows(),
    {
        if self.n_row > 2 {
            self.n_row - 2
        } else {
            0
        }
    }

    /// The height of the window, border included.
    pub fn get_height(&self) -> (r: i32)
        ensures
            r == self.height(),
    {
        self.n_row
    }

    /// The width of the window, border and margins included.
    pub fn get_width(&self) -> (r: i32)
        ensures
            r == self.width(),
    {
        self.n_col
    }

    /// The number of columns of text.
    pub fn get_cols(&self) -> (r: i32)
        ensures
            r == self.cols(),
    {
        if self.n_col > 5 {
            self.n_col - 5
        } else {
            0
        }
    }
}


/// How many rows a text of `len` characters takes when it is broken after
/// every `cols` characters.
pub open spec fn wrapped_rows(len: int, cols: int) -> int {
    if cols <= 0 || len <= 0 {
        0
    } else {
        (len + cols - 1) / cols
    }
}

/// How many of the rows of a broken text fit below row `start_y`.
pub open spec fn wrap_count(len: int, cols: int, start_y: int, rows: int) -> int {
    let need = wrapped_rows(len, cols);
    if start_y < 0 || start_y >= rows {
        0
    } else if need < rows - start_y {
        need
    } else {
        rows - start_y
    }
}

/// The rows after the first `count` pieces of `text`, each of `cols`
/// characters, were written from row `start_y` down.
pub open spec fn lines_wrapped(
    lines: Seq<Line>,
    start_y: int,
    text: Seq<char>,
    cols: int,
    count: int,
) -> Seq<Line>
    decreases count,
{
    if count <= 0 {
        lines
    } else {
        lines_written(
            lines_wrapped(lines, start_y, text, cols, count - 1),
            start_y + count - 1,
            substring_of(text, (count - 1) * cols, cols),
        )
    }
}

impl Panel {
    /// What has been done to the window since the record was last taken.
    pub closed spec fn recorded(&self) -> Seq<DrawOp> {
        self.pending@
    }

    /// The steps of what has been done to the window since the record was
    /// last taken.
    pub open spec fn steps(&self) -> Seq<Step> {
        steps_of(self.recorded())
    }

    /// Whether two windows have the same size, place, title and colors.
    pub open spec fn same_frame(&self, other: &Panel) -> bool {
        self.frame() == other.frame()
    }

    /// Panels with the same frame have the same numbers of rows and
    /// columns.
    pub proof fn lemma_same_rows(&self, other: &Panel)
        requires
            self.same_frame(other),
        ensures
            self.rows() == other.rows(),
            self.cols() == other.cols(),
    {
    }

    /// Draws the border; the rows stay as they are.
    pub fn init(&mut self)
        requires
            old(self).wf(),
        ensures
            final(self).wf(),
            final(self).same_frame(old(self)),
            final(self).lines() == old(self).lines(),
            final(self).recorded() == old(self).recorded().push(DrawOp::Init),
    {
        self.pending.push(DrawOp::Init);
        assert(self.lines() =~= old(self).lines());
    }

    /// Shows what has been painted; the rows stay as they are.
    pub fn refresh(&mut self)
        requires
            old(self).wf(),
        ensures
            final(self).wf(),
            final(self).same_frame(old(self)),
            final(self).lines() == old(self).lines(),
            final(self).recorded() == old(self).recorded().push(DrawOp::Refresh),
    {
        self.pending.push(DrawOp::Refresh);
        assert(self.lines() =~= old(self).lines());
    }

    /// Blanks every row.
    pub fn erase(&mut self)
        requires
            old(self).wf(),
        ensures
            final(self).wf(),
            final(self).same_frame(old(self)),
            final(self).lines() == blank_lines(old(self).rows()),
            final(self).recorded() == old(self).recorded().push(DrawOp::Erase),
    {
        let n: usize = self.window.len();
        let mut i: usize = 0;
        while i < n
            invariant
                i <= n,
                n == self.window@.len(),
                self.wf(),
                self.same_frame(old(self)),
                self.pending@ == old(self).pending@,
                forall|k: int|
                    0 <= k < i ==> (#[trigger] self.window@[k]).0@ == Seq::<char>::empty()
                        && self.window@[k].1 == TextStyle::Normal && self.window@[k].2
                        == ColorType::Normal,
            decreases n - i,
        {
            self.window.set(i, (String::new(), TextStyle::Normal, ColorType::Normal));
            i = i + 1;
        }
        self.pending.push(DrawOp::Erase);
        assert(self.lines() =~= blank_lines(old(self).rows()));
    }

    /// Writes `string` on row `y`, in normal style and color. A row outside
    /// the window is left alone, and nothing is recorded.
    pub fn write_line(&mut self, y: i32, string: String)
        requires
            old(self).wf(),
        ensures
            final(self).wf(),
            final(self).same_frame(old(self)),
            final(self).lines() == lines_written(old(self).lines(), y as int, string@),
            final(self).recorded() == if 0 <= y < old(self).rows() {
                old(self).recorded().push(DrawOp::WriteLine(y, string))
            } else {
                old(self).recorded()
            },
    {
        if y >= 0 && (y as usize) < self.window.len() {
            self.pending.push(DrawOp::WriteLine(y, string.clone()));
            self.window.set(y as usize, (string, TextStyle::Normal, ColorType::Normal));
        }
        assert(self.lines() =~= lines_written(old(self).lines(), y as int, string@));
    }

    /// Puts a row with `string` in at `y`; the rows from `y` on move down
    /// by one and the last row is lost. A row outside the window is left
    /// alone, and nothing is recorded.
    pub fn insert_line(&mut self, y: i32, string: String)
        requires
            old(self).wf(),
        ensures
            final(self).wf(),
            final(self).same_frame(old(self)),
            final(self).lines() == lines_inserted(old(self).lines(), y as int, string@),
            final(self).recorded() == if 0 <= y < old(self).rows() {
                old(self).recorded().push(DrawOp::InsertLine(y, string))
            } else {
                old(self).recorded()
            },
    {
        if y >= 0 && (y as usize) < self.window.len() {
            self.pending.push(DrawOp::InsertLine(y, string.clone()));
            self.window.insert(y as usize, (string, TextStyle::Normal, ColorType::Normal));
            let _ = self.window.pop();
        }
        assert(self.lines() =~= lines_inserted(old(self).lines(), y as int, string@));
    }

    /// Takes row `y` out; the rows below it move up by one and the last row
    /// is blank. A row outside the window is left alone, and nothing is
    /// recorded.
    pub fn delete_line(&mut self, y: i32)
        requires
            old(self).wf(),
        ensures
            final(self).wf(),
            final(self).same_frame(old(self)),
            final(self).lines() == lines_deleted(old(self).lines(), y as int),
            final(self).recorded() == if 0 <= y < old(self).rows() {
                old(self).recorded().push(DrawOp::DeleteLine(y))
            } else {
                old(self).recorded()
            },
    {
        if y >= 0 && (y as usize) < self.window.len() {
            self.pending.push(DrawOp::DeleteLine(y));
            let _ = self.window.remove(y as usize);
            self.window.push((String::new(), TextStyle::Normal, ColorType::Normal));
        }
        assert(self.lines() =~= lines_deleted(old(self).lines(), y as int));
    }

    /// Gives row `y` a style and a color; its text stays. A row outside the
    /// window is left alone, and nothing is recorded.
    pub fn change_attr(&mut self, y: i32, style: TextStyle, color: ColorType)
        requires
            old(self).wf(),
        ensures
            final(self).wf(),
            final(self).same_frame(old(self)),
            final(self).lines() == lines_styled(old(self).lines(), y as int, style, color),
            final(self).recorded() == if 0 <= y < old(self).rows() {
                old(self).recorded().push(DrawOp::ChangeAttr(y, style, color))
            } else {
                old(self).recorded()
            },
    {
        if y >= 0 && (y as usize) < self.window.len() {
            self.pending.push(DrawOp::ChangeAttr(y, style, color));
            let text = self.window[y as usize].0.clone();
            self.window.set(y as usize, (text, style, color));
        }
        assert(self.lines() =~= lines_styled(old(self).lines(), y as int, style, color));
    }

    /// A copy of row `row`: its text, style and color.
    pub fn get_row(&self, row: usize) -> (r: (String, TextStyle, ColorType))
        requires
            self.wf(),
            row < self.rows(),
        ensures
            r.0@ == self.lines()[row as int].text,
            r.1 == self.lines()[row as int].style,
            r.2 == self.lines()[row as int].color,
    {
        let line = &self.window[row];
        (line.0.clone(), line.1, line.2)
    }
}


/// The first `n` rows of `lines`, with blank rows behind them where there
/// are fewer.
pub open spec fn lines_fitted(lines: Seq<Line>, n: int) -> Seq<Line> {
    Seq::new(
        n as nat,
        |i: int|
            if i < lines.len() {
                lines[i]
            } else {
                blank_line()
            },
    )
}

impl Panel {
    /// Gives the window a new size and place. Rows that no longer fit are
    /// dropped from the end, and new rows are blank.
    pub fn resize(&mut self, n_row: i32, n_col: i32, start_y: i32, start_x: i32)
        requires
            old(self).wf(),
        ensures
            final(self).wf(),
            final(self).frame() == (Frame { n_row, n_col, start_y, start_x, ..old(self).frame() }),
            final(self).lines() == lines_fitted(old(self).lines(), inner_rows(n_row as int)),
            final(self).recorded() == old(self).recorded().push(
                DrawOp::Resize(n_row, n_col, start_y, start_x),
            ),
    {
        self.n_row = n_row;
        self.n_col = n_col;
        self.start_y = start_y;
        self.start_x = start_x;
        let rows: usize = if n_row > 2 {
            (n_row - 2) as usize
        } else {
            0
        };
        if rows < self.window.len() {
            self.window.truncate(rows);
        }
        while self.window.len() < rows
            invariant
                self.window@.len() <= rows,
                rows >= old(self).window@.len() ==> self.window@.len() >= old(self).window@.len(),
                rows < old(self).window@.len() ==> self.window@.len() == rows,
                self.frame() == (Frame { n_row, n_col, start_y, start_x, ..old(self).frame() }),
                self.pending@ == old(self).pending@,
                forall|k: int|
                    0 <= k < self.window@.len() && k < old(self).window@.len()
                        ==> self.window@[k] == old(self).window@[k],
                forall|k: int|
                    old(self).window@.len() <= k < self.window@.len() ==> (
                    #[trigger] self.window@[k]).0@ == Seq::<char>::empty() && self.window@[k].1
                        == TextStyle::Normal && self.window@[k].2 == ColorType::Normal,
            decreases rows - self.window@.len(),
        {
            self.window.push((String::new(), TextStyle::Normal, ColorType::Normal));
        }
        self.pending.push(DrawOp::Resize(n_row, n_col, start_y, start_x));
        assert(self.lines() =~= lines_fitted(old(self).lines(), inner_rows(n_row as int)));
    }

    /// Writes `string` from row `start_y` down, breaking it after every
    /// `cols` characters, as far as the window reaches. Returns the number
    /// of rows written.
    pub fn write_wrap_line(&mut self, start_y: i32, string: String) -> (r: i32)
        requires
            old(self).wf(),
        ensures
            final(self).wf(),
            final(self).same_frame(old(self)),
            r == wrap_count(
                string@.len() as int,
                old(self).cols(),
                start_y as int,
                old(self).rows(),
            ),
            0 <= r <= old(self).rows(),
            final(self).lines() == lines_wrapped(
                old(self).lines(),
                start_y as int,
                string@,
                old(self).cols(),
                r as int,
            ),
            final(self).steps() == old(self).steps() + wrap_steps(
                start_y as int,
                string@,
                old(self).cols(),
                r as int,
            ),
    {
        let cols: i32 = self.get_cols();
        let rows: i32 = self.get_rows();
        let len: usize = string.as_str().unicode_len();
        if start_y < 0 || start_y >= rows || cols <= 0 || len == 0 {
            assert(self.steps() =~= old(self).steps() + wrap_steps(
                start_y as int,
                string@,
                cols as int,
                0,
            ));
            return 0;
        }
        assert(self.steps() =~= old(self).steps() + wrap_steps(
            start_y as int,
            string@,
            cols as int,
            0,
        ));
        let width: usize = cols as usize;
        let avail: i32 = rows - start_y;
        let mut k: i32 = 0;
        let mut done: usize = 0;
        while k < avail && done < len
            invariant
                self.wf(),
                self.same_frame(old(self)),
                cols == old(self).cols(),
                rows == old(self).rows(),
                cols > 0,
                width == cols,
                0 <= start_y < rows,
                avail == rows - start_y,
                0 <= k <= avail,
                len == string@.len(),
                done < len ==> done == k * cols,
                done >= len ==> done == len && k * cols >= len,
                k <= wrapped_rows(len as int, cols as int),
                self.lines() == lines_wrapped(
                    old(self).lines(),
                    start_y as int,
                    string@,
                    cols as int,
                    k as int,
                ),
                self.steps() == old(self).steps() + wrap_steps(
                    start_y as int,
                    string@,
                    cols as int,
                    k as int,
                ),
            decreases avail - k,
        {
            let ghost log = self.recorded();
            let piece = char_substring(string.as_str(), done, width);
            let text = String::from_str(piece);
            let row: i32 = start_y + k;
            let ghost shown = text;
            self.write_line(row, text);
            proof {
                lemma_wrapped_rows(len as int, cols as int, k as int);
                assert((k + 1) * cols == k * cols + cols) by (nonlinear_arith);
                lemma_steps_of(log, Seq::empty(), DrawOp::WriteLine(row, shown));
                assert(self.steps() =~= old(self).steps() + wrap_steps(
                    start_y as int,
                    string@,
                    cols as int,
                    k + 1,
                ));
            }
            k = k + 1;
            done = if len - done > width {
                done + width
            } else {
                len
            };
        }
        proof {
            lemma_wrapped_rows(len as int, cols as int, k as int);
        }
        k
    }

    /// Hands over the record of what has been done to the window, and
    /// starts a new one.
    pub fn take_ops(&mut self) -> (r: Vec<DrawOp>)
        requires
            old(self).wf(),
        ensures
            final(self).wf(),
            final(self).same_frame(old(self)),
            final(self).lines() == old(self).lines(),
            r@ == old(self).recorded(),
            final(self).recorded() == Seq::<DrawOp>::empty(),
    {
        let mut out: Vec<DrawOp> = Vec::new();
        std::mem::swap(&mut out, &mut self.pending);
        assert(self.lines() =~= old(self).lines());
        out
    }
}

/// Writing text in a window leaves as many rows as there were.
pub proof fn lemma_lines_wrapped_len(lines: Seq<Line>, start_y: int, text: Seq<char>, cols: int, count: int)
    ensures
        lines_wrapped(lines, start_y, text, cols, count).len() == lines.len(),
        forall|r: int|
            0 <= r < lines.len() && (r < start_y || r >= start_y + count) ==> lines_wrapped(
                lines,
                start_y,
                text,
                cols,
                count,
            )[r] == lines[r],
    decreases count,
{
    if count > 0 {
        lemma_lines_wrapped_len(lines, start_y, text, cols, count - 1);
    }
}

/// A text broken after every `cols` characters has a row `k` exactly when
/// more than `k * cols` characters are to be written.
pub proof fn lemma_wrapped_rows(len: int, cols: int, k: int)
    requires
        len >= 0,
        cols > 0,
        k >= 0,
    ensures
        (k * cols < len) == (k < wrapped_rows(len, cols)),
{
    if len > 0 {
        let q = (len + cols - 1) / cols;
        assert(q * cols <= len + cols - 1 < (q + 1) * cols) by (nonlinear_arith)
            requires
                q == (len + cols - 1) / cols,
                cols > 0,
        ;
        if k < q {
            assert((k + 1) * cols <= q * cols) by (nonlinear_arith)
                requires
                    k + 1 <= q,
                    cols > 0,
            ;
            assert((k + 1) * cols == k * cols + cols) by (nonlinear_arith);
        } else {
            assert(k * cols >= q * cols) by (nonlinear_arith)
                requires
                    k >= q,
                    cols > 0,
            ;
            assert((q + 1) * cols == q * cols + cols) by (nonlinear_arith);
        }
    } else {
        assert(k * cols >= 0) by (nonlinear_arith)
            requires
                k >= 0,
                cols > 0,
        ;
    }
}

} // verus!
