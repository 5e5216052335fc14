//! Terminal rendering: lines cut and padded to the width of the terminal,
//! the scroll area above the bottom row, and the progress bar on it.

use crate::executor::{Event, EventView, ProgressUnit};
use crate::messages::Messages;
use crate::text::{decimal_spec, push_char, push_chars, repeat_char, repeat_spec, to_chars, to_decimal};
use std::collections::VecDeque;
use unicode_width::{UnicodeWidthChar, UnicodeWidthStr};
use vstd::prelude::*;
use vstd::string::StringExecFns;

verus! {

/// The number of terminal columns that `unicode-width` gives for one
/// character, `None` for a control character.
pub uninterp spec fn char_width(c: char) -> Option<usize>;

/// The number of terminal columns that `unicode-width` gives for a text.
pub uninterp spec fn string_width(s: Seq<char>) -> usize;

/// `UnicodeWidthChar::width`: the displayed width of a character.
#[verifier::external_body]
fn width_of_char(c: char) -> (w: Option<usize>)
    ensures
        w == char_width(c),
{
    UnicodeWidthChar::width(c)
}

/// `UnicodeWidthStr::width`: the displayed width of a text.
#[verifier::external_body]
fn width_of_str(s: &str) -> (w: usize)
    ensures
        w == string_width(s@),
{
    UnicodeWidthStr::width(s)
}

/// The columns that a character takes when text is cut: its width, or none
/// where it has no width.
pub open spec fn cell_width(c: char) -> nat {
    match char_width(c) {
        Some(w) => w as nat,
        None => 0,
    }
}

/// The columns that the characters of a text take, added up.
pub open spec fn cells(s: Seq<char>) -> nat
    decreases s.len(),
{
    if s.len() == 0 {
        0
    } else {
        cells(s.drop_last()) + cell_width(s.last())
    }
}

/// How many leading characters of `s` fit into `budget` columns: the
/// count stops before the first character that does not fit any more.
pub open spec fn fitting(s: Seq<char>, budget: nat) -> nat
    decreases s.len(),
{
    if s.len() == 0 || cell_width(s[0]) > budget {
        0
    } else {
        1 + fitting(s.skip(1), (budget - cell_width(s[0])) as nat)
    }
}

/// `s` cut to at most `max` columns. Nothing fits into no columns.
pub open spec fn truncate_spec(s: Seq<char>, max: nat) -> Seq<char> {
    if max == 0 {
        Seq::empty()
    } else {
        s.take(fitting(s, max) as int)
    }
}

/// What was counted as fitting is part of the text and its characters take
/// no more than the budget.
pub proof fn lemma_fitting(s: Seq<char>, budget: nat)
    ensures
        fitting(s, budget) <= s.len(),
        cells(s.take(fitting(s, budget) as int)) <= budget,
        fitting(s, budget) < s.len() ==> cells(s.take(fitting(s, budget) as int + 1)) > budget,
    decreases s.len(),
{
    if s.len() == 0 || cell_width(s[0]) > budget {
        assert(s.take(0) =~= Seq::<char>::empty());
        if s.len() > 0 {
            assert(s.take(1).drop_last() =~= Seq::<char>::empty());
            assert(s.take(1).last() == s[0]);
        }
    } else {
        let rest = s.skip(1);
        let left = (budget - cell_width(s[0])) as nat;
        lemma_fitting(rest, left);
        let k: int = fitting(rest, left) as int;
        lemma_cells_front(s.take(k + 1));
        assert(s.take(k + 1).skip(1) =~= rest.take(k));
        if k < rest.len() {
            lemma_cells_front(s.take(k + 2));
            assert(s.take(k + 2).skip(1) =~= rest.take(k + 1));
        }
    }
}

/// The columns of a text are those of its first character and of the rest.
pub proof fn lemma_cells_front(s: Seq<char>)
    requires
        s.len() > 0,
    ensures
        cells(s) == cell_width(s[0]) + cells(s.skip(1)),
    decreases s.len(),
{
    if s.len() == 1 {
        assert(s.drop_last() =~= Seq::<char>::empty());
        assert(s.skip(1) =~= Seq::<char>::empty());
    } else {
        lemma_cells_front(s.drop_last());
        assert(s.drop_last().skip(1) =~= s.skip(1).drop_last());
    }
}

/// A cut text is the start of the text, and its characters take at most
/// `max` columns.
pub proof fn lemma_truncate_fits(s: Seq<char>, max: nat)
    ensures
        truncate_spec(s, max).is_prefix_of(s),
        cells(truncate_spec(s, max)) <= max,
{
    lemma_fitting(s, max);
    if max == 0 {
        assert(Seq::<char>::empty().is_prefix_of(s));
    } else {
        let k = fitting(s, max) as int;
        assert(s.take(k) =~= s.subrange(0, k));
    }
}

/// Truncate a text so that its displayed width, in terminal columns, does
/// not exceed `max`. Characters are kept whole.
pub fn truncate_to_width(s: &str, max: usize) -> (out: String)
    ensures
        out@ == truncate_spec(s@, max as nat),
{
    let mut out = String::new();
    if max == 0 {
        return out;
    }
    let v = to_chars(s);
    let mut width: usize = 0;
    let mut i: usize = 0;
    proof {
        assert(v@.skip(0) =~= v@);
    }
    let mut room = true;
    while room && i < v.len()
        invariant
            i <= v.len(),
            width <= max,
            v@ == s@,
            fitting(v@, max as nat) == i + fitting(v@.skip(i as int), (max - width) as nat),
            !room ==> fitting(v@.skip(i as int), (max - width) as nat) == 0,
        decreases v.len() - i + if room { 1nat } else { 0nat },
    {
        let w = match width_of_char(v[i]) {
            Some(w) => w,
            None => 0,
        };
        if w > max - width {
            room = false;
        } else {
            proof {
                assert(v@.skip(i as int).skip(1) =~= v@.skip(i + 1));
            }
            width = width + w;
            i = i + 1;
        }
    }
    push_chars(&mut out, &v, 0, i);
    proof {
        assert(v@.subrange(0, i as int) =~= v@.take(i as int));
        assert(out@ =~= v@.take(i as int));
    }
    out
}

/// The text of one row of the scroll area on a terminal of `cols` columns:
/// the line cut to one column less than the terminal has, then padded with
/// spaces up to that width, so that it covers what the row held before.
pub open spec fn row_text_spec(line: Seq<char>, cols: u16) -> Seq<char> {
    let max = if cols == 0 {
        0nat
    } else {
        (cols - 1) as nat
    };
    let cut = truncate_spec(line, max);
    if string_width(cut) < max {
        cut + repeat_spec(' ', (max - string_width(cut)) as nat)
    } else {
        cut
    }
}

/// Renders one row of the scroll area.
pub fn row_text(line: &str, cols: u16) -> (text: String)
    ensures
        text@ == row_text_spec(line@, cols),
{
    let max: usize = if cols == 0 {
        0
    } else {
        (cols - 1) as usize
    };
    let mut text = truncate_to_width(line, max);
    let shown = width_of_str(text.as_str());
    if shown < max {
        let padding = repeat_char(' ', max - shown);
        text.append(padding.as_str());
    }
    text
}

/// `scale * numer / denom`, rounded to the nearest whole number, halves
/// up; 0 where `denom` is 0.
pub open spec fn scaled_spec(numer: nat, denom: nat, scale: nat) -> nat {
    if denom == 0 {
        0
    } else {
        (2 * scale * numer + denom) / (2 * denom)
    }
}

fn scaled(numer: u64, denom: u64, scale: u64) -> (r: u128)
    requires
        scale <= 100,
    ensures
        r == scaled_spec(numer as nat, denom as nat, scale as nat),
{
    if denom == 0 {
        0
    } else {
        let n: u128 = numer as u128;
        let d: u128 = denom as u128;
        let k: u128 = scale as u128;
        assert(2 * k * n <= 200 * n) by (nonlinear_arith)
            requires
                k <= 100,
                n >= 0,
        ;
        assert(2 * scale * numer == 2 * k * n) by (nonlinear_arith)
            requires
                k == scale,
                n == numer,
        ;
        (2 * k * n + d) / (2 * d)
    }
}

/// The width of the bar on a terminal of `cols` columns: what is left
/// beside 30 columns of text, at most 50, and 10 on a narrow terminal.
pub open spec fn bar_width_spec(cols: u16) -> nat {
    if cols > 40 {
        if cols - 30 < 50 {
            (cols - 30) as nat
        } else {
            50
        }
    } else {
        10
    }
}

/// How many cells of a bar of `width` cells are filled at `done` of
/// `total`: the share, rounded, and never more than the bar has.
pub open spec fn filled_spec(done: u64, total: u64, width: nat) -> nat {
    let share = scaled_spec(done as nat, total as nat, width);
    if share > width {
        width
    } else {
        share
    }
}

/// The bar: `width` cells between brackets, the first `filled` of them full.
pub open spec fn bar_spec(filled: nat, width: nat) -> Seq<char> {
    seq!['['] + repeat_spec('\u{2588}', filled) + repeat_spec('\u{2591}', (width - filled) as nat)
        + seq![']']
}

/// How often `n` can be divided by 1024 before it is below 1024, six
/// times at most: the index of the unit that `n` bytes are written in.
pub open spec fn unit_index(n: u64) -> nat {
    if n < 1024 {
        0
    } else if n < 1048576 {
        1
    } else if n < 1073741824 {
        2
    } else if n < 1099511627776 {
        3
    } else if n < 1125899906842624 {
        4
    } else if n < 1152921504606846976 {
        5
    } else {
        6
    }
}

/// The number of bytes in the unit with the given index.
pub open spec fn unit_size(index: nat) -> nat {
    if index == 0 {
        1
    } else if index == 1 {
        1024
    } else if index == 2 {
        1048576
    } else if index == 3 {
        1073741824
    } else if index == 4 {
        1099511627776
    } else if index == 5 {
        1125899906842624
    } else {
        1152921504606846976
    }
}

/// The name of the unit with the given index.
pub open spec fn unit_name(index: nat) -> Seq<char> {
    if index == 0 {
        "B"@
    } else if index == 1 {
        "KiB"@
    } else if index == 2 {
        "MiB"@
    } else if index == 3 {
        "GiB"@
    } else if index == 4 {
        "TiB"@
    } else if index == 5 {
        "PiB"@
    } else {
        "EiB"@
    }
}

/// A number of bytes for a reader: whole bytes below 1024, otherwise the
/// largest binary unit that is not above the number, with one decimal that
/// is cut, not rounded.
pub open spec fn human_spec(n: u64) -> Seq<char> {
    let index = unit_index(n);
    if index == 0 {
        decimal_spec(n as nat) + seq![' '] + unit_name(0)
    } else {
        let size = unit_size(index);
        decimal_spec(n as nat / size) + seq!['.'] + decimal_spec((n as nat % size) * 10 / size)
            + seq![' '] + unit_name(index)
    }
}

/// Writes a number of bytes for a reader.
pub fn human_bytes(n: u64) -> (s: String)
    ensures
        s@ == human_spec(n),
{
    let (size, name): (u64, &str) = if n < 1024 {
        (1, "B")
    } else if n < 1048576 {
        (1024, "KiB")
    } else if n < 1073741824 {
        (1048576, "MiB")
    } else if n < 1099511627776 {
        (1073741824, "GiB")
    } else if n < 1125899906842624 {
        (1099511627776, "TiB")
    } else if n < 1152921504606846976 {
        (1125899906842624, "PiB")
    } else {
        (1152921504606846976, "EiB")
    };
    let mut s = to_decimal((n / size) as u128);
    if size > 1 {
        push_char(&mut s, '.');
        let tenth: u128 = (n % size) as u128 * 10 / size as u128;
        let digits = to_decimal(tenth);
        s.append(digits.as_str());
    }
    push_char(&mut s, ' ');
    s.append(name);
    proof {
        assert(s@ =~= human_spec(n));
    }
    s
}

/// The bar has the same number of characters whatever the progress: its
/// cells and the two brackets.
pub proof fn lemma_bar_width(done: u64, total: u64, cols: u16)
    ensures
        bar_spec(filled_spec(done, total, bar_width_spec(cols)), bar_width_spec(cols)).len()
            == bar_width_spec(cols) + 2,
        10 <= bar_width_spec(cols) <= 50,
{
}

/// The counter of the progress line: `file <done>/<total>` for files, the
/// two sizes for bytes.
pub open spec fn counter_spec(unit: ProgressUnit, done: u64, total: u64) -> Seq<char> {
    match unit {
        ProgressUnit::Files => "file "@ + decimal_spec(done as nat) + seq!['/'] + decimal_spec(
            total as nat,
        ),
        ProgressUnit::Bytes => human_spec(done) + seq!['/'] + human_spec(total),
    }
}

/// The progress line before it is cut to the terminal:
/// `<label> <counter> (<percent>%) <bar>`.
pub open spec fn progress_text_spec(label: Seq<char>, unit: ProgressUnit, done: u64, total: u64, cols: u16) -> Seq<
    char,
> {
    let width = bar_width_spec(cols);
    label + seq![' '] + counter_spec(unit, done, total) + " ("@ + decimal_spec(
        scaled_spec(done as nat, total as nat, 100),
    ) + "%) "@ + bar_spec(filled_spec(done, total, width), width)
}

/// The progress line on a terminal of `cols` columns: the text, cut by
/// displayed width where it is wider than one column less than the terminal.
pub open spec fn progress_line_spec(label: Seq<char>, unit: ProgressUnit, done: u64, total: u64, cols: u16) -> Seq<
    char,
> {
    let text = progress_text_spec(label, unit, done, total, cols);
    if cols >= 1 && string_width(text) > cols - 1 {
        truncate_spec(text, (cols - 1) as nat)
    } else {
        text
    }
}

/// Draw a progress bar with a counter and a percentage, as one line for a
/// terminal of `cols` columns.
pub fn draw_ui(done: u64, total: u64, unit: ProgressUnit, cols: u16, msg: &Messages) -> (line: String)
    ensures
        line@ == progress_line_spec(msg.copy_progress@, unit, done, total, cols),
{
    let width: u64 = if cols > 40 {
        if cols - 30 < 50 {
            (cols - 30) as u64
        } else {
            50
        }
    } else {
        10
    };
    let share = scaled(done, total, width);
    let filled: usize = if share > width as u128 {
        width as usize
    } else {
        share as usize
    };
    let empty: usize = width as usize - filled;
    let mut line = String::from_str(msg.copy_progress.as_str());
    push_char(&mut line, ' ');
    match unit {
        ProgressUnit::Files => {
            line.append("file ");
            let d = to_decimal(done as u128);
            line.append(d.as_str());
            push_char(&mut line, '/');
            let t = to_decimal(total as u128);
            line.append(t.as_str());
        },
        ProgressUnit::Bytes => {
            let d = human_bytes(done);
            line.append(d.as_str());
            push_char(&mut line, '/');
            let t = human_bytes(total);
            line.append(t.as_str());
        },
    }
    proof {
        assert(line@ =~= msg.copy_progress@ + seq![' '] + counter_spec(unit, done, total));
    }
    line.append(" (");
    let percent = to_decimal(scaled(done, total, 100));
    line.append(percent.as_str());
    line.append("%) ");
    push_char(&mut line, '[');
    let full = repeat_char('\u{2588}', filled);
    line.append(full.as_str());
    let rest = repeat_char('\u{2591}', empty);
    line.append(rest.as_str());
    push_char(&mut line, ']');
    proof {
        assert(line@ =~= progress_text_spec(msg.copy_progress@, unit, done, total, cols));
    }
    if cols >= 1 {
        let max: usize = (cols - 1) as usize;
        if width_of_str(line.as_str()) > max {
            line = truncate_to_width(line.as_str(), max);
        }
    }
    line
}

/// One row to paint. A row without text is cleared.
#[derive(Clone, Debug, PartialEq, Eq)]
pub struct Paint {
    pub row: u16,
    pub text: Option<String>,
}

/// A `Paint` as plain values.
pub struct PaintView {
    pub row: u16,
    pub text: Option<Seq<char>>,
}

impl View for Paint {
    type V = PaintView;

    open spec fn view(&self) -> PaintView {
        PaintView {
            row: self.row,
            text: match self.text {
                Some(t) => Some(t@),
                None => None,
            },
        }
    }
}

/// The views of a sequence of rows to paint.
pub open spec fn paint_views(paints: Seq<Paint>) -> Seq<PaintView> {
    Seq::new(paints.len(), |i: int| paints[i]@)
}

/// The last `n` of `lines`, or all of them where there are no more than `n`.
pub open spec fn keep_last(lines: Seq<Seq<char>>, n: nat) -> Seq<Seq<char>> {
    if lines.len() <= n {
        lines
    } else {
        lines.skip(lines.len() - n)
    }
}

/// The scroll area after one more line on a terminal with `rows` rows for
/// it: the line is added below and the oldest lines leave at the top. With
/// no row to show a line in, nothing is kept.
pub open spec fn scrolled_spec(lines: Seq<Seq<char>>, line: Seq<char>, rows: nat) -> Seq<Seq<char>> {
    if rows == 0 {
        Seq::empty()
    } else {
        keep_last(lines.push(line), rows)
    }
}

/// The painting of the scroll area: every one of its rows, from the top,
/// with the text of its line, or cleared where the area holds fewer lines.
/// On a terminal without columns nothing is painted.
pub open spec fn painting_spec(lines: Seq<Seq<char>>, cols: u16, rows: u16) -> Seq<PaintView> {
    if cols == 0 {
        Seq::empty()
    } else {
        Seq::new(
            rows as nat,
            |i: int|
                PaintView {
                    row: i as u16,
                    text: if i < lines.len() {
                        Some(row_text_spec(lines[i], cols))
                    } else {
                        None
                    },
                },
        )
    }
}

/// The rows above the bottom row of a terminal with `rows` rows: the
/// scroll area. The bottom row is kept for the progress bar.
pub open spec fn scroll_rows_spec(rows: u16) -> u16 {
    if rows == 0 {
        0
    } else {
        (rows - 1) as u16
    }
}

/// The lines of the scroll area, oldest first.
pub struct ScrollBuffer {
    lines: VecDeque<String>,
}

impl View for ScrollBuffer {
    type V = Seq<Seq<char>>;

    closed spec fn view(&self) -> Seq<Seq<char>> {
        Seq::new(self.lines@.len(), |i: int| self.lines@[i]@)
    }
}

impl ScrollBuffer {
    /// A scroll area without lines.
    pub fn new() -> (b: ScrollBuffer)
        ensures
            b@ == Seq::<Seq<char>>::empty(),
    {
        let b = ScrollBuffer { lines: VecDeque::new() };
        proof {
            assert(b@ =~= Seq::<Seq<char>>::empty());
        }
        b
    }

    /// The number of lines held.
    pub fn len(&self) -> (n: usize)
        ensures
            n == self@.len(),
    {
        self.lines.len()
    }

    /// Drops the oldest lines until no more than `rows` are held.
    pub fn shrink(&mut self, rows: u16)
        ensures
            final(self)@ == keep_last(old(self)@, rows as nat),
    {
        proof {
            assert(old(self)@.skip(0) =~= old(self)@);
        }
        while self.lines.len() > rows as usize
            invariant
                self.lines@.len() <= old(self).lines@.len(),
                self@.len() == self.lines@.len(),
                old(self)@.len() == old(self).lines@.len(),
                self.lines@.len() >= rows || self.lines@.len() == old(self).lines@.len(),
                self@ == old(self)@.skip(old(self)@.len() - self@.len()),
            decreases self.lines@.len(),
        {
            let ghost before = self@;
            self.lines.pop_front();
            proof {
                assert(self@ =~= before.skip(1));
                assert(self@ =~= old(self)@.skip(old(self)@.len() - self@.len()));
            }
        }
    }

    /// Adds a line below; the oldest lines leave so that no more than
    /// `rows` are held.
    pub fn push(&mut self, line: String, rows: u16)
        ensures
            final(self)@ == scrolled_spec(old(self)@, line@, rows as nat),
    {
        let ghost pushed = old(self)@.push(line@);
        self.lines.push_back(line);
        proof {
            assert(self@ =~= pushed);
        }
        self.shrink(rows);
        proof {
            if rows == 0 {
                assert(self@ =~= Seq::<Seq<char>>::empty());
            }
        }
    }

    /// Paints the scroll area of `rows` rows on a terminal of `cols` columns.
    pub fn painting(&self, cols: u16, rows: u16) -> (paints: Vec<Paint>)
        ensures
            paint_views(paints@) == painting_spec(self@, cols, rows),
    {
        let mut paints: Vec<Paint> = Vec::new();
        if cols == 0 {
            proof {
                assert(paint_views(paints@) =~= painting_spec(self@, cols, rows));
            }
            return paints;
        }
        let mut i: u16 = 0;
        while i < rows
            invariant
                i <= rows,
                cols != 0,
                paints@.len() == i,
                forall|j: int| 0 <= j < i ==> (#[trigger] paints@[j])@ == painting_spec(self@, cols, rows)[j],
            decreases rows - i,
        {
            let text = if (i as usize) < self.lines.len() {
                Some(row_text(self.lines[i as usize].as_str(), cols))
            } else {
                None
            };
            paints.push(Paint { row: i, text });
            i = i + 1;
        }
        proof {
            assert(paint_views(paints@) =~= painting_spec(self@, cols, rows));
        }
        paints
    }

    /// The scroll area after an event on a terminal with `rows` rows.
    pub open spec fn after_event(lines: Seq<Seq<char>>, event: EventView, rows: u16) -> Seq<Seq<char>> {
        match event {
            EventView::Message(line) => scrolled_spec(lines, line, scroll_rows_spec(rows) as nat),
            EventView::Progress { .. } => keep_last(lines, scroll_rows_spec(rows) as nat),
        }
    }

    /// What an event paints on a terminal of `cols` columns and `rows`
    /// rows, `lines` being the scroll area after the event: a message
    /// repaints the scroll area, if there is one; a progress report paints
    /// the bottom row.
    pub open spec fn paints_of_event(
        lines: Seq<Seq<char>>,
        event: EventView,
        cols: u16,
        rows: u16,
        label: Seq<char>,
    ) -> Seq<PaintView> {
        match event {
            EventView::Message(_) => if scroll_rows_spec(rows) == 0 {
                Seq::empty()
            } else {
                painting_spec(lines, cols, scroll_rows_spec(rows))
            },
            EventView::Progress { unit, done, total } => seq![
                PaintView {
                    row: scroll_rows_spec(rows),
                    text: Some(progress_line_spec(label, unit, done, total, cols)),
                },
            ],
        }
    }

    /// Takes one event in, on a terminal that now has `cols` columns and
    /// `rows` rows, and returns the rows to paint.
    pub fn handle_event(&mut self, event: &Event, cols: u16, rows: u16, msg: &Messages) -> (paints: Vec<Paint>)
        ensures
            final(self)@ == ScrollBuffer::after_event(old(self)@, event@, rows),
            final(self)@.len() <= scroll_rows_spec(rows),
            paint_views(paints@) == ScrollBuffer::paints_of_event(
                final(self)@,
                event@,
                cols,
                rows,
                msg.copy_progress@,
            ),
    {
        let scroll_rows: u16 = if rows == 0 {
            0
        } else {
            rows - 1
        };
        match event {
            Event::Message(line) => {
                self.push(line.clone(), scroll_rows);
                if scroll_rows == 0 {
                    let paints: Vec<Paint> = Vec::new();
                    proof {
                        assert(paint_views(paints@) =~= Seq::<PaintView>::empty());
                    }
                    paints
                } else {
                    self.painting(cols, scroll_rows)
                }
            },
            Event::Progress { unit, done, total } => {
                self.shrink(scroll_rows);
                let mut paints: Vec<Paint> = Vec::new();
                paints.push(Paint { row: scroll_rows, text: Some(draw_ui(*done, *total, *unit, cols, msg)) });
                proof {
                    assert(paint_views(paints@) =~= ScrollBuffer::paints_of_event(
                        self@,
                        event@,
                        cols,
                        rows,
                        msg.copy_progress@,
                    ));
                }
                paints
            },
        }
    }
}

} // verus!
