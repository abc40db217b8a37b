//! The terminal emulator: a finite-state interpreter of an escape-sequence
//! stream into a mutable character grid with scrollback and an alternate
//! screen.
//!
//! Every operation is specified as a mathematical transition on [`EmuModel`]
//! and the executable methods are proved to follow those transitions
//! exactly. Feeding bytes never fails: malformed sequences are ignored and
//! the emulator is a total function of its state and the input bytes.

use vstd::prelude::*;

use crate::cell::{blank_cell, default_attr, Cell, CellAttr, TermColor};
use crate::parser::{
    opt_perform_view, parser_init, parser_step, utf8_inv, PState, Parser, ParserM, Perform,
    PerformS,
};

verus! {

/// The mathematical state of the emulator, including its parser.
pub struct EmuModel {
    pub grid: Seq<Seq<Cell>>,
    pub cols: int,
    pub rows: int,
    pub cursor_row: int,
    pub cursor_col: int,
    pub cursor_visible: bool,
    pub saved_cursor: Option<(int, int, CellAttr)>,
    pub current_attr: CellAttr,
    pub scroll_top: int,
    pub scroll_bottom: int,
    pub parser: ParserM,
    pub scrollback: Seq<Seq<Cell>>,
    pub scroll_offset: int,
    pub alt_grid: Option<Seq<Seq<Cell>>>,
    pub alt_cursor: Option<(int, int)>,
    pub app_cursor_keys: bool,
    pub auto_wrap: bool,
    pub wrap_next: bool,
    pub tab_stops: Seq<bool>,
    pub pending: Seq<u8>,
}

/// A row of blank cells.
pub open spec fn blank_row(cols: int) -> Seq<Cell> {
    Seq::new(cols as nat, |c: int| blank_cell())
}

/// A grid of blank cells.
pub open spec fn blank_grid(cols: int, rows: int) -> Seq<Seq<Cell>> {
    Seq::new(rows as nat, |r: int| blank_row(cols))
}

/// The default tab stops: every eighth column.
pub open spec fn default_tabs(cols: int) -> Seq<bool> {
    Seq::new(cols as nat, |c: int| c % 8 == 0)
}

/// The state of a fresh emulator at the given dimensions.
pub open spec fn emu_init(cols: int, rows: int) -> EmuModel {
    EmuModel {
        grid: blank_grid(cols, rows),
        cols: cols,
        rows: rows,
        cursor_row: 0,
        cursor_col: 0,
        cursor_visible: true,
        saved_cursor: None,
        current_attr: default_attr(),
        scroll_top: 0,
        scroll_bottom: rows - 1,
        parser: parser_init(),
        scrollback: Seq::empty(),
        scroll_offset: 0,
        alt_grid: None,
        alt_cursor: None,
        app_cursor_keys: false,
        auto_wrap: true,
        wrap_next: false,
        tab_stops: default_tabs(cols),
        pending: Seq::empty(),
    }
}

/// Every row of a grid has exactly the given width.
pub open spec fn grid_wf(g: Seq<Seq<Cell>>, cols: int, rows: int) -> bool {
    &&& g.len() == rows
    &&& forall|r: int| 0 <= r < rows ==> (#[trigger] g[r]).len() == cols
}

/// The emulator's invariant: the grid matches the negotiated dimensions,
/// the cursor and the scroll region are in bounds, the view offset never
/// exceeds the scrollback, and a saved primary screen has the same
/// dimensions as the live grid.
pub open spec fn emu_wf(m: EmuModel) -> bool {
    &&& 1 <= m.cols
    &&& 1 <= m.rows
    &&& grid_wf(m.grid, m.cols, m.rows)
    &&& 0 <= m.cursor_row < m.rows
    &&& 0 <= m.cursor_col < m.cols
    &&& 0 <= m.scroll_top <= m.scroll_bottom < m.rows
    &&& 0 <= m.scroll_offset <= m.scrollback.len()
    &&& m.tab_stops.len() == m.cols
    &&& (m.alt_grid matches Some(g) ==> grid_wf(g, m.cols, m.rows))
    &&& utf8_inv(m.parser)
}

// ---- Scrolling ----

/// Scroll the region up by one row. When the region starts at the top of a
/// primary screen, the evicted row goes to the scrollback.
pub open spec fn emu_scroll_up(m: EmuModel) -> EmuModel {
    let sb = if m.scroll_top == 0 && m.alt_grid is None {
        m.scrollback.push(m.grid[0])
    } else {
        m.scrollback
    };
    let g = Seq::new(m.grid.len(), |r: int|
        if m.scroll_top <= r < m.scroll_bottom {
            m.grid[r + 1]
        } else if r == m.scroll_bottom {
            blank_row(m.cols)
        } else {
            m.grid[r]
        });
    EmuModel { grid: g, scrollback: sb, ..m }
}

/// Scroll the region down by one row; the bottom row falls off.
pub open spec fn emu_scroll_down(m: EmuModel) -> EmuModel {
    let g = Seq::new(m.grid.len(), |r: int|
        if m.scroll_top < r <= m.scroll_bottom {
            m.grid[r - 1]
        } else if r == m.scroll_top {
            blank_row(m.cols)
        } else {
            m.grid[r]
        });
    EmuModel { grid: g, ..m }
}

/// A line feed: scroll at the bottom of the region, otherwise move down
/// until the last row.
pub open spec fn emu_newline(m: EmuModel) -> EmuModel {
    if m.cursor_row == m.scroll_bottom {
        emu_scroll_up(m)
    } else if m.cursor_row < m.rows - 1 {
        EmuModel { cursor_row: m.cursor_row + 1, ..m }
    } else {
        m
    }
}

// ---- Printing ----

/// Print one character: perform a pending deferred wrap first, write the
/// cell, then either advance or arm the deferred wrap at the last column.
pub open spec fn emu_put_char(m: EmuModel, ch: char) -> EmuModel {
    let m1 = if m.wrap_next {
        EmuModel { wrap_next: false, ..emu_newline(EmuModel { cursor_col: 0, ..m }) }
    } else {
        m
    };
    let written = Cell { c: ch, attr: m1.current_attr };
    let m2 = if m1.cursor_row < m1.rows && m1.cursor_col < m1.cols {
        EmuModel {
            grid: m1.grid.update(m1.cursor_row, m1.grid[m1.cursor_row].update(m1.cursor_col, written)),
            ..m1
        }
    } else {
        m1
    };
    if m2.cursor_col < m2.cols - 1 {
        EmuModel { cursor_col: m2.cursor_col + 1, ..m2 }
    } else if m2.auto_wrap {
        EmuModel { wrap_next: true, ..m2 }
    } else {
        m2
    }
}

// ---- Control bytes ----

/// The first tab stop strictly after the given column, if any.
pub open spec fn find_tab_stop(tabs: Seq<bool>, i: int) -> Option<int>
    decreases tabs.len() - i,
{
    if i < 0 || i >= tabs.len() {
        None
    } else if tabs[i] {
        Some(i)
    } else {
        find_tab_stop(tabs, i + 1)
    }
}

/// The column a horizontal tab moves to: the next tab stop, or the last
/// column when there is none.
pub open spec fn tab_target(m: EmuModel) -> int {
    match find_tab_stop(m.tab_stops, m.cursor_col + 1) {
        Some(t) => t,
        None => m.cols - 1,
    }
}

/// Execute one C0 control byte: backspace, tab, line feeds, and carriage
/// return; everything else is ignored.
pub open spec fn emu_execute(m: EmuModel, b: u8) -> EmuModel {
    if b == 0x08 {
        if m.cursor_col > 0 {
            EmuModel { cursor_col: m.cursor_col - 1, wrap_next: false, ..m }
        } else {
            m
        }
    } else if b == 0x09 {
        EmuModel { cursor_col: tab_target(m), wrap_next: false, ..m }
    } else if b == 0x0A || b == 0x0B || b == 0x0C {
        EmuModel { wrap_next: false, ..emu_newline(m) }
    } else if b == 0x0D {
        EmuModel { cursor_col: 0, wrap_next: false, ..m }
    } else {
        m
    }
}

// ---- Erasing ----

/// A row blanked from the given column (inclusive) to its end.
pub open spec fn row_blanked_from(row: Seq<Cell>, c0: int) -> Seq<Cell> {
    Seq::new(row.len(), |c: int| if c >= c0 { blank_cell() } else { row[c] })
}

/// A row blanked from its start through the given column (inclusive).
pub open spec fn row_blanked_to(row: Seq<Cell>, c1: int) -> Seq<Cell> {
    Seq::new(row.len(), |c: int| if c <= c1 { blank_cell() } else { row[c] })
}

/// A row blanked on the half-open column range `c0..c1`.
pub open spec fn row_blanked_range(row: Seq<Cell>, c0: int, c1: int) -> Seq<Cell> {
    Seq::new(row.len(), |c: int| if c0 <= c < c1 { blank_cell() } else { row[c] })
}

/// Erase in display: from the cursor, to the cursor, the whole screen, or
/// the whole screen together with the scrollback.
pub open spec fn emu_erase_in_display(m: EmuModel, mode: u16) -> EmuModel {
    if mode == 0 {
        let g = Seq::new(m.grid.len(), |r: int|
            if r == m.cursor_row {
                row_blanked_from(m.grid[r], m.cursor_col)
            } else if r > m.cursor_row {
                blank_row(m.cols)
            } else {
                m.grid[r]
            });
        EmuModel { grid: g, ..m }
    } else if mode == 1 {
        let g = Seq::new(m.grid.len(), |r: int|
            if r == m.cursor_row {
                row_blanked_to(m.grid[r], m.cursor_col)
            } else if r < m.cursor_row {
                blank_row(m.cols)
            } else {
                m.grid[r]
            });
        EmuModel { grid: g, ..m }
    } else if mode == 2 {
        EmuModel { grid: blank_grid(m.cols, m.rows), ..m }
    } else if mode == 3 {
        EmuModel {
            grid: blank_grid(m.cols, m.rows),
            scrollback: Seq::empty(),
            scroll_offset: 0,
            ..m
        }
    } else {
        m
    }
}

/// Erase in line: from the cursor, to the cursor, or the whole line.
pub open spec fn emu_erase_in_line(m: EmuModel, mode: u16) -> EmuModel {
    if mode == 0 {
        EmuModel {
            grid: m.grid.update(m.cursor_row, row_blanked_from(m.grid[m.cursor_row], m.cursor_col)),
            ..m
        }
    } else if mode == 1 {
        EmuModel {
            grid: m.grid.update(m.cursor_row, row_blanked_to(m.grid[m.cursor_row], m.cursor_col)),
            ..m
        }
    } else if mode == 2 {
        EmuModel { grid: m.grid.update(m.cursor_row, blank_row(m.cols)), ..m }
    } else {
        m
    }
}

// ---- Select graphic rendition ----

/// One pass over a rendition parameter list, starting at position `i`.
/// A bare `0` resets everything set so far; the extended color parameters
/// `38` and `48` consume their arguments; unknown parameters are skipped
/// one by one without aborting the rest of the list.
pub open spec fn apply_sgr(attr: CellAttr, ps: Seq<u16>, i: int) -> CellAttr
    decreases ps.len() - i + 1,
{
    if i < 0 || i >= ps.len() {
        attr
    } else {
        let p = ps[i];
        if p == 0 {
            apply_sgr(default_attr(), ps, i + 1)
        } else if p == 1 {
            apply_sgr(CellAttr { bold: true, ..attr }, ps, i + 1)
        } else if p == 3 {
            apply_sgr(CellAttr { italic: true, ..attr }, ps, i + 1)
        } else if p == 4 {
            apply_sgr(CellAttr { underline: true, ..attr }, ps, i + 1)
        } else if p == 7 {
            apply_sgr(CellAttr { inverse: true, ..attr }, ps, i + 1)
        } else if p == 21 || p == 22 {
            apply_sgr(CellAttr { bold: false, ..attr }, ps, i + 1)
        } else if p == 23 {
            apply_sgr(CellAttr { italic: false, ..attr }, ps, i + 1)
        } else if p == 24 {
            apply_sgr(CellAttr { underline: false, ..attr }, ps, i + 1)
        } else if p == 27 {
            apply_sgr(CellAttr { inverse: false, ..attr }, ps, i + 1)
        } else if 30 <= p <= 37 {
            apply_sgr(CellAttr { fg: TermColor::Indexed((p - 30) as u8), ..attr }, ps, i + 1)
        } else if p == 39 {
            apply_sgr(CellAttr { fg: TermColor::Default, ..attr }, ps, i + 1)
        } else if 40 <= p <= 47 {
            apply_sgr(CellAttr { bg: TermColor::Indexed((p - 40) as u8), ..attr }, ps, i + 1)
        } else if p == 49 {
            apply_sgr(CellAttr { bg: TermColor::Default, ..attr }, ps, i + 1)
        } else if 90 <= p <= 97 {
            apply_sgr(CellAttr { fg: TermColor::Indexed((p - 90 + 8) as u8), ..attr }, ps, i + 1)
        } else if 100 <= p <= 107 {
            apply_sgr(CellAttr { bg: TermColor::Indexed((p - 100 + 8) as u8), ..attr }, ps, i + 1)
        } else if p == 38 {
            sgr_extended_color(attr, ps, i, true)
        } else if p == 48 {
            sgr_extended_color(attr, ps, i, false)
        } else {
            apply_sgr(attr, ps, i + 1)
        }
    }
}

/// The extended color forms `38;5;N` / `38;2;R;G;B` (and `48` for the
/// background), starting at the position of the `38` or `48` itself.
pub open spec fn sgr_extended_color(attr: CellAttr, ps: Seq<u16>, i: int, is_fg: bool) -> CellAttr
    decreases ps.len() - i,
    when i >= 0
{
    if i + 1 >= ps.len() {
        attr
    } else if ps[i + 1] == 5 {
        if i + 2 < ps.len() {
            let color = TermColor::Indexed((ps[i + 2] % 256) as u8);
            let attr2 = if is_fg {
                CellAttr { fg: color, ..attr }
            } else {
                CellAttr { bg: color, ..attr }
            };
            apply_sgr(attr2, ps, i + 3)
        } else {
            attr
        }
    } else if ps[i + 1] == 2 {
        if i + 4 < ps.len() {
            let color = TermColor::Rgb(
                (ps[i + 2] % 256) as u8,
                (ps[i + 3] % 256) as u8,
                (ps[i + 4] % 256) as u8,
            );
            let attr2 = if is_fg {
                CellAttr { fg: color, ..attr }
            } else {
                CellAttr { bg: color, ..attr }
            };
            apply_sgr(attr2, ps, i + 5)
        } else {
            apply_sgr(attr, ps, i + 2)
        }
    } else {
        apply_sgr(attr, ps, i + 2)
    }
}

/// The select-graphic-rendition dispatch: an empty list resets everything.
pub open spec fn emu_sgr(m: EmuModel, ps: Seq<u16>) -> EmuModel {
    if ps.len() == 0 {
        EmuModel { current_attr: default_attr(), ..m }
    } else {
        EmuModel { current_attr: apply_sgr(m.current_attr, ps, 0), ..m }
    }
}

// ---- Alternate screen ----

/// Enter the alternate screen: save the live grid and cursor, start on a
/// blank grid at the origin. A no-op when already alternate.
pub open spec fn emu_enter_alt(m: EmuModel) -> EmuModel {
    if m.alt_grid is None {
        EmuModel {
            alt_grid: Some(m.grid),
            alt_cursor: Some((m.cursor_row, m.cursor_col)),
            grid: blank_grid(m.cols, m.rows),
            cursor_row: 0,
            cursor_col: 0,
            ..m
        }
    } else {
        m
    }
}

/// Exit the alternate screen: restore the saved grid and clamp the saved
/// cursor back in. A no-op when already primary.
pub open spec fn emu_exit_alt(m: EmuModel) -> EmuModel {
    match m.alt_grid {
        Some(g) => {
            let m1 = EmuModel { grid: g, alt_grid: None, alt_cursor: None, ..m };
            match m.alt_cursor {
                Some((r, c)) => EmuModel {
                    cursor_row: vstd::math::min(r, m.rows - 1),
                    cursor_col: vstd::math::min(c, m.cols - 1),
                    ..m1
                },
                None => m1,
            }
        },
        None => m,
    }
}

// ---- Mode set / reset ----

/// Set one private mode: application cursor keys, auto-wrap, cursor
/// visibility, and the alternate-screen variants.
pub open spec fn emu_set_mode(m: EmuModel, p: u16) -> EmuModel {
    if p == 1 {
        EmuModel { app_cursor_keys: true, ..m }
    } else if p == 7 {
        EmuModel { auto_wrap: true, ..m }
    } else if p == 25 {
        EmuModel { cursor_visible: true, ..m }
    } else if p == 47 || p == 1047 {
        emu_enter_alt(m)
    } else if p == 1049 {
        emu_enter_alt(EmuModel {
            saved_cursor: Some((m.cursor_row, m.cursor_col, m.current_attr)),
            ..m
        })
    } else {
        m
    }
}

/// Reset one private mode; resetting `1049` also restores the saved cursor.
pub open spec fn emu_reset_mode(m: EmuModel, p: u16) -> EmuModel {
    if p == 1 {
        EmuModel { app_cursor_keys: false, ..m }
    } else if p == 7 {
        EmuModel { auto_wrap: false, ..m }
    } else if p == 25 {
        EmuModel { cursor_visible: false, ..m }
    } else if p == 47 || p == 1047 {
        emu_exit_alt(m)
    } else if p == 1049 {
        let m1 = emu_exit_alt(m);
        match m1.saved_cursor {
            Some((r, c, attr)) => EmuModel {
                cursor_row: vstd::math::min(r, m1.rows - 1),
                cursor_col: vstd::math::min(c, m1.cols - 1),
                current_attr: attr,
                saved_cursor: None,
                ..m1
            },
            None => m1,
        }
    } else {
        m
    }
}

/// Fold a mode change over every parameter of the list, left to right.
pub open spec fn emu_modes(m: EmuModel, ps: Seq<u16>, i: int, set: bool) -> EmuModel
    decreases ps.len() - i,
{
    if i < 0 || i >= ps.len() {
        m
    } else if set {
        emu_modes(emu_set_mode(m, ps[i]), ps, i + 1, set)
    } else {
        emu_modes(emu_reset_mode(m, ps[i]), ps, i + 1, set)
    }
}

// ---- Line and character edits ----

/// Insert one blank line at the cursor, pushing the scroll region down.
pub open spec fn emu_insert_line_once(m: EmuModel) -> EmuModel {
    if m.cursor_row <= m.scroll_bottom {
        EmuModel {
            grid: m.grid.remove(m.scroll_bottom).insert(m.cursor_row, blank_row(m.cols)),
            ..m
        }
    } else {
        m
    }
}

/// Delete one line at the cursor, pulling a blank line in at the bottom of
/// the scroll region.
pub open spec fn emu_delete_line_once(m: EmuModel) -> EmuModel {
    if m.cursor_row <= m.scroll_bottom {
        EmuModel {
            grid: m.grid.remove(m.cursor_row).insert(m.scroll_bottom, blank_row(m.cols)),
            ..m
        }
    } else {
        m
    }
}

/// Delete one character at the cursor; the rest of the row slides left and
/// a blank cell enters at the row's end.
pub open spec fn emu_delete_char_once(m: EmuModel) -> EmuModel {
    let row = m.grid[m.cursor_row];
    EmuModel {
        grid: m.grid.update(m.cursor_row, row.remove(m.cursor_col).push(blank_cell())),
        ..m
    }
}

/// Insert one blank character at the cursor; the row's last cell falls off.
pub open spec fn emu_insert_char_once(m: EmuModel) -> EmuModel {
    let row = m.grid[m.cursor_row];
    EmuModel {
        grid: m.grid.update(m.cursor_row, row.drop_last().insert(m.cursor_col, blank_cell())),
        ..m
    }
}

/// Apply a one-step edit `n` times.
pub open spec fn emu_repeat(m: EmuModel, n: int, f: spec_fn(EmuModel) -> EmuModel) -> EmuModel
    decreases n,
{
    if n <= 0 {
        m
    } else {
        f(emu_repeat(m, n - 1, f))
    }
}

// ---- Control sequences ----

/// A parameter that defaults to one when absent or zero.
pub open spec fn param_or_one(ps: Seq<u16>, i: int) -> int {
    if i < ps.len() && ps[i] != 0 {
        ps[i] as int
    } else {
        1
    }
}

/// The first parameter, defaulting to zero.
pub open spec fn param_or_zero(ps: Seq<u16>, i: int) -> int {
    if i < ps.len() {
        ps[i] as int
    } else {
        0
    }
}

/// The dispatch of a complete control sequence: cursor movement, erasing,
/// line and character edits, scrolling, modes, rendition, scroll region,
/// and cursor save/restore. Unknown final bytes are ignored.
pub open spec fn emu_csi(m: EmuModel, ps: Seq<u16>, q: bool, a: u8) -> EmuModel {
    let n = param_or_one(ps, 0);
    let p1 = param_or_zero(ps, 0);
    let p2 = param_or_zero(ps, 1);
    if a == 0x41 {  // cursor up
        EmuModel { cursor_row: vstd::math::max(m.cursor_row - n, 0), wrap_next: false, ..m }
    } else if a == 0x42 {  // cursor down
        EmuModel {
            cursor_row: vstd::math::min(m.cursor_row + n, m.rows - 1),
            wrap_next: false,
            ..m
        }
    } else if a == 0x43 {  // cursor forward
        EmuModel {
            cursor_col: vstd::math::min(m.cursor_col + n, m.cols - 1),
            wrap_next: false,
            ..m
        }
    } else if a == 0x44 {  // cursor backward
        EmuModel { cursor_col: vstd::math::max(m.cursor_col - n, 0), wrap_next: false, ..m }
    } else if a == 0x45 {  // cursor next line
        EmuModel { cursor_row: vstd::math::min(m.cursor_row + n, m.rows - 1), cursor_col: 0, ..m }
    } else if a == 0x46 {  // cursor previous line
        EmuModel { cursor_row: vstd::math::max(m.cursor_row - n, 0), cursor_col: 0, ..m }
    } else if a == 0x47 {  // cursor horizontal absolute
        EmuModel { cursor_col: vstd::math::min(n - 1, m.cols - 1), wrap_next: false, ..m }
    } else if a == 0x48 || a == 0x66 {  // cursor position
        EmuModel {
            cursor_row: vstd::math::min(param_or_one(ps, 0) - 1, m.rows - 1),
            cursor_col: vstd::math::min(param_or_one(ps, 1) - 1, m.cols - 1),
            wrap_next: false,
            ..m
        }
    } else if a == 0x4A {  // erase in display
        emu_erase_in_display(m, p1 as u16)
    } else if a == 0x4B {  // erase in line
        emu_erase_in_line(m, p1 as u16)
    } else if a == 0x4C {  // insert lines
        emu_repeat(m, n, |mm: EmuModel| emu_insert_line_once(mm))
    } else if a == 0x4D {  // delete lines
        emu_repeat(m, n, |mm: EmuModel| emu_delete_line_once(mm))
    } else if a == 0x50 {  // delete characters
        emu_repeat(
            m,
            vstd::math::min(n, m.cols - m.cursor_col),
            |mm: EmuModel| emu_delete_char_once(mm),
        )
    } else if a == 0x40 {  // insert characters
        emu_repeat(m, n, |mm: EmuModel| emu_insert_char_once(mm))
    } else if a == 0x53 {  // scroll up
        emu_repeat(m, n, |mm: EmuModel| emu_scroll_up(mm))
    } else if a == 0x54 && !q {  // scroll down
        emu_repeat(m, n, |mm: EmuModel| emu_scroll_down(mm))
    } else if a == 0x58 {  // erase characters
        EmuModel {
            grid: m.grid.update(
                m.cursor_row,
                row_blanked_range(
                    m.grid[m.cursor_row],
                    m.cursor_col,
                    vstd::math::min(m.cursor_col + n, m.cols),
                ),
            ),
            ..m
        }
    } else if a == 0x64 {  // vertical position absolute
        EmuModel { cursor_row: vstd::math::min(n - 1, m.rows - 1), wrap_next: false, ..m }
    } else if a == 0x68 {  // set mode
        if q {
            emu_modes(m, ps, 0, true)
        } else {
            m
        }
    } else if a == 0x6C {  // reset mode
        if q {
            emu_modes(m, ps, 0, false)
        } else {
            m
        }
    } else if a == 0x6D {  // select graphic rendition
        emu_sgr(m, ps)
    } else if a == 0x72 {  // set scroll region
        if !q {
            let top = param_or_one(ps, 0);
            let bottom = if p2 == 0 {
                m.rows
            } else {
                p2
            };
            let st = vstd::math::min(top - 1, m.rows - 1);
            let sb = vstd::math::min(bottom - 1, m.rows - 1);
            let m1 = if st >= sb {
                EmuModel { scroll_top: 0, scroll_bottom: m.rows - 1, ..m }
            } else {
                EmuModel { scroll_top: st, scroll_bottom: sb, ..m }
            };
            EmuModel { cursor_row: m1.scroll_top, cursor_col: 0, ..m1 }
        } else {
            m
        }
    } else if a == 0x73 {  // save cursor
        if !q {
            EmuModel { saved_cursor: Some((m.cursor_row, m.cursor_col, m.current_attr)), ..m }
        } else {
            m
        }
    } else if a == 0x75 {  // restore cursor
        emu_restore_cursor(m)
    } else {
        m
    }
}

/// Restore the saved cursor and attributes, clamped to the current grid.
/// The saved slot is kept.
pub open spec fn emu_restore_cursor(m: EmuModel) -> EmuModel {
    match m.saved_cursor {
        Some((r, c, attr)) => EmuModel {
            cursor_row: vstd::math::min(r, m.rows - 1),
            cursor_col: vstd::math::min(c, m.cols - 1),
            current_attr: attr,
            ..m
        },
        None => m,
    }
}

/// A plain escape dispatch: cursor save/restore, index and reverse index,
/// next line, and the full reset.
pub open spec fn emu_esc(m: EmuModel, b: u8) -> EmuModel {
    if b == 0x37 {  // save cursor
        EmuModel { saved_cursor: Some((m.cursor_row, m.cursor_col, m.current_attr)), ..m }
    } else if b == 0x38 {  // restore cursor
        emu_restore_cursor(m)
    } else if b == 0x44 {  // index
        emu_newline(m)
    } else if b == 0x45 {  // next line
        emu_newline(EmuModel { cursor_col: 0, ..m })
    } else if b == 0x4D {  // reverse index
        if m.cursor_row == m.scroll_top {
            emu_scroll_down(m)
        } else if m.cursor_row > 0 {
            EmuModel { cursor_row: m.cursor_row - 1, ..m }
        } else {
            m
        }
    } else if b == 0x63 {  // full reset
        emu_init(m.cols, m.rows)
    } else {
        m
    }
}

/// Apply one parser action to the emulator state.
pub open spec fn emu_apply(m: EmuModel, act: PerformS) -> EmuModel {
    match act {
        PerformS::Print(c) => emu_put_char(m, c),
        PerformS::Execute(b) => emu_execute(m, b),
        PerformS::Csi(ps, q, a) => emu_csi(m, ps, q, a),
        PerformS::Esc(b) => emu_esc(m, b),
    }
}

/// Feed one byte: advance the parser and apply its action, if any.
pub open spec fn emu_byte(m: EmuModel, b: u8) -> EmuModel {
    let (p2, act) = parser_step(m.parser, b);
    let m1 = EmuModel { parser: p2, ..m };
    match act {
        Some(a) => emu_apply(m1, a),
        None => m1,
    }
}

/// Feed a byte sequence, front to back.
pub open spec fn emu_feed_bytes(m: EmuModel, data: Seq<u8>) -> EmuModel
    decreases data.len(),
{
    if data.len() == 0 {
        m
    } else {
        emu_feed_bytes(emu_byte(m, data[0]), data.skip(1))
    }
}

/// Process a chunk of output: the view snaps back to the live grid, then
/// the bytes run through the machine.
pub open spec fn emu_process(m: EmuModel, data: Seq<u8>) -> EmuModel {
    emu_feed_bytes(EmuModel { scroll_offset: 0, ..m }, data)
}

// ---- Resizing ----

/// A grid cropped or padded to new dimensions, keeping the top-left region
/// shifted up by `shift` source rows.
pub open spec fn fit_grid(
    g: Seq<Seq<Cell>>,
    cols: int,
    rows: int,
    new_cols: int,
    new_rows: int,
    shift: int,
) -> Seq<Seq<Cell>> {
    Seq::new(new_rows as nat, |r: int| Seq::new(new_cols as nat, |c: int|
        if r < rows && c < cols && r + shift < rows && r < new_rows && c < new_cols {
            g[r + shift][c]
        } else {
            blank_cell()
        }))
}

/// Resize to new dimensions: a no-op for zero or unchanged dimensions;
/// otherwise the top-left overlapping region is preserved, rows that a
/// smaller grid pushes the cursor off of go to the scrollback, the cursor
/// is clamped, the scroll region resets to the whole screen, and a saved
/// primary screen is cropped or padded the same way.
pub open spec fn emu_resize(m: EmuModel, new_cols: int, new_rows: int) -> EmuModel {
    if new_cols == 0 || new_rows == 0 || (new_cols == m.cols && new_rows == m.rows) {
        m
    } else {
        let shift = if m.cursor_row >= new_rows {
            m.cursor_row - new_rows + 1
        } else {
            0
        };
        EmuModel {
            grid: fit_grid(m.grid, m.cols, m.rows, new_cols, new_rows, shift),
            scrollback: m.scrollback + m.grid.take(shift),
            cursor_row: if shift > 0 {
                new_rows - 1
            } else {
                m.cursor_row
            },
            cursor_col: vstd::math::min(m.cursor_col, new_cols - 1),
            cols: new_cols,
            rows: new_rows,
            scroll_top: 0,
            scroll_bottom: new_rows - 1,
            tab_stops: default_tabs(new_cols),
            alt_grid: match m.alt_grid {
                Some(g) => Some(fit_grid(g, m.cols, m.rows, new_cols, new_rows, 0)),
                None => None,
            },
            ..m
        }
    }
}

/// The row shown at position `i` of the window scrolled `scroll_offset`
/// rows back: scrollback rows first, then the trailing live rows.
pub open spec fn visible_row_at(m: EmuModel, i: int) -> Seq<Cell> {
    if i < m.scroll_offset {
        m.scrollback[m.scrollback.len() - m.scroll_offset + i]
    } else {
        m.grid[i - m.scroll_offset]
    }
}

// ---- The executable emulator ----

/// The view of a vector of rows.
pub open spec fn gview(g: Seq<Vec<Cell>>) -> Seq<Seq<Cell>> {
    g.map_values(|row: Vec<Cell>| row@)
}

/// The terminal emulator. See the spec transitions above for what each
/// operation does; every method is proved against them.
pub struct TerminalEmulator {
    grid: Vec<Vec<Cell>>,
    cols: usize,
    rows: usize,
    cursor_row: usize,
    cursor_col: usize,
    cursor_visible: bool,
    saved_cursor: Option<(usize, usize, CellAttr)>,
    current_attr: CellAttr,
    scroll_top: usize,
    scroll_bottom: usize,
    parser: Parser,
    scrollback: Vec<Vec<Cell>>,
    scroll_offset: usize,
    alt_grid: Option<Vec<Vec<Cell>>>,
    alt_cursor: Option<(usize, usize)>,
    app_cursor_keys: bool,
    auto_wrap: bool,
    wrap_next: bool,
    tab_stops: Vec<bool>,
    pending_data: Vec<u8>,
}

impl View for TerminalEmulator {
    type V = EmuModel;

    closed spec fn view(&self) -> EmuModel {
        EmuModel {
            grid: gview(self.grid@),
            cols: self.cols as int,
            rows: self.rows as int,
            cursor_row: self.cursor_row as int,
            cursor_col: self.cursor_col as int,
            cursor_visible: self.cursor_visible,
            saved_cursor: match self.saved_cursor {
                Some((r, c, a)) => Some((r as int, c as int, a)),
                None => None,
            },
            current_attr: self.current_attr,
            scroll_top: self.scroll_top as int,
            scroll_bottom: self.scroll_bottom as int,
            parser: self.parser@,
            scrollback: gview(self.scrollback@),
            scroll_offset: self.scroll_offset as int,
            alt_grid: match self.alt_grid {
                Some(g) => Some(gview(g@)),
                None => None,
            },
            alt_cursor: match self.alt_cursor {
                Some((r, c)) => Some((r as int, c as int)),
                None => None,
            },
            app_cursor_keys: self.app_cursor_keys,
            auto_wrap: self.auto_wrap,
            wrap_next: self.wrap_next,
            tab_stops: self.tab_stops@,
            pending: self.pending_data@,
        }
    }
}

/// A freshly allocated blank row.
fn blank_row_vec(cols: usize) -> (r: Vec<Cell>)
    ensures
        r@ == blank_row(cols as int),
{
    let mut r: Vec<Cell> = Vec::new();
    for i in 0..cols
        invariant
            r@.len() == i,
            forall|k: int| 0 <= k < i ==> r@[k] == blank_cell(),
    {
        r.push(Cell::default());
    }
    proof {
        assert(r@ =~= blank_row(cols as int));
    }
    r
}

/// A copy of a row.
fn copy_row(row: &Vec<Cell>) -> (r: Vec<Cell>)
    ensures
        r@ == row@,
{
    let mut r: Vec<Cell> = Vec::new();
    let n = row.len();
    for i in 0..n
        invariant
            n == row.len(),
            r@ == row@.subrange(0, i as int),
    {
        r.push(row[i]);
        proof {
            assert(r@ =~= row@.subrange(0, i + 1));
        }
    }
    proof {
        assert(r@ =~= row@);
    }
    r
}

/// A freshly allocated blank grid.
fn blank_grid_vec(cols: usize, rows: usize) -> (g: Vec<Vec<Cell>>)
    ensures
        gview(g@) == blank_grid(cols as int, rows as int),
{
    let mut g: Vec<Vec<Cell>> = Vec::new();
    for i in 0..rows
        invariant
            g@.len() == i,
            forall|k: int| 0 <= k < i ==> (#[trigger] g@[k])@ == blank_row(cols as int),
    {
        g.push(blank_row_vec(cols));
    }
    proof {
        assert(gview(g@) =~= blank_grid(cols as int, rows as int));
    }
    g
}

/// The default tab stops, every eighth column.
fn default_tabs_vec(cols: usize) -> (t: Vec<bool>)
    ensures
        t@ == default_tabs(cols as int),
{
    let mut t: Vec<bool> = Vec::new();
    let mut next: usize = 0;
    for i in 0..cols
        invariant
            t@.len() == i,
            forall|k: int| 0 <= k < i ==> t@[k] == (k % 8 == 0),
    {
        t.push(i % 8 == 0);
    }
    proof {
        assert(t@ =~= default_tabs(cols as int));
    }
    t
}

impl TerminalEmulator {
    /// A fresh emulator at the given dimensions: a blank grid, the cursor
    /// at the origin, no scrollback, primary screen, auto-wrap on.
    pub fn new(cols: usize, rows: usize) -> (r: Self)
        requires
            1 <= cols,
            1 <= rows,
        ensures
            r@ == emu_init(cols as int, rows as int),
            emu_wf(r@),
    {
        let r = TerminalEmulator {
            grid: blank_grid_vec(cols, rows),
            cols: cols,
            rows: rows,
            cursor_row: 0,
            cursor_col: 0,
            cursor_visible: true,
            saved_cursor: None,
            current_attr: CellAttr::default(),
            scroll_top: 0,
            scroll_bottom: rows - 1,
            parser: Parser::new(),
            scrollback: Vec::new(),
            scroll_offset: 0,
            alt_grid: None,
            alt_cursor: None,
            app_cursor_keys: false,
            auto_wrap: true,
            wrap_next: false,
            tab_stops: default_tabs_vec(cols),
            pending_data: Vec::new(),
        };
        proof {
            assert(r@.scrollback =~= Seq::<Seq<Cell>>::empty());
            assert(r@ == emu_init(cols as int, rows as int));
        }
        r
    }

    /// The live grid, row by row.
    pub fn grid(&self) -> (g: &[Vec<Cell>])
        ensures
            gview(g@) == self@.grid,
    {
        self.grid.as_slice()
    }

    /// The cursor position and whether it is visible.
    pub fn cursor(&self) -> (r: (usize, usize, bool))
        ensures
            r.0 as int == self@.cursor_row,
            r.1 as int == self@.cursor_col,
            r.2 == self@.cursor_visible,
    {
        (self.cursor_row, self.cursor_col, self.cursor_visible)
    }

    /// The grid width.
    pub fn cols(&self) -> (r: usize)
        ensures
            r as int == self@.cols,
    {
        self.cols
    }

    /// The grid height.
    pub fn rows(&self) -> (r: usize)
        ensures
            r as int == self@.rows,
    {
        self.rows
    }

    /// Whether application cursor keys are enabled.
    pub fn app_cursor_keys(&self) -> (r: bool)
        ensures
            r == self@.app_cursor_keys,
    {
        self.app_cursor_keys
    }

    /// How many rows the scrollback holds.
    pub fn scrollback_len(&self) -> (r: usize)
        ensures
            r as int == self@.scrollback.len(),
    {
        self.scrollback.len()
    }

    /// How many rows the view is scrolled back.
    pub fn scroll_offset(&self) -> (r: usize)
        ensures
            r as int == self@.scroll_offset,
    {
        self.scroll_offset
    }

    /// Scroll the view further back, never beyond the scrollback.
    pub fn scroll_up_view(&mut self, lines: usize)
        requires
            emu_wf(old(self)@),
        ensures
            final(self)@ == (EmuModel {
                scroll_offset: vstd::math::min(
                    old(self)@.scroll_offset + lines,
                    old(self)@.scrollback.len() as int,
                ),
                ..old(self)@
            }),
            emu_wf(final(self)@),
    {
        let limit = self.scrollback.len();
        if lines >= limit - self.scroll_offset {
            self.scroll_offset = limit;
        } else {
            self.scroll_offset = self.scroll_offset + lines;
        }
    }

    /// Scroll the view back toward the live grid.
    pub fn scroll_down_view(&mut self, lines: usize)
        ensures
            final(self)@ == (EmuModel {
                scroll_offset: vstd::math::max(old(self)@.scroll_offset - lines, 0),
                ..old(self)@
            }),
    {
        if lines >= self.scroll_offset {
            self.scroll_offset = 0;
        } else {
            self.scroll_offset = self.scroll_offset - lines;
        }
    }

    /// Snap the view back to the live grid.
    pub fn reset_scroll(&mut self)
        ensures
            final(self)@ == (EmuModel { scroll_offset: 0, ..old(self)@ }),
    {
        self.scroll_offset = 0;
    }

    /// Whether the view is scrolled back at all.
    pub fn is_scrolled(&self) -> (r: bool)
        ensures
            r == (self@.scroll_offset > 0),
    {
        self.scroll_offset > 0
    }

    /// The rows currently scrolled into view: the live grid at offset zero,
    /// or a window of scrollback rows followed by the leading grid rows.
    pub fn visible_rows(&self) -> (out: Vec<&Vec<Cell>>)
        requires
            emu_wf(self@),
        ensures
            out@.len() == self@.rows,
            forall|i: int| 0 <= i < out@.len() ==> (#[trigger] out@[i])@ == visible_row_at(self@, i),
    {
        let mut out: Vec<&Vec<Cell>> = Vec::new();
        let off = self.scroll_offset;
        let sb = self.scrollback.len();
        let rows = self.rows;
        for i in 0..rows
            invariant
                off == self@.scroll_offset,
                sb == self@.scrollback.len(),
                rows == self@.rows,
                emu_wf(self@),
                out@.len() == i,
                forall|k: int| 0 <= k < i ==> (#[trigger] out@[k])@ == visible_row_at(self@, k),
        {
            if i < off {
                out.push(&self.scrollback[sb - off + i]);
            } else {
                out.push(&self.grid[i - off]);
            }
        }
        out
    }

    // ---- Internal grid helpers ----

    /// Replace one row of the grid.
    fn set_row(&mut self, r: usize, row: Vec<Cell>)
        requires
            r < old(self)@.grid.len(),
        ensures
            final(self)@ == (EmuModel { grid: old(self)@.grid.update(r as int, row@), ..old(self)@ }),
    {
        self.grid.set(r, row);
        proof {
            assert(self@.grid =~~= old(self)@.grid.update(r as int, row@));
        }
    }

    /// Replace one cell of the grid.
    fn set_cell(&mut self, r: usize, c: usize, cell: Cell)
        requires
            r < old(self)@.grid.len(),
            c < old(self)@.grid[r as int].len(),
        ensures
            final(self)@ == (EmuModel {
                grid: old(self)@.grid.update(
                    r as int,
                    old(self)@.grid[r as int].update(c as int, cell),
                ),
                ..old(self)@
            }),
    {
        let mut row = copy_row(&self.grid[r]);
        row.set(c, cell);
        self.set_row(r, row);
    }

    /// Scroll the region up by one row, feeding the scrollback when the
    /// whole primary screen scrolls.
    fn scroll_up_once(&mut self)
        requires
            emu_wf(old(self)@),
        ensures
            final(self)@ == emu_scroll_up(old(self)@),
            emu_wf(final(self)@),
    {
        if self.scroll_top == 0 && self.alt_grid.is_none() {
            let r0 = copy_row(&self.grid[0]);
            self.scrollback.push(r0);
            proof {
                assert(self@.scrollback =~~= old(self)@.scrollback.push(old(self)@.grid[0]));
                assert(self@.grid =~~= old(self)@.grid);
            }
        }
        let ghost m0 = self@;
        let top = self.scroll_top;
        let bottom = self.scroll_bottom;
        let mut r = top;
        proof {
            assert(self@.grid =~~= Seq::new(m0.grid.len(), |k: int|
                if top <= k < r {
                    m0.grid[k + 1]
                } else {
                    m0.grid[k]
                }));
        }
        while r < bottom
            invariant
                emu_wf(m0),
                top == m0.scroll_top,
                bottom == m0.scroll_bottom,
                top <= r <= bottom < m0.grid.len(),
                self@ == (EmuModel {
                    grid: Seq::new(m0.grid.len(), |k: int|
                        if top <= k < r {
                            m0.grid[k + 1]
                        } else {
                            m0.grid[k]
                        }),
                    ..m0
                }),
            decreases bottom - r,
        {
            let ghost pre = self@;
            proof {
                assert(pre.grid.len() == m0.grid.len());
                assert(self.grid@.len() == pre.grid.len());
            }
            let next = copy_row(&self.grid[r + 1]);
            proof {
                assert(next@ == pre.grid[r + 1]);
                assert(next@ == m0.grid[r + 1]);
            }
            self.set_row(r, next);
            proof {
                assert(self@.grid == pre.grid.update(r as int, m0.grid[r + 1]));
                assert forall|k: int| 0 <= k < m0.grid.len() implies #[trigger] self@.grid[k]
                    == (if top <= k < r + 1 { m0.grid[k + 1] } else { m0.grid[k] }) by {
                }
                assert(self@.grid =~= Seq::new(m0.grid.len(), |k: int|
                    if top <= k < r + 1 {
                        m0.grid[k + 1]
                    } else {
                        m0.grid[k]
                    }));
            }
            r = r + 1;
        }
        let blank = blank_row_vec(self.cols);
        self.set_row(bottom, blank);
        proof {
            assert(self@.grid =~~= emu_scroll_up(old(self)@).grid);
            assert(self@ == emu_scroll_up(old(self)@));
        }
    }

    /// Scroll the region down by one row.
    fn scroll_down_once(&mut self)
        requires
            emu_wf(old(self)@),
        ensures
            final(self)@ == emu_scroll_down(old(self)@),
            emu_wf(final(self)@),
    {
        let ghost m0 = self@;
        let top = self.scroll_top;
        let bottom = self.scroll_bottom;
        let mut r = bottom;
        proof {
            assert(self@.grid =~~= Seq::new(m0.grid.len(), |k: int|
                if r < k <= bottom {
                    m0.grid[k - 1]
                } else {
                    m0.grid[k]
                }));
        }
        while r > top
            invariant
                emu_wf(m0),
                top == m0.scroll_top,
                bottom == m0.scroll_bottom,
                top <= r <= bottom < m0.grid.len(),
                self@ == (EmuModel {
                    grid: Seq::new(m0.grid.len(), |k: int|
                        if r < k <= bottom {
                            m0.grid[k - 1]
                        } else {
                            m0.grid[k]
                        }),
                    ..m0
                }),
            decreases r,
        {
            let ghost pre = self@;
            proof {
                assert(pre.grid.len() == m0.grid.len());
                assert(self.grid@.len() == pre.grid.len());
            }
            let prev = copy_row(&self.grid[r - 1]);
            proof {
                assert(prev@ == pre.grid[r - 1]);
                assert(prev@ == m0.grid[r - 1]);
            }
            self.set_row(r, prev);
            proof {
                assert(self@.grid == pre.grid.update(r as int, m0.grid[r - 1]));
                assert forall|k: int| 0 <= k < m0.grid.len() implies #[trigger] self@.grid[k]
                    == (if r - 1 < k <= bottom { m0.grid[k - 1] } else { m0.grid[k] }) by {
                }
                assert(self@.grid =~= Seq::new(m0.grid.len(), |k: int|
                    if r - 1 < k <= bottom {
                        m0.grid[k - 1]
                    } else {
                        m0.grid[k]
                    }));
            }
            r = r - 1;
        }
        let blank = blank_row_vec(self.cols);
        self.set_row(top, blank);
        proof {
            assert(self@.grid =~~= emu_scroll_down(old(self)@).grid);
            assert(self@ == emu_scroll_down(old(self)@));
        }
    }

    /// A line feed.
    fn newline_op(&mut self)
        requires
            emu_wf(old(self)@),
        ensures
            final(self)@ == emu_newline(old(self)@),
            emu_wf(final(self)@),
    {
        if self.cursor_row == self.scroll_bottom {
            self.scroll_up_once();
        } else if self.cursor_row < self.rows - 1 {
            self.cursor_row = self.cursor_row + 1;
        }
    }

    /// Print one character at the cursor.
    fn put_char(&mut self, ch: char)
        requires
            emu_wf(old(self)@),
        ensures
            final(self)@ == emu_put_char(old(self)@, ch),
            emu_wf(final(self)@),
    {
        if self.wrap_next {
            self.cursor_col = 0;
            self.newline_op();
            self.wrap_next = false;
        }
        let written = Cell { c: ch, attr: self.current_attr };
        self.set_cell(self.cursor_row, self.cursor_col, written);
        if self.cursor_col < self.cols - 1 {
            self.cursor_col = self.cursor_col + 1;
        } else if self.auto_wrap {
            self.wrap_next = true;
        }
    }

    /// Execute one C0 control byte.
    fn execute_byte(&mut self, b: u8)
        requires
            emu_wf(old(self)@),
        ensures
            final(self)@ == emu_execute(old(self)@, b),
            emu_wf(final(self)@),
    {
        if b == 0x08 {
            if self.cursor_col > 0 {
                self.cursor_col = self.cursor_col - 1;
                self.wrap_next = false;
            }
        } else if b == 0x09 {
            let target = self.next_tab_stop();
            self.cursor_col = target;
            self.wrap_next = false;
        } else if b == 0x0A || b == 0x0B || b == 0x0C {
            self.newline_op();
            self.wrap_next = false;
        } else if b == 0x0D {
            self.cursor_col = 0;
            self.wrap_next = false;
        }
    }

    /// The column a horizontal tab moves the cursor to.
    fn next_tab_stop(&self) -> (t: usize)
        requires
            emu_wf(self@),
        ensures
            t as int == tab_target(self@),
            t < self@.cols,
    {
        let cols = self.cols;
        let mut i = self.cursor_col + 1;
        while i < cols
            invariant
                emu_wf(self@),
                cols == self@.cols,
                self@.cursor_col + 1 <= i <= cols,
                find_tab_stop(self@.tab_stops, self@.cursor_col + 1) == find_tab_stop(
                    self@.tab_stops,
                    i as int,
                ),
            decreases cols - i,
        {
            if self.tab_stops[i] {
                return i;
            }
            i = i + 1;
        }
        cols - 1
    }

    // ---- Erasing ----

    /// Blank the rows in `a..b`.
    fn blank_rows_range(&mut self, a: usize, b: usize)
        requires
            emu_wf(old(self)@),
            b <= old(self)@.rows,
        ensures
            final(self)@ == (EmuModel {
                grid: Seq::new(old(self)@.grid.len(), |k: int|
                    if a <= k < b {
                        blank_row(old(self)@.cols)
                    } else {
                        old(self)@.grid[k]
                    }),
                ..old(self)@
            }),
            emu_wf(final(self)@),
    {
        let ghost m0 = self@;
        let mut r = a;
        proof {
            assert(self@.grid =~= Seq::new(m0.grid.len(), |k: int|
                if a <= k < r {
                    blank_row(m0.cols)
                } else {
                    m0.grid[k]
                }));
        }
        while r < b
            invariant
                emu_wf(m0),
                a <= r,
                b <= m0.rows,
                r == a || r <= b,
                a < b ==> r <= b,
                self@ == (EmuModel {
                    grid: Seq::new(m0.grid.len(), |k: int|
                        if a <= k < r {
                            blank_row(m0.cols)
                        } else {
                            m0.grid[k]
                        }),
                    ..m0
                }),
            decreases b - r,
        {
            let ghost pre = self@;
            proof {
                assert(pre.grid.len() == m0.grid.len());
                assert(self.grid@.len() == pre.grid.len());
            }
            let blank = blank_row_vec(self.cols);
            self.set_row(r, blank);
            proof {
                assert(self@.grid == pre.grid.update(r as int, blank_row(m0.cols)));
                assert forall|k: int| 0 <= k < m0.grid.len() implies #[trigger] self@.grid[k]
                    == (if a <= k < r + 1 { blank_row(m0.cols) } else { m0.grid[k] }) by {
                }
                assert(self@.grid =~= Seq::new(m0.grid.len(), |k: int|
                    if a <= k < r + 1 {
                        blank_row(m0.cols)
                    } else {
                        m0.grid[k]
                    }));
            }
            r = r + 1;
        }
        proof {
            assert(self@.grid =~= Seq::new(m0.grid.len(), |k: int|
                if a <= k < b {
                    blank_row(m0.cols)
                } else {
                    m0.grid[k]
                }));
        }
    }

    /// Erase in display.
    fn erase_in_display(&mut self, mode: u16)
        requires
            emu_wf(old(self)@),
        ensures
            final(self)@ == emu_erase_in_display(old(self)@, mode),
            emu_wf(final(self)@),
    {
        let ghost m0 = self@;
        if mode == 0 {
            let row = row_blanked_range_vec(&self.grid[self.cursor_row], self.cursor_col, self.cols);
            proof {
                assert(row@ =~= row_blanked_from(m0.grid[m0.cursor_row], m0.cursor_col));
            }
            self.set_row(self.cursor_row, row);
            let start = self.cursor_row + 1;
            let rows = self.rows;
            self.blank_rows_range(start, rows);
            proof {
                assert(self@.grid =~= emu_erase_in_display(m0, mode).grid);
            }
        } else if mode == 1 {
            let cur = self.cursor_row;
            self.blank_rows_range(0, cur);
            let ghost mid = self@;
            proof {
                assert(mid.grid[cur as int] == m0.grid[cur as int]);
            }
            let row = row_blanked_range_vec(&self.grid[self.cursor_row], 0, self.cursor_col + 1);
            proof {
                assert(row@ =~= row_blanked_to(m0.grid[m0.cursor_row], m0.cursor_col));
            }
            self.set_row(self.cursor_row, row);
            proof {
                assert(self@.grid =~= emu_erase_in_display(m0, mode).grid);
            }
        } else if mode == 2 {
            let rows = self.rows;
            self.blank_rows_range(0, rows);
            proof {
                assert(self@.grid =~= blank_grid(m0.cols, m0.rows));
            }
        } else if mode == 3 {
            let rows = self.rows;
            self.blank_rows_range(0, rows);
            self.scrollback.clear();
            self.scroll_offset = 0;
            proof {
                assert(self@.grid =~= blank_grid(m0.cols, m0.rows));
                assert(self@.scrollback =~= Seq::<Seq<Cell>>::empty());
            }
        }
    }

    /// Erase in line.
    fn erase_in_line(&mut self, mode: u16)
        requires
            emu_wf(old(self)@),
        ensures
            final(self)@ == emu_erase_in_line(old(self)@, mode),
            emu_wf(final(self)@),
    {
        let ghost m0 = self@;
        if mode == 0 {
            let row = row_blanked_range_vec(&self.grid[self.cursor_row], self.cursor_col, self.cols);
            proof {
                assert(row@ =~= row_blanked_from(m0.grid[m0.cursor_row], m0.cursor_col));
            }
            self.set_row(self.cursor_row, row);
        } else if mode == 1 {
            let row = row_blanked_range_vec(&self.grid[self.cursor_row], 0, self.cursor_col + 1);
            proof {
                assert(row@ =~= row_blanked_to(m0.grid[m0.cursor_row], m0.cursor_col));
            }
            self.set_row(self.cursor_row, row);
        } else if mode == 2 {
            let blank = blank_row_vec(self.cols);
            self.set_row(self.cursor_row, blank);
        }
    }

    /// Erase `n` characters from the cursor on.
    fn erase_chars(&mut self, n: usize)
        requires
            emu_wf(old(self)@),
        ensures
            final(self)@ == (EmuModel {
                grid: old(self)@.grid.update(
                    old(self)@.cursor_row,
                    row_blanked_range(
                        old(self)@.grid[old(self)@.cursor_row],
                        old(self)@.cursor_col,
                        vstd::math::min(old(self)@.cursor_col + n, old(self)@.cols),
                    ),
                ),
                ..old(self)@
            }),
            emu_wf(final(self)@),
    {
        let limit = if n < self.cols - self.cursor_col {
            self.cursor_col + n
        } else {
            self.cols
        };
        let row = row_blanked_range_vec(&self.grid[self.cursor_row], self.cursor_col, limit);
        self.set_row(self.cursor_row, row);
    }

    // ---- Select graphic rendition ----

    /// Apply a rendition parameter list to the current attributes.
    fn handle_sgr(&mut self, ps: &Vec<u16>)
        ensures
            final(self)@ == emu_sgr(old(self)@, ps@),
    {
        if ps.len() == 0 {
            self.current_attr = CellAttr::default();
            return;
        }
        let ghost a0 = self@.current_attr;
        let mut attr = self.current_attr;
        let n = ps.len();
        let mut i: usize = 0;
        while i < n
            invariant
                n == ps@.len(),
                apply_sgr(attr, ps@, i as int) == apply_sgr(a0, ps@, 0),
                self@ == (EmuModel { current_attr: self@.current_attr, ..old(self)@ }),
                self@.current_attr == a0,
                a0 == old(self)@.current_attr,
            decreases n - i,
        {
            proof {
                reveal_with_fuel(apply_sgr, 3);
                reveal_with_fuel(sgr_extended_color, 3);
            }
            let p = ps[i];
            if p == 0 {
                attr = CellAttr::default();
                i = i + 1;
            } else if p == 1 {
                attr.bold = true;
                i = i + 1;
            } else if p == 3 {
                attr.italic = true;
                i = i + 1;
            } else if p == 4 {
                attr.underline = true;
                i = i + 1;
            } else if p == 7 {
                attr.inverse = true;
                i = i + 1;
            } else if p == 21 || p == 22 {
                attr.bold = false;
                i = i + 1;
            } else if p == 23 {
                attr.italic = false;
                i = i + 1;
            } else if p == 24 {
                attr.underline = false;
                i = i + 1;
            } else if p == 27 {
                attr.inverse = false;
                i = i + 1;
            } else if 30 <= p && p <= 37 {
                attr.fg = TermColor::Indexed((p - 30) as u8);
                i = i + 1;
            } else if p == 39 {
                attr.fg = TermColor::Default;
                i = i + 1;
            } else if 40 <= p && p <= 47 {
                attr.bg = TermColor::Indexed((p - 40) as u8);
                i = i + 1;
            } else if p == 49 {
                attr.bg = TermColor::Default;
                i = i + 1;
            } else if 90 <= p && p <= 97 {
                attr.fg = TermColor::Indexed((p - 90 + 8) as u8);
                i = i + 1;
            } else if 100 <= p && p <= 107 {
                attr.bg = TermColor::Indexed((p - 100 + 8) as u8);
                i = i + 1;
            } else if p == 38 || p == 48 {
                let is_fg = p == 38;
                if n - i <= 1 {
                    i = n;
                } else if ps[i + 1] == 5 {
                    if n - i > 2 {
                        let color = TermColor::Indexed((ps[i + 2] % 256) as u8);
                        if is_fg {
                            attr.fg = color;
                        } else {
                            attr.bg = color;
                        }
                        i = i + 3;
                    } else {
                        i = n;
                    }
                } else if ps[i + 1] == 2 {
                    if n - i > 4 {
                        let color = TermColor::Rgb(
                            (ps[i + 2] % 256) as u8,
                            (ps[i + 3] % 256) as u8,
                            (ps[i + 4] % 256) as u8,
                        );
                        if is_fg {
                            attr.fg = color;
                        } else {
                            attr.bg = color;
                        }
                        i = i + 5;
                    } else {
                        i = i + 2;
                    }
                } else {
                    i = i + 2;
                }
            } else {
                i = i + 1;
            }
        }
        self.current_attr = attr;
    }

    // ---- Alternate screen ----

    /// Enter the alternate screen.
    fn enter_alt(&mut self)
        requires
            emu_wf(old(self)@),
        ensures
            final(self)@ == emu_enter_alt(old(self)@),
            emu_wf(final(self)@),
    {
        if self.alt_grid.is_none() {
            let mut g = blank_grid_vec(self.cols, self.rows);
            core::mem::swap(&mut g, &mut self.grid);
            self.alt_grid = Some(g);
            self.alt_cursor = Some((self.cursor_row, self.cursor_col));
            self.cursor_row = 0;
            self.cursor_col = 0;
        }
    }

    /// Exit the alternate screen.
    fn exit_alt(&mut self)
        requires
            emu_wf(old(self)@),
        ensures
            final(self)@ == emu_exit_alt(old(self)@),
            emu_wf(final(self)@),
    {
        let mut taken: Option<Vec<Vec<Cell>>> = None;
        core::mem::swap(&mut taken, &mut self.alt_grid);
        match taken {
            Some(g) => {
                self.grid = g;
                let mut tc: Option<(usize, usize)> = None;
                core::mem::swap(&mut tc, &mut self.alt_cursor);
                match tc {
                    Some((r, c)) => {
                        self.cursor_row = if r < self.rows - 1 {
                            r
                        } else {
                            self.rows - 1
                        };
                        self.cursor_col = if c < self.cols - 1 {
                            c
                        } else {
                            self.cols - 1
                        };
                    },
                    None => {},
                }
            },
            None => {},
        }
    }

    /// Restore the saved cursor and attributes, clamped in.
    fn restore_cursor_op(&mut self)
        requires
            emu_wf(old(self)@),
        ensures
            final(self)@ == emu_restore_cursor(old(self)@),
            emu_wf(final(self)@),
    {
        match self.saved_cursor {
            Some((r, c, attr)) => {
                self.cursor_row = if r < self.rows - 1 {
                    r
                } else {
                    self.rows - 1
                };
                self.cursor_col = if c < self.cols - 1 {
                    c
                } else {
                    self.cols - 1
                };
                self.current_attr = attr;
            },
            None => {},
        }
    }

    // ---- Modes ----

    /// Set one private mode.
    fn set_mode_one(&mut self, p: u16)
        requires
            emu_wf(old(self)@),
        ensures
            final(self)@ == emu_set_mode(old(self)@, p),
            emu_wf(final(self)@),
    {
        if p == 1 {
            self.app_cursor_keys = true;
        } else if p == 7 {
            self.auto_wrap = true;
        } else if p == 25 {
            self.cursor_visible = true;
        } else if p == 47 || p == 1047 {
            self.enter_alt();
        } else if p == 1049 {
            self.saved_cursor = Some((self.cursor_row, self.cursor_col, self.current_attr));
            self.enter_alt();
        }
    }

    /// Reset one private mode.
    fn reset_mode_one(&mut self, p: u16)
        requires
            emu_wf(old(self)@),
        ensures
            final(self)@ == emu_reset_mode(old(self)@, p),
            emu_wf(final(self)@),
    {
        if p == 1 {
            self.app_cursor_keys = false;
        } else if p == 7 {
            self.auto_wrap = false;
        } else if p == 25 {
            self.cursor_visible = false;
        } else if p == 47 || p == 1047 {
            self.exit_alt();
        } else if p == 1049 {
            self.exit_alt();
            let mut tsc: Option<(usize, usize, CellAttr)> = None;
            core::mem::swap(&mut tsc, &mut self.saved_cursor);
            match tsc {
                Some((r, c, attr)) => {
                    self.cursor_row = if r < self.rows - 1 {
                        r
                    } else {
                        self.rows - 1
                    };
                    self.cursor_col = if c < self.cols - 1 {
                        c
                    } else {
                        self.cols - 1
                    };
                    self.current_attr = attr;
                },
                None => {},
            }
        }
    }

    /// Apply a mode change for every parameter of the list.
    fn set_modes(&mut self, ps: &Vec<u16>, set: bool)
        requires
            emu_wf(old(self)@),
        ensures
            final(self)@ == emu_modes(old(self)@, ps@, 0, set),
            emu_wf(final(self)@),
    {
        let n = ps.len();
        let mut i: usize = 0;
        while i < n
            invariant
                n == ps@.len(),
                i <= n,
                emu_wf(self@),
                emu_modes(self@, ps@, i as int, set) == emu_modes(old(self)@, ps@, 0, set),
            decreases n - i,
        {
            let p = ps[i];
            if set {
                self.set_mode_one(p);
            } else {
                self.reset_mode_one(p);
            }
            i = i + 1;
        }
    }

    // ---- Line and character edits ----

    /// Insert one blank line at the cursor.
    fn insert_line_once(&mut self)
        requires
            emu_wf(old(self)@),
        ensures
            final(self)@ == emu_insert_line_once(old(self)@),
            emu_wf(final(self)@),
    {
        let ghost m0 = self@;
        if self.cursor_row <= self.scroll_bottom {
            let _removed = self.grid.remove(self.scroll_bottom);
            let blank = blank_row_vec(self.cols);
            self.grid.insert(self.cursor_row, blank);
            proof {
                assert(self@.grid =~= m0.grid.remove(m0.scroll_bottom).insert(
                    m0.cursor_row,
                    blank_row(m0.cols),
                ));
            }
        }
    }

    /// Delete one line at the cursor.
    fn delete_line_once(&mut self)
        requires
            emu_wf(old(self)@),
        ensures
            final(self)@ == emu_delete_line_once(old(self)@),
            emu_wf(final(self)@),
    {
        let ghost m0 = self@;
        if self.cursor_row <= self.scroll_bottom {
            let _removed = self.grid.remove(self.cursor_row);
            let blank = blank_row_vec(self.cols);
            self.grid.insert(self.scroll_bottom, blank);
            proof {
                assert(self@.grid =~= m0.grid.remove(m0.cursor_row).insert(
                    m0.scroll_bottom,
                    blank_row(m0.cols),
                ));
            }
        }
    }

    /// Delete one character at the cursor.
    fn delete_char_once(&mut self)
        requires
            emu_wf(old(self)@),
        ensures
            final(self)@ == emu_delete_char_once(old(self)@),
            emu_wf(final(self)@),
    {
        let ghost m0 = self@;
        let mut row = copy_row(&self.grid[self.cursor_row]);
        let _removed = row.remove(self.cursor_col);
        row.push(Cell::default());
        proof {
            assert(row@ == m0.grid[m0.cursor_row].remove(m0.cursor_col).push(blank_cell()));
        }
        self.set_row(self.cursor_row, row);
    }

    /// Insert one blank character at the cursor.
    fn insert_char_once(&mut self)
        requires
            emu_wf(old(self)@),
        ensures
            final(self)@ == emu_insert_char_once(old(self)@),
            emu_wf(final(self)@),
    {
        let ghost m0 = self@;
        let mut row = copy_row(&self.grid[self.cursor_row]);
        let _popped = row.pop();
        row.insert(self.cursor_col, Cell::default());
        proof {
            assert(row@ =~= m0.grid[m0.cursor_row].drop_last().insert(
                m0.cursor_col,
                blank_cell(),
            ));
        }
        self.set_row(self.cursor_row, row);
    }
}

impl TerminalEmulator {
    /// Insert `n` blank lines at the cursor.
    fn insert_lines(&mut self, n: usize)
        requires
            emu_wf(old(self)@),
        ensures
            final(self)@ == emu_repeat(old(self)@, n as int, |mm: EmuModel| emu_insert_line_once(mm)),
            emu_wf(final(self)@),
    {
        let mut k: usize = 0;
        while k < n
            invariant
                k <= n,
                emu_wf(self@),
                self@ == emu_repeat(old(self)@, k as int, |mm: EmuModel| emu_insert_line_once(mm)),
            decreases n - k,
        {
            self.insert_line_once();
            k = k + 1;
        }
    }

    /// Delete `n` lines at the cursor.
    fn delete_lines(&mut self, n: usize)
        requires
            emu_wf(old(self)@),
        ensures
            final(self)@ == emu_repeat(old(self)@, n as int, |mm: EmuModel| emu_delete_line_once(mm)),
            emu_wf(final(self)@),
    {
        let mut k: usize = 0;
        while k < n
            invariant
                k <= n,
                emu_wf(self@),
                self@ == emu_repeat(old(self)@, k as int, |mm: EmuModel| emu_delete_line_once(mm)),
            decreases n - k,
        {
            self.delete_line_once();
            k = k + 1;
        }
    }

    /// Delete `n` characters at the cursor, bounded by the row's end.
    fn delete_chars(&mut self, n: usize)
        requires
            emu_wf(old(self)@),
        ensures
            final(self)@ == emu_repeat(
                old(self)@,
                vstd::math::min(n as int, old(self)@.cols - old(self)@.cursor_col),
                |mm: EmuModel| emu_delete_char_once(mm),
            ),
            emu_wf(final(self)@),
    {
        let limit = if n < self.cols - self.cursor_col {
            n
        } else {
            self.cols - self.cursor_col
        };
        let mut k: usize = 0;
        while k < limit
            invariant
                k <= limit,
                emu_wf(self@),
                self@ == emu_repeat(old(self)@, k as int, |mm: EmuModel| emu_delete_char_once(mm)),
            decreases limit - k,
        {
            self.delete_char_once();
            k = k + 1;
        }
    }

    /// Insert `n` blank characters at the cursor.
    fn insert_chars(&mut self, n: usize)
        requires
            emu_wf(old(self)@),
        ensures
            final(self)@ == emu_repeat(old(self)@, n as int, |mm: EmuModel| emu_insert_char_once(mm)),
            emu_wf(final(self)@),
    {
        let mut k: usize = 0;
        while k < n
            invariant
                k <= n,
                emu_wf(self@),
                self@ == emu_repeat(old(self)@, k as int, |mm: EmuModel| emu_insert_char_once(mm)),
            decreases n - k,
        {
            self.insert_char_once();
            k = k + 1;
        }
    }

    /// Scroll the region up `n` times.
    fn scroll_up_n(&mut self, n: usize)
        requires
            emu_wf(old(self)@),
        ensures
            final(self)@ == emu_repeat(old(self)@, n as int, |mm: EmuModel| emu_scroll_up(mm)),
            emu_wf(final(self)@),
    {
        let mut k: usize = 0;
        while k < n
            invariant
                k <= n,
                emu_wf(self@),
                self@ == emu_repeat(old(self)@, k as int, |mm: EmuModel| emu_scroll_up(mm)),
            decreases n - k,
        {
            self.scroll_up_once();
            k = k + 1;
        }
    }

    /// Scroll the region down `n` times.
    fn scroll_down_n(&mut self, n: usize)
        requires
            emu_wf(old(self)@),
        ensures
            final(self)@ == emu_repeat(old(self)@, n as int, |mm: EmuModel| emu_scroll_down(mm)),
            emu_wf(final(self)@),
    {
        let mut k: usize = 0;
        while k < n
            invariant
                k <= n,
                emu_wf(self@),
                self@ == emu_repeat(old(self)@, k as int, |mm: EmuModel| emu_scroll_down(mm)),
            decreases n - k,
        {
            self.scroll_down_once();
            k = k + 1;
        }
    }

    /// Dispatch a complete control sequence.
    #[verifier::rlimit(100)]
    #[verifier::spinoff_prover]
    fn csi_dispatch(&mut self, ps: &Vec<u16>, q: bool, a: u8)
        requires
            emu_wf(old(self)@),
        ensures
            final(self)@ == emu_csi(old(self)@, ps@, q, a),
            emu_wf(final(self)@),
    {
        let n = param_get_or_one(ps, 0) as usize;
        if a == 0x41 {
            self.cursor_row = if n >= self.cursor_row {
                0
            } else {
                self.cursor_row - n
            };
            self.wrap_next = false;
        } else if a == 0x42 {
            self.cursor_row = if n < self.rows - 1 - self.cursor_row {
                self.cursor_row + n
            } else {
                self.rows - 1
            };
            self.wrap_next = false;
        } else if a == 0x43 {
            self.cursor_col = if n < self.cols - 1 - self.cursor_col {
                self.cursor_col + n
            } else {
                self.cols - 1
            };
            self.wrap_next = false;
        } else if a == 0x44 {
            self.cursor_col = if n >= self.cursor_col {
                0
            } else {
                self.cursor_col - n
            };
            self.wrap_next = false;
        } else if a == 0x45 {
            self.cursor_row = if n < self.rows - 1 - self.cursor_row {
                self.cursor_row + n
            } else {
                self.rows - 1
            };
            self.cursor_col = 0;
        } else if a == 0x46 {
            self.cursor_row = if n >= self.cursor_row {
                0
            } else {
                self.cursor_row - n
            };
            self.cursor_col = 0;
        } else if a == 0x47 {
            self.cursor_col = if n - 1 < self.cols - 1 {
                n - 1
            } else {
                self.cols - 1
            };
            self.wrap_next = false;
        } else if a == 0x48 || a == 0x66 {
            let row = param_get_or_one(ps, 0) as usize;
            let col = param_get_or_one(ps, 1) as usize;
            self.cursor_row = if row - 1 < self.rows - 1 {
                row - 1
            } else {
                self.rows - 1
            };
            self.cursor_col = if col - 1 < self.cols - 1 {
                col - 1
            } else {
                self.cols - 1
            };
            self.wrap_next = false;
        } else if a == 0x4A {
            let p1 = param_get_or_zero(ps, 0);
            self.erase_in_display(p1);
        } else if a == 0x4B {
            let p1 = param_get_or_zero(ps, 0);
            self.erase_in_line(p1);
        } else if a == 0x4C {
            self.insert_lines(n);
        } else if a == 0x4D {
            self.delete_lines(n);
        } else if a == 0x50 {
            self.delete_chars(n);
        } else if a == 0x40 {
            self.insert_chars(n);
        } else if a == 0x53 {
            self.scroll_up_n(n);
        } else if a == 0x54 && !q {
            self.scroll_down_n(n);
        } else if a == 0x58 {
            self.erase_chars(n);
        } else if a == 0x64 {
            self.cursor_row = if n - 1 < self.rows - 1 {
                n - 1
            } else {
                self.rows - 1
            };
            self.wrap_next = false;
        } else if a == 0x68 {
            if q {
                self.set_modes(ps, true);
            }
        } else if a == 0x6C {
            if q {
                self.set_modes(ps, false);
            }
        } else if a == 0x6D {
            self.handle_sgr(ps);
        } else if a == 0x72 {
            if !q {
                let top = param_get_or_one(ps, 0) as usize;
                let p2 = param_get_or_zero(ps, 1) as usize;
                let bottom = if p2 == 0 {
                    self.rows
                } else {
                    p2
                };
                let st = if top - 1 < self.rows - 1 {
                    top - 1
                } else {
                    self.rows - 1
                };
                let sb = if bottom - 1 < self.rows - 1 {
                    bottom - 1
                } else {
                    self.rows - 1
                };
                if st >= sb {
                    self.scroll_top = 0;
                    self.scroll_bottom = self.rows - 1;
                } else {
                    self.scroll_top = st;
                    self.scroll_bottom = sb;
                }
                self.cursor_row = self.scroll_top;
                self.cursor_col = 0;
            }
        } else if a == 0x73 {
            if !q {
                self.saved_cursor = Some((self.cursor_row, self.cursor_col, self.current_attr));
            }
        } else if a == 0x75 {
            self.restore_cursor_op();
        }
    }

    /// Dispatch a plain escape sequence.
    fn esc_dispatch(&mut self, b: u8)
        requires
            emu_wf(old(self)@),
        ensures
            final(self)@ == emu_esc(old(self)@, b),
            emu_wf(final(self)@),
    {
        if b == 0x37 {
            self.saved_cursor = Some((self.cursor_row, self.cursor_col, self.current_attr));
        } else if b == 0x38 {
            self.restore_cursor_op();
        } else if b == 0x44 {
            self.newline_op();
        } else if b == 0x45 {
            self.cursor_col = 0;
            self.newline_op();
        } else if b == 0x4D {
            if self.cursor_row == self.scroll_top {
                self.scroll_down_once();
            } else if self.cursor_row > 0 {
                self.cursor_row = self.cursor_row - 1;
            }
        } else if b == 0x63 {
            let cols = self.cols;
            let rows = self.rows;
            *self = TerminalEmulator::new(cols, rows);
        }
    }

    /// Apply one parser action.
    fn apply_perform(&mut self, act: &Perform)
        requires
            emu_wf(old(self)@),
        ensures
            final(self)@ == emu_apply(old(self)@, act@),
            emu_wf(final(self)@),
    {
        match act {
            Perform::Print(c) => self.put_char(*c),
            Perform::Execute(b) => self.execute_byte(*b),
            Perform::Csi(ps, q, a) => self.csi_dispatch(ps, *q, *a),
            Perform::Esc(b) => self.esc_dispatch(*b),
        }
    }

    /// Feed one byte through the parser and the machine.
    fn advance_byte(&mut self, b: u8)
        requires
            emu_wf(old(self)@),
        ensures
            final(self)@ == emu_byte(old(self)@, b),
            emu_wf(final(self)@),
    {
        let act = self.parser.advance(b);
        proof {
            assert(self@ == (EmuModel { parser: parser_step(old(self)@.parser, b).0, ..old(self)@ }));
        }
        match act {
            Some(a) => self.apply_perform(&a),
            None => {},
        }
    }

    /// Process a chunk of shell output directly: the view snaps back to the
    /// live grid and the bytes run through the machine. This never fails;
    /// malformed sequences are ignored.
    #[verifier::rlimit(100)]
    #[verifier::spinoff_prover]
    pub fn process(&mut self, data: &[u8])
        requires
            emu_wf(old(self)@),
        ensures
            final(self)@ == emu_process(old(self)@, data@),
            emu_wf(final(self)@),
    {
        self.scroll_offset = 0;
        let ghost m0 = self@;
        proof {
            assert(data@.skip(0) =~= data@);
        }
        let n = data.len();
        for i in 0..n
            invariant
                n == data@.len(),
                emu_wf(self@),
                emu_feed_bytes(self@, data@.skip(i as int)) == emu_feed_bytes(m0, data@),
        {
            let ghost pre = self@;
            self.advance_byte(data[i]);
            proof {
                assert(data@.skip(i as int).skip(1) =~= data@.skip(i + 1));
                assert(data@.skip(i as int)[0] == data@[i as int]);
                assert(emu_feed_bytes(pre, data@.skip(i as int)) == emu_feed_bytes(
                    self@,
                    data@.skip(i + 1),
                ));
            }
        }
        proof {
            assert(data@.skip(n as int) =~= Seq::<u8>::empty());
        }
    }

    /// Queue bytes for a later [`Self::flush`].
    pub fn feed(&mut self, data: &[u8])
        ensures
            final(self)@ == (EmuModel { pending: old(self)@.pending + data@, ..old(self)@ }),
    {
        let ghost m0 = self@;
        let n = data.len();
        for i in 0..n
            invariant
                n == data@.len(),
                self@ == (EmuModel { pending: m0.pending + data@.take(i as int), ..m0 }),
        {
            self.pending_data.push(data[i]);
            proof {
                assert(m0.pending + data@.take(i + 1) =~= (m0.pending + data@.take(i as int)).push(
                    data@[i as int],
                ));
            }
        }
        proof {
            assert(data@.take(n as int) =~= data@);
            assert(self@ == (EmuModel { pending: m0.pending + data@, ..m0 }));
        }
    }

    /// Run the queued bytes through the machine, without snapping the view.
    #[verifier::rlimit(100)]
    #[verifier::spinoff_prover]
    pub fn flush(&mut self)
        requires
            emu_wf(old(self)@),
        ensures
            final(self)@ == emu_feed_bytes(
                (EmuModel { pending: Seq::empty(), ..old(self)@ }),
                old(self)@.pending,
            ),
            emu_wf(final(self)@),
    {
        let mut data: Vec<u8> = Vec::new();
        core::mem::swap(&mut data, &mut self.pending_data);
        let ghost m0 = self@;
        proof {
            assert(m0 == (EmuModel { pending: Seq::<u8>::empty(), ..old(self)@ }));
        }
        proof {
            assert(data@.skip(0) =~= data@);
        }
        let n = data.len();
        for i in 0..n
            invariant
                n == data@.len(),
                data@ == old(self)@.pending,
                emu_wf(self@),
                emu_feed_bytes(self@, data@.skip(i as int)) == emu_feed_bytes(m0, data@),
        {
            let ghost pre = self@;
            self.advance_byte(data[i]);
            proof {
                assert(data@.skip(i as int).skip(1) =~= data@.skip(i + 1));
                assert(data@.skip(i as int)[0] == data@[i as int]);
                assert(emu_feed_bytes(pre, data@.skip(i as int)) == emu_feed_bytes(
                    self@,
                    data@.skip(i + 1),
                ));
            }
        }
        proof {
            assert(data@.skip(n as int) =~= Seq::<u8>::empty());
        }
    }

    /// Resize the grid, preserving the top-left overlapping region. A no-op
    /// for zero or unchanged dimensions. Rows that a smaller grid pushes
    /// the cursor off of go to the scrollback; the cursor clamps in; the
    /// scroll region resets; tab stops are rebuilt.
    pub fn resize(&mut self, new_cols: usize, new_rows: usize)
        requires
            emu_wf(old(self)@),
        ensures
            final(self)@ == emu_resize(old(self)@, new_cols as int, new_rows as int),
            emu_wf(final(self)@),
    {
        if new_cols == 0 || new_rows == 0 || (new_cols == self.cols && new_rows == self.rows) {
            return;
        }
        let ghost m0 = self@;
        let shift: usize = if self.cursor_row >= new_rows {
            self.cursor_row - new_rows + 1
        } else {
            0
        };
        for i in 0..shift
            invariant
                emu_wf(m0),
                shift <= m0.rows,
                self.grid@.len() == m0.grid.len(),
                self@ == (EmuModel { scrollback: m0.scrollback + m0.grid.take(i as int), ..m0 }),
        {
            let row = copy_row(&self.grid[i]);
            self.scrollback.push(row);
            proof {
                assert(m0.scrollback + m0.grid.take(i + 1) =~= (m0.scrollback + m0.grid.take(
                    i as int,
                )).push(m0.grid[i as int]));
                assert(self@.scrollback =~= m0.scrollback + m0.grid.take(i + 1));
            }
        }
        let ng = fit_grid_vec(&self.grid, self.cols, self.rows, new_cols, new_rows, shift);
        self.grid = ng;
        let mut alt_taken: Option<Vec<Vec<Cell>>> = None;
        core::mem::swap(&mut alt_taken, &mut self.alt_grid);
        match alt_taken {
            Some(g) => {
                let fitted = fit_grid_vec(&g, self.cols, self.rows, new_cols, new_rows, 0);
                self.alt_grid = Some(fitted);
            },
            None => {},
        }
        if shift > 0 {
            self.cursor_row = new_rows - 1;
        }
        self.cursor_col = if self.cursor_col < new_cols - 1 {
            self.cursor_col
        } else {
            new_cols - 1
        };
        self.cols = new_cols;
        self.rows = new_rows;
        self.scroll_top = 0;
        self.scroll_bottom = new_rows - 1;
        self.tab_stops = default_tabs_vec(new_cols);
        proof {
            assert(self@ == emu_resize(m0, new_cols as int, new_rows as int));
        }
    }
}

/// The first parameter at `i`, defaulting to one when absent or zero.
fn param_get_or_one(ps: &Vec<u16>, i: usize) -> (r: u16)
    ensures
        r as int == param_or_one(ps@, i as int),
        1 <= r,
{
    if i < ps.len() && ps[i] != 0 {
        ps[i]
    } else {
        1
    }
}

/// The parameter at `i`, defaulting to zero when absent.
fn param_get_or_zero(ps: &Vec<u16>, i: usize) -> (r: u16)
    ensures
        r as int == param_or_zero(ps@, i as int),
{
    if i < ps.len() {
        ps[i]
    } else {
        0
    }
}

/// A grid cropped or padded to new dimensions, shifted up by `shift` rows.
fn fit_grid_vec(
    src: &Vec<Vec<Cell>>,
    cols: usize,
    rows: usize,
    new_cols: usize,
    new_rows: usize,
    shift: usize,
) -> (out: Vec<Vec<Cell>>)
    requires
        grid_wf(gview(src@), cols as int, rows as int),
    ensures
        gview(out@) == fit_grid(
            gview(src@),
            cols as int,
            rows as int,
            new_cols as int,
            new_rows as int,
            shift as int,
        ),
{
    let ghost g = gview(src@);
    let mut out: Vec<Vec<Cell>> = Vec::new();
    for r in 0..new_rows
        invariant
            g == gview(src@),
            grid_wf(g, cols as int, rows as int),
            out@.len() == r,
            forall|k: int| 0 <= k < r ==> (#[trigger] out@[k])@ == fit_grid(
                g,
                cols as int,
                rows as int,
                new_cols as int,
                new_rows as int,
                shift as int,
            )[k],
    {
        let mut row: Vec<Cell> = Vec::new();
        for c in 0..new_cols
            invariant
                g == gview(src@),
                grid_wf(g, cols as int, rows as int),
                r < new_rows,
                row@.len() == c,
                forall|k: int| 0 <= k < c ==> #[trigger] row@[k] == (if r < rows && k < cols
                    && r + shift < rows {
                    g[r + shift][k]
                } else {
                    blank_cell()
                }),
        {
            if r < rows && c < cols && shift < rows - r {
                let cell = src[r + shift][c];
                row.push(cell);
            } else {
                row.push(Cell::default());
            }
        }
        proof {
            assert(row@ =~= fit_grid(
                g,
                cols as int,
                rows as int,
                new_cols as int,
                new_rows as int,
                shift as int,
            )[r as int]);
        }
        out.push(row);
    }
    proof {
        assert(gview(out@) =~~= fit_grid(
            g,
            cols as int,
            rows as int,
            new_cols as int,
            new_rows as int,
            shift as int,
        ));
    }
    out
}

/// A copy of a row with the columns in `c0..c1` blanked.
fn row_blanked_range_vec(row: &Vec<Cell>, c0: usize, c1: usize) -> (r: Vec<Cell>)
    ensures
        r@ == row_blanked_range(row@, c0 as int, c1 as int),
{
    let mut r: Vec<Cell> = Vec::new();
    let n = row.len();
    for i in 0..n
        invariant
            n == row.len(),
            r@.len() == i,
            forall|k: int| 0 <= k < i ==> #[trigger] r@[k] == (if c0 <= k < c1 {
                blank_cell()
            } else {
                row@[k]
            }),
    {
        if c0 <= i && i < c1 {
            r.push(Cell::default());
        } else {
            r.push(row[i]);
        }
    }
    proof {
        assert(r@ =~= row_blanked_range(row@, c0 as int, c1 as int));
    }
    r
}

// ---- Laws ----

/// Resizing to any dimensions of at least one column and one row makes
/// those exactly the grid dimensions, and the emulator stays well formed.
pub proof fn lemma_resize_dimensions(m: EmuModel, cols: int, rows: int)
    requires
        emu_wf(m),
        1 <= cols,
        1 <= rows,
    ensures
        emu_resize(m, cols, rows).cols == cols,
        emu_resize(m, cols, rows).rows == rows,
        grid_wf(emu_resize(m, cols, rows).grid, cols, rows),
        emu_wf(emu_resize(m, cols, rows)),
{
}

/// Feeding the full reset sequence returns the emulator to a fresh state
/// at its current dimensions, whatever state it was in: the grid is blank,
/// and the scrollback, the alternate screen and the saved cursor are all
/// cleared.
#[verifier::rlimit(50)]
pub proof fn lemma_full_reset(m: EmuModel)
    requires
        emu_wf(m),
    ensures
        emu_process(m, seq![0x1Bu8, 0x63u8]) == emu_init(m.cols, m.rows),
{
    let s = seq![0x1Bu8, 0x63u8];
    let m0 = EmuModel { scroll_offset: 0, ..m };
    assert(s[0] == 0x1Bu8);
    let m1 = emu_byte(m0, 0x1B);
    assert(m1 == (EmuModel { parser: (ParserM { state: PState::Escape, ..m0.parser }), ..m0 }));
    assert(s.skip(1) =~= seq![0x63u8]);
    assert(s.skip(1)[0] == 0x63u8);
    let m2 = emu_byte(m1, 0x63);
    assert(m2 == emu_init(m.cols, m.rows));
    assert(s.skip(1).skip(1) =~= Seq::<u8>::empty());
    assert(emu_feed_bytes(m2, s.skip(1).skip(1)) == m2);
    assert(emu_process(m, s) == emu_feed_bytes(m0, s));
    assert(emu_feed_bytes(m0, s) == emu_feed_bytes(m1, s.skip(1)));
    assert(emu_feed_bytes(m1, s.skip(1)) == emu_feed_bytes(m2, s.skip(1).skip(1)));
}

/// Fold a sequence of parser actions over the emulator, front to back.
pub open spec fn apply_actions(m: EmuModel, acts: Seq<PerformS>) -> EmuModel
    decreases acts.len(),
{
    if acts.len() == 0 {
        m
    } else {
        apply_actions(emu_apply(m, acts[0]), acts.skip(1))
    }
}

/// Whether an action can leave the alternate screen or discard it: only a
/// full reset or a private mode reset naming one of the alternate-screen
/// modes can.
pub open spec fn preserves_alt(a: PerformS) -> bool {
    match a {
        PerformS::Esc(b) => b != 0x63,
        PerformS::Csi(ps, q, f) => !(f == 0x6C && q && exists|i: int|
            0 <= i < ps.len() && (ps[i] == 47 || ps[i] == 1047 || ps[i] == 1049)),
        _ => true,
    }
}

/// The fields an edit inside the alternate screen cannot touch: the saved
/// primary grid and cursor, and the dimensions.
pub open spec fn same_alt(m1: EmuModel, m2: EmuModel) -> bool {
    &&& m2.alt_grid == m1.alt_grid
    &&& m2.alt_cursor == m1.alt_cursor
    &&& m2.cols == m1.cols
    &&& m2.rows == m1.rows
}

proof fn lemma_repeat_same_alt(m: EmuModel, n: int, f: spec_fn(EmuModel) -> EmuModel)
    requires
        forall|mm: EmuModel| same_alt(mm, #[trigger] f(mm)),
    ensures
        same_alt(m, emu_repeat(m, n, f)),
    decreases n,
{
    if n > 0 {
        lemma_repeat_same_alt(m, n - 1, f);
    }
}

proof fn lemma_modes_same_alt(m: EmuModel, ps: Seq<u16>, i: int, set: bool)
    requires
        m.alt_grid is Some,
        !set ==> forall|k: int| 0 <= k < ps.len() ==> ps[k] != 47 && ps[k] != 1047 && ps[k]
            != 1049,
    ensures
        same_alt(m, emu_modes(m, ps, i, set)),
        emu_modes(m, ps, i, set).alt_grid is Some,
    decreases ps.len() - i,
{
    if 0 <= i < ps.len() {
        if set {
            lemma_modes_same_alt(emu_set_mode(m, ps[i]), ps, i + 1, set);
        } else {
            lemma_modes_same_alt(emu_reset_mode(m, ps[i]), ps, i + 1, set);
        }
    }
}

/// One alternate-screen-preserving action keeps the saved primary screen,
/// the saved cursor and the dimensions intact.
proof fn lemma_apply_same_alt(m: EmuModel, a: PerformS)
    requires
        m.alt_grid is Some,
        preserves_alt(a),
    ensures
        same_alt(m, emu_apply(m, a)),
        emu_apply(m, a).alt_grid is Some,
{
    match a {
        PerformS::Print(c) => {},
        PerformS::Execute(b) => {},
        PerformS::Esc(b) => {},
        PerformS::Csi(ps, q, f) => {
            if f == 0x4C {
                lemma_repeat_same_alt(m, param_or_one(ps, 0), |mm: EmuModel| emu_insert_line_once(mm));
            } else if f == 0x4D {
                lemma_repeat_same_alt(m, param_or_one(ps, 0), |mm: EmuModel| emu_delete_line_once(mm));
            } else if f == 0x50 {
                lemma_repeat_same_alt(
                    m,
                    vstd::math::min(param_or_one(ps, 0), m.cols - m.cursor_col),
                    |mm: EmuModel| emu_delete_char_once(mm),
                );
            } else if f == 0x40 {
                lemma_repeat_same_alt(m, param_or_one(ps, 0), |mm: EmuModel| emu_insert_char_once(mm));
            } else if f == 0x53 {
                lemma_repeat_same_alt(m, param_or_one(ps, 0), |mm: EmuModel| emu_scroll_up(mm));
            } else if f == 0x54 && !q {
                lemma_repeat_same_alt(m, param_or_one(ps, 0), |mm: EmuModel| emu_scroll_down(mm));
            } else if f == 0x68 {
                if q {
                    lemma_modes_same_alt(m, ps, 0, true);
                }
            } else if f == 0x6C {
                if q {
                    assert(forall|k: int| 0 <= k < ps.len() ==> ps[k] != 47 && ps[k] != 1047
                        && ps[k] != 1049);
                    lemma_modes_same_alt(m, ps, 0, false);
                }
            }
        },
    }
}

proof fn lemma_actions_same_alt(m: EmuModel, acts: Seq<PerformS>)
    requires
        m.alt_grid is Some,
        forall|i: int| 0 <= i < acts.len() ==> preserves_alt(#[trigger] acts[i]),
    ensures
        same_alt(m, apply_actions(m, acts)),
        apply_actions(m, acts).alt_grid is Some,
    decreases acts.len(),
{
    if acts.len() > 0 {
        lemma_apply_same_alt(m, acts[0]);
        lemma_actions_same_alt(emu_apply(m, acts[0]), acts.skip(1));
    }
}

/// Entering the alternate screen, performing any sequence of edits that
/// stays on it, and exiting restores the exact primary-screen content and
/// cursor position from before entry.
pub proof fn lemma_alt_screen_round_trip(m: EmuModel, acts: Seq<PerformS>)
    requires
        emu_wf(m),
        m.alt_grid is None,
        forall|i: int| 0 <= i < acts.len() ==> preserves_alt(#[trigger] acts[i]),
    ensures
        emu_exit_alt(apply_actions(emu_enter_alt(m), acts)).grid == m.grid,
        emu_exit_alt(apply_actions(emu_enter_alt(m), acts)).cursor_row == m.cursor_row,
        emu_exit_alt(apply_actions(emu_enter_alt(m), acts)).cursor_col == m.cursor_col,
        emu_exit_alt(apply_actions(emu_enter_alt(m), acts)).alt_grid is None,
{
    let entered = emu_enter_alt(m);
    lemma_actions_same_alt(entered, acts);
    let edited = apply_actions(entered, acts);
    assert(edited.alt_grid == Some(m.grid));
    assert(edited.alt_cursor == Some((m.cursor_row, m.cursor_col)));
    assert(vstd::math::min(m.cursor_row, edited.rows - 1) == m.cursor_row);
    assert(vstd::math::min(m.cursor_col, edited.cols - 1) == m.cursor_col);
}

/// Whether every byte is a printable character in the plain range.
pub open spec fn all_printable(bytes: Seq<u8>) -> bool {
    forall|i: int| 0 <= i < bytes.len() ==> 0x20 <= #[trigger] bytes[i] <= 0x7E
}

/// The deferred-wrap law: with auto-wrap enabled and the cursor at the
/// start of a row, feeding exactly one full row of printable characters
/// leaves the cursor on that same row with the wrap pending — no blank
/// trailing line appears, the rows below and the scrollback are untouched.
/// Only the next printable character performs the wrap.
pub proof fn lemma_deferred_wrap(m: EmuModel, bytes: Seq<u8>)
    requires
        emu_wf(m),
        m.parser.state == PState::Ground,
        m.auto_wrap,
        !m.wrap_next,
        m.cursor_col == 0,
        bytes.len() == m.cols,
        all_printable(bytes),
    ensures
        emu_feed_bytes(m, bytes).cursor_row == m.cursor_row,
        emu_feed_bytes(m, bytes).cursor_col == m.cols - 1,
        emu_feed_bytes(m, bytes).wrap_next,
        emu_feed_bytes(m, bytes).scrollback == m.scrollback,
        forall|r: int| 0 <= r < m.rows && r != m.cursor_row ==> emu_feed_bytes(m, bytes).grid[r]
            == m.grid[r],
{
    lemma_feed_row_prefix(m, bytes, 0);
}

proof fn lemma_feed_row_prefix(m: EmuModel, bytes: Seq<u8>, k: int)
    requires
        emu_wf(m),
        m.parser.state == PState::Ground,
        m.auto_wrap,
        !m.wrap_next,
        0 <= k < m.cols,
        m.cursor_col == k,
        bytes.len() == m.cols - k,
        all_printable(bytes),
    ensures
        emu_feed_bytes(m, bytes).cursor_row == m.cursor_row,
        emu_feed_bytes(m, bytes).cursor_col == m.cols - 1,
        emu_feed_bytes(m, bytes).wrap_next,
        emu_feed_bytes(m, bytes).scrollback == m.scrollback,
        emu_feed_bytes(m, bytes).rows == m.rows,
        forall|r: int| 0 <= r < m.rows && r != m.cursor_row ==> emu_feed_bytes(m, bytes).grid[r]
            == m.grid[r],
    decreases bytes.len(),
{
    let b0 = bytes[0];
    assert(0x20 <= b0 <= 0x7E);
    let m1 = emu_byte(m, b0);
    assert(m1 == emu_put_char(m, b0 as char));
    assert(m1.grid == m.grid.update(
        m.cursor_row,
        m.grid[m.cursor_row].update(k, Cell { c: b0 as char, attr: m.current_attr }),
    ));
    assert(m1.grid.len() == m.rows);
    assert(grid_wf(m1.grid, m.cols, m.rows)) by {
        assert(forall|r: int| 0 <= r < m.rows ==> (#[trigger] m1.grid[r]).len() == m.cols);
    }
    assert(emu_wf(m1));
    assert(emu_feed_bytes(m, bytes) == emu_feed_bytes(m1, bytes.skip(1)));
    if k < m.cols - 1 {
        assert(m1.cursor_col == k + 1);
        assert(!m1.wrap_next);
        lemma_feed_row_prefix(m1, bytes.skip(1), k + 1);
        assert forall|r: int| 0 <= r < m.rows && r != m.cursor_row implies emu_feed_bytes(
            m,
            bytes,
        ).grid[r] == m.grid[r] by {
            assert(emu_feed_bytes(m1, bytes.skip(1)).grid[r] == m1.grid[r]);
            assert(m1.grid[r] == m.grid[r]);
        }
    } else {
        assert(k == m.cols - 1);
        assert(m1.wrap_next);
        assert(bytes.skip(1).len() == 0);
        assert(emu_feed_bytes(m1, bytes.skip(1)) == m1);
        assert forall|r: int| 0 <= r < m.rows && r != m.cursor_row implies emu_feed_bytes(
            m,
            bytes,
        ).grid[r] == m.grid[r] by {
            assert(m1.grid[r] == m.grid[r]);
        }
    }
}

/// Printing a full row defers the wrap; the very next printable character
/// performs it, moving to the next row inside the scroll region.
pub proof fn lemma_wrap_on_next_char(m: EmuModel, c: char)
    requires
        emu_wf(m),
        m.wrap_next,
        m.cursor_row < m.scroll_bottom,
    ensures
        emu_put_char(m, c).cursor_row == m.cursor_row + 1,
        emu_put_char(m, c).grid[m.cursor_row + 1][0] == (Cell { c: c, attr: m.current_attr }),
{
}

/// Selecting the indexed foreground color `38;5;N` sets exactly that
/// foreground and changes nothing else of the attributes; a character
/// printed right after carries it.
pub proof fn lemma_sgr_indexed_foreground(m: EmuModel, n: u16, c: char)
    requires
        emu_wf(m),
        n <= 255,
        !m.wrap_next,
    ensures
        emu_sgr(m, seq![38u16, 5u16, n]).current_attr == (CellAttr {
            fg: TermColor::Indexed(n as u8),
            ..m.current_attr
        }),
        emu_put_char(emu_sgr(m, seq![38u16, 5u16, n]), c).grid[m.cursor_row][m.cursor_col]
            == (Cell { c: c, attr: CellAttr { fg: TermColor::Indexed(n as u8), ..m.current_attr } }),
{
    let ps = seq![38u16, 5u16, n];
    assert(ps.len() == 3 && ps[0] == 38 && ps[1] == 5 && ps[2] == n);
    assert(n % 256 == n);
    reveal_with_fuel(apply_sgr, 3);
    reveal_with_fuel(sgr_extended_color, 2);
}

/// Where a bare `0` parameter is reached, everything set before it is
/// forgotten: the attributes after the whole list are the same whatever
/// attributes the list started from.
pub open spec fn sgr_reaches(ps: Seq<u16>, from: int, to: int) -> bool
    decreases ps.len() - from + 1,
{
    if from == to {
        true
    } else if from < 0 || from >= ps.len() {
        false
    } else {
        let p = ps[from];
        if p == 38 || p == 48 {
            if from + 1 >= ps.len() {
                false
            } else if ps[from + 1] == 5 {
                if from + 2 < ps.len() {
                    sgr_reaches(ps, from + 3, to)
                } else {
                    false
                }
            } else if ps[from + 1] == 2 {
                if from + 4 < ps.len() {
                    sgr_reaches(ps, from + 5, to)
                } else {
                    sgr_reaches(ps, from + 2, to)
                }
            } else {
                sgr_reaches(ps, from + 2, to)
            }
        } else {
            sgr_reaches(ps, from + 1, to)
        }
    }
}

/// A reset parameter that the list reaches makes the outcome independent
/// of the attributes the rendition started from.
pub proof fn lemma_sgr_zero_resets(a1: CellAttr, a2: CellAttr, ps: Seq<u16>, i: int)
    requires
        0 <= i < ps.len(),
        ps[i] == 0,
        sgr_reaches(ps, 0, i),
    ensures
        apply_sgr(a1, ps, 0) == apply_sgr(a2, ps, 0),
{
    lemma_sgr_zero_resets_from(a1, a2, ps, 0, i);
}

proof fn lemma_sgr_zero_resets_from(a1: CellAttr, a2: CellAttr, ps: Seq<u16>, j: int, i: int)
    requires
        0 <= j,
        0 <= i < ps.len(),
        ps[i] == 0,
        sgr_reaches(ps, j, i),
    ensures
        apply_sgr(a1, ps, j) == apply_sgr(a2, ps, j),
    decreases ps.len() - j + 1,
{
    reveal_with_fuel(apply_sgr, 2);
    reveal_with_fuel(sgr_extended_color, 2);
    if j == i {
        assert(apply_sgr(a1, ps, j) == apply_sgr(default_attr(), ps, j + 1));
        assert(apply_sgr(a2, ps, j) == apply_sgr(default_attr(), ps, j + 1));
    } else {
        let p = ps[j];
        if p == 38 || p == 48 {
            if ps[j + 1] == 5 {
                let c1 = TermColor::Indexed((ps[j + 2] % 256) as u8);
                lemma_sgr_zero_resets_from(
                    if p == 38 {
                        CellAttr { fg: c1, ..a1 }
                    } else {
                        CellAttr { bg: c1, ..a1 }
                    },
                    if p == 38 {
                        CellAttr { fg: c1, ..a2 }
                    } else {
                        CellAttr { bg: c1, ..a2 }
                    },
                    ps,
                    j + 3,
                    i,
                );
            } else if ps[j + 1] == 2 {
                if j + 4 < ps.len() {
                    let r = (ps[j + 2] % 256) as u8;
                    let g = (ps[j + 3] % 256) as u8;
                    let b = (ps[j + 4] % 256) as u8;
                    let cc = TermColor::Rgb(r, g, b);
                    lemma_sgr_zero_resets_from(
                        if p == 38 {
                            CellAttr { fg: cc, ..a1 }
                        } else {
                            CellAttr { bg: cc, ..a1 }
                        },
                        if p == 38 {
                            CellAttr { fg: cc, ..a2 }
                        } else {
                            CellAttr { bg: cc, ..a2 }
                        },
                        ps,
                        j + 5,
                        i,
                    );
                } else {
                    lemma_sgr_zero_resets_from(a1, a2, ps, j + 2, i);
                }
            } else {
                lemma_sgr_zero_resets_from(a1, a2, ps, j + 2, i);
            }
        } else {
            lemma_sgr_zero_resets_from(
                apply_sgr_one_step(a1, p),
                apply_sgr_one_step(a2, p),
                ps,
                j + 1,
                i,
            );
        }
    }
}

/// The attribute change of one simple rendition parameter.
pub open spec fn apply_sgr_one_step(attr: CellAttr, p: u16) -> CellAttr {
    if p == 0 {
        default_attr()
    } else if p == 1 {
        CellAttr { bold: true, ..attr }
    } else if p == 3 {
        CellAttr { italic: true, ..attr }
    } else if p == 4 {
        CellAttr { underline: true, ..attr }
    } else if p == 7 {
        CellAttr { inverse: true, ..attr }
    } else if p == 21 || p == 22 {
        CellAttr { bold: false, ..attr }
    } else if p == 23 {
        CellAttr { italic: false, ..attr }
    } else if p == 24 {
        CellAttr { underline: false, ..attr }
    } else if p == 27 {
        CellAttr { inverse: false, ..attr }
    } else if 30 <= p <= 37 {
        CellAttr { fg: TermColor::Indexed((p - 30) as u8), ..attr }
    } else if p == 39 {
        CellAttr { fg: TermColor::Default, ..attr }
    } else if 40 <= p <= 47 {
        CellAttr { bg: TermColor::Indexed((p - 40) as u8), ..attr }
    } else if p == 49 {
        CellAttr { bg: TermColor::Default, ..attr }
    } else if 90 <= p <= 97 {
        CellAttr { fg: TermColor::Indexed((p - 90 + 8) as u8), ..attr }
    } else if 100 <= p <= 107 {
        CellAttr { bg: TermColor::Indexed((p - 100 + 8) as u8), ..attr }
    } else {
        attr
    }
}

} // verus!
