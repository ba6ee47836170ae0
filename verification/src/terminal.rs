//! The editor core: document and line buffer, cursor motion, the mode state
//! machine, the command processor, viewport scrolling and the full-frame
//! renderer.
//!
//! A [`Terminal`] owns the whole editor state. Key events come in through
//! [`Terminal::handle_input`], which returns the outside work the embedding
//! program must perform — saving a file or quitting — as an [`Action`];
//! the embedding program reports a save back through
//! [`Terminal::save_finished`]. A frame is composed by
//! [`Terminal::refresh_screen`] into `term_buf`, which the embedding program
//! writes to its display.

use vstd::prelude::*;

use crate::input::Input;
use crate::input::Keys;
use crate::markdown::find1;
use crate::markdown::find_ws;
use crate::markdown::lemma_find1_absent;
use crate::markdown::lemma_find1_bounds;
use crate::markdown::lemma_find1_first;
use crate::markdown::lemma_find_ws_absent;
use crate::markdown::lemma_find_ws_bounds;
use crate::markdown::lemma_find_ws_first;
use crate::markdown::spec_render;
use crate::text::is_space;

verus! {

/// The interpretation context for key events.
#[derive(Clone, Copy, PartialEq, Eq, Structural, Debug)]
pub enum Mode {
    Normal,
    Insert,
    Command,
}

/// The cursor position: `row` indexes the document's lines, `col` a
/// code-unit offset into the addressed line's raw text.
#[derive(Clone, Copy, PartialEq, Eq, Structural, Debug)]
pub struct Cursor {
    pub row: usize,
    pub col: usize,
}

/// One document line: its raw text and its render cache, which always holds
/// the highlight transform of the tab-expanded raw text.
pub struct Line {
    pub raw: Vec<char>,
    pub render: Vec<char>,
}

/// Outside work that a processed key event asks of the embedding program:
/// write `contents` to the file `path`, or shut down and exit.
pub enum Action {
    Continue,
    Save(String, String),
    Quit,
}

/// The whole editor state.
pub struct Terminal {
    /// The frame being composed for the display.
    pub term_buf: Vec<char>,
    /// Columns and visible text rows of the window; two terminal rows are
    /// reserved for the status and message bars.
    pub size: (u16, u16),
    pub cursor: Cursor,
    pub input: Input,
    /// Always equal to `rows.len()`; the empty document has zero lines.
    pub num_rows: usize,
    pub rows: Vec<Line>,
    pub rowoffset: usize,
    pub coloffset: usize,
    pub filename: Option<Vec<char>>,
    /// The message-bar text; holds the in-progress command while in Command
    /// mode.
    pub status: Vec<char>,
    pub mode: Mode,
    /// Count of unsaved mutations since the last successful save.
    pub dirty: u32,
}

impl Terminal {
    /// The raw text of the document, line by line.
    pub open spec fn doc(self) -> Seq<Seq<char>> {
        self.rows@.map_values(|l: Line| l.raw@)
    }

    /// The raw text of line `i`.
    pub open spec fn line(self, i: int) -> Seq<char> {
        self.rows@[i].raw@
    }

    /// The length of line `i`'s raw text.
    pub open spec fn line_len(self, i: int) -> int {
        self.rows@[i].raw@.len() as int
    }

    /// The line buffer is consistent: the row count tracks the lines, and
    /// every render cache holds the transform of its raw text.
    pub open spec fn doc_wf(self) -> bool {
        &&& self.num_rows == self.rows@.len()
        &&& forall|i: int|
            0 <= i < self.rows@.len() ==> (#[trigger] self.rows@[i]).render@ == spec_render(
                self.rows@[i].raw@,
            )
    }

    /// The window has at least one column and one visible text row.
    pub open spec fn size_ok(self) -> bool {
        self.size.0 >= 1 && self.size.1 >= 1
    }

    /// The cursor's row addresses a line (or rests at the origin of an
    /// empty document).
    pub open spec fn row_ok(self) -> bool {
        if self.num_rows == 0 {
            self.cursor.row == 0 && self.cursor.col == 0
        } else {
            self.cursor.row < self.num_rows
        }
    }

    /// The cursor addresses a line and a column within it.
    pub open spec fn cursor_ok(self) -> bool {
        &&& self.row_ok()
        &&& self.num_rows > 0 ==> self.cursor.col <= self.line_len(self.cursor.row as int)
    }

    /// The editor invariant: consistent buffer, usable window, valid
    /// cursor, and Insert mode always has an addressable line.
    pub open spec fn wf(self) -> bool {
        &&& self.doc_wf()
        &&& self.size_ok()
        &&& self.cursor_ok()
        &&& self.mode == Mode::Insert ==> self.num_rows >= 1
    }

    /// The cursor lies inside the visible window.
    pub open spec fn viewport_ok(self) -> bool {
        &&& self.rowoffset <= self.cursor.row < self.rowoffset + self.size.1
        &&& self.coloffset <= self.cursor.col < self.coloffset + self.size.0
    }

    /// `b` holds the same document as `a`.
    pub open spec fn same_document(a: Terminal, b: Terminal) -> bool {
        a.rows == b.rows && a.num_rows == b.num_rows
    }

    /// `b` holds the same cursor as `a`.
    pub open spec fn same_cursor(a: Terminal, b: Terminal) -> bool {
        a.cursor == b.cursor
    }

    /// `b` holds the same window size and scroll offsets as `a`.
    pub open spec fn same_viewport(a: Terminal, b: Terminal) -> bool {
        a.size == b.size && a.rowoffset == b.rowoffset && a.coloffset == b.coloffset
    }

    /// `b` holds the same filename and save state as `a`.
    pub open spec fn same_file_state(a: Terminal, b: Terminal) -> bool {
        a.filename == b.filename && a.dirty == b.dirty
    }

    /// `b` holds the same mode and message-bar text as `a`.
    pub open spec fn same_mode_line(a: Terminal, b: Terminal) -> bool {
        a.mode == b.mode && a.status == b.status
    }

    /// `b` holds the same composed frame as `a`.
    pub open spec fn same_frame(a: Terminal, b: Terminal) -> bool {
        a.term_buf == b.term_buf
    }

    /// A fresh editor for a window of `cols` columns and `rows` rows, two
    /// of which are reserved for the status and message bars: an empty
    /// document, the cursor at the origin, Normal mode, and the greeting on
    /// the message bar.
    pub fn new(cols: u16, rows: u16) -> (t: Terminal)
        requires
            cols >= 1,
            rows >= 3,
        ensures
            t.wf(),
            t.rows@.len() == 0,
            t.num_rows == 0,
            t.cursor == (Cursor { row: 0, col: 0 }),
            t.rowoffset == 0,
            t.coloffset == 0,
            t.size.0 == cols,
            t.size.1 == rows - 2,
            t.mode == Mode::Normal,
            t.dirty == 0,
            t.filename is None,
            t.status@ == ":help Ctrl+Q to quit"@,
            t.term_buf@ == Seq::<char>::empty(),
    {
        let t = Terminal {
            term_buf: Vec::new(),
            size: (cols, rows - 2),
            cursor: Cursor { row: 0, col: 0 },
            input: Input {  },
            num_rows: 0,
            rows: Vec::new(),
            rowoffset: 0,
            coloffset: 0,
            filename: None,
            status: crate::text::str_to_chars(":help Ctrl+Q to quit"),
            mode: Mode::Normal,
            dirty: 0,
        };
        assert(t.doc() =~= Seq::<Seq<char>>::empty());
        t
    }

    /// Opens an empty document: no lines, no filename, everything back at
    /// its initial state. The single blank row the display shows for it is
    /// synthesized by the renderer, not stored.
    pub fn open_empty_editor(&mut self)
        requires
            old(self).size_ok(),
        ensures
            final(self).wf(),
            final(self).rows@.len() == 0,
            final(self).num_rows == 0,
            final(self).filename is None,
            final(self).cursor == (Cursor { row: 0, col: 0 }),
            final(self).rowoffset == 0,
            final(self).coloffset == 0,
            final(self).mode == Mode::Normal,
            final(self).dirty == 0,
            final(self).size == old(self).size,
            final(self).status == old(self).status,
            final(self).term_buf == old(self).term_buf,
    {
        self.rows = Vec::new();
        self.num_rows = 0;
        self.filename = None;
        self.cursor = Cursor { row: 0, col: 0 };
        self.rowoffset = 0;
        self.coloffset = 0;
        self.mode = Mode::Normal;
        self.dirty = 0;
    }

    /// Appends one raw line, with its render cache computed.
    fn push_raw_line(&mut self, raw: Vec<char>)
        requires
            old(self).doc_wf(),
        ensures
            final(self).doc_wf(),
            final(self).doc() == old(self).doc().push(raw@),
            final(self).num_rows == old(self).num_rows + 1,
            Terminal::same_cursor(*old(self), *final(self)),
            Terminal::same_viewport(*old(self), *final(self)),
            Terminal::same_file_state(*old(self), *final(self)),
            Terminal::same_mode_line(*old(self), *final(self)),
            Terminal::same_frame(*old(self), *final(self)),
    {
        let render = crate::markdown::render_line(&raw);
        let ghost raw_view = raw@;
        self.rows.push(Line { raw, render });
        self.num_rows = self.rows.len();
        assert(final(self).doc() =~= old(self).doc().push(raw_view));
    }

    /// Appends one raw line given as a `String`, recomputing its render
    /// cache.
    pub fn append_line(&mut self, row: String)
        requires
            old(self).doc_wf(),
        ensures
            final(self).doc_wf(),
            final(self).doc() == old(self).doc().push(row@),
            final(self).num_rows == old(self).num_rows + 1,
            Terminal::same_cursor(*old(self), *final(self)),
            Terminal::same_viewport(*old(self), *final(self)),
            Terminal::same_file_state(*old(self), *final(self)),
            Terminal::same_mode_line(*old(self), *final(self)),
            Terminal::same_frame(*old(self), *final(self)),
    {
        let raw = crate::text::str_to_chars(row.as_str());
        self.push_raw_line(raw);
    }

    /// Recomputes the render cache of line `idx` from its raw text. Called
    /// after every mutation of that line; no other line is rescanned.
    pub fn update_line(&mut self, idx: usize)
        requires
            idx < old(self).rows@.len(),
        ensures
            final(self).rows@.len() == old(self).rows@.len(),
            final(self).rows@[idx as int].raw == old(self).rows@[idx as int].raw,
            final(self).rows@[idx as int].render@ == spec_render(old(self).rows@[idx as int].raw@),
            forall|i: int|
                0 <= i < old(self).rows@.len() && i != idx ==> final(self).rows@[i] == old(
                    self,
                ).rows@[i],
            final(self).num_rows == old(self).num_rows,
            final(self).doc() == old(self).doc(),
            Terminal::same_cursor(*old(self), *final(self)),
            Terminal::same_viewport(*old(self), *final(self)),
            Terminal::same_file_state(*old(self), *final(self)),
            Terminal::same_mode_line(*old(self), *final(self)),
            Terminal::same_frame(*old(self), *final(self)),
    {
        let render = crate::markdown::render_line(&self.rows[idx].raw);
        self.rows[idx].render = render;
        assert(final(self).doc() =~= old(self).doc());
    }

    /// The document serialized for saving: the raw lines joined by single
    /// newline separators, with no trailing newline.
    pub fn convert_rows_to_str(&self) -> (r: String)
        ensures
            r@ == spec_join(self.doc()),
    {
        let n = self.rows.len();
        let mut out: Vec<char> = Vec::new();
        let mut i: usize = 0;
        while i < n
            invariant
                i <= n,
                n == self.rows@.len(),
                out@ == spec_join(self.doc().subrange(0, i as int)),
            decreases n - i,
        {
            if i > 0 {
                out.push('\n');
            }
            crate::text::push_range(&mut out, &self.rows[i].raw, 0, self.rows[i].raw.len());
            proof {
                let pre = self.doc().subrange(0, i as int);
                let cur = self.doc()[i as int];
                assert(self.rows@[i as int].raw@.subrange(
                    0,
                    self.rows@[i as int].raw@.len() as int,
                ) =~= cur);
                lemma_join_push(pre, cur);
                assert(self.doc().subrange(0, i + 1) =~= pre.push(cur));
            }
            i = i + 1;
        }
        assert(self.doc().subrange(0, n as int) =~= self.doc());
        crate::text::chars_to_string(&out)
    }
}

/// Where a single cursor step lands, from position `(row, col)` on document
/// `doc`, per the motion rules: left wraps to the previous line's end,
/// right wraps to the next line's start, vertical motion keeps the column,
/// and afterwards the column is clamped to the length of the line the
/// cursor stands on.
pub open spec fn step_cursor(doc: Seq<Seq<char>>, row: int, col: int, key: Keys) -> (int, int) {
    let n = doc.len() as int;
    let moved: (int, int) = match key {
        Keys::Left => if col != 0 {
            (row, col - 1)
        } else if row > 0 {
            (row - 1, doc[row - 1].len() as int)
        } else {
            (row, col)
        },
        Keys::Down => if row + 1 < n {
            (row + 1, col)
        } else {
            (row, col)
        },
        Keys::Up => if row != 0 {
            (row - 1, col)
        } else {
            (row, col)
        },
        Keys::Right => if row < n {
            if col < doc[row].len() {
                (row, col + 1)
            } else if col == doc[row].len() && row < n - 1 {
                (row + 1, 0)
            } else {
                (row, col)
            }
        } else {
            (row, col)
        },
        _ => (row, col),
    };
    if n == 0 {
        (0, 0)
    } else if moved.1 > doc[moved.0].len() {
        (moved.0, doc[moved.0].len() as int)
    } else {
        moved
    }
}

/// `count` cursor steps for the same key, one after the other.
pub open spec fn step_cursor_n(doc: Seq<Seq<char>>, row: int, col: int, key: Keys, count: nat) -> (
    int,
    int,
)
    decreases count,
{
    if count == 0 {
        (row, col)
    } else {
        let s = step_cursor(doc, row, col, key);
        step_cursor_n(doc, s.0, s.1, key, (count - 1) as nat)
    }
}

/// Unrolling the repeated cursor step from the back: one more step lands
/// where a single step from the previous landing place lands.
proof fn lemma_step_cursor_n_snoc(doc: Seq<Seq<char>>, row: int, col: int, key: Keys, count: nat)
    ensures
        step_cursor_n(doc, row, col, key, count + 1) == step_cursor(
            doc,
            step_cursor_n(doc, row, col, key, count).0,
            step_cursor_n(doc, row, col, key, count).1,
            key,
        ),
    decreases count,
{
    let s = step_cursor(doc, row, col, key);
    assert(step_cursor_n(doc, row, col, key, count + 1) == step_cursor_n(doc, s.0, s.1, key, count));
    if count == 0 {
        assert(step_cursor_n(doc, s.0, s.1, key, 0) == s);
        assert(step_cursor_n(doc, row, col, key, 0) == (row, col));
    } else {
        lemma_step_cursor_n_snoc(doc, s.0, s.1, key, (count - 1) as nat);
        assert(step_cursor_n(doc, row, col, key, count) == step_cursor_n(
            doc,
            s.0,
            s.1,
            key,
            (count - 1) as nat,
        ));
    }
}

impl Terminal {
    /// Loads a document from its serialized text: replaces all lines with
    /// their render caches recomputed, sets the filename, and puts the
    /// editor back at its initial position with no unsaved changes.
    pub fn open_editor(&mut self, filename: String, text: &str)
        requires
            old(self).size_ok(),
        ensures
            final(self).wf(),
            final(self).doc() == spec_split(text@),
            final(self).filename matches Some(f) && f@ == filename@,
            final(self).cursor == (Cursor { row: 0, col: 0 }),
            final(self).rowoffset == 0,
            final(self).coloffset == 0,
            final(self).mode == Mode::Normal,
            final(self).dirty == 0,
            final(self).size == old(self).size,
            final(self).status == old(self).status,
            final(self).term_buf == old(self).term_buf,
    {
        self.open_empty_editor();
        let ghost base = *self;
        let chars = crate::text::str_to_chars(text);
        let lines = split_text(&chars);
        let m = lines.len();
        let mut j: usize = 0;
        assert(self.doc() =~= views_of(lines@).subrange(0, 0));
        while j < m
            invariant
                j <= m,
                m == lines@.len(),
                self.doc_wf(),
                views_of(lines@) == spec_split(text@),
                self.doc() == views_of(lines@).subrange(0, j as int),
                Terminal::same_cursor(base, *self),
                Terminal::same_viewport(base, *self),
                Terminal::same_file_state(base, *self),
                Terminal::same_mode_line(base, *self),
                Terminal::same_frame(base, *self),
                base.cursor == (Cursor { row: 0, col: 0 }),
                base.rowoffset == 0,
                base.coloffset == 0,
                base.mode == Mode::Normal,
                base.dirty == 0,
                base.filename is None,
                base.size == old(self).size,
                base.status == old(self).status,
                base.term_buf == old(self).term_buf,
                base.size_ok(),
            decreases m - j,
        {
            let raw = crate::text::copy_chars(&lines[j]);
            self.push_raw_line(raw);
            proof {
                assert(self.doc() =~= views_of(lines@).subrange(0, j + 1));
            }
            j = j + 1;
        }
        assert(views_of(lines@).subrange(0, m as int) =~= views_of(lines@));
        self.filename = Some(crate::text::str_to_chars(filename.as_str()));
    }

    /// One cursor motion step. Only the cursor changes, it lands within
    /// bounds, and where it lands is given exactly by `spec_step_cursor`.
    pub fn move_cursor(&mut self, key: Keys)
        requires
            old(self).doc_wf(),
            old(self).row_ok(),
        ensures
            final(self).doc_wf(),
            final(self).cursor_ok(),
            (final(self).cursor.row as int, final(self).cursor.col as int) == step_cursor(
                old(self).doc(),
                old(self).cursor.row as int,
                old(self).cursor.col as int,
                key,
            ),
            Terminal::same_document(*old(self), *final(self)),
            Terminal::same_viewport(*old(self), *final(self)),
            Terminal::same_file_state(*old(self), *final(self)),
            Terminal::same_mode_line(*old(self), *final(self)),
            Terminal::same_frame(*old(self), *final(self)),
    {
        let n = self.num_rows;
        match key {
            Keys::Left => {
                if self.cursor.col != 0 {
                    self.cursor.col = self.cursor.col - 1;
                } else if self.cursor.row > 0 {
                    self.cursor.row = self.cursor.row - 1;
                    self.cursor.col = self.rows[self.cursor.row].raw.len();
                }
            },
            Keys::Down => {
                if self.cursor.row < n && n - self.cursor.row > 1 {
                    self.cursor.row = self.cursor.row + 1;
                }
            },
            Keys::Up => {
                if self.cursor.row != 0 {
                    self.cursor.row = self.cursor.row - 1;
                }
            },
            Keys::Right => {
                if self.cursor.row < n {
                    let len = self.rows[self.cursor.row].raw.len();
                    if self.cursor.col < len {
                        self.cursor.col = self.cursor.col + 1;
                    } else if self.cursor.col == len && n - self.cursor.row > 1 {
                        self.cursor.row = self.cursor.row + 1;
                        self.cursor.col = 0;
                    }
                }
            },
            _ => {},
        }
        if n > 0 {
            let len = self.rows[self.cursor.row].raw.len();
            if self.cursor.col > len {
                self.cursor.col = len;
            }
        }
    }

    /// The row offset after a scroll recompute: it snaps up to the cursor,
    /// or down to keep the cursor on the last visible row, and otherwise
    /// stays — minimal-jump scrolling.
    pub open spec fn spec_scrolled_row_offset(self) -> int {
        if self.cursor.row < self.rowoffset {
            self.cursor.row as int
        } else if self.cursor.row >= self.rowoffset + self.size.1 {
            self.cursor.row - self.size.1 + 1
        } else {
            self.rowoffset as int
        }
    }

    /// The column offset after a scroll recompute, by the same rule.
    pub open spec fn spec_scrolled_col_offset(self) -> int {
        if self.cursor.col < self.coloffset {
            self.cursor.col as int
        } else if self.cursor.col >= self.coloffset + self.size.0 {
            self.cursor.col - self.size.0 + 1
        } else {
            self.coloffset as int
        }
    }

    /// Recomputes the scroll offsets from the cursor. Afterwards the cursor
    /// lies inside the visible window, and the offsets moved no further
    /// than that requires.
    pub fn editor_scroll(&mut self)
        requires
            old(self).size_ok(),
        ensures
            final(self).rowoffset == old(self).spec_scrolled_row_offset(),
            final(self).coloffset == old(self).spec_scrolled_col_offset(),
            final(self).viewport_ok(),
            final(self).cursor == old(self).cursor,
            final(self).size == old(self).size,
            Terminal::same_document(*old(self), *final(self)),
            Terminal::same_file_state(*old(self), *final(self)),
            Terminal::same_mode_line(*old(self), *final(self)),
            Terminal::same_frame(*old(self), *final(self)),
    {
        if self.cursor.row < self.rowoffset {
            self.rowoffset = self.cursor.row;
        }
        if self.cursor.row - self.rowoffset >= self.size.1 as usize {
            self.rowoffset = self.cursor.row - self.size.1 as usize + 1;
        }
        if self.cursor.col < self.coloffset {
            self.coloffset = self.cursor.col;
        }
        if self.cursor.col - self.coloffset >= self.size.0 as usize {
            self.coloffset = self.cursor.col - self.size.0 as usize + 1;
        }
    }
}

/// The dirty counter after one more mutation; it stops at its maximum
/// rather than wrap.
pub open spec fn spec_bump_dirty(d: int) -> int {
    if d < 0xffff_ffff {
        d + 1
    } else {
        d
    }
}

impl Terminal {
    /// Counts one more unsaved mutation.
    fn bump_dirty(&mut self)
        ensures
            final(self).dirty == spec_bump_dirty(old(self).dirty as int),
            final(self).filename == old(self).filename,
            Terminal::same_document(*old(self), *final(self)),
            Terminal::same_cursor(*old(self), *final(self)),
            Terminal::same_viewport(*old(self), *final(self)),
            Terminal::same_mode_line(*old(self), *final(self)),
            Terminal::same_frame(*old(self), *final(self)),
    {
        if self.dirty < u32::MAX {
            self.dirty = self.dirty + 1;
        }
    }

    /// Inserts `c` at column `at` of the cursor's line, clamped to the line
    /// length; an empty document first gains one line to insert into. The
    /// line's render cache is recomputed and the mutation is counted.
    pub fn row_insert_char(&mut self, at: usize, c: char)
        requires
            old(self).wf(),
        ensures
            final(self).wf(),
            old(self).num_rows == 0 ==> final(self).doc() == seq![seq![c]],
            old(self).num_rows > 0 ==> final(self).doc() == old(self).doc().update(
                old(self).cursor.row as int,
                old(self).line(old(self).cursor.row as int).insert(
                    vstd::math::min(at as int, old(self).line_len(old(self).cursor.row as int)),
                    c,
                ),
            ),
            final(self).num_rows == vstd::math::max(old(self).num_rows as int, 1),
            final(self).dirty == spec_bump_dirty(old(self).dirty as int),
            final(self).filename == old(self).filename,
            Terminal::same_cursor(*old(self), *final(self)),
            Terminal::same_viewport(*old(self), *final(self)),
            Terminal::same_mode_line(*old(self), *final(self)),
            Terminal::same_frame(*old(self), *final(self)),
    {
        if self.num_rows == 0 {
            self.rows.push(Line { raw: Vec::new(), render: Vec::new() });
            self.num_rows = 1;
            self.update_line(0);
        }
        let row = self.cursor.row;
        let len = self.rows[row].raw.len();
        let at2 = if at > len {
            len
        } else {
            at
        };
        self.rows[row].raw.insert(at2, c);
        self.update_line(row);
        self.bump_dirty();
        proof {
            if old(self).num_rows == 0 {
                assert(final(self).doc() =~~= seq![seq![c]]);
            } else {
                assert(final(self).doc() =~= old(self).doc().update(
                    old(self).cursor.row as int,
                    old(self).line(old(self).cursor.row as int).insert(
                        vstd::math::min(at as int, old(self).line_len(old(self).cursor.row as int)),
                        c,
                    ),
                ));
            }
        }
    }

    /// Splits line `row` at column `col`: the line keeps the text before
    /// the split, and a new line holding the rest is inserted directly
    /// after it. Both render caches are recomputed and the mutation is
    /// counted.
    pub fn split_line(&mut self, row: usize, col: usize)
        requires
            old(self).doc_wf(),
            row < old(self).num_rows,
            col <= old(self).line_len(row as int),
        ensures
            final(self).doc_wf(),
            final(self).doc() == old(self).doc().update(
                row as int,
                old(self).line(row as int).subrange(0, col as int),
            ).insert(
                row as int + 1,
                old(self).line(row as int).subrange(col as int, old(self).line_len(row as int)),
            ),
            final(self).num_rows == old(self).num_rows + 1,
            final(self).dirty == spec_bump_dirty(old(self).dirty as int),
            final(self).filename == old(self).filename,
            Terminal::same_cursor(*old(self), *final(self)),
            Terminal::same_viewport(*old(self), *final(self)),
            Terminal::same_mode_line(*old(self), *final(self)),
            Terminal::same_frame(*old(self), *final(self)),
    {
        let line = crate::text::copy_chars(&self.rows[row].raw);
        let n = line.len();
        let mut head: Vec<char> = Vec::new();
        crate::text::push_range(&mut head, &line, 0, col);
        let mut tail: Vec<char> = Vec::new();
        crate::text::push_range(&mut tail, &line, col, n);
        self.rows[row].raw = head;
        self.update_line(row);
        let tail_render = crate::markdown::render_line(&tail);
        self.rows.insert(row + 1, Line { raw: tail, render: tail_render });
        self.num_rows = self.rows.len();
        self.bump_dirty();
        proof {
            assert(final(self).doc() =~= old(self).doc().update(
                row as int,
                old(self).line(row as int).subrange(0, col as int),
            ).insert(
                row as int + 1,
                old(self).line(row as int).subrange(col as int, old(self).line_len(row as int)),
            ));
        }
    }

    /// Joins line `row` onto the end of the line before it and removes it.
    /// The surviving line's render cache is recomputed and the mutation is
    /// counted.
    pub fn join_with_previous(&mut self, row: usize)
        requires
            old(self).doc_wf(),
            1 <= row < old(self).num_rows,
        ensures
            final(self).doc_wf(),
            final(self).doc() == old(self).doc().update(
                row - 1,
                old(self).line(row - 1) + old(self).line(row as int),
            ).remove(row as int),
            final(self).num_rows == old(self).num_rows - 1,
            final(self).dirty == spec_bump_dirty(old(self).dirty as int),
            final(self).filename == old(self).filename,
            Terminal::same_cursor(*old(self), *final(self)),
            Terminal::same_viewport(*old(self), *final(self)),
            Terminal::same_mode_line(*old(self), *final(self)),
            Terminal::same_frame(*old(self), *final(self)),
    {
        let cur = crate::text::copy_chars(&self.rows[row].raw);
        let mut joined = crate::text::copy_chars(&self.rows[row - 1].raw);
        crate::text::push_range(&mut joined, &cur, 0, cur.len());
        assert(cur@.subrange(0, cur@.len() as int) =~= cur@);
        self.rows[row - 1].raw = joined;
        self.update_line(row - 1);
        self.rows.remove(row);
        self.num_rows = self.rows.len();
        self.bump_dirty();
        proof {
            assert(final(self).doc() =~= old(self).doc().update(
                row - 1,
                old(self).line(row - 1) + old(self).line(row as int),
            ).remove(row as int));
        }
    }

    /// Removes the code unit before column `col` of line `row`; at the
    /// start of a line it joins the line with the previous one instead, and
    /// at the start of the document it does nothing.
    pub fn delete_char_before(&mut self, row: usize, col: usize)
        requires
            old(self).doc_wf(),
            row < old(self).num_rows,
            col <= old(self).line_len(row as int),
        ensures
            final(self).doc_wf(),
            col > 0 ==> final(self).doc() == old(self).doc().update(
                row as int,
                old(self).line(row as int).remove(col - 1),
            ) && final(self).num_rows == old(self).num_rows && final(self).dirty == spec_bump_dirty(
                old(self).dirty as int,
            ),
            col == 0 && row > 0 ==> final(self).doc() == old(self).doc().update(
                row - 1,
                old(self).line(row - 1) + old(self).line(row as int),
            ).remove(row as int) && final(self).num_rows == old(self).num_rows - 1
                && final(self).dirty == spec_bump_dirty(old(self).dirty as int),
            col == 0 && row == 0 ==> final(self).doc() == old(self).doc() && final(self).num_rows
                == old(self).num_rows && final(self).dirty == old(self).dirty,
            final(self).filename == old(self).filename,
            Terminal::same_cursor(*old(self), *final(self)),
            Terminal::same_viewport(*old(self), *final(self)),
            Terminal::same_mode_line(*old(self), *final(self)),
            Terminal::same_frame(*old(self), *final(self)),
    {
        if col > 0 {
            self.rows[row].raw.remove(col - 1);
            self.update_line(row);
            self.bump_dirty();
            proof {
                assert(final(self).doc() =~= old(self).doc().update(
                    row as int,
                    old(self).line(row as int).remove(col - 1),
                ));
            }
        } else if row > 0 {
            self.join_with_previous(row);
        }
    }
}

// ---------------------------------------------------------------------------
// Serialized form
// ---------------------------------------------------------------------------
/// The views of a vector of character vectors.
pub open spec fn views_of(r: Seq<Vec<char>>) -> Seq<Seq<char>> {
    r.map_values(|v: Vec<char>| v@)
}

/// Splits text into raw lines at newline characters.
pub fn split_text(text: &Vec<char>) -> (r: Vec<Vec<char>>)
    ensures
        views_of(r@) == spec_split(text@),
{
    let n = text.len();
    let mut r: Vec<Vec<char>> = Vec::new();
    let mut cur: Vec<char> = Vec::new();
    let mut i: usize = 0;
    proof {
        assert(cur@ + text@.subrange(0, n as int) =~= text@);
        assert(views_of(r@) =~= Seq::<Seq<char>>::empty());
    }
    while i < n
        invariant
            i <= n,
            n == text@.len(),
            no_newline(cur@),
            spec_split(text@) == views_of(r@) + spec_split(cur@ + text@.subrange(i as int, n as int)),
        decreases n - i,
    {
        let c = text[i];
        let ghost old_r = r@;
        let ghost old_cur = cur@;
        if c == '\n' {
            proof {
                lemma_split_head(cur@, text@.subrange(i + 1, n as int));
                assert(old_cur + text@.subrange(i as int, n as int) =~= old_cur + seq!['\n']
                    + text@.subrange(i + 1, n as int));
            }
            if cur.len() > 0 && cur[cur.len() - 1] == '\r' {
                cur.pop();
            }
            proof {
                assert(cur@ =~= drop_cr(old_cur));
            }
            r.push(cur);
            cur = Vec::new();
            proof {
                assert(views_of(r@) =~= views_of(old_r).push(drop_cr(old_cur)));
                assert(cur@ + text@.subrange(i + 1, n as int) =~= text@.subrange(i + 1, n as int));
                assert(views_of(old_r) + (seq![drop_cr(old_cur)] + spec_split(
                    text@.subrange(i + 1, n as int),
                )) =~= views_of(old_r).push(drop_cr(old_cur)) + spec_split(
                    text@.subrange(i + 1, n as int),
                ));
            }
        } else {
            cur.push(c);
            proof {
                assert(cur@ + text@.subrange(i + 1, n as int) =~= old_cur + text@.subrange(
                    i as int,
                    n as int,
                ));
            }
        }
        i = i + 1;
    }
    proof {
        assert(cur@ + text@.subrange(n as int, n as int) =~= cur@);
    }
    if cur.len() > 0 {
        let ghost old_r = r@;
        let ghost old_cur = cur@;
        proof {
            lemma_split_single(cur@);
        }
        r.push(cur);
        proof {
            assert(views_of(r@) =~= views_of(old_r).push(old_cur));
            assert(views_of(old_r) + seq![old_cur] =~= views_of(old_r).push(old_cur));
        }
    } else {
        proof {
            assert(spec_split(cur@) =~= Seq::<Seq<char>>::empty());
            assert(views_of(r@) + Seq::<Seq<char>>::empty() =~= views_of(r@));
        }
    }
    r
}
/// `l` holds no newline character.
pub open spec fn no_newline(l: Seq<char>) -> bool {
    forall|k: int| 0 <= k < l.len() ==> l[k] != '\n'
}

/// `l` without a single trailing carriage return, if it carries one.
pub open spec fn drop_cr(l: Seq<char>) -> Seq<char> {
    if l.len() > 0 && l.last() == '\r' {
        l.drop_last()
    } else {
        l
    }
}

/// Lines joined by single newline separators, no trailing newline.
pub open spec fn spec_join(lines: Seq<Seq<char>>) -> Seq<char>
    decreases lines.len(),
{
    if lines.len() == 0 {
        Seq::empty()
    } else if lines.len() == 1 {
        lines[0]
    } else {
        lines[0] + seq!['\n'] + spec_join(lines.drop_first())
    }
}

/// Text split at newline characters into lines. A line closed by a newline
/// also sheds one carriage return directly before it, so both line-feed and
/// CRLF terminators are read; a trailing newline closes the last line
/// without opening a new one, and empty text holds no lines.
pub open spec fn spec_split(text: Seq<char>) -> Seq<Seq<char>>
    decreases text.len(),
    via spec_split_decreases
{
    if text.len() == 0 {
        Seq::empty()
    } else {
        match find1(text, '\n', 0) {
            None => seq![text],
            Some(nl) => seq![drop_cr(text.subrange(0, nl))] + spec_split(
                text.subrange(nl + 1, text.len() as int),
            ),
        }
    }
}

#[via_fn]
proof fn spec_split_decreases(text: Seq<char>) {
    lemma_find1_bounds(text, '\n', 0);
}

/// Appending a line to a non-empty sequence appends a separator and the
/// line to the serialized form.
proof fn lemma_join_push(lines: Seq<Seq<char>>, l: Seq<char>)
    ensures
        lines.len() == 0 ==> spec_join(lines.push(l)) == l,
        lines.len() > 0 ==> spec_join(lines.push(l)) == spec_join(lines) + seq!['\n'] + l,
    decreases lines.len(),
{
    if lines.len() == 0 {
        assert(lines.push(l)[0] =~= l);
    } else if lines.len() == 1 {
        assert(lines.push(l).drop_first() =~= seq![l]);
        assert(spec_join(seq![l]) == l);
        assert(lines.push(l)[0] == lines[0]);
        assert(spec_join(lines.push(l)) == lines[0] + seq!['\n'] + l);
    } else {
        lemma_join_push(lines.drop_first(), l);
        assert(lines.push(l).drop_first() =~= lines.drop_first().push(l));
        assert(lines[0] + seq!['\n'] + (spec_join(lines.drop_first()) + seq!['\n'] + l) =~= (
        lines[0] + seq!['\n'] + spec_join(lines.drop_first())) + seq!['\n'] + l);
    }
}

/// Splitting a newline-free line, a separator and a rest yields the line —
/// less a trailing carriage return — and the split of the rest.
proof fn lemma_split_head(cur: Seq<char>, rest: Seq<char>)
    requires
        no_newline(cur),
    ensures
        spec_split(cur + seq!['\n'] + rest) == seq![drop_cr(cur)] + spec_split(rest),
{
    let s = cur + seq!['\n'] + rest;
    lemma_find1_first(s, '\n', 0, cur.len() as int);
    assert(s.subrange(0, cur.len() as int) =~= cur);
    assert(s.subrange(cur.len() as int + 1, s.len() as int) =~= rest);
}

/// A single newline-free, non-empty line splits to itself.
proof fn lemma_split_single(cur: Seq<char>)
    requires
        no_newline(cur),
        cur.len() > 0,
    ensures
        spec_split(cur) == seq![cur],
{
    lemma_find1_absent(cur, '\n', 0);
}

/// `post` is `pre` with nothing changed.
pub open spec fn unchanged_state(pre: Terminal, post: Terminal) -> bool {
    &&& Terminal::same_document(pre, post)
    &&& Terminal::same_cursor(pre, post)
    &&& Terminal::same_viewport(pre, post)
    &&& Terminal::same_file_state(pre, post)
    &&& Terminal::same_mode_line(pre, post)
    &&& Terminal::same_frame(pre, post)
}

/// `post` is `pre` after one cursor motion step for `key`.
pub open spec fn motion_step(pre: Terminal, key: Keys, post: Terminal) -> bool {
    &&& (post.cursor.row as int, post.cursor.col as int) == step_cursor(
        pre.doc(),
        pre.cursor.row as int,
        pre.cursor.col as int,
        key,
    )
    &&& Terminal::same_document(pre, post)
    &&& Terminal::same_viewport(pre, post)
    &&& Terminal::same_file_state(pre, post)
    &&& Terminal::same_mode_line(pre, post)
    &&& Terminal::same_frame(pre, post)
}

/// `post` is `pre` back in Normal mode with the mode notice on the message
/// bar, nothing else changed.
pub open spec fn back_to_normal_step(pre: Terminal, post: Terminal) -> bool {
    &&& post.mode == Mode::Normal
    &&& post.status@ == "-- NORMAL --"@
    &&& Terminal::same_document(pre, post)
    &&& Terminal::same_cursor(pre, post)
    &&& Terminal::same_viewport(pre, post)
    &&& Terminal::same_file_state(pre, post)
    &&& Terminal::same_frame(pre, post)
}

/// What asking for a save does: with a filename known, the path and the
/// serialized document go out as an [`Action::Save`] and nothing changes;
/// with none known, Command mode is re-entered pre-filled with `:w `.
pub open spec fn save_step(pre: Terminal, post: Terminal, r: Action) -> bool {
    if pre.filename is Some {
        &&& r matches Action::Save(path, contents) && path@ == pre.filename->0@ && contents@
            == spec_join(pre.doc())
        &&& post == pre
    } else {
        &&& r is Continue
        &&& post.mode == Mode::Command
        &&& post.status@ == ":w "@
        &&& post.filename is None
        &&& post.dirty == pre.dirty
        &&& Terminal::same_document(pre, post)
        &&& Terminal::same_cursor(pre, post)
        &&& Terminal::same_viewport(pre, post)
        &&& Terminal::same_frame(pre, post)
    }
}

impl Terminal {
    /// The row the cursor is repositioned to by a page-up: the top edge of
    /// the viewport, kept within the document.
    pub open spec fn page_top_row(self) -> int {
        if self.num_rows == 0 {
            0
        } else if self.rowoffset < self.num_rows {
            self.rowoffset as int
        } else {
            self.num_rows - 1
        }
    }

    /// The row the cursor is repositioned to by a page-down: the bottom
    /// edge of the viewport, kept within the document.
    pub open spec fn page_bottom_row(self) -> int {
        if self.num_rows == 0 {
            0
        } else {
            vstd::math::min(self.rowoffset + self.size.1 - 1, self.num_rows - 1)
        }
    }
}

/// `post` is `pre` after a page motion: the cursor repositioned to the
/// viewport's top or bottom edge, then one window of Up or Down steps.
pub open spec fn page_step(pre: Terminal, up: bool, post: Terminal) -> bool {
    let start = if up {
        pre.page_top_row()
    } else {
        pre.page_bottom_row()
    };
    let key = if up {
        Keys::Up
    } else {
        Keys::Down
    };
    &&& (post.cursor.row as int, post.cursor.col as int) == step_cursor_n(
        pre.doc(),
        start,
        pre.cursor.col as int,
        key,
        pre.size.1 as nat,
    )
    &&& Terminal::same_document(pre, post)
    &&& Terminal::same_viewport(pre, post)
    &&& Terminal::same_file_state(pre, post)
    &&& Terminal::same_mode_line(pre, post)
    &&& Terminal::same_frame(pre, post)
}

/// What one key event does in Normal mode: `h/j/k/l`, the arrows, Enter
/// and Backspace move the cursor; `i` enters Insert mode, first giving an
/// empty document one addressable line; `:` enters Command mode with the
/// message bar seeded; Home, End and the page keys reposition the cursor;
/// the save shortcut asks for a save; anything else is ignored.
pub open spec fn normal_step(pre: Terminal, key: Keys, post: Terminal, r: Action) -> bool {
    match key {
        Keys::Char(c) => if c == 'h' {
            motion_step(pre, Keys::Left, post) && r is Continue
        } else if c == 'j' {
            motion_step(pre, Keys::Down, post) && r is Continue
        } else if c == 'k' {
            motion_step(pre, Keys::Up, post) && r is Continue
        } else if c == 'l' {
            motion_step(pre, Keys::Right, post) && r is Continue
        } else if c == 'i' {
            &&& r is Continue
            &&& post.mode == Mode::Insert
            &&& post.status@ == "-- INSERT --"@
            &&& Terminal::same_viewport(pre, post)
            &&& Terminal::same_frame(pre, post)
            &&& post.filename == pre.filename
            &&& if pre.num_rows == 0 {
                &&& post.doc() == seq![Seq::<char>::empty()]
                &&& post.num_rows == 1
                &&& post.cursor == (Cursor { row: 0, col: 0 })
                &&& post.dirty == spec_bump_dirty(pre.dirty as int)
            } else {
                &&& Terminal::same_document(pre, post)
                &&& Terminal::same_cursor(pre, post)
                &&& post.dirty == pre.dirty
            }
        } else if c == ':' {
            &&& r is Continue
            &&& post.mode == Mode::Command
            &&& post.status@ == ":"@
            &&& Terminal::same_document(pre, post)
            &&& Terminal::same_cursor(pre, post)
            &&& Terminal::same_viewport(pre, post)
            &&& Terminal::same_file_state(pre, post)
            &&& Terminal::same_frame(pre, post)
        } else {
            unchanged_state(pre, post) && r is Continue
        },
        Keys::Enter => motion_step(pre, Keys::Down, post) && r is Continue,
        Keys::BackSpace => motion_step(pre, Keys::Left, post) && r is Continue,
        Keys::Esc => back_to_normal_step(pre, post) && r is Continue,
        Keys::Left => motion_step(pre, key, post) && r is Continue,
        Keys::Down => motion_step(pre, key, post) && r is Continue,
        Keys::Up => motion_step(pre, key, post) && r is Continue,
        Keys::Right => motion_step(pre, key, post) && r is Continue,
        Keys::Home => {
            &&& r is Continue
            &&& post.cursor.row == pre.cursor.row
            &&& post.cursor.col == 0
            &&& Terminal::same_document(pre, post)
            &&& Terminal::same_viewport(pre, post)
            &&& Terminal::same_file_state(pre, post)
            &&& Terminal::same_mode_line(pre, post)
            &&& Terminal::same_frame(pre, post)
        },
        Keys::End => {
            &&& r is Continue
            &&& post.cursor.row == pre.cursor.row
            &&& post.cursor.col as int == if pre.num_rows == 0 {
                pre.cursor.col as int
            } else {
                pre.line_len(pre.cursor.row as int)
            }
            &&& Terminal::same_document(pre, post)
            &&& Terminal::same_viewport(pre, post)
            &&& Terminal::same_file_state(pre, post)
            &&& Terminal::same_mode_line(pre, post)
            &&& Terminal::same_frame(pre, post)
        },
        Keys::PageUp => page_step(pre, true, post) && r is Continue,
        Keys::PageDown => page_step(pre, false, post) && r is Continue,
        Keys::SaveFile => save_step(pre, post, r),
        _ => unchanged_state(pre, post) && r is Continue,
    }
}

/// What one key event does in Insert mode: a character is inserted at the
/// cursor, which moves right over it; Enter splits the line at the cursor,
/// which moves to the start of the new line; Backspace deletes backwards,
/// the cursor following the deletion onto the join point when lines join;
/// Escape returns to Normal mode; navigation behaves as in Normal mode.
pub open spec fn insert_step(pre: Terminal, key: Keys, post: Terminal) -> bool {
    let row = pre.cursor.row as int;
    let col = pre.cursor.col as int;
    match key {
        Keys::Char(c) => {
            &&& post.doc() == pre.doc().update(row, pre.line(row).insert(col, c))
            &&& post.num_rows == pre.num_rows
            &&& post.cursor.row as int == row
            &&& post.cursor.col as int == col + 1
            &&& post.dirty == spec_bump_dirty(pre.dirty as int)
            &&& post.filename == pre.filename
            &&& Terminal::same_viewport(pre, post)
            &&& Terminal::same_mode_line(pre, post)
            &&& Terminal::same_frame(pre, post)
        },
        Keys::Enter => {
            &&& post.doc() == pre.doc().update(row, pre.line(row).subrange(0, col)).insert(
                row + 1,
                pre.line(row).subrange(col, pre.line_len(row)),
            )
            &&& post.num_rows == pre.num_rows + 1
            &&& post.cursor.row as int == row + 1
            &&& post.cursor.col == 0
            &&& post.dirty == spec_bump_dirty(pre.dirty as int)
            &&& post.filename == pre.filename
            &&& Terminal::same_viewport(pre, post)
            &&& Terminal::same_mode_line(pre, post)
            &&& Terminal::same_frame(pre, post)
        },
        Keys::BackSpace => {
            &&& if col > 0 {
                &&& post.doc() == pre.doc().update(row, pre.line(row).remove(col - 1))
                &&& post.num_rows == pre.num_rows
                &&& post.cursor.row as int == row
                &&& post.cursor.col as int == col - 1
                &&& post.dirty == spec_bump_dirty(pre.dirty as int)
            } else if row > 0 {
                &&& post.doc() == pre.doc().update(
                    row - 1,
                    pre.line(row - 1) + pre.line(row),
                ).remove(row)
                &&& post.num_rows == pre.num_rows - 1
                &&& post.cursor.row as int == row - 1
                &&& post.cursor.col as int == pre.line_len(row - 1)
                &&& post.dirty == spec_bump_dirty(pre.dirty as int)
            } else {
                &&& Terminal::same_document(pre, post)
                &&& Terminal::same_cursor(pre, post)
                &&& post.dirty == pre.dirty
            }
            &&& post.filename == pre.filename
            &&& Terminal::same_viewport(pre, post)
            &&& Terminal::same_mode_line(pre, post)
            &&& Terminal::same_frame(pre, post)
        },
        Keys::Esc => back_to_normal_step(pre, post),
        Keys::Left => motion_step(pre, key, post),
        Keys::Down => motion_step(pre, key, post),
        Keys::Up => motion_step(pre, key, post),
        Keys::Right => motion_step(pre, key, post),
        Keys::Home => {
            &&& post.cursor.row == pre.cursor.row
            &&& post.cursor.col == 0
            &&& Terminal::same_document(pre, post)
            &&& Terminal::same_viewport(pre, post)
            &&& Terminal::same_file_state(pre, post)
            &&& Terminal::same_mode_line(pre, post)
            &&& Terminal::same_frame(pre, post)
        },
        Keys::End => {
            &&& post.cursor.row == pre.cursor.row
            &&& post.cursor.col as int == if pre.num_rows == 0 {
                pre.cursor.col as int
            } else {
                pre.line_len(pre.cursor.row as int)
            }
            &&& Terminal::same_document(pre, post)
            &&& Terminal::same_viewport(pre, post)
            &&& Terminal::same_file_state(pre, post)
            &&& Terminal::same_mode_line(pre, post)
            &&& Terminal::same_frame(pre, post)
        },
        Keys::PageUp => page_step(pre, true, post),
        Keys::PageDown => page_step(pre, false, post),
        _ => unchanged_state(pre, post),
    }
}

/// What one key event does in Command mode: characters grow the command
/// line, Backspace shrinks it, Enter submits it to the command processor,
/// and Escape cancels back to Normal mode.
pub open spec fn command_mode_step(pre: Terminal, key: Keys, post: Terminal, r: Action) -> bool {
    match key {
        Keys::Char(c) => {
            &&& r is Continue
            &&& post.status@ == pre.status@.push(c)
            &&& post.mode == pre.mode
            &&& Terminal::same_document(pre, post)
            &&& Terminal::same_cursor(pre, post)
            &&& Terminal::same_viewport(pre, post)
            &&& Terminal::same_file_state(pre, post)
            &&& Terminal::same_frame(pre, post)
        },
        Keys::BackSpace => {
            &&& r is Continue
            &&& post.status@ == if pre.status@.len() > 0 {
                pre.status@.drop_last()
            } else {
                pre.status@
            }
            &&& post.mode == pre.mode
            &&& Terminal::same_document(pre, post)
            &&& Terminal::same_cursor(pre, post)
            &&& Terminal::same_viewport(pre, post)
            &&& Terminal::same_file_state(pre, post)
            &&& Terminal::same_frame(pre, post)
        },
        Keys::Enter => command_step(pre, post, r),
        Keys::Esc => back_to_normal_step(pre, post) && r is Continue,
        _ => unchanged_state(pre, post) && r is Continue,
    }
}

/// The confirmation shown after a successful save.
pub open spec fn spec_save_message(n: int, name: Seq<char>) -> Seq<char> {
    "Successfully written "@ + crate::text::spec_dec(n) + " lines to "@ + name
}

/// The save command's token.
pub open spec fn w_token() -> Seq<char> {
    seq![':', 'w']
}

/// The quit command's token.
pub open spec fn q_token() -> Seq<char> {
    seq![':', 'q']
}

/// What submitting the command line does: `:w` with a path sets the
/// filename and asks for a save; bare `:w` asks for a save to the known
/// filename, or re-prompts with `:w ` when none is known; `:q` asks for
/// shutdown; anything else is answered with an invalid-command notice. All
/// outcomes except the re-prompt return to Normal mode, and none mutates
/// the document.
pub open spec fn command_step(pre: Terminal, post: Terminal, r: Action) -> bool {
    let toks = spec_tokens(pre.status@);
    &&& Terminal::same_document(pre, post)
    &&& Terminal::same_cursor(pre, post)
    &&& Terminal::same_viewport(pre, post)
    &&& Terminal::same_frame(pre, post)
    &&& post.dirty == pre.dirty
    &&& if toks.len() > 0 && toks[0] == w_token() {
        if toks.len() > 1 {
            &&& post.filename matches Some(f) && f@ == toks[1]
            &&& r matches Action::Save(path, contents) && path@ == toks[1] && contents@
                == spec_join(pre.doc())
            &&& post.mode == Mode::Normal
            &&& post.status@ == "-- NORMAL --"@
        } else if pre.filename is Some {
            &&& post.filename == pre.filename
            &&& r matches Action::Save(path, contents) && path@ == pre.filename->0@ && contents@
                == spec_join(pre.doc())
            &&& post.mode == Mode::Normal
            &&& post.status@ == "-- NORMAL --"@
        } else {
            &&& post.filename is None
            &&& r is Continue
            &&& post.mode == Mode::Command
            &&& post.status@ == ":w "@
        }
    } else if toks.len() > 0 && toks[0] == q_token() {
        &&& post.filename == pre.filename
        &&& r is Quit
        &&& post.mode == pre.mode
        &&& post.status == pre.status
    } else {
        &&& post.filename == pre.filename
        &&& r is Continue
        &&& post.mode == Mode::Normal
        &&& post.status@ == "Invalid Command"@
    }
}

impl Terminal {
    /// Asks for the document to be saved. With a filename known, the
    /// serialized document and the path are handed out as an
    /// [`Action::Save`] and nothing changes here; the embedding program
    /// reports the outcome through [`Terminal::save_finished`]. With no
    /// filename known this re-enters Command mode pre-filled with `:w ` to
    /// prompt for one.
    pub fn save(&mut self) -> (r: Action)
        requires
            old(self).wf(),
        ensures
            final(self).wf(),
            old(self).filename is Some ==> (r matches Action::Save(path, contents) && path@ == old(
                self,
            ).filename->0@ && contents@ == spec_join(old(self).doc()) && *final(self) == *old(
                self,
            )),
            old(self).filename is None ==> {
                &&& r is Continue
                &&& final(self).mode == Mode::Command
                &&& final(self).status@ == ":w "@
                &&& final(self).filename is None
                &&& final(self).dirty == old(self).dirty
                &&& Terminal::same_document(*old(self), *final(self))
                &&& Terminal::same_cursor(*old(self), *final(self))
                &&& Terminal::same_viewport(*old(self), *final(self))
                &&& Terminal::same_frame(*old(self), *final(self))
            },
    {
        if self.filename.is_some() {
            let contents = self.convert_rows_to_str();
            let path = match &self.filename {
                Some(name) => crate::text::chars_to_string(name),
                None => vstd::pervasive::unreached(),
            };
            Action::Save(path, contents)
        } else {
            self.mode = Mode::Command;
            self.status = crate::text::str_to_chars(":w ");
            Action::Continue
        }
    }

    /// Takes the embedding program's report of a save it performed. A
    /// successful save clears the dirty counter and puts a confirmation
    /// with the line count and filename on the message bar; a failed one
    /// leaves the dirty counter alone and shows the error text.
    pub fn save_finished(&mut self, ok: bool, err: String)
        requires
            old(self).wf(),
            old(self).filename is Some,
        ensures
            final(self).wf(),
            ok ==> final(self).dirty == 0 && final(self).status@ == spec_save_message(
                old(self).doc().len() as int,
                old(self).filename->0@,
            ),
            !ok ==> final(self).dirty == old(self).dirty && final(self).status@ == err@,
            final(self).mode == old(self).mode,
            final(self).filename == old(self).filename,
            Terminal::same_document(*old(self), *final(self)),
            Terminal::same_cursor(*old(self), *final(self)),
            Terminal::same_viewport(*old(self), *final(self)),
            Terminal::same_frame(*old(self), *final(self)),
    {
        if ok {
            let mut msg: Vec<char> = Vec::new();
            crate::text::push_str_chars(&mut msg, "Successfully written ");
            crate::text::push_dec(&mut msg, self.rows.len());
            crate::text::push_str_chars(&mut msg, " lines to ");
            match &self.filename {
                Some(name) => {
                    crate::text::push_range(&mut msg, name, 0, name.len());
                    proof {
                        assert(name@.subrange(0, name@.len() as int) =~= name@);
                    }
                },
                None => {},
            }
            self.status = msg;
            self.dirty = 0;
        } else {
            self.status = crate::text::str_to_chars(err.as_str());
        }
    }

    /// Submits the command line: tokenizes it and performs the command as
    /// [`command_step`] states.
    pub fn execute_command(&mut self) -> (r: Action)
        requires
            old(self).wf(),
        ensures
            final(self).wf(),
            command_step(*old(self), *final(self), r),
    {
        let toks = split_tokens(&self.status);
        let ghost stoks = spec_tokens(self.status@);
        if toks.len() == 0 {
            self.status = crate::text::str_to_chars("Invalid Command");
            self.mode = Mode::Normal;
            return Action::Continue;
        }
        let is_w = toks[0].len() == 2 && toks[0][0] == ':' && toks[0][1] == 'w';
        let is_q = toks[0].len() == 2 && toks[0][0] == ':' && toks[0][1] == 'q';
        proof {
            assert(stoks[0] == toks@[0]@);
            assert(is_w == (stoks[0] =~= w_token()));
            assert(is_q == (stoks[0] =~= q_token()));
        }
        if is_w {
            if toks.len() > 1 {
                proof {
                    assert(stoks[1] == toks@[1]@);
                }
                let name = crate::text::copy_chars(&toks[1]);
                self.filename = Some(name);
                let a = self.save();
                self.status = crate::text::str_to_chars("-- NORMAL --");
                self.mode = Mode::Normal;
                a
            } else {
                if self.filename.is_some() {
                    let a = self.save();
                    self.status = crate::text::str_to_chars("-- NORMAL --");
                    self.mode = Mode::Normal;
                    a
                } else {
                    self.save()
                }
            }
        } else if is_q {
            Action::Quit
        } else {
            self.status = crate::text::str_to_chars("Invalid Command");
            self.mode = Mode::Normal;
            Action::Continue
        }
    }

    /// Moves the cursor `steps` single steps for the same key.
    fn move_steps(&mut self, key: Keys, steps: u16)
        requires
            old(self).doc_wf(),
            old(self).row_ok(),
            steps == 0 ==> old(self).cursor_ok(),
        ensures
            final(self).doc_wf(),
            final(self).cursor_ok(),
            (final(self).cursor.row as int, final(self).cursor.col as int) == step_cursor_n(
                old(self).doc(),
                old(self).cursor.row as int,
                old(self).cursor.col as int,
                key,
                steps as nat,
            ),
            Terminal::same_document(*old(self), *final(self)),
            Terminal::same_viewport(*old(self), *final(self)),
            Terminal::same_file_state(*old(self), *final(self)),
            Terminal::same_mode_line(*old(self), *final(self)),
            Terminal::same_frame(*old(self), *final(self)),
    {
        let mut k: u16 = 0;
        while k < steps
            invariant
                k <= steps,
                old(self).doc_wf(),
                old(self).row_ok(),
                self.doc_wf(),
                self.row_ok(),
                k > 0 ==> self.cursor_ok(),
                steps == 0 ==> old(self).cursor_ok(),
                (self.cursor.row as int, self.cursor.col as int) == step_cursor_n(
                    old(self).doc(),
                    old(self).cursor.row as int,
                    old(self).cursor.col as int,
                    key,
                    k as nat,
                ),
                Terminal::same_document(*old(self), *self),
                Terminal::same_viewport(*old(self), *self),
                Terminal::same_file_state(*old(self), *self),
                Terminal::same_mode_line(*old(self), *self),
                Terminal::same_frame(*old(self), *self),
            decreases steps - k,
        {
            proof {
                lemma_step_cursor_n_snoc(
                    old(self).doc(),
                    old(self).cursor.row as int,
                    old(self).cursor.col as int,
                    key,
                    k as nat,
                );
            }
            self.move_cursor(key);
            k = k + 1;
        }
    }

    /// Repositions the cursor to the viewport's top or bottom edge and
    /// moves it one window of Up or Down steps from there.
    fn page_move(&mut self, up: bool)
        requires
            old(self).wf(),
        ensures
            final(self).wf(),
            final(self).mode == old(self).mode,
            page_step(*old(self), up, *final(self)),
    {
        let target: usize = if self.num_rows == 0 {
            0
        } else if up {
            if self.rowoffset < self.num_rows {
                self.rowoffset
            } else {
                self.num_rows - 1
            }
        } else {
            let maxr = self.num_rows - 1;
            let span = (self.size.1 - 1) as usize;
            if self.rowoffset >= maxr {
                maxr
            } else if maxr - self.rowoffset <= span {
                maxr
            } else {
                self.rowoffset + span
            }
        };
        assert(target as int == if up {
            old(self).page_top_row()
        } else {
            old(self).page_bottom_row()
        });
        self.cursor.row = target;
        let key = if up {
            Keys::Up
        } else {
            Keys::Down
        };
        let steps = self.size.1;
        self.move_steps(key, steps);
    }

    /// Handles one key event in Normal mode.
    pub fn handle_normal(&mut self, key: Keys) -> (r: Action)
        requires
            old(self).wf(),
            old(self).mode == Mode::Normal,
        ensures
            final(self).wf(),
            normal_step(*old(self), key, *final(self), r),
    {
        match key {
            Keys::Char(c) => {
                if c == 'h' {
                    self.move_cursor(Keys::Left);
                    Action::Continue
                } else if c == 'j' {
                    self.move_cursor(Keys::Down);
                    Action::Continue
                } else if c == 'k' {
                    self.move_cursor(Keys::Up);
                    Action::Continue
                } else if c == 'l' {
                    self.move_cursor(Keys::Right);
                    Action::Continue
                } else if c == 'i' {
                    self.mode = Mode::Insert;
                    self.status = crate::text::str_to_chars("-- INSERT --");
                    if self.num_rows == 0 {
                        self.rows.push(Line { raw: Vec::new(), render: Vec::new() });
                        self.num_rows = 1;
                        self.update_line(0);
                        self.cursor.col = 0;
                        self.bump_dirty();
                        assert(self.doc() =~~= seq![Seq::<char>::empty()]);
                    }
                    Action::Continue
                } else if c == ':' {
                    self.mode = Mode::Command;
                    self.status = crate::text::str_to_chars(":");
                    Action::Continue
                } else {
                    Action::Continue
                }
            },
            Keys::Enter => {
                self.move_cursor(Keys::Down);
                Action::Continue
            },
            Keys::BackSpace => {
                self.move_cursor(Keys::Left);
                Action::Continue
            },
            Keys::Esc => {
                self.mode = Mode::Normal;
                self.status = crate::text::str_to_chars("-- NORMAL --");
                Action::Continue
            },
            Keys::Left => {
                self.move_cursor(key);
                Action::Continue
            },
            Keys::Down => {
                self.move_cursor(key);
                Action::Continue
            },
            Keys::Up => {
                self.move_cursor(key);
                Action::Continue
            },
            Keys::Right => {
                self.move_cursor(key);
                Action::Continue
            },
            Keys::Home => {
                self.cursor.col = 0;
                Action::Continue
            },
            Keys::End => {
                if self.num_rows > 0 {
                    let l = self.rows[self.cursor.row].raw.len();
                    self.cursor.col = l;
                }
                Action::Continue
            },
            Keys::PageUp => {
                self.page_move(true);
                Action::Continue
            },
            Keys::PageDown => {
                self.page_move(false);
                Action::Continue
            },
            Keys::SaveFile => self.save(),
            _ => Action::Continue,
        }
    }

    /// Handles one key event in Insert mode.
    #[verifier::rlimit(50)]
    pub fn handle_insert(&mut self, key: Keys)
        requires
            old(self).wf(),
            old(self).mode == Mode::Insert,
        ensures
            final(self).wf(),
            insert_step(*old(self), key, *final(self)),
    {
        match key {
            Keys::Char(c) => {
                let col = self.cursor.col;
                self.row_insert_char(col, c);
                self.move_cursor(Keys::Right);
            },
            Keys::Enter => {
                let row = self.cursor.row;
                let col = self.cursor.col;
                self.split_line(row, col);
                self.cursor.row = row + 1;
                self.cursor.col = 0;
            },
            Keys::BackSpace => {
                let row = self.cursor.row;
                let col = self.cursor.col;
                if col > 0 {
                    self.delete_char_before(row, col);
                    self.cursor.col = col - 1;
                    proof {
                        assert(self.doc()[row as int] == self.rows@[row as int].raw@);
                        assert(self.doc()[row as int].len() == old(self).line(row as int).len()
                            - 1);
                    }
                } else if row > 0 {
                    let prev_len = self.rows[row - 1].raw.len();
                    self.delete_char_before(row, col);
                    self.cursor.row = row - 1;
                    self.cursor.col = prev_len;
                    proof {
                        assert(self.doc()[row - 1] == self.rows@[row - 1].raw@);
                        assert(self.doc()[row - 1].len() == old(self).line(row - 1).len() + old(
                            self,
                        ).line(row as int).len());
                    }
                }
            },
            Keys::Esc => {
                self.mode = Mode::Normal;
                self.status = crate::text::str_to_chars("-- NORMAL --");
            },
            Keys::Left => self.move_cursor(key),
            Keys::Down => self.move_cursor(key),
            Keys::Up => self.move_cursor(key),
            Keys::Right => self.move_cursor(key),
            Keys::Home => {
                self.cursor.col = 0;
            },
            Keys::End => {
                if self.num_rows > 0 {
                    let l = self.rows[self.cursor.row].raw.len();
                    self.cursor.col = l;
                }
            },
            Keys::PageUp => self.page_move(true),
            Keys::PageDown => self.page_move(false),
            _ => {},
        }
    }

    /// Handles one key event in Command mode.
    pub fn handle_command(&mut self, key: Keys) -> (r: Action)
        requires
            old(self).wf(),
            old(self).mode == Mode::Command,
        ensures
            final(self).wf(),
            command_mode_step(*old(self), key, *final(self), r),
    {
        match key {
            Keys::Char(c) => {
                self.status.push(c);
                Action::Continue
            },
            Keys::BackSpace => {
                self.status.pop();
                Action::Continue
            },
            Keys::Enter => self.execute_command(),
            Keys::Esc => {
                self.mode = Mode::Normal;
                self.status = crate::text::str_to_chars("-- NORMAL --");
                Action::Continue
            },
            _ => Action::Continue,
        }
    }

    /// Appends the text area to the frame being composed: one row per
    /// visible screen row, filled with `c` past the end of the document.
    #[verifier::rlimit(100)]
    pub fn render_row(&mut self, c: char)
        requires
            old(self).doc_wf(),
        ensures
            final(self).term_buf@ == old(self).term_buf@ + spec_rows_section(*old(self), c),
            same_except_buf(*old(self), *final(self)),
    {
        let visible = self.size.1 as usize;
        let mut i: usize = 0;
        assert(old(self).term_buf@ + spec_rows_upto(*old(self), c, 0) =~= old(self).term_buf@);
        while i < visible
            invariant
                i <= visible,
                visible == old(self).size.1 as usize,
                old(self).doc_wf(),
                same_except_buf(*old(self), *self),
                self.term_buf@ == old(self).term_buf@ + spec_rows_upto(*old(self), c, i as int),
            decreases visible - i,
        {
            let ghost pre_chunk = self.term_buf@;
            let remaining = if self.rowoffset < self.num_rows {
                self.num_rows - self.rowoffset
            } else {
                0
            };
            if i < remaining {
                let filerow = self.rowoffset + i;
                let on_cursor_row = self.cursor.row == filerow;
                let is_normal = matches!(self.mode, Mode::Normal);
                let line_ref: &Vec<char> = if on_cursor_row && !is_normal {
                    &self.rows[filerow].raw
                } else {
                    &self.rows[filerow].render
                };
                let llen = line_ref.len();
                let cols = self.size.0 as usize;
                let start = if self.coloffset < llen {
                    self.coloffset
                } else {
                    llen
                };
                let end = if self.coloffset < llen && llen - self.coloffset > cols {
                    self.coloffset + cols
                } else {
                    llen
                };
                crate::text::push_range(&mut self.term_buf, line_ref, start, end);
                proof {
                    assert(line_ref@.subrange(start as int, end as int) == spec_visible_line(
                        *old(self),
                        filerow as int,
                    ));
                }
            } else if self.num_rows == 0 && i == (self.size.1 as usize) / 3 {
                self.term_buf.push(c);
                let w = "Next Version 1.1";
                let wlen = w.unicode_len();
                let half = (self.size.0 as usize) / 2;
                let wh = wlen / 2;
                let pad = if half > wh {
                    half - wh - 1
                } else {
                    0
                };
                crate::text::push_spaces(&mut self.term_buf, pad);
                crate::text::push_str_chars(&mut self.term_buf, w);
            } else {
                self.term_buf.push(c);
            }
            crate::text::push_str_chars(&mut self.term_buf, "\x1b[K");
            crate::text::push_str_chars(&mut self.term_buf, "\r\n");
            proof {
                assert(self.term_buf@ =~= pre_chunk + spec_row_chunk(*old(self), c, i as int));
            }
            i = i + 1;
        }
    }

    /// Appends the status bar to the frame being composed.
    #[verifier::rlimit(100)]
    pub fn draw_status_bar(&mut self)
        ensures
            final(self).term_buf@ == old(self).term_buf@ + spec_status_bar(*old(self)),
            same_except_buf(*old(self), *final(self)),
    {
        crate::text::push_str_chars(&mut self.term_buf, "\x1b[7m");
        let mut left: Vec<char> = Vec::new();
        crate::text::push_str_chars(&mut left, " ");
        match &self.filename {
            Some(name) => {
                crate::text::push_range(&mut left, name, 0, name.len());
                proof {
                    assert(name@.subrange(0, name@.len() as int) =~= name@);
                }
            },
            None => {
                crate::text::push_str_chars(&mut left, "[No Name]");
            },
        }
        if self.dirty != 0 {
            crate::text::push_str_chars(&mut left, " (modified) ");
        }
        crate::text::push_str_chars(&mut left, "- ");
        crate::text::push_dec(&mut left, self.num_rows);
        crate::text::push_str_chars(&mut left, " lines");
        let mut right: Vec<char> = Vec::new();
        crate::text::push_dec(&mut right, self.cursor.row);
        crate::text::push_str_chars(&mut right, ",");
        crate::text::push_dec(&mut right, self.cursor.col);
        crate::text::push_str_chars(&mut right, " ");
        assert(left@ == spec_status_left(*old(self)));
        assert(right@ == spec_status_right(*old(self)));
        let llen = left.len();
        let rlen = right.len();
        let cols = self.size.0 as usize;
        let pad = if cols > llen && cols - llen > rlen {
            cols - llen - rlen
        } else {
            0
        };
        crate::text::push_range(&mut self.term_buf, &left, 0, llen);
        crate::text::push_spaces(&mut self.term_buf, pad);
        crate::text::push_range(&mut self.term_buf, &right, 0, rlen);
        crate::text::push_str_chars(&mut self.term_buf, "\x1b[m");
        crate::text::push_str_chars(&mut self.term_buf, "\r\n");
        proof {
            assert(left@.subrange(0, llen as int) =~= left@);
            assert(right@.subrange(0, rlen as int) =~= right@);
            assert(final(self).term_buf@ =~= old(self).term_buf@ + spec_status_bar(*old(self)));
        }
    }

    /// Appends the message bar to the frame being composed.
    pub fn draw_message_bar(&mut self)
        ensures
            final(self).term_buf@ == old(self).term_buf@ + spec_message_bar(*old(self)),
            same_except_buf(*old(self), *final(self)),
    {
        crate::text::push_str_chars(&mut self.term_buf, "\x1b[K");
        let n = self.status.len();
        crate::text::push_range(&mut self.term_buf, &self.status, 0, n);
        proof {
            assert(self.status@.subrange(0, n as int) =~= self.status@);
        }
    }

    /// Composes one full frame into `term_buf`: recomputes the scroll
    /// offsets so the cursor is visible, then lays down the text area, the
    /// status and message bars, and the cursor positioning.
    #[verifier::rlimit(100)]
    pub fn refresh_screen(&mut self)
        requires
            old(self).wf(),
        ensures
            final(self).wf(),
            final(self).viewport_ok(),
            final(self).rowoffset == old(self).spec_scrolled_row_offset(),
            final(self).coloffset == old(self).spec_scrolled_col_offset(),
            final(self).cursor == old(self).cursor,
            final(self).size == old(self).size,
            Terminal::same_document(*old(self), *final(self)),
            Terminal::same_file_state(*old(self), *final(self)),
            Terminal::same_mode_line(*old(self), *final(self)),
            final(self).term_buf@ == spec_frame(*final(self)),
    {
        self.editor_scroll();
        self.term_buf = Vec::new();
        crate::text::push_str_chars(&mut self.term_buf, "\x1b[?25l");
        crate::text::push_str_chars(&mut self.term_buf, "\x1b[H");
        let ghost m1 = *self;
        self.render_row('~');
        let ghost m2 = *self;
        self.draw_status_bar();
        let ghost m3 = *self;
        self.draw_message_bar();
        crate::text::push_str_chars(&mut self.term_buf, "\x1b[");
        crate::text::push_dec(&mut self.term_buf, self.cursor.row - self.rowoffset + 1);
        crate::text::push_str_chars(&mut self.term_buf, ";");
        crate::text::push_dec(&mut self.term_buf, self.cursor.col - self.coloffset + 1);
        crate::text::push_str_chars(&mut self.term_buf, "H");
        crate::text::push_str_chars(&mut self.term_buf, "\x1b[?25h");
        proof {
            lemma_frame_same_state(m1, *final(self));
            lemma_rows_upto_same_state(m1, *final(self), '~', m1.size.1 as int);
            lemma_frame_same_state(m2, *final(self));
            lemma_frame_same_state(m3, *final(self));
            assert(spec_status_bar(m2) == spec_status_bar(*final(self)));
            assert(spec_message_bar(m3) == spec_message_bar(*final(self)));
            assert(spec_cursor_restore(*final(self)) == "\x1b["@ + crate::text::spec_dec(
                final(self).cursor.row - final(self).rowoffset + 1,
            ) + ";"@ + crate::text::spec_dec(final(self).cursor.col - final(self).coloffset + 1)
                + "H"@);
            assert(final(self).term_buf@ =~= spec_frame(*final(self)));
        }
    }

    /// Interprets one key event against the current mode, mutating the
    /// editor state and handing back the outside work the event asks for.
    pub fn handle_input(&mut self, key: Keys) -> (r: Action)
        requires
            old(self).wf(),
        ensures
            final(self).wf(),
            old(self).mode == Mode::Normal ==> normal_step(*old(self), key, *final(self), r),
            old(self).mode == Mode::Insert ==> insert_step(*old(self), key, *final(self)) && r
                is Continue,
            old(self).mode == Mode::Command ==> command_mode_step(*old(self), key, *final(self), r),
    {
        match self.mode {
            Mode::Normal => self.handle_normal(key),
            Mode::Insert => {
                self.handle_insert(key);
                Action::Continue
            },
            Mode::Command => self.handle_command(key),
        }
    }
}

// ---------------------------------------------------------------------------
// The composed frame
// ---------------------------------------------------------------------------
/// The banner shown on an empty document.
pub open spec fn welcome_text() -> Seq<char> {
    "Next Version 1.1"@
}

/// The screen row holding the version banner: the fill character, padding
/// that roughly centres the banner, and the banner text.
pub open spec fn spec_banner(t: Terminal, c: char) -> Seq<char> {
    let half = t.size.0 as int / 2;
    let wh = welcome_text().len() as int / 2;
    let pad = if half > wh {
        half - wh - 1
    } else {
        0
    };
    seq![c] + crate::text::spec_spaces(pad) + welcome_text()
}

/// What document line `filerow` shows on screen: its render cache — or its
/// raw text on the cursor's row while editing outside Normal mode, so
/// in-progress edits are never obscured by decoration — clipped to the
/// viewport's column window.
pub open spec fn spec_visible_line(t: Terminal, filerow: int) -> Seq<char> {
    let line = if t.cursor.row == filerow && t.mode != Mode::Normal {
        t.rows@[filerow].raw@
    } else {
        t.rows@[filerow].render@
    };
    let off = t.coloffset as int;
    let len = line.len() as int;
    let cols = t.size.0 as int;
    let start = if off < len {
        off
    } else {
        len
    };
    let end = if off + cols < len {
        off + cols
    } else {
        len
    };
    line.subrange(start, end)
}

/// One screen row of the text area: document content, the banner, or the
/// fill character, always closed by erase-to-end-of-line and a row break.
pub open spec fn spec_row_chunk(t: Terminal, c: char, i: int) -> Seq<char> {
    let filerow = t.rowoffset + i;
    let content = if filerow < t.num_rows {
        spec_visible_line(t, filerow as int)
    } else if t.num_rows == 0 && i == t.size.1 as int / 3 {
        spec_banner(t, c)
    } else {
        seq![c]
    };
    content + "\x1b[K"@ + "\r\n"@
}

/// The first `k` screen rows of the text area.
pub open spec fn spec_rows_upto(t: Terminal, c: char, k: int) -> Seq<char>
    decreases k,
{
    if k <= 0 {
        Seq::empty()
    } else {
        spec_rows_upto(t, c, k - 1) + spec_row_chunk(t, c, k - 1)
    }
}

/// The whole text area: one chunk per visible screen row.
pub open spec fn spec_rows_section(t: Terminal, c: char) -> Seq<char> {
    spec_rows_upto(t, c, t.size.1 as int)
}

/// The left half of the status bar: filename or its placeholder, the
/// modified marker, and the line count.
pub open spec fn spec_status_left(t: Terminal) -> Seq<char> {
    " "@ + (match t.filename {
        Some(f) => f@,
        None => "[No Name]"@,
    }) + (if t.dirty != 0 {
        " (modified) "@
    } else {
        Seq::<char>::empty()
    }) + "- "@ + crate::text::spec_dec(t.num_rows as int) + " lines"@
}

/// The right half of the status bar: the cursor's row and column.
pub open spec fn spec_status_right(t: Terminal) -> Seq<char> {
    crate::text::spec_dec(t.cursor.row as int) + ","@ + crate::text::spec_dec(t.cursor.col as int)
        + " "@
}

/// The status bar: inverse video, the two halves padded apart to fill the
/// window width, video reset and a row break.
pub open spec fn spec_status_bar(t: Terminal) -> Seq<char> {
    let left = spec_status_left(t);
    let right = spec_status_right(t);
    let pad = if t.size.0 as int > left.len() + right.len() {
        t.size.0 as int - (left.len() + right.len())
    } else {
        0
    };
    "\x1b[7m"@ + left + crate::text::spec_spaces(pad) + right + "\x1b[m"@ + "\r\n"@
}

/// The message bar: erase-to-end-of-line, then the message text.
pub open spec fn spec_message_bar(t: Terminal) -> Seq<char> {
    "\x1b[K"@ + t.status@
}

/// The escape sequence placing the real cursor at its screen position.
pub open spec fn spec_cursor_restore(t: Terminal) -> Seq<char> {
    "\x1b["@ + crate::text::spec_dec(t.cursor.row - t.rowoffset + 1) + ";"@
        + crate::text::spec_dec(t.cursor.col - t.coloffset + 1) + "H"@
}

/// One full display frame: hide the cursor, home, the text area, the
/// status and message bars, the cursor restored to its place, and the
/// cursor shown again.
pub open spec fn spec_frame(t: Terminal) -> Seq<char> {
    "\x1b[?25l"@ + "\x1b[H"@ + spec_rows_section(t, '~') + spec_status_bar(t) + spec_message_bar(t)
        + spec_cursor_restore(t) + "\x1b[?25h"@
}

/// `b` differs from `a` at most in the frame being composed.
pub open spec fn same_except_buf(a: Terminal, b: Terminal) -> bool {
    &&& Terminal::same_document(a, b)
    &&& Terminal::same_cursor(a, b)
    &&& Terminal::same_viewport(a, b)
    &&& Terminal::same_file_state(a, b)
    &&& Terminal::same_mode_line(a, b)
}

/// The text area reads nothing from the frame being composed.
proof fn lemma_rows_upto_same_state(a: Terminal, b: Terminal, c: char, k: int)
    requires
        same_except_buf(a, b),
    ensures
        spec_rows_upto(a, c, k) == spec_rows_upto(b, c, k),
    decreases k,
{
    if k > 0 {
        lemma_rows_upto_same_state(a, b, c, k - 1);
        assert(spec_visible_line(a, a.rowoffset + k - 1) == spec_visible_line(
            b,
            b.rowoffset + k - 1,
        ));
        assert(spec_row_chunk(a, c, k - 1) == spec_row_chunk(b, c, k - 1));
    }
}

/// The whole frame reads nothing from the frame being composed.
proof fn lemma_frame_same_state(a: Terminal, b: Terminal)
    requires
        same_except_buf(a, b),
    ensures
        spec_frame(a) == spec_frame(b),
{
    lemma_rows_upto_same_state(a, b, '~', a.size.1 as int);
    assert(spec_status_left(a) == spec_status_left(b));
    assert(spec_status_right(a) == spec_status_right(b));
    assert(spec_status_bar(a) == spec_status_bar(b));
    assert(spec_message_bar(a) == spec_message_bar(b));
    assert(spec_cursor_restore(a) == spec_cursor_restore(b));
}

// ---------------------------------------------------------------------------
// Command tokens
// ---------------------------------------------------------------------------
/// The whitespace-separated tokens of the command line, in order.
pub open spec fn spec_tokens(s: Seq<char>) -> Seq<Seq<char>>
    decreases s.len(),
    via spec_tokens_decreases
{
    if s.len() == 0 {
        Seq::empty()
    } else if is_space(s[0]) {
        spec_tokens(s.drop_first())
    } else {
        match find_ws(s, 0) {
            None => seq![s],
            Some(w) => seq![s.subrange(0, w)] + spec_tokens(s.subrange(w, s.len() as int)),
        }
    }
}

#[via_fn]
proof fn spec_tokens_decreases(s: Seq<char>) {
    lemma_find_ws_bounds(s, 0);
}

/// `l` holds no whitespace character.
pub open spec fn no_space(l: Seq<char>) -> bool {
    forall|k: int| 0 <= k < l.len() ==> !is_space(l[k])
}

/// A non-empty whitespace-free word opening the text is its first token.
proof fn lemma_tokens_word(cur: Seq<char>, rest: Seq<char>)
    requires
        cur.len() > 0,
        no_space(cur),
        rest.len() == 0 || is_space(rest[0]),
    ensures
        spec_tokens(cur + rest) == seq![cur] + spec_tokens(rest),
{
    let s = cur + rest;
    if rest.len() == 0 {
        assert(s =~= cur);
        lemma_find_ws_absent(cur, 0);
        assert(spec_tokens(rest) =~= Seq::<Seq<char>>::empty());
        assert(seq![cur] + Seq::<Seq<char>>::empty() =~= seq![cur]);
    } else {
        lemma_find_ws_first(s, 0, cur.len() as int);
        assert(s.subrange(0, cur.len() as int) =~= cur);
        assert(s.subrange(cur.len() as int, s.len() as int) =~= rest);
    }
}

/// Splits the command line into its whitespace-separated tokens.
pub fn split_tokens(s: &Vec<char>) -> (r: Vec<Vec<char>>)
    ensures
        views_of(r@) == spec_tokens(s@),
{
    let n = s.len();
    let mut r: Vec<Vec<char>> = Vec::new();
    let mut cur: Vec<char> = Vec::new();
    let mut i: usize = 0;
    proof {
        assert(cur@ + s@.subrange(0, n as int) =~= s@);
        assert(views_of(r@) =~= Seq::<Seq<char>>::empty());
    }
    while i < n
        invariant
            i <= n,
            n == s@.len(),
            no_space(cur@),
            spec_tokens(s@) == views_of(r@) + spec_tokens(cur@ + s@.subrange(i as int, n as int)),
        decreases n - i,
    {
        let c = s[i];
        let ghost old_r = r@;
        let ghost old_cur = cur@;
        let ghost rest = s@.subrange(i as int, n as int);
        if crate::text::space_char(c) {
            if cur.len() > 0 {
                proof {
                    lemma_tokens_word(old_cur, rest);
                }
                r.push(cur);
                cur = Vec::new();
                proof {
                    assert(views_of(r@) =~= views_of(old_r).push(old_cur));
                    assert(views_of(old_r) + (seq![old_cur] + spec_tokens(rest)) =~= views_of(
                        old_r,
                    ).push(old_cur) + spec_tokens(rest));
                }
            }
            proof {
                assert(cur@ + rest =~= rest);
                assert(rest.drop_first() =~= s@.subrange(i + 1, n as int));
                assert(cur@ + s@.subrange(i + 1, n as int) =~= rest.drop_first());
            }
        } else {
            cur.push(c);
            proof {
                assert(cur@ + s@.subrange(i + 1, n as int) =~= old_cur + rest);
            }
        }
        i = i + 1;
    }
    proof {
        assert(cur@ + s@.subrange(n as int, n as int) =~= cur@);
    }
    if cur.len() > 0 {
        let ghost old_r = r@;
        let ghost old_cur = cur@;
        proof {
            lemma_tokens_word(old_cur, Seq::<char>::empty());
            assert(old_cur + Seq::<char>::empty() =~= old_cur);
            assert(spec_tokens(Seq::<char>::empty()) =~= Seq::<Seq<char>>::empty());
        }
        r.push(cur);
        proof {
            assert(views_of(r@) =~= views_of(old_r).push(old_cur));
            assert(views_of(old_r) + (seq![old_cur] + Seq::<Seq<char>>::empty()) =~= views_of(
                old_r,
            ).push(old_cur));
        }
    } else {
        proof {
            assert(spec_tokens(cur@) =~= Seq::<Seq<char>>::empty());
            assert(views_of(r@) + Seq::<Seq<char>>::empty() =~= views_of(r@));
        }
    }
    r
}

/// Serializing then splitting restores the lines exactly, for any document
/// whose lines hold no newline, whose last line is non-empty, and where no
/// line before the last ends in a carriage return. (A final empty line
/// would serialize to a trailing newline, which splitting does not reopen;
/// a carriage return before a separator would be read back as a CRLF
/// terminator and shed.)
pub proof fn lemma_serialize_load_roundtrip(lines: Seq<Seq<char>>)
    requires
        forall|i: int| 0 <= i < lines.len() ==> no_newline(#[trigger] lines[i]),
        forall|i: int|
            0 <= i < lines.len() - 1 ==> ((#[trigger] lines[i]).len() == 0 || lines[i].last()
                != '\r'),
        lines.len() == 0 || lines.last().len() > 0,
    ensures
        spec_split(spec_join(lines)) == lines,
    decreases lines.len(),
{
    if lines.len() == 0 {
    } else if lines.len() == 1 {
        lemma_split_single(lines[0]);
        assert(seq![lines[0]] =~= lines);
    } else {
        let rest = lines.drop_first();
        assert(forall|i: int| 0 <= i < rest.len() ==> no_newline(#[trigger] rest[i]));
        assert(forall|i: int|
            0 <= i < rest.len() - 1 ==> ((#[trigger] rest[i]).len() == 0 || rest[i].last()
                != '\r'));
        assert(rest.last() =~= lines.last());
        lemma_serialize_load_roundtrip(rest);
        lemma_split_head(lines[0], spec_join(rest));
        assert(drop_cr(lines[0]) == lines[0]);
        assert(seq![lines[0]] + rest =~= lines);
    }
}

/// Inserting a character into a line and deleting it again restores the
/// line exactly: the backward delete at `col + 1` removes what the insert
/// at `col` put there.
pub proof fn lemma_insert_delete_inverse(line: Seq<char>, col: int, c: char)
    requires
        0 <= col <= line.len(),
    ensures
        line.insert(col, c).remove(col) == line,
{
    assert(line.insert(col, c).remove(col) =~= line);
}

/// Typing any character in Insert mode and pressing Backspace right after
/// restores the document and the cursor exactly: the insert/delete inverse
/// law, at the level of whole key events.
pub proof fn lemma_type_then_backspace_restores(
    pre: Terminal,
    mid: Terminal,
    post: Terminal,
    c: char,
)
    requires
        pre.wf(),
        pre.mode == Mode::Insert,
        insert_step(pre, Keys::Char(c), mid),
        insert_step(mid, Keys::BackSpace, post),
    ensures
        post.doc() == pre.doc(),
        post.cursor == pre.cursor,
{
    let row = pre.cursor.row as int;
    let col = pre.cursor.col as int;
    let ins = pre.line(row).insert(col, c);
    assert(pre.doc().len() == pre.num_rows);
    assert(mid.doc() == pre.doc().update(row, ins));
    assert(mid.cursor.col as int == col + 1);
    assert(mid.doc().len() == mid.rows@.len());
    assert(0 <= row < mid.rows@.len());
    assert(mid.line(row) == mid.doc()[row]);
    assert(mid.line(row) == ins);
    lemma_insert_delete_inverse(pre.line(row), col, c);
    assert(pre.doc()[row] == pre.line(row));
    assert(post.doc() == mid.doc().update(row, mid.line(row).remove(col)));
    assert(post.doc() =~= pre.doc());
    assert(post.cursor == pre.cursor);
}

} // verus!
