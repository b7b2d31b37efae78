//! Multi-line text input (the chat box): editing, cursor movement,
//! selection and scrolling, stated over a mathematical model of the editor.

use vstd::prelude::*;
use vstd::utf8::*;
use crate::text::{
    boundary, byte_len, bytes_of, char_bytes, cut_bytes, insert_bytes, lemma_cut_boundaries,
    lemma_insert_then_cut, lemma_next_boundary, next_char_width, string_insert, string_push,
    string_remove,
};
use crate::validation::chars_of;

verus! {

broadcast use vstd::utf8::group_utf8_lib;

/// The editor as mathematics sees it.
pub struct EditorModel {
    pub lines: Seq<Seq<char>>,
    pub placeholder: Seq<char>,
    pub focused: bool,
    pub cursor_line: usize,
    pub cursor_col: usize,
    pub selection_start: Option<(usize, usize)>,
    pub max_lines: Option<usize>,
    pub disabled: bool,
    pub display_lines: usize,
    pub scroll_offset: usize,
    pub user_has_scrolled: bool,
}

/// Multi-line text input. `cursor_col` is a byte offset into the cursor's
/// line for editing; selections count characters.
pub struct MultilineTextInput {
    /// Lines of text
    pub lines: Vec<String>,
    /// Placeholder text when empty
    pub placeholder: String,
    /// Whether the input is focused
    pub focused: bool,
    /// Cursor line position
    pub cursor_line: usize,
    /// Cursor column position
    pub cursor_col: usize,
    /// Selection start (line, col) if any
    pub selection_start: Option<(usize, usize)>,
    /// Maximum number of lines (None for unlimited)
    pub max_lines: Option<usize>,
    /// Whether the input is disabled
    pub disabled: bool,
    /// Height in lines to display
    pub display_lines: usize,
    /// Scroll offset (first visible line)
    pub scroll_offset: usize,
    /// Whether the user has scrolled by hand (disables following the end)
    pub user_has_scrolled: bool,
}

impl View for MultilineTextInput {
    type V = EditorModel;

    open spec fn view(&self) -> EditorModel {
        EditorModel {
            lines: self.lines@.map_values(|l: String| l@),
            placeholder: self.placeholder@,
            focused: self.focused,
            cursor_line: self.cursor_line,
            cursor_col: self.cursor_col,
            selection_start: self.selection_start,
            max_lines: self.max_lines,
            disabled: self.disabled,
            display_lines: self.display_lines,
            scroll_offset: self.scroll_offset,
            user_has_scrolled: self.user_has_scrolled,
        }
    }
}

/// Byte length of a line.
pub open spec fn blen(l: Seq<char>) -> int {
    bytes_of(l).len() as int
}

/// The editor holds at least one line and the cursor is on one of them.
pub open spec fn wf(m: EditorModel) -> bool {
    m.lines.len() > 0 && m.cursor_line < m.lines.len()
}

/// The line under the cursor.
pub open spec fn cur(m: EditorModel) -> Seq<char> {
    m.lines[m.cursor_line as int]
}

/// Keeps the cursor's line within the displayed window.
pub open spec fn scrolled(m: EditorModel) -> EditorModel {
    if m.cursor_line < m.scroll_offset {
        EditorModel { scroll_offset: m.cursor_line, ..m }
    } else if m.cursor_line - m.scroll_offset >= m.display_lines {
        EditorModel { scroll_offset: (m.cursor_line - m.display_lines + 1) as usize, ..m }
    } else {
        m
    }
}

/// Follows the end of the text again.
pub open spec fn followed(m: EditorModel) -> EditorModel {
    EditorModel { user_has_scrolled: false, ..m }
}

/// The maximum number of lines is reached.
pub open spec fn at_max_lines(m: EditorModel) -> bool {
    match m.max_lines {
        Some(max) => m.lines.len() >= max,
        None => false,
    }
}

/// Splitting the cursor's line at the cursor is possible.
pub open spec fn newline_ok(m: EditorModel) -> bool {
    at_max_lines(m) || boundary(cur(m), m.cursor_col as int)
}

/// Splits the cursor's line at the cursor (unless the line limit is reached).
pub open spec fn newline(m: EditorModel) -> EditorModel {
    if at_max_lines(m) {
        m
    } else {
        let b = bytes_of(cur(m));
        let before = decode_utf8(b.subrange(0, m.cursor_col as int));
        let after = decode_utf8(b.subrange(m.cursor_col as int, b.len() as int));
        followed(scrolled(EditorModel {
            lines: m.lines.update(m.cursor_line as int, before).insert(m.cursor_line + 1, after),
            cursor_line: (m.cursor_line + 1) as usize,
            cursor_col: 0,
            ..m
        }))
    }
}

/// Typing `c` is possible.
pub open spec fn insert_ok(m: EditorModel, c: char) -> bool {
    !m.disabled ==> if c == '\n' {
        newline_ok(m)
    } else {
        boundary(cur(m), m.cursor_col as int) && m.cursor_col < usize::MAX
    }
}

/// Types `c` at the cursor (a line break splits the line).
pub open spec fn insert(m: EditorModel, c: char) -> EditorModel {
    if m.disabled {
        m
    } else if c == '\n' {
        newline(m)
    } else {
        let l = decode_utf8(insert_bytes(bytes_of(cur(m)), m.cursor_col as int, char_bytes(c)));
        followed(EditorModel {
            lines: m.lines.update(m.cursor_line as int, l),
            cursor_col: (m.cursor_col + 1) as usize,
            ..m
        })
    }
}

/// Backspace is possible.
pub open spec fn backspace_ok(m: EditorModel) -> bool {
    !m.disabled && m.cursor_col > 0 ==> boundary(cur(m), m.cursor_col - 1) && m.cursor_col - 1 < blen(cur(m))
}

/// Removes the character before the cursor, or joins the line to the
/// previous one at its start.
pub open spec fn backspace(m: EditorModel) -> EditorModel {
    if m.disabled {
        m
    } else if m.cursor_col > 0 {
        let at = m.cursor_col - 1;
        let b = bytes_of(cur(m));
        let l = decode_utf8(cut_bytes(b, at, at + next_char_width(b, at)));
        followed(EditorModel {
            lines: m.lines.update(m.cursor_line as int, l),
            cursor_col: at as usize,
            ..m
        })
    } else if m.cursor_line > 0 {
        let rest = m.lines.remove(m.cursor_line as int);
        let prev = rest[m.cursor_line - 1];
        followed(scrolled(EditorModel {
            lines: rest.update(m.cursor_line - 1, prev + cur(m)),
            cursor_line: (m.cursor_line - 1) as usize,
            cursor_col: blen(prev) as usize,
            ..m
        }))
    } else {
        followed(m)
    }
}

/// Delete is possible.
pub open spec fn delete_ok(m: EditorModel) -> bool {
    !m.disabled && m.cursor_col < blen(cur(m)) ==> boundary(cur(m), m.cursor_col as int)
}

/// Removes the character at the cursor, or joins the next line at the end.
pub open spec fn delete(m: EditorModel) -> EditorModel {
    if m.disabled {
        m
    } else if m.cursor_col < blen(cur(m)) {
        let at = m.cursor_col as int;
        let b = bytes_of(cur(m));
        let l = decode_utf8(cut_bytes(b, at, at + next_char_width(b, at)));
        followed(EditorModel { lines: m.lines.update(m.cursor_line as int, l), ..m })
    } else if m.cursor_line < m.lines.len() - 1 {
        let next = m.lines[m.cursor_line + 1];
        let rest = m.lines.remove(m.cursor_line + 1);
        followed(EditorModel { lines: rest.update(m.cursor_line as int, cur(m) + next), ..m })
    } else {
        followed(m)
    }
}

/// The smaller of a column and a line's byte length.
pub open spec fn clamp_col(col: usize, l: Seq<char>) -> usize {
    if col <= blen(l) { col } else { blen(l) as usize }
}

/// Cursor one line up, the column clamped to that line.
pub open spec fn up(m: EditorModel) -> EditorModel {
    if m.cursor_line > 0 {
        let line = (m.cursor_line - 1) as usize;
        scrolled(EditorModel { cursor_line: line, cursor_col: clamp_col(m.cursor_col, m.lines[line as int]), ..m })
    } else {
        m
    }
}

/// Cursor one line down, the column clamped to that line.
pub open spec fn down(m: EditorModel) -> EditorModel {
    if m.cursor_line < m.lines.len() - 1 {
        let line = (m.cursor_line + 1) as usize;
        scrolled(EditorModel { cursor_line: line, cursor_col: clamp_col(m.cursor_col, m.lines[line as int]), ..m })
    } else {
        m
    }
}

/// Cursor one byte left, or to the end of the previous line.
pub open spec fn left(m: EditorModel) -> EditorModel {
    if m.cursor_col > 0 {
        EditorModel { cursor_col: (m.cursor_col - 1) as usize, ..m }
    } else if m.cursor_line > 0 {
        let line = (m.cursor_line - 1) as usize;
        scrolled(EditorModel { cursor_line: line, cursor_col: blen(m.lines[line as int]) as usize, ..m })
    } else {
        m
    }
}

/// Cursor one byte right, or to the start of the next line.
pub open spec fn right(m: EditorModel) -> EditorModel {
    if m.cursor_col < blen(cur(m)) {
        EditorModel { cursor_col: (m.cursor_col + 1) as usize, ..m }
    } else if m.cursor_line < m.lines.len() - 1 {
        scrolled(EditorModel { cursor_line: (m.cursor_line + 1) as usize, cursor_col: 0, ..m })
    } else {
        m
    }
}

/// Follows the end and scrolls so that the last lines show.
pub open spec fn typing_scrolled(m: EditorModel) -> EditorModel {
    EditorModel {
        user_has_scrolled: false,
        scroll_offset: (if m.lines.len() > m.display_lines {
            m.lines.len() - m.display_lines
        } else {
            0
        }) as usize,
        ..m
    }
}

/// The lines joined with line breaks.
pub open spec fn joined(lines: Seq<Seq<char>>) -> Seq<char>
    decreases lines.len(),
{
    if lines.len() == 0 {
        Seq::empty()
    } else if lines.len() == 1 {
        lines[0]
    } else {
        joined(lines.drop_last()).push('\n') + lines.last()
    }
}

/// `s` cut at every line feed (the pieces between them; one more piece than
/// there are line feeds).
pub open spec fn split_nl(s: Seq<char>) -> Seq<Seq<char>>
    decreases s.len(),
{
    if s.len() == 0 {
        seq![Seq::empty()]
    } else {
        let r = split_nl(s.drop_last());
        if s.last() == '\n' {
            r.push(Seq::empty())
        } else {
            r.update(r.len() - 1, r.last().push(s.last()))
        }
    }
}

/// A line without the carriage return that ended it, if any.
pub open spec fn strip_cr(l: Seq<char>) -> Seq<char> {
    if l.len() > 0 && l.last() == '\r' {
        l.drop_last()
    } else {
        l
    }
}

/// The lines of `s` as `str::lines` yields them: every line ended by a line
/// feed loses it and a carriage return before it; a last line without a line
/// feed is kept as is, and an empty one is dropped.
pub open spec fn text_lines(s: Seq<char>) -> Seq<Seq<char>> {
    let p = split_nl(s);
    let done = p.drop_last().map_values(|l: Seq<char>| strip_cr(l));
    if p.last().len() == 0 {
        done
    } else {
        done.push(p.last())
    }
}

/// `split_nl` always yields a piece.
pub proof fn lemma_split_nl_len(s: Seq<char>)
    ensures
        split_nl(s).len() >= 1,
    decreases s.len(),
{
    if s.len() > 0 {
        lemma_split_nl_len(s.drop_last());
    }
}

/// A non-empty text has at least one line.
pub proof fn lemma_text_lines_nonempty(s: Seq<char>)
    requires
        s.len() > 0,
    ensures
        text_lines(s).len() >= 1,
{
    lemma_split_nl_len(s.drop_last());
}

/// The model after `set_text(s)`.
pub open spec fn with_text(m: EditorModel, s: Seq<char>) -> EditorModel {
    let lines = if s.len() == 0 { seq![Seq::<char>::empty()] } else { text_lines(s) };
    scrolled(EditorModel {
        lines,
        cursor_line: (if lines.len() > 0 { lines.len() - 1 } else { 0 }) as usize,
        cursor_col: (if lines.len() > 0 { blen(lines.last()) } else { 0 }) as usize,
        ..m
    })
}

/// The model after `clear()`.
pub open spec fn cleared(m: EditorModel) -> EditorModel {
    EditorModel {
        lines: seq![Seq::<char>::empty()],
        cursor_line: 0,
        cursor_col: 0,
        scroll_offset: 0,
        selection_start: None,
        ..m
    }
}

/// The model after a mouse wheel step `delta` (positive scrolls up), and
/// whether the scroll offset moved.
pub open spec fn wheeled(m: EditorModel, delta: i32) -> (EditorModel, bool) {
    if !m.focused || m.lines.len() <= m.display_lines {
        (m, false)
    } else {
        let max_offset = m.lines.len() - m.display_lines;
        let offset = if delta > 0 {
            if m.scroll_offset > 0 { m.scroll_offset - 1 } else { 0 }
        } else {
            if m.scroll_offset + 1 <= max_offset { m.scroll_offset + 1 } else { max_offset }
        };
        (EditorModel { user_has_scrolled: true, scroll_offset: offset as usize, ..m }, offset != m.scroll_offset)
    }
}

/// Views of strings distribute over `push`.
pub proof fn lemma_views_push(v: Seq<String>, x: String)
    ensures
        v.push(x).map_values(|l: String| l@) == v.map_values(|l: String| l@).push(x@),
{
    assert(v.push(x).map_values(|l: String| l@) =~= v.map_values(|l: String| l@).push(x@));
}

/// Stripping carriage returns distributes over `push`.
pub proof fn lemma_strip_push(v: Seq<Seq<char>>, x: Seq<char>)
    ensures
        v.push(x).map_values(|l: Seq<char>| strip_cr(l)) == v.map_values(|l: Seq<char>| strip_cr(l)).push(strip_cr(x)),
{
    assert(v.push(x).map_values(|l: Seq<char>| strip_cr(l)) =~= v.map_values(|l: Seq<char>| strip_cr(l)).push(strip_cr(x)));
}

/// Selection ends in document order: (first line, first column, last line,
/// last column).
pub open spec fn ordered_ends(sl: usize, sc: usize, el: usize, ec: usize) -> (usize, usize, usize, usize) {
    if sl < el || (sl == el && sc <= ec) {
        (sl, sc, el, ec)
    } else {
        (el, ec, sl, sc)
    }
}

/// The ends of the current selection in document order.
pub open spec fn sel_ends(m: EditorModel) -> (usize, usize, usize, usize) {
    let (sl, sc) = m.selection_start.unwrap();
    ordered_ends(sl, sc, m.cursor_line, m.cursor_col)
}

/// Whole lines `from..to` (those that exist), each followed by a line break.
pub open spec fn middle_lines(lines: Seq<Seq<char>>, from: int, to: int) -> Seq<char>
    decreases to - from,
{
    if to <= from {
        Seq::empty()
    } else {
        middle_lines(lines, from, to - 1) + (if to - 1 < lines.len() {
            lines[to - 1].push('\n')
        } else {
            Seq::empty()
        })
    }
}

/// Reading the selection does not index past the lines.
pub open spec fn selection_readable(m: EditorModel) -> bool {
    m.selection_start is Some ==> {
        let (a, ac, b, bc) = sel_ends(m);
        a == b ==> a < m.lines.len()
    }
}

/// A well-formed editor can always read its selection.
pub proof fn lemma_wf_selection_readable(m: EditorModel)
    requires
        wf(m),
    ensures
        selection_readable(m),
{
}

/// The selected text, counting columns in characters: within one line the
/// characters between the ends; across lines the tail of the first line, the
/// lines between and the head of the last, with line breaks; `None` when
/// that is empty.
pub open spec fn selection_text(m: EditorModel) -> Option<Seq<char>> {
    match m.selection_start {
        None => None,
        Some(_) => {
            let (a, ac, b, bc) = sel_ends(m);
            if a == b {
                let l = m.lines[a as int];
                if ac < l.len() && bc <= l.len() && ac < bc {
                    Some(l.subrange(ac as int, bc as int))
                } else {
                    None
                }
            } else {
                let first = if a < m.lines.len() && ac < m.lines[a as int].len() {
                    m.lines[a as int].subrange(ac as int, m.lines[a as int].len() as int).push('\n')
                } else {
                    Seq::empty()
                };
                let last = if b < m.lines.len() && bc > 0 && bc <= m.lines[b as int].len() {
                    m.lines[b as int].subrange(0, bc as int)
                } else {
                    Seq::empty()
                };
                let t = first + middle_lines(m.lines, a + 1, b as int) + last;
                if t.len() == 0 { None } else { Some(t) }
            }
        },
    }
}

/// The first `n` characters of `l` (all of them if fewer).
pub open spec fn take_chars(l: Seq<char>, n: int) -> Seq<char> {
    if n <= l.len() { l.subrange(0, n) } else { l }
}

/// `l` without its first `n` characters (nothing if fewer).
pub open spec fn skip_chars(l: Seq<char>, n: int) -> Seq<char> {
    if n <= l.len() { l.subrange(n, l.len() as int) } else { Seq::empty() }
}

/// Deleting the selection does not index past the lines.
pub open spec fn deletion_ok(m: EditorModel) -> bool {
    m.selection_start is Some ==> {
        let (a, ac, b, bc) = sel_ends(m);
        a < m.lines.len() && b < m.lines.len()
    }
}

/// The lines once the selection is deleted.
pub open spec fn lines_without_selection(m: EditorModel) -> Seq<Seq<char>> {
    let (a, ac, b, bc) = sel_ends(m);
    if a == b {
        let l = m.lines[a as int];
        if ac < l.len() && bc <= l.len() && ac < bc {
            m.lines.update(a as int, l.subrange(0, ac as int) + l.subrange(bc as int, l.len() as int))
        } else {
            m.lines
        }
    } else {
        let upd = m.lines.update(a as int, take_chars(m.lines[a as int], ac as int) + skip_chars(m.lines[b as int], bc as int));
        let k = if b - a <= upd.len() - (a + 1) { b - a } else { upd.len() - (a + 1) };
        upd.subrange(0, a + 1) + upd.subrange(a + 1 + k, upd.len() as int)
    }
}

/// Deletes the selected text; the cursor goes to where it started.
pub open spec fn selection_deleted(m: EditorModel) -> EditorModel {
    match m.selection_start {
        None => m,
        Some(_) => {
            let (a, ac, b, bc) = sel_ends(m);
            followed(scrolled(EditorModel {
                lines: lines_without_selection(m),
                cursor_line: a,
                cursor_col: ac,
                selection_start: None,
                ..m
            }))
        },
    }
}

/// Lines past the end add nothing to `middle_lines`.
pub proof fn lemma_middle_beyond(lines: Seq<Seq<char>>, from: int, k: int, t: int)
    requires
        from <= k <= t,
        k >= lines.len() || k == t,
    ensures
        middle_lines(lines, from, t) == middle_lines(lines, from, k),
    decreases t - k,
{
    if t > k {
        lemma_middle_beyond(lines, from, k, t - 1);
        assert(middle_lines(lines, from, t) =~= middle_lines(lines, from, t - 1));
    }
}

/// Keys the text input reacts to.
#[derive(Debug, Clone, Copy, PartialEq, Eq, Structural)]
pub enum EditKey {
    LeftArrow,
    RightArrow,
    UpArrow,
    DownArrow,
    Home,
    End,
    Char(char),
    Backspace,
    Delete,
    Enter,
    Escape,
    Other,
}

/// Modifier keys held with a key.
#[derive(Debug, Clone, Copy, PartialEq, Eq, Structural)]
pub struct EditModifiers {
    pub shift: bool,
    pub ctrl: bool,
    pub alt: bool,
    pub super_key: bool,
}

/// Anchors a selection at the cursor when shift starts one.
pub open spec fn anchored(m: EditorModel, shift: bool) -> EditorModel {
    if shift && m.selection_start is None {
        EditorModel { selection_start: Some((m.cursor_line, m.cursor_col)), ..m }
    } else {
        m
    }
}

/// Drops the selection when shift is not held.
pub open spec fn unanchored(m: EditorModel, shift: bool) -> EditorModel {
    if !shift {
        EditorModel { selection_start: None, ..m }
    } else {
        m
    }
}

/// Ctrl-A or Super-A.
pub open spec fn is_select_all(key: EditKey, mods: EditModifiers) -> bool {
    key == EditKey::Char('a') && (mods.ctrl || mods.super_key)
}

/// Everything selected, the cursor at the end.
pub open spec fn all_selected(m: EditorModel) -> EditorModel {
    scrolled(EditorModel {
        selection_start: Some((0usize, 0usize)),
        cursor_line: (if m.lines.len() > 0 { m.lines.len() - 1 } else { 0 }) as usize,
        cursor_col: (if m.lines.len() > 0 { m.lines.last().len() } else { 0 }) as usize,
        ..m
    })
}

/// The selection (if any) is deleted first.
pub open spec fn without_selection(m: EditorModel) -> EditorModel {
    if m.selection_start is Some { selection_deleted(m) } else { m }
}

/// A key can be handled without indexing past the text or splitting a
/// character.
pub open spec fn key_ok(m: EditorModel, key: EditKey, mods: EditModifiers) -> bool {
    !m.disabled ==> match key {
        EditKey::Char(c) => !is_select_all(key, mods) ==> deletion_ok(m) && insert_ok(without_selection(m), c),
        EditKey::Backspace => if m.selection_start is Some { deletion_ok(m) } else { backspace_ok(m) },
        EditKey::Delete => if m.selection_start is Some { deletion_ok(m) } else { delete_ok(m) },
        EditKey::Enter => mods.shift ==> newline_ok(m),
        _ => true,
    }
}

/// The editor after a key, and whether the key was handled. Arrows, Home and
/// End move the cursor, extending the selection with shift and dropping it
/// without; Ctrl/Super-A selects all; a character replaces the selection and
/// is typed; Backspace and Delete remove the selection or a character;
/// Shift-Enter breaks the line, plain Enter is left to the caller.
pub open spec fn key_result(m: EditorModel, key: EditKey, mods: EditModifiers) -> (EditorModel, bool) {
    let s = mods.shift;
    if m.disabled {
        (m, false)
    } else {
        match key {
            EditKey::LeftArrow => (unanchored(left(anchored(m, s)), s), true),
            EditKey::RightArrow => (unanchored(right(anchored(m, s)), s), true),
            EditKey::UpArrow => (unanchored(up(anchored(m, s)), s), true),
            EditKey::DownArrow => (unanchored(down(anchored(m, s)), s), true),
            EditKey::Home => (unanchored(EditorModel { cursor_col: 0, ..anchored(m, s) }, s), true),
            EditKey::End => {
                let m1 = anchored(m, s);
                (unanchored(EditorModel { cursor_col: cur(m1).len() as usize, ..m1 }, s), true)
            },
            EditKey::Char(c) => if is_select_all(key, mods) {
                (all_selected(m), true)
            } else {
                (typing_scrolled(insert(without_selection(m), c)), true)
            },
            EditKey::Backspace => (if m.selection_start is Some { selection_deleted(m) } else { backspace(m) }, true),
            EditKey::Delete => (if m.selection_start is Some { selection_deleted(m) } else { delete(m) }, true),
            EditKey::Enter => if s { (typing_scrolled(newline(m)), true) } else { (m, false) },
            EditKey::Escape | EditKey::Other => (m, false),
        }
    }
}

/// A string holding the characters `v[lo..hi]`.
pub fn string_from(v: &Vec<char>, lo: usize, hi: usize) -> (s: String)
    requires
        lo <= hi <= v@.len(),
    ensures
        s@ == v@.subrange(lo as int, hi as int),
{
    let mut s = String::new();
    let mut i = lo;
    while i < hi
        invariant
            lo <= i <= hi <= v@.len(),
            s@ == v@.subrange(lo as int, i as int),
        decreases hi - i,
    {
        string_push(&mut s, v[i]);
        i = i + 1;
        assert(s@ =~= v@.subrange(lo as int, i as int));
    }
    s
}

impl MultilineTextInput {
    /// One empty line, showing `display_lines` lines.
    pub fn new(display_lines: usize) -> (t: Self)
        ensures
            t@.lines == seq![Seq::<char>::empty()],
            t@.placeholder == Seq::<char>::empty(),
            !t@.focused,
            t@.cursor_line == 0,
            t@.cursor_col == 0,
            t@.selection_start is None,
            t@.max_lines is None,
            !t@.disabled,
            t@.display_lines == display_lines,
            t@.scroll_offset == 0,
            !t@.user_has_scrolled,
    {
        let mut lines: Vec<String> = Vec::new();
        lines.push(String::new());
        let t = MultilineTextInput {
            lines,
            placeholder: String::new(),
            focused: false,
            cursor_line: 0,
            cursor_col: 0,
            selection_start: None,
            max_lines: None,
            disabled: false,
            display_lines,
            scroll_offset: 0,
            user_has_scrolled: false,
        };
        proof {
            assert(t@.lines =~= seq![Seq::<char>::empty()]);
        }
        t
    }

    pub fn with_placeholder(self, placeholder: String) -> (t: Self)
        ensures
            t@ == (EditorModel { placeholder: placeholder@, ..self@ }),
    {
        let mut t = self;
        t.placeholder = placeholder;
        t
    }

    pub fn with_max_lines(self, max_lines: usize) -> (t: Self)
        ensures
            t@ == (EditorModel { max_lines: Some(max_lines), ..self@ }),
    {
        let mut t = self;
        t.max_lines = Some(max_lines);
        t
    }

    /// Keeps the cursor's line within the displayed window.
    fn update_scroll(&mut self)
        requires
            old(self).cursor_line < old(self).lines@.len(),
        ensures
            final(self).lines@ == old(self).lines@,
            final(self)@ == scrolled(old(self)@),
    {
        // the cursor lies on a line, so it is below the line count
        let line_count = self.lines.len();
        assert(self.cursor_line < line_count);
        if self.cursor_line < self.scroll_offset {
            self.scroll_offset = self.cursor_line;
        } else if self.cursor_line - self.scroll_offset >= self.display_lines {
            self.scroll_offset = (self.cursor_line + 1) - self.display_lines;
        }
    }

    /// The input follows the end of the text again.
    pub fn reset_scroll_to_bottom(&mut self)
        ensures
            final(self).lines@ == old(self).lines@,
            final(self)@ == followed(old(self)@),
    {
        self.user_has_scrolled = false;
    }

    /// After typing: follow the end and scroll so the last lines show.
    pub fn update_scroll_for_typing(&mut self)
        ensures
            final(self).lines@ == old(self).lines@,
            final(self)@ == typing_scrolled(old(self)@),
    {
        self.user_has_scrolled = false;
        self.scroll_offset = self.lines.len().saturating_sub(self.display_lines);
    }

    /// Takes line `i` out, leaving an empty string in its place.
    fn take_line(&mut self, i: usize) -> (l: String)
        requires
            i < old(self).lines@.len(),
        ensures
            l@ == old(self)@.lines[i as int],
            final(self).lines@.len() == old(self).lines@.len(),
            forall|j: int| 0 <= j < old(self).lines@.len() && j != i ==> #[trigger] final(self).lines@[j] == old(self).lines@[j],
            final(self)@ == (EditorModel { lines: final(self)@.lines, ..old(self)@ }),
    {
        let mut l = String::new();
        self.lines.set_and_swap(i, &mut l);
        l
    }

    /// Puts `l` as line `i`.
    fn put_line(&mut self, i: usize, l: String)
        requires
            i < old(self).lines@.len(),
        ensures
            final(self).lines@.len() == old(self).lines@.len(),
            forall|j: int| 0 <= j < old(self).lines@.len() && j != i ==> #[trigger] final(self).lines@[j] == old(self).lines@[j],
            final(self).lines@[i as int] == l,
            final(self)@ == (EditorModel { lines: old(self)@.lines.update(i as int, l@), ..old(self)@ }),
    {
        self.lines.set(i, l);
        proof {
            assert(self@.lines =~= old(self)@.lines.update(i as int, l@));
        }
    }

    /// Splits the cursor's line at the cursor, unless the line limit is reached.
    pub fn insert_newline(&mut self)
        requires
            wf(old(self)@),
            newline_ok(old(self)@),
        ensures
            final(self)@ == newline(old(self)@),
            wf(final(self)@),
    {
        match self.max_lines {
            Some(max) => {
                if self.lines.len() >= max {
                    return;
                }
            },
            None => {},
        }
        let ghost m = self@;
        let cl = self.cursor_line;
        let line_count = self.lines.len();
        let line = self.take_line(cl);
        let (before, after) = line.as_str().split_at(self.cursor_col);
        let before_s = String::from_str(before);
        let after_s = String::from_str(after);
        proof {
            encode_utf8_decode_utf8(before_s@);
            encode_utf8_decode_utf8(after_s@);
        }
        self.put_line(cl, before_s);
        self.lines.insert(cl + 1, after_s);
        proof {
            let b = bytes_of(cur(m));
            assert(before_s@ == decode_utf8(b.subrange(0, m.cursor_col as int)));
            assert(after_s@ == decode_utf8(b.subrange(m.cursor_col as int, b.len() as int)));
            let before_v = decode_utf8(b.subrange(0, m.cursor_col as int));
            let after_v = decode_utf8(b.subrange(m.cursor_col as int, b.len() as int));
            assert(self@.lines =~= m.lines.update(cl as int, before_v).insert(cl + 1, after_v));
        }
        self.cursor_line = cl + 1;
        self.cursor_col = 0;
        self.update_scroll();
        self.reset_scroll_to_bottom();
    }

    /// Types `c` at the cursor; a line break splits the line.
    pub fn insert_char(&mut self, c: char)
        requires
            wf(old(self)@),
            insert_ok(old(self)@, c),
        ensures
            final(self)@ == insert(old(self)@, c),
            wf(final(self)@),
    {
        if self.disabled {
            return;
        }
        if c == '\n' {
            self.insert_newline();
        } else {
            let ghost m = self@;
            let cl = self.cursor_line;
            let mut line = self.take_line(cl);
            string_insert(&mut line, self.cursor_col, c);
            proof {
                encode_utf8_decode_utf8(line@);
                assert(line@ == decode_utf8(insert_bytes(bytes_of(cur(m)), m.cursor_col as int, char_bytes(c))));
            }
            self.put_line(cl, line);
            assert(self@.lines == m.lines.update(cl as int, decode_utf8(insert_bytes(bytes_of(cur(m)), m.cursor_col as int, char_bytes(c)))));
            self.cursor_col = self.cursor_col + 1;
            self.reset_scroll_to_bottom();
            assert(self@.lines == m.lines.update(cl as int, decode_utf8(insert_bytes(bytes_of(cur(m)), m.cursor_col as int, char_bytes(c)))));
            assert(self@.cursor_col == m.cursor_col + 1);
        }
    }

    /// Removes the character before the cursor, or joins the cursor's line to
    /// the previous one.
    pub fn backspace(&mut self)
        requires
            wf(old(self)@),
            backspace_ok(old(self)@),
        ensures
            final(self)@ == backspace(old(self)@),
            wf(final(self)@),
    {
        if self.disabled {
            return;
        }
        let ghost m = self@;
        if self.cursor_col > 0 {
            let cl = self.cursor_line;
            let mut line = self.take_line(cl);
            let _ = string_remove(&mut line, self.cursor_col - 1);
            proof {
                encode_utf8_decode_utf8(line@);
                let at = m.cursor_col - 1;
                let b = bytes_of(cur(m));
                assert(line@ == decode_utf8(cut_bytes(b, at, at + next_char_width(b, at))));
            }
            self.put_line(cl, line);
            self.cursor_col = self.cursor_col - 1;
            assert(self@.lines == backspace(m).lines);
        } else if self.cursor_line > 0 {
            let current = self.lines.remove(self.cursor_line);
            proof {
                assert(self@.lines =~= m.lines.remove(m.cursor_line as int));
            }
            self.cursor_line = self.cursor_line - 1;
            let cl = self.cursor_line;
            let mut prev = self.take_line(cl);
            self.cursor_col = byte_len(&prev);
            prev.append(current.as_str());
            self.put_line(cl, prev);
            proof {
                let rest = m.lines.remove(m.cursor_line as int);
                assert(self@.lines =~= rest.update(m.cursor_line - 1, rest[m.cursor_line - 1] + cur(m)));
            }
            self.update_scroll();
            assert(self@.lines == backspace(m).lines);
        }
        self.reset_scroll_to_bottom();
    }

    /// Removes the character at the cursor, or joins the next line to the
    /// cursor's line.
    pub fn delete(&mut self)
        requires
            wf(old(self)@),
            delete_ok(old(self)@),
        ensures
            final(self)@ == delete(old(self)@),
            wf(final(self)@),
    {
        if self.disabled {
            return;
        }
        let ghost m = self@;
        let cl = self.cursor_line;
        let line_len = byte_len(&self.lines[cl]);
        if self.cursor_col < line_len {
            let mut line = self.take_line(cl);
            let _ = string_remove(&mut line, self.cursor_col);
            proof {
                encode_utf8_decode_utf8(line@);
                let at = m.cursor_col as int;
                let b = bytes_of(cur(m));
                assert(line@ == decode_utf8(cut_bytes(b, at, at + next_char_width(b, at))));
            }
            self.put_line(cl, line);
            assert(self@.lines == delete(m).lines);
        } else if cl < self.lines.len() - 1 {
            let next = self.lines.remove(cl + 1);
            proof {
                assert(self@.lines =~= m.lines.remove(m.cursor_line + 1));
            }
            let mut line = self.take_line(cl);
            line.append(next.as_str());
            self.put_line(cl, line);
            proof {
                let rest = m.lines.remove(m.cursor_line + 1);
                assert(self@.lines =~= rest.update(m.cursor_line as int, cur(m) + m.lines[m.cursor_line + 1]));
            }
            assert(self@.lines == delete(m).lines);
        }
        self.reset_scroll_to_bottom();
    }

    /// The whole text, lines joined by line breaks.
    pub fn get_text(&self) -> (t: String)
        ensures
            t@ == joined(self@.lines),
    {
        let mut t = String::new();
        let mut i: usize = 0;
        while i < self.lines.len()
            invariant
                i <= self.lines@.len(),
                t@ == joined(self@.lines.subrange(0, i as int)),
            decreases self.lines@.len() - i,
        {
            let ghost before = t@;
            if i > 0 {
                string_push(&mut t, '\n');
            }
            t.append(self.lines[i].as_str());
            proof {
                let p = self@.lines.subrange(0, i + 1);
                assert(p.drop_last() =~= self@.lines.subrange(0, i as int));
                if i == 0 {
                    assert(t@ =~= p[0]);
                } else {
                    assert(t@ =~= joined(p.drop_last()).push('\n') + p.last());
                }
            }
            i = i + 1;
        }
        proof {
            assert(self@.lines.subrange(0, i as int) =~= self@.lines);
        }
        t
    }

    /// Replaces the text; the cursor goes to the end of the last line.
    pub fn set_text(&mut self, text: &str)
        ensures
            final(self)@ == with_text(old(self)@, text@),
            wf(final(self)@),
    {
        let chars = chars_of(text);
        let mut lines: Vec<String> = Vec::new();
        if chars.len() == 0 {
            lines.push(String::new());
            proof {
                assert(lines@.map_values(|l: String| l@) =~= seq![Seq::<char>::empty()]);
            }
        } else {
            let mut current: Vec<char> = Vec::new();
            let mut i: usize = 0;
            while i < chars.len()
                invariant
                    i <= chars@.len(),
                    lines@.map_values(|l: String| l@) == split_nl(chars@.subrange(0, i as int)).drop_last().map_values(|l: Seq<char>| strip_cr(l)),
                    current@ == split_nl(chars@.subrange(0, i as int)).last(),
                decreases chars@.len() - i,
            {
                let ghost pre = chars@.subrange(0, i as int);
                let ghost next = chars@.subrange(0, i + 1);
                proof {
                    assert(next.drop_last() =~= pre);
                    lemma_split_nl_len(pre);
                }
                let ch = chars[i];
                if ch == '\n' {
                    let n = current.len();
                    let end = if n > 0 && current[n - 1] == '\r' { n - 1 } else { n };
                    let line = string_from(&current, 0, end);
                    proof {
                        assert(line@ == strip_cr(current@));
                    }
                    let ghost before_lines = lines@;
                    lines.push(line);
                    current = Vec::new();
                    proof {
                        let r = split_nl(pre);
                        assert(split_nl(next) == r.push(Seq::<char>::empty()));
                        assert(split_nl(next).drop_last() =~= r);
                        lemma_views_push(before_lines, line);
                        assert(r =~= r.drop_last().push(r.last()));
                        lemma_strip_push(r.drop_last(), r.last());
                        assert(current@ =~= split_nl(next).last());
                    }
                } else {
                    current.push(ch);
                    proof {
                        let r = split_nl(pre);
                        assert(split_nl(next) == r.update(r.len() - 1, r.last().push(ch)));
                        assert(split_nl(next).drop_last() =~= r.drop_last());
                        assert(current@ =~= split_nl(next).last());
                    }
                }
                i = i + 1;
            }
            proof {
                assert(chars@.subrange(0, i as int) =~= text@);
                lemma_text_lines_nonempty(text@);
            }
            if current.len() > 0 {
                let n = current.len();
                let last = string_from(&current, 0, n);
                let ghost before_lines = lines@;
                lines.push(last);
                proof {
                    assert(current@.subrange(0, n as int) =~= current@);
                    lemma_views_push(before_lines, last);
                }
            } else {
                proof {
                    assert(lines@.map_values(|l: String| l@) =~= text_lines(text@));
                }
            }
        }
        self.lines = lines;
        let count = self.lines.len();
        self.cursor_line = count.saturating_sub(1);
        self.cursor_col = if count > 0 { byte_len(&self.lines[count - 1]) } else { 0 };
        self.update_scroll();
    }

    /// Empties the input.
    pub fn clear(&mut self)
        ensures
            final(self)@ == cleared(old(self)@),
            wf(final(self)@),
    {
        let mut lines: Vec<String> = Vec::new();
        lines.push(String::new());
        self.lines = lines;
        self.cursor_line = 0;
        self.cursor_col = 0;
        self.scroll_offset = 0;
        self.selection_start = None;
        proof {
            assert(self@.lines =~= seq![Seq::<char>::empty()]);
        }
    }

    /// Anchors a selection at the cursor (unless disabled).
    pub fn start_selection(&mut self)
        ensures
            final(self)@ == (if old(self)@.disabled { old(self)@ } else { EditorModel { selection_start: Some((old(self)@.cursor_line, old(self)@.cursor_col)), ..old(self)@ } }),
    {
        if !self.disabled {
            self.selection_start = Some((self.cursor_line, self.cursor_col));
        }
    }

    /// Scrolls one line per wheel step (`delta > 0` scrolls up) when focused
    /// and the text is longer than the display. Returns whether it moved.
    pub fn handle_wheel(&mut self, delta: i32) -> (moved: bool)
        ensures
            (final(self)@, moved) == wheeled(old(self)@, delta),
    {
        if !self.focused || self.lines.len() <= self.display_lines {
            return false;
        }
        self.user_has_scrolled = true;
        let old_offset = self.scroll_offset;
        if delta > 0 {
            self.scroll_offset = self.scroll_offset.saturating_sub(1);
        } else {
            let max_offset = self.lines.len() - self.display_lines;
            self.scroll_offset = if self.scroll_offset < max_offset { self.scroll_offset + 1 } else { max_offset };
        }
        old_offset != self.scroll_offset
    }

    /// The first line shown.
    pub fn first_visible_line(&self) -> (n: usize)
        ensures
            n == self.scroll_offset,
    {
        self.scroll_offset
    }

    /// The selected text (see `selection_text`).
    pub fn get_selected_text(&self) -> (r: Option<String>)
        requires
            wf(self@),
            selection_readable(self@),
        ensures
            match r {
                Some(t) => selection_text(self@) == Some(t@),
                None => selection_text(self@) is None,
            },
    {
        let (sl0, sc0) = match self.selection_start {
            Some(p) => p,
            None => {
                return None;
            },
        };
        let (el0, ec0) = (self.cursor_line, self.cursor_col);
        let (sl, sc, el, ec) = if sl0 < el0 || (sl0 == el0 && sc0 <= ec0) {
            (sl0, sc0, el0, ec0)
        } else {
            (el0, ec0, sl0, sc0)
        };
        let ghost m = self@;
        if sl == el {
            let chars = chars_of(self.lines[sl].as_str());
            if sc < chars.len() && ec <= chars.len() && sc < ec {
                return Some(string_from(&chars, sc, ec));
            }
            return None;
        }
        let n = self.lines.len();
        let mut selected = String::new();
        if sl < n {
            let chars = chars_of(self.lines[sl].as_str());
            if sc < chars.len() {
                let part = string_from(&chars, sc, chars.len());
                selected.append(part.as_str());
                string_push(&mut selected, '\n');
            }
        }
        let ghost first = selected@;
        let mut idx = sl + 1;
        while idx < el && idx < n
            invariant
                sl < el,
                sl + 1 <= idx,
                idx <= el,
                n == self.lines@.len(),
                m == self@,
                selected@ == first + middle_lines(m.lines, sl + 1, idx as int),
            decreases n - idx,
        {
            let ghost before = selected@;
            selected.append(self.lines[idx].as_str());
            string_push(&mut selected, '\n');
            proof {
                assert(selected@ =~= before + m.lines[idx as int].push('\n'));
            }
            idx = idx + 1;
        }
        proof {
            lemma_middle_beyond(m.lines, sl + 1, idx as int, el as int);
        }
        if el < n && ec > 0 {
            let chars = chars_of(self.lines[el].as_str());
            if ec <= chars.len() {
                let part = string_from(&chars, 0, ec);
                selected.append(part.as_str());
            }
        }
        if selected.as_str().is_empty() {
            None
        } else {
            Some(selected)
        }
    }

    /// Deletes the selected text and puts the cursor where it started.
    fn delete_selection(&mut self)
        requires
            wf(old(self)@),
            deletion_ok(old(self)@),
        ensures
            final(self)@ == selection_deleted(old(self)@),
            wf(final(self)@),
    {
        let (sl0, sc0) = match self.selection_start {
            Some(p) => p,
            None => {
                return;
            },
        };
        let ghost m = self@;
        let (el0, ec0) = (self.cursor_line, self.cursor_col);
        let (sl, sc, el, ec) = if sl0 < el0 || (sl0 == el0 && sc0 <= ec0) {
            (sl0, sc0, el0, ec0)
        } else {
            (el0, ec0, sl0, sc0)
        };
        if sl == el {
            let chars = chars_of(self.lines[sl].as_str());
            if sc < chars.len() && ec <= chars.len() && sc < ec {
                let mut line = string_from(&chars, 0, sc);
                let rest = string_from(&chars, ec, chars.len());
                line.append(rest.as_str());
                self.put_line(sl, line);
            }
        } else {
            let first = chars_of(self.lines[sl].as_str());
            let last = chars_of(self.lines[el].as_str());
            let keep = if sc <= first.len() { sc } else { first.len() };
            let skip = if ec <= last.len() { ec } else { last.len() };
            let mut line = string_from(&first, 0, keep);
            let tail = string_from(&last, skip, last.len());
            line.append(tail.as_str());
            proof {
                assert(line@ =~= take_chars(m.lines[sl as int], sc as int) + skip_chars(m.lines[el as int], ec as int));
            }
            self.put_line(sl, line);
            let ghost upd = self@.lines;
            let mut removed: usize = 0;
            while removed < el - sl && sl + 1 < self.lines.len()
                invariant
                    sl < el,
                    sl < upd.len(),
                    removed <= el - sl,
                    removed <= upd.len() - (sl + 1),
                    self@ == (EditorModel { lines: self@.lines, ..m }),
                    self@.lines == upd.subrange(0, sl + 1) + upd.subrange(sl + 1 + removed, upd.len() as int),
                decreases el - sl - removed,
            {
                let ghost prev = self@.lines;
                self.lines.remove(sl + 1);
                removed = removed + 1;
                proof {
                    assert(self@.lines =~= prev.remove(sl + 1));
                    assert(self@.lines =~= upd.subrange(0, sl + 1) + upd.subrange(sl + 1 + removed, upd.len() as int));
                }
            }
            proof {
                let k = if el - sl <= upd.len() - (sl + 1) { el - sl } else { upd.len() - (sl + 1) };
                assert(removed == k);
            }
        }
        self.cursor_line = sl;
        self.cursor_col = sc;
        self.selection_start = None;
        proof {
            assert(self@.lines == lines_without_selection(m));
        }
        self.update_scroll();
        self.reset_scroll_to_bottom();
    }

    /// Handles a key with modifiers (see `key_result`). Returns whether the
    /// key was handled.
    pub fn handle_key_event(&mut self, key: &EditKey, modifiers: EditModifiers) -> (handled: bool)
        requires
            wf(old(self)@),
            key_ok(old(self)@, *key, modifiers),
        ensures
            (final(self)@, handled) == key_result(old(self)@, *key, modifiers),
            wf(final(self)@),
    {
        if self.disabled {
            return false;
        }
        let shift = modifiers.shift;
        match *key {
            EditKey::LeftArrow => {
                if shift && self.selection_start.is_none() {
                    self.start_selection();
                }
                self.move_left();
                if !shift {
                    self.selection_start = None;
                }
                true
            },
            EditKey::RightArrow => {
                if shift && self.selection_start.is_none() {
                    self.start_selection();
                }
                self.move_right();
                if !shift {
                    self.selection_start = None;
                }
                true
            },
            EditKey::UpArrow => {
                if shift && self.selection_start.is_none() {
                    self.start_selection();
                }
                self.move_up();
                if !shift {
                    self.selection_start = None;
                }
                true
            },
            EditKey::DownArrow => {
                if shift && self.selection_start.is_none() {
                    self.start_selection();
                }
                self.move_down();
                if !shift {
                    self.selection_start = None;
                }
                true
            },
            EditKey::Home => {
                if shift && self.selection_start.is_none() {
                    self.start_selection();
                }
                self.cursor_col = 0;
                if !shift {
                    self.selection_start = None;
                }
                true
            },
            EditKey::End => {
                if shift && self.selection_start.is_none() {
                    self.start_selection();
                }
                self.cursor_col = self.lines[self.cursor_line].as_str().unicode_len();
                if !shift {
                    self.selection_start = None;
                }
                true
            },
            EditKey::Char(c) => {
                if c == 'a' && (modifiers.ctrl || modifiers.super_key) {
                    let count = self.lines.len();
                    self.selection_start = Some((0, 0));
                    self.cursor_line = count.saturating_sub(1);
                    self.cursor_col = self.lines[count - 1].as_str().unicode_len();
                    self.update_scroll();
                    true
                } else {
                    if self.selection_start.is_some() {
                        self.delete_selection();
                    }
                    self.insert_char(c);
                    self.update_scroll_for_typing();
                    true
                }
            },
            EditKey::Backspace => {
                if self.selection_start.is_some() {
                    self.delete_selection();
                } else {
                    self.backspace();
                }
                true
            },
            EditKey::Delete => {
                if self.selection_start.is_some() {
                    self.delete_selection();
                } else {
                    self.delete();
                }
                true
            },
            EditKey::Enter => {
                if shift {
                    self.insert_newline();
                    self.update_scroll_for_typing();
                    true
                } else {
                    false
                }
            },
            EditKey::Escape | EditKey::Other => false,
        }
    }

    /// Moves the cursor up one line.
    pub fn move_up(&mut self)
        requires
            wf(old(self)@),
        ensures
            final(self)@ == up(old(self)@),
            wf(final(self)@),
    {
        if self.cursor_line > 0 {
            self.cursor_line = self.cursor_line - 1;
            let line_len = byte_len(&self.lines[self.cursor_line]);
            if line_len < self.cursor_col {
                self.cursor_col = line_len;
            }
            self.update_scroll();
        }
    }

    /// Moves the cursor down one line.
    pub fn move_down(&mut self)
        requires
            wf(old(self)@),
        ensures
            final(self)@ == down(old(self)@),
            wf(final(self)@),
    {
        if self.cursor_line < self.lines.len() - 1 {
            self.cursor_line = self.cursor_line + 1;
            let line_len = byte_len(&self.lines[self.cursor_line]);
            if line_len < self.cursor_col {
                self.cursor_col = line_len;
            }
            self.update_scroll();
        }
    }

    /// Moves the cursor left.
    pub fn move_left(&mut self)
        requires
            wf(old(self)@),
        ensures
            final(self)@ == left(old(self)@),
            wf(final(self)@),
    {
        if self.cursor_col > 0 {
            self.cursor_col = self.cursor_col - 1;
        } else if self.cursor_line > 0 {
            self.cursor_line = self.cursor_line - 1;
            self.cursor_col = byte_len(&self.lines[self.cursor_line]);
            self.update_scroll();
        }
    }

    /// Moves the cursor right.
    pub fn move_right(&mut self)
        requires
            wf(old(self)@),
        ensures
            final(self)@ == right(old(self)@),
            wf(final(self)@),
    {
        let line_len = byte_len(&self.lines[self.cursor_line]);
        if self.cursor_col < line_len {
            self.cursor_col = self.cursor_col + 1;
        } else if self.cursor_line < self.lines.len() - 1 {
            self.cursor_line = self.cursor_line + 1;
            self.cursor_col = 0;
            self.update_scroll();
        }
    }
}


impl MultilineTextInput {
    /// The lines in the display window: from the scroll offset on, at most
    /// `display_lines` of them.
    pub fn visible_lines(&self) -> (v: Vec<&String>)
        ensures
            v@.len() == (if self.scroll_offset >= self.lines@.len() {
                0
            } else if self.lines@.len() - self.scroll_offset < self.display_lines {
                self.lines@.len() - self.scroll_offset
            } else {
                self.display_lines as int
            }),
            forall|i: int| 0 <= i < v@.len() ==> *(#[trigger] v@[i]) == self.lines@[self.scroll_offset + i],
    {
        let mut v: Vec<&String> = Vec::new();
        let n = self.lines.len();
        let mut i = self.scroll_offset;
        while i < n && i - self.scroll_offset < self.display_lines
            invariant
                n == self.lines@.len(),
                self.scroll_offset <= i,
                i - self.scroll_offset <= self.display_lines,
                i <= n || i == self.scroll_offset,
                v@.len() == i - self.scroll_offset,
                forall|j: int| 0 <= j < v@.len() ==> *(#[trigger] v@[j]) == self.lines@[self.scroll_offset + j],
            decreases n - i,
        {
            v.push(&self.lines[i]);
            i = i + 1;
        }
        v
    }
}

/// Keyboard, text and state handling of the chat input; it keeps no state of
/// its own.
pub struct ChatInputHandler;

impl ChatInputHandler {
    /// A key for the chat input. Enter without shift is left to the caller
    /// (it sends the message); every other key goes to the input.
    pub fn handle_key_event(chat_input: &mut MultilineTextInput, key: &EditKey, modifiers: EditModifiers) -> (handled: bool)
        requires
            wf(old(chat_input)@),
            key_ok(old(chat_input)@, *key, modifiers),
        ensures
            (final(chat_input)@, handled) == key_result(old(chat_input)@, *key, modifiers),
            wf(final(chat_input)@),
    {
        if *key == EditKey::Enter && !modifiers.shift {
            return false;
        }
        chat_input.handle_key_event(key, modifiers)
    }

    /// Types a character into the chat input.
    pub fn handle_char_input(chat_input: &mut MultilineTextInput, c: char)
        requires
            wf(old(chat_input)@),
            insert_ok(old(chat_input)@, c),
        ensures
            final(chat_input)@ == insert(old(chat_input)@, c),
            wf(final(chat_input)@),
    {
        chat_input.insert_char(c);
    }

    /// Empties the chat input; it follows the end of the text again.
    pub fn clear(chat_input: &mut MultilineTextInput)
        ensures
            final(chat_input)@ == followed(cleared(old(chat_input)@)),
            wf(final(chat_input)@),
    {
        chat_input.clear();
        chat_input.user_has_scrolled = false;
    }

    /// The whole text of the chat input.
    pub fn get_text(chat_input: &MultilineTextInput) -> (t: String)
        ensures
            t@ == joined(chat_input@.lines),
    {
        chat_input.get_text()
    }

    /// Whether the chat input holds a single empty line.
    pub fn is_empty(chat_input: &MultilineTextInput) -> (b: bool)
        ensures
            b == (chat_input@.lines.len() == 1 && chat_input@.lines[0].len() == 0),
    {
        chat_input.lines.len() == 1 && chat_input.lines[0].as_str().unicode_len() == 0
    }
}

/// What one displayed line of the input shows.
pub struct LineView {
    /// The text shown, with the cursor mark on the cursor's line when focused
    pub text: String,
    /// The selected bytes `[start, end)` of the line's own text, if any
    pub selection: Option<(usize, usize)>,
    /// Whether the line shows the placeholder (drawn dimmed)
    pub placeholder: bool,
}

/// The character that marks the cursor.
pub open spec fn cursor_mark() -> char {
    '\u{2502}'
}

/// How many lines the display window holds text for.
pub open spec fn visible_count(m: EditorModel) -> int {
    if m.scroll_offset >= m.lines.len() {
        0
    } else if m.lines.len() - m.scroll_offset < m.display_lines {
        m.lines.len() - m.scroll_offset
    } else {
        m.display_lines as int
    }
}

/// Line `a` is the only, empty line of an unfocused input: it shows the
/// placeholder.
pub open spec fn shows_placeholder(m: EditorModel, a: int) -> bool {
    m.lines[a].len() == 0 && a == 0 && m.lines.len() == 1 && !m.focused
}

/// A display row below the text: the cursor mark where the cursor is there
/// at column 0 of a focused input, a space otherwise.
pub open spec fn filler(m: EditorModel, i: int) -> Seq<char> {
    if m.focused && m.cursor_line == m.scroll_offset + i && m.cursor_col == 0 {
        seq![cursor_mark()]
    } else {
        seq![' ']
    }
}

/// `l` with the cursor mark at byte `col` (at the end when `col` lies past it).
pub open spec fn marked_at_byte(l: Seq<char>, col: int) -> Seq<char> {
    if col <= blen(l) {
        decode_utf8(insert_bytes(bytes_of(l), col, char_bytes(cursor_mark())))
    } else {
        l.push(cursor_mark())
    }
}

/// `l` with the cursor mark before character `k` (at the end when there are
/// fewer characters).
pub open spec fn marked_at_char(l: Seq<char>, k: int) -> Seq<char> {
    take_chars(l, k) + seq![cursor_mark()] + skip_chars(l, k)
}

/// The byte offset of character `k` of `l` (the byte length when there are
/// fewer characters).
pub open spec fn char_offset(l: Seq<char>, k: int) -> int {
    blen(take_chars(l, k))
}

/// Display row `i` of the plain rendering: its text and whether it is the
/// placeholder.
pub open spec fn plain_row(m: EditorModel, i: int) -> (Seq<char>, bool) {
    let a = m.scroll_offset + i;
    let l = m.lines[a];
    if a == m.cursor_line && m.focused {
        (marked_at_byte(l, m.cursor_col as int), false)
    } else if shows_placeholder(m, a) {
        (m.placeholder, true)
    } else {
        (l, false)
    }
}

/// Columns (in characters) of line `a` that the selection covers, if any.
pub open spec fn selected_cols(m: EditorModel, a: int) -> Option<(int, int)> {
    match m.selection_start {
        None => None,
        Some(_) => {
            let (sl, sc, el, ec) = sel_ends(m);
            let n = m.lines[a].len() as int;
            if sl <= a <= el {
                Some(if a == sl && a == el {
                    (sc as int, ec as int)
                } else if a == sl {
                    (sc as int, n)
                } else if a == el {
                    (0, ec as int)
                } else {
                    (0, n)
                })
            } else {
                None
            }
        },
    }
}

/// Bytes of line `a` that the selection covers, when that is not empty.
pub open spec fn selected_bytes(m: EditorModel, a: int) -> Option<(int, int)> {
    match selected_cols(m, a) {
        Some((x, y)) => {
            let l = m.lines[a];
            if char_offset(l, x) < char_offset(l, y) {
                Some((char_offset(l, x), char_offset(l, y)))
            } else {
                None
            }
        },
        None => None,
    }
}

/// Display row `i` of the rendering with selection: its text, its selected
/// bytes and whether it is the placeholder. The cursor mark goes before the
/// character whose index is the cursor column.
pub open spec fn selection_row(m: EditorModel, i: int) -> (Seq<char>, Option<(int, int)>, bool) {
    let a = m.scroll_offset + i;
    let l = m.lines[a];
    let cursor_here = a == m.cursor_line && m.focused;
    match selected_bytes(m, a) {
        Some(r) => (if cursor_here { marked_at_char(l, m.cursor_col as int) } else { l }, Some(r), false),
        None => if cursor_here {
            (marked_at_char(l, m.cursor_col as int), None, false)
        } else if shows_placeholder(m, a) {
            (m.placeholder, None, true)
        } else {
            (l, None, false)
        },
    }
}

/// Inserting the cursor mark at the cursor's byte column does not split a
/// character.
pub open spec fn render_ok(m: EditorModel) -> bool {
    m.focused && m.scroll_offset <= m.cursor_line < m.scroll_offset + visible_count(m) && m.cursor_col
        <= blen(cur(m)) ==> boundary(cur(m), m.cursor_col as int)
}

/// The byte offset of character `k` among `chars`.
fn char_offset_of(chars: &Vec<char>, k: usize) -> (b: usize)
    ensures
        b == char_offset(chars@, k as int),
{
    let n = chars.len();
    let e = if k <= n { k } else { n };
    let prefix = string_from(chars, 0, e);
    proof {
        assert(prefix@ =~= take_chars(chars@, k as int));
    }
    byte_len(&prefix)
}

/// `chars` with the cursor mark before character `k`.
fn mark_at_char(chars: &Vec<char>, k: usize) -> (s: String)
    ensures
        s@ == marked_at_char(chars@, k as int),
{
    let n = chars.len();
    let e = if k <= n { k } else { n };
    let mut s = string_from(chars, 0, e);
    string_push(&mut s, '\u{2502}');
    let rest = string_from(chars, e, n);
    s.append(rest.as_str());
    proof {
        assert(s@ =~= marked_at_char(chars@, k as int));
    }
    s
}

impl MultilineTextInput {
    /// What the display rows show: each visible line (the cursor's line with
    /// the cursor mark at the cursor's byte column when focused, the
    /// placeholder on the only, empty line of an unfocused input), then
    /// filler rows up to the display height.
    pub fn render(&self) -> (v: Vec<LineView>)
        requires
            render_ok(self@),
        ensures
            v@.len() == self.display_lines,
            forall|i: int|
                0 <= i < v@.len() ==> (#[trigger] v@[i]).selection is None && if i < visible_count(self@) {
                    (v@[i].text@, v@[i].placeholder) == plain_row(self@, i)
                } else {
                    v@[i].text@ == filler(self@, i) && !v@[i].placeholder
                },
    {
        let ghost m = self@;
        let n = self.lines.len();
        let mut v: Vec<LineView> = Vec::new();
        let mut i: usize = 0;
        while i < self.display_lines
            invariant
                m == self@,
                n == self.lines@.len(),
                render_ok(m),
                i <= self.display_lines,
                v@.len() == i,
                forall|j: int|
                    0 <= j < i ==> (#[trigger] v@[j]).selection is None && if j < visible_count(m) {
                        (v@[j].text@, v@[j].placeholder) == plain_row(m, j)
                    } else {
                        v@[j].text@ == filler(m, j) && !v@[j].placeholder
                    },
            decreases self.display_lines - i,
        {
            let in_text = self.scroll_offset < n && i < n - self.scroll_offset;
            proof {
                assert(in_text == (i < visible_count(m)));
            }
            if in_text {
                let a = self.scroll_offset + i;
                let line = &self.lines[a];
                let is_empty_only = line.as_str().unicode_len() == 0 && a == 0 && n == 1 && !self.focused;
                let row = if a == self.cursor_line && self.focused {
                    let mut text = line.clone();
                    let len = byte_len(&text);
                    if self.cursor_col <= len {
                        string_insert(&mut text, self.cursor_col, '\u{2502}');
                        proof {
                            encode_utf8_decode_utf8(text@);
                        }
                    } else {
                        string_push(&mut text, '\u{2502}');
                    }
                    LineView { text, selection: None, placeholder: false }
                } else if is_empty_only {
                    LineView { text: self.placeholder.clone(), selection: None, placeholder: true }
                } else {
                    LineView { text: line.clone(), selection: None, placeholder: false }
                };
                v.push(row);
            } else {
                let mark = self.focused && self.cursor_line >= self.scroll_offset
                    && self.cursor_line - self.scroll_offset == i && self.cursor_col == 0;
                let mut text = String::new();
                string_push(&mut text, if mark { '\u{2502}' } else { ' ' });
                proof {
                    assert(text@ =~= filler(m, i as int));
                }
                v.push(LineView { text, selection: None, placeholder: false });
            }
            i = i + 1;
        }
        v
    }

    /// What the display rows show when the selection is drawn: like
    /// `render`, with the cursor mark before the character whose index is
    /// the cursor column, the placeholder only on a row without selection,
    /// and each row's selected bytes.
    pub fn render_with_selection(&self) -> (v: Vec<LineView>)
        ensures
            v@.len() == self.display_lines,
            forall|i: int|
                0 <= i < v@.len() ==> if i < visible_count(self@) {
                    ({
                        let (t, r, p) = selection_row(self@, i);
                        &&& (#[trigger] v@[i]).text@ == t
                        &&& v@[i].placeholder == p
                        &&& match r {
                            Some((x, y)) => v@[i].selection == Some((x as usize, y as usize)),
                            None => v@[i].selection is None,
                        }
                    })
                } else {
                    (#[trigger] v@[i]).text@ == filler(self@, i) && !v@[i].placeholder && v@[i].selection is None
                },
    {
        let ghost m = self@;
        let n = self.lines.len();
        let mut v: Vec<LineView> = Vec::new();
        let mut i: usize = 0;
        while i < self.display_lines
            invariant
                m == self@,
                n == self.lines@.len(),
                i <= self.display_lines,
                v@.len() == i,
                forall|j: int|
                    0 <= j < i ==> if j < visible_count(m) {
                        ({
                            let (t, r, p) = selection_row(m, j);
                            &&& (#[trigger] v@[j]).text@ == t
                            &&& v@[j].placeholder == p
                            &&& match r {
                                Some((x, y)) => v@[j].selection == Some((x as usize, y as usize)),
                                None => v@[j].selection is None,
                            }
                        })
                    } else {
                        (#[trigger] v@[j]).text@ == filler(m, j) && !v@[j].placeholder && v@[j].selection is None
                    },
            decreases self.display_lines - i,
        {
            let in_text = self.scroll_offset < n && i < n - self.scroll_offset;
            proof {
                assert(in_text == (i < visible_count(m)));
            }
            if in_text {
                let a = self.scroll_offset + i;
                let chars = chars_of(self.lines[a].as_str());
                let count = chars.len();
                let cursor_here = a == self.cursor_line && self.focused;
                let cols: Option<(usize, usize)> = match self.selection_start {
                    Some((sl0, sc0)) => {
                        let (el0, ec0) = (self.cursor_line, self.cursor_col);
                        let (sl, sc, el, ec) = if sl0 < el0 || (sl0 == el0 && sc0 <= ec0) {
                            (sl0, sc0, el0, ec0)
                        } else {
                            (el0, ec0, sl0, sc0)
                        };
                        if sl <= a && a <= el {
                            Some(if a == sl && a == el {
                                (sc, ec)
                            } else if a == sl {
                                (sc, count)
                            } else if a == el {
                                (0, ec)
                            } else {
                                (0, count)
                            })
                        } else {
                            None
                        }
                    },
                    None => None,
                };
                let bytes: Option<(usize, usize)> = match cols {
                    Some((x, y)) => {
                        let sb = char_offset_of(&chars, x);
                        let eb = char_offset_of(&chars, y);
                        if sb < eb { Some((sb, eb)) } else { None }
                    },
                    None => None,
                };
                proof {
                    match cols {
                        Some((x, y)) => assert(selected_cols(m, a as int) == Some((x as int, y as int))),
                        None => assert(selected_cols(m, a as int) is None),
                    }
                }
                let row = match bytes {
                    Some(r) => {
                        let text = if cursor_here { mark_at_char(&chars, self.cursor_col) } else { self.lines[a].clone() };
                        LineView { text, selection: Some(r), placeholder: false }
                    },
                    None => {
                        if cursor_here {
                            LineView { text: mark_at_char(&chars, self.cursor_col), selection: None, placeholder: false }
                        } else if count == 0 && a == 0 && n == 1 && !self.focused {
                            LineView { text: self.placeholder.clone(), selection: None, placeholder: true }
                        } else {
                            LineView { text: self.lines[a].clone(), selection: None, placeholder: false }
                        }
                    },
                };
                v.push(row);
            } else {
                let mark = self.focused && self.cursor_line >= self.scroll_offset
                    && self.cursor_line - self.scroll_offset == i && self.cursor_col == 0;
                let mut text = String::new();
                string_push(&mut text, if mark { '\u{2502}' } else { ' ' });
                proof {
                    assert(text@ =~= filler(m, i as int));
                }
                v.push(LineView { text, selection: None, placeholder: false });
            }
            i = i + 1;
        }
        v
    }
}

/// The number of characters of `l` from character `k` on that start before
/// byte `est`, added to `k`: where a click at byte `est` puts the cursor.
pub open spec fn col_before(l: Seq<char>, est: int, k: int) -> int
    decreases l.len() - k,
{
    if k >= l.len() {
        l.len() as int
    } else if char_offset(l, k) >= est {
        k
    } else {
        col_before(l, est, k + 1)
    }
}

/// The row `display_line` of the window shows a line.
pub open spec fn row_has_line(m: EditorModel, display_line: usize) -> bool {
    display_line < m.display_lines && m.scroll_offset + display_line < m.lines.len()
}

/// The model after a click on display row `display_line` at about byte
/// `estimated_col` of its line: the cursor goes to the first character that
/// starts at or after that byte (the line's end if none) and the selection
/// is dropped.
pub open spec fn clicked(m: EditorModel, display_line: usize, estimated_col: usize) -> EditorModel {
    if m.disabled || !row_has_line(m, display_line) {
        m
    } else {
        let a = m.scroll_offset + display_line;
        EditorModel {
            cursor_line: a as usize,
            cursor_col: col_before(m.lines[a], estimated_col as int, 0) as usize,
            selection_start: None,
            ..m
        }
    }
}

/// The model after dragging a selection to display row `display_line` at
/// about byte `estimated_col`: the cursor moves as for a click, the
/// selection's anchor stays, and the window follows the cursor.
pub open spec fn drag_selected(m: EditorModel, display_line: usize, estimated_col: usize) -> EditorModel {
    if m.disabled || m.selection_start is None || !row_has_line(m, display_line) {
        m
    } else {
        let a = m.scroll_offset + display_line;
        scrolled(EditorModel {
            cursor_line: a as usize,
            cursor_col: col_before(m.lines[a], estimated_col as int, 0) as usize,
            ..m
        })
    }
}

/// `col_before` counts no further than the line's length.
proof fn lemma_col_before_bounds(l: Seq<char>, est: int, k: int)
    requires
        0 <= k,
    ensures
        col_before(l, est, k) <= (if k <= l.len() { l.len() as int } else { k }),
        k <= l.len() ==> k <= col_before(l, est, k),
    decreases l.len() - k,
{
    if k < l.len() && char_offset(l, k) < est {
        lemma_col_before_bounds(l, est, k + 1);
    }
}

/// The column of the first character of `chars` that starts at or after
/// byte `est` (their number if none).
fn col_at_byte(chars: &Vec<char>, est: usize) -> (col: usize)
    ensures
        col == col_before(chars@, est as int, 0),
{
    let n = chars.len();
    let mut k: usize = 0;
    let mut prefix = String::new();
    proof {
        assert(prefix@ =~= take_chars(chars@, 0));
    }
    while k < n && byte_len(&prefix) < est
        invariant
            n == chars@.len(),
            k <= n,
            prefix@ == take_chars(chars@, k as int),
            col_before(chars@, est as int, 0) == col_before(chars@, est as int, k as int),
        decreases n - k,
    {
        string_push(&mut prefix, chars[k]);
        k = k + 1;
        proof {
            assert(prefix@ =~= take_chars(chars@, k as int));
        }
    }
    k
}

impl MultilineTextInput {
    /// A click on display row `display_line`, about byte `estimated_col` of
    /// its line (the caller converts the pointer position with the font's
    /// metrics): see `clicked`.
    pub fn handle_click(&mut self, display_line: usize, estimated_col: usize)
        requires
            wf(old(self)@),
        ensures
            final(self)@ == clicked(old(self)@, display_line, estimated_col),
            wf(final(self)@),
    {
        if self.disabled {
            return;
        }
        let n = self.lines.len();
        if display_line < self.display_lines && self.scroll_offset < n && display_line < n - self.scroll_offset {
            let a = self.scroll_offset + display_line;
            let chars = chars_of(self.lines[a].as_str());
            let col = col_at_byte(&chars, estimated_col);
            proof {
                lemma_col_before_bounds(chars@, estimated_col as int, 0);
            }
            self.cursor_line = a;
            self.cursor_col = col;
            self.selection_start = None;
        }
    }

    /// Drags the selection's end to display row `display_line`, about byte
    /// `estimated_col` of its line: see `drag_selected`.
    pub fn update_selection(&mut self, display_line: usize, estimated_col: usize)
        requires
            wf(old(self)@),
        ensures
            final(self)@ == drag_selected(old(self)@, display_line, estimated_col),
            wf(final(self)@),
    {
        if self.disabled || self.selection_start.is_none() {
            return;
        }
        let n = self.lines.len();
        if display_line < self.display_lines && self.scroll_offset < n && display_line < n - self.scroll_offset {
            let a = self.scroll_offset + display_line;
            let chars = chars_of(self.lines[a].as_str());
            let col = col_at_byte(&chars, estimated_col);
            proof {
                lemma_col_before_bounds(chars@, estimated_col as int, 0);
            }
            self.cursor_line = a;
            self.cursor_col = col;
            self.update_scroll();
        }
    }
}

/// Typing a character other than a line break and then pressing Backspace
/// gives back the editor as it was, except that it follows the end of the
/// text again.
pub proof fn law_backspace_undoes_typing(m: EditorModel, c: char)
    requires
        wf(m),
        !m.disabled,
        c != '\n',
        insert_ok(m, c),
    ensures
        wf(insert(m, c)),
        backspace_ok(insert(m, c)),
        backspace(insert(m, c)) == followed(m),
{
    let col = m.cursor_col as int;
    let b = bytes_of(cur(m));
    lemma_insert_then_cut(b, col, c);
    let t = insert_bytes(b, col, char_bytes(c));
    let m1 = insert(m, c);
    assert(bytes_of(cur(m1)) == t);
    let back = backspace(m1);
    assert(back.lines =~= m.lines);
}

/// Typing a line break and then pressing Backspace joins the two halves
/// again: the lines and the cursor are as they were.
pub proof fn law_backspace_joins_new_line(m: EditorModel)
    requires
        wf(m),
        m.lines.len() <= usize::MAX,
        !m.disabled,
        !at_max_lines(m),
        newline_ok(m),
    ensures
        wf(insert(m, '\n')),
        backspace_ok(insert(m, '\n')),
        backspace(insert(m, '\n')).lines == m.lines,
        backspace(insert(m, '\n')).cursor_line == m.cursor_line,
        backspace(insert(m, '\n')).cursor_col == m.cursor_col,
{
    let col = m.cursor_col as int;
    let b = bytes_of(cur(m));
    let before = decode_utf8(b.subrange(0, col));
    let after = decode_utf8(b.subrange(col, b.len() as int));
    valid_utf8_split(b, col);
    decode_utf8_split(b, col);
    assert(before + after == cur(m));
    let m1 = insert(m, '\n');
    let upd = m.lines.update(m.cursor_line as int, before);
    assert(m1.lines == upd.insert(m.cursor_line + 1, after));
    assert(m1.cursor_line == m.cursor_line + 1);
    let rest = m1.lines.remove(m1.cursor_line as int);
    assert(rest =~= upd);
    assert(bytes_of(before) =~= b.subrange(0, col));
    let back = backspace(m1);
    assert(back.lines =~= m.lines);
}


/// Joining the pieces that `split_nl` cuts gives the text back.
proof fn lemma_joined_split(s: Seq<char>)
    ensures
        joined(split_nl(s)) == s,
    decreases s.len(),
{
    if s.len() > 0 {
        let d = s.drop_last();
        lemma_joined_split(d);
        lemma_split_nl_len(d);
        let r = split_nl(d);
        if s.last() == '\n' {
            let p = r.push(Seq::<char>::empty());
            assert(p.drop_last() =~= r);
            assert(joined(p) == joined(r).push('\n') + Seq::<char>::empty());
            assert(s =~= d.push('\n'));
        } else {
            let p = r.update(r.len() - 1, r.last().push(s.last()));
            if r.len() == 1 {
                assert(joined(p) == p[0]);
                assert(s =~= d.push(s.last()));
            } else {
                assert(p.drop_last() =~= r.drop_last());
                assert(joined(p) == joined(r.drop_last()).push('\n') + r.last().push(s.last()));
                assert(joined(r) == joined(r.drop_last()).push('\n') + r.last());
                assert(s =~= d.push(s.last()));
                assert(joined(p) =~= s);
            }
        }
    }
}

/// The last piece that `split_nl` cuts ends with the text's last character,
/// unless that is a line feed.
proof fn lemma_split_last(s: Seq<char>)
    requires
        s.len() > 0,
        s.last() != '\n',
    ensures
        split_nl(s).last().len() > 0,
{
    lemma_split_nl_len(s.drop_last());
}

/// `split_nl` cuts no piece holding a carriage return out of a text without one.
proof fn lemma_split_no_cr(s: Seq<char>)
    requires
        forall|i: int| 0 <= i < s.len() ==> s[i] != '\r',
    ensures
        forall|k: int| 0 <= k < split_nl(s).len() ==> strip_cr(#[trigger] split_nl(s)[k]) == split_nl(s)[k],
    decreases s.len(),
{
    if s.len() > 0 {
        let d = s.drop_last();
        assert forall|i: int| 0 <= i < d.len() implies d[i] != '\r' by {
            assert(d[i] == s[i]);
        }
        lemma_split_no_cr(d);
        lemma_split_nl_len(d);
        let r = split_nl(d);
        assert(s.last() != '\r');
        assert forall|k: int| 0 <= k < split_nl(s).len() implies strip_cr(#[trigger] split_nl(s)[k]) == split_nl(s)[k] by {
            if k < r.len() - 1 {
                assert(split_nl(s)[k] == r[k]);
            } else if k == r.len() - 1 {
                if s.last() == '\n' {
                    assert(split_nl(s)[k] == r[k]);
                }
            }
        }
    }
}

/// What `set_text` stores, `get_text` gives back, for a text without
/// carriage returns that does not end with a line break.
pub proof fn law_get_text_returns_set_text(m: EditorModel, s: Seq<char>)
    requires
        forall|i: int| 0 <= i < s.len() ==> s[i] != '\r',
        s.len() > 0 ==> s.last() != '\n',
    ensures
        joined(with_text(m, s).lines) == s,
{
    if s.len() == 0 {
        assert(joined(seq![Seq::<char>::empty()]) == Seq::<char>::empty());
    } else {
        let p = split_nl(s);
        lemma_split_last(s);
        lemma_split_no_cr(s);
        lemma_split_nl_len(s);
        lemma_joined_split(s);
        let done = p.drop_last().map_values(|l: Seq<char>| strip_cr(l));
        assert(done.push(p.last()) =~= p) by {
            assert forall|k: int| 0 <= k < p.len() - 1 implies done[k] == p[k] by {
                assert(strip_cr(p[k]) == p[k]);
            }
        }
        assert(text_lines(s) == p);
    }
}

/// Delete with the cursor before the end of its line removes exactly the
/// character that starts at the cursor: the line keeps its bytes before the
/// cursor, loses one to four bytes there, and keeps the rest after them;
/// every other line and the cursor stay.
pub proof fn law_delete_removes_char_at_cursor(m: EditorModel)
    requires
        wf(m),
        !m.disabled,
        m.cursor_col < blen(cur(m)),
        boundary(cur(m), m.cursor_col as int),
    ensures
        ({
            let d = delete(m);
            let at = m.cursor_col as int;
            let b = bytes_of(cur(m));
            let w = next_char_width(b, at);
            let nb = bytes_of(d.lines[m.cursor_line as int]);
            &&& 1 <= w <= 4
            &&& d.lines.len() == m.lines.len()
            &&& nb == cut_bytes(b, at, at + w)
            &&& nb.len() == b.len() - w
            &&& nb.subrange(0, at) == b.subrange(0, at)
            &&& nb.subrange(at, nb.len() as int) == b.subrange(at + w, b.len() as int)
            &&& forall|j: int| 0 <= j < m.lines.len() && j != m.cursor_line ==> d.lines[j] == m.lines[j]
            &&& d.cursor_line == m.cursor_line
            &&& d.cursor_col == m.cursor_col
            &&& d.selection_start == m.selection_start
        }),
{
    let at = m.cursor_col as int;
    let b = bytes_of(cur(m));
    let w = next_char_width(b, at);
    lemma_next_boundary(cur(m), at);
    lemma_cut_boundaries(cur(m), at, at + w);
    let c = cut_bytes(b, at, at + w);
    decode_utf8_encode_utf8(c);
    let d = delete(m);
    assert(d.lines[m.cursor_line as int] == decode_utf8(c));
    assert(c.subrange(0, at) =~= b.subrange(0, at));
    assert(c.subrange(at, c.len() as int) =~= b.subrange(at + w, b.len() as int));
}

/// Moving up from a line below the first lands on the line above, at the
/// same byte column where that line is long enough, else at its end; the
/// text stays.
pub proof fn law_up_keeps_column_within_line(m: EditorModel)
    requires
        wf(m),
        m.cursor_line > 0,
    ensures
        ({
            let u = up(m);
            let prev = m.lines[m.cursor_line - 1];
            &&& u.cursor_line == m.cursor_line - 1
            &&& u.cursor_col <= blen(prev)
            &&& m.cursor_col <= blen(prev) ==> u.cursor_col == m.cursor_col
            &&& m.cursor_col > blen(prev) ==> u.cursor_col == blen(prev)
            &&& u.lines == m.lines
            &&& u.selection_start == m.selection_start
        }),
{
}

/// Moving down from a line above the last lands on the line below, at the
/// same byte column where that line is long enough, else at its end.
pub proof fn law_down_keeps_column_within_line(m: EditorModel)
    requires
        wf(m),
        m.lines.len() <= usize::MAX,
        m.cursor_line + 1 < m.lines.len(),
    ensures
        ({
            let u = down(m);
            let next = m.lines[m.cursor_line + 1];
            &&& u.cursor_line == m.cursor_line + 1
            &&& u.cursor_col <= blen(next)
            &&& m.cursor_col <= blen(next) ==> u.cursor_col == m.cursor_col
            &&& m.cursor_col > blen(next) ==> u.cursor_col == blen(next)
            &&& u.lines == m.lines
        }),
{
}

/// The cursor's line is among the displayed lines.
pub open spec fn cursor_shown(m: EditorModel) -> bool {
    m.scroll_offset <= m.cursor_line && m.cursor_line < m.scroll_offset + m.display_lines
}

/// Scrolling to the cursor shows the cursor's line and changes nothing but
/// the first displayed line, which stays where the cursor is already shown;
/// so moving the cursor by arrow keys keeps it shown.
pub proof fn law_scrolling_shows_cursor(m: EditorModel)
    requires
        m.display_lines > 0,
    ensures
        cursor_shown(scrolled(m)),
        scrolled(m) == (EditorModel { scroll_offset: scrolled(m).scroll_offset, ..m }),
        cursor_shown(m) ==> scrolled(m) == m,
        wf(m) && cursor_shown(m) ==> cursor_shown(up(m)) && cursor_shown(down(m)) && cursor_shown(
            left(m),
        ) && cursor_shown(right(m)),
{
}

} // verus!
