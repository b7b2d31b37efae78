//! Text selection in the sidebar: which text is selected, how drags move the
//! selection, and the selected text itself.

use vstd::prelude::*;
use crate::activity::{get_item_text, item_text, ActivityItem};
use crate::text::{byte_slice, lemma_slice_text, str_byte_len, str_slice, string_push};

verus! {

broadcast use vstd::utf8::group_utf8_lib;

/// What a selection is made in, with its anchor (where it started) and its
/// current end. Offsets are byte offsets into the texts.
#[derive(Debug, Clone, Copy, PartialEq, Eq, Structural)]
pub enum SelectionTarget {
    ActivityItem { anchor_index: usize, anchor_byte: usize, current_index: usize, current_byte: usize },
    Suggestion { anchor_byte: usize, current_byte: usize },
    Goal { anchor_byte: usize, current_byte: usize },
    ChatInput { anchor_line: usize, anchor_byte: usize, current_line: usize, current_byte: usize },
}

/// Tracks text selection state in the sidebar.
#[derive(Debug, Clone, Copy)]
pub struct SelectionState {
    pub active_selection: Option<SelectionTarget>,
    pub prepared_selection: Option<SelectionTarget>,
    pub is_dragging: bool,
}

/// The smaller of two offsets.
pub open spec fn min_u(a: usize, b: usize) -> usize {
    if a <= b { a } else { b }
}

/// The larger of two offsets.
pub open spec fn max_u(a: usize, b: usize) -> usize {
    if a >= b { a } else { b }
}

/// The text of `t` from byte `b` to its end, or nothing if `b` is not a boundary.
pub open spec fn tail_from(t: Seq<char>, b: int) -> Seq<char> {
    match byte_slice(t, b, crate::text::bytes_of(t).len() as int) {
        Some(x) => x,
        None => Seq::empty(),
    }
}

/// The text of `t` up to byte `b`, or nothing if `b` is not a boundary.
pub open spec fn head_to(t: Seq<char>, b: int) -> Seq<char> {
    match byte_slice(t, 0, b) {
        Some(x) => x,
        None => Seq::empty(),
    }
}

/// What entry `k` of a selection across entries `lo..=hi` contributes: the
/// first entry from the selection's start, the last up to its end, entries
/// in between whole, each but the last followed by a line break. Entries past
/// the end of `texts` contribute nothing.
pub open spec fn piece(texts: Seq<Seq<char>>, k: int, lo: int, hi: int, anchor_index: int, anchor_byte: int, current_byte: int) -> Seq<char> {
    if k >= texts.len() {
        Seq::empty()
    } else {
        let t = texts[k];
        let body = if k == lo && k == anchor_index {
            tail_from(t, anchor_byte)
        } else if k == lo {
            tail_from(t, current_byte)
        } else if k == hi && k == anchor_index {
            head_to(t, anchor_byte)
        } else if k == hi {
            head_to(t, current_byte)
        } else {
            t
        };
        if k < hi { body.push('\n') } else { body }
    }
}

/// The pieces of entries `lo..k`, in order.
pub open spec fn pieces(texts: Seq<Seq<char>>, lo: int, k: int, hi: int, anchor_index: int, anchor_byte: int, current_byte: int) -> Seq<char>
    decreases k - lo,
{
    if k <= lo {
        Seq::empty()
    } else {
        pieces(texts, lo, k - 1, hi, anchor_index, anchor_byte, current_byte) + piece(texts, k - 1, lo, hi, anchor_index, anchor_byte, current_byte)
    }
}

/// The text selected between (`anchor_index`, `anchor_byte`) and
/// (`current_index`, `current_byte`) over the entries `texts`: within one
/// entry the bytes between the two offsets (if they are boundaries); across
/// entries the pieces, if any text results.
pub open spec fn span_text(texts: Seq<Seq<char>>, anchor_index: usize, anchor_byte: usize, current_index: usize, current_byte: usize) -> Option<Seq<char>> {
    if anchor_index == current_index {
        if anchor_index < texts.len() {
            byte_slice(texts[anchor_index as int], min_u(anchor_byte, current_byte) as int, max_u(anchor_byte, current_byte) as int)
        } else {
            None
        }
    } else {
        let lo = min_u(anchor_index, current_index) as int;
        let hi = max_u(anchor_index, current_index) as int;
        let t = pieces(texts, lo, hi + 1, hi, anchor_index as int, anchor_byte as int, current_byte as int);
        if t.len() == 0 { None } else { Some(t) }
    }
}

/// `text.get(b..)`, empty where that is `None`.
fn tail_text(t: &str, b: usize) -> (r: &str)
    ensures
        r@ == tail_from(t@, b as int),
{
    let n = str_byte_len(t);
    match str_slice(t, b, n) {
        Some(x) => {
            proof {
                lemma_slice_text(t@, b as int, n as int, x@);
            }
            x
        },
        None => {
            proof {
                reveal_strlit("");
            }
            ""
        },
    }
}

/// `text.get(..b)`, empty where that is `None`.
fn head_text(t: &str, b: usize) -> (r: &str)
    ensures
        r@ == head_to(t@, b as int),
{
    match str_slice(t, 0, b) {
        Some(x) => {
            proof {
                lemma_slice_text(t@, 0, b as int, x@);
            }
            x
        },
        None => {
            proof {
                reveal_strlit("");
            }
            ""
        },
    }
}

/// The text selected over `texts` (see `span_text`).
pub fn span_selection(texts: &Vec<&str>, anchor_index: usize, anchor_byte: usize, current_index: usize, current_byte: usize) -> (r: Option<String>)
    ensures
        match r {
            Some(s) => span_text(texts@.map_values(|t: &str| t@), anchor_index, anchor_byte, current_index, current_byte) == Some(s@),
            None => span_text(texts@.map_values(|t: &str| t@), anchor_index, anchor_byte, current_index, current_byte) is None,
        },
{
    let ghost views = texts@.map_values(|t: &str| t@);
    if anchor_index == current_index {
        if anchor_index < texts.len() {
            let t = texts[anchor_index];
            let lo = if anchor_byte <= current_byte { anchor_byte } else { current_byte };
            let hi = if anchor_byte >= current_byte { anchor_byte } else { current_byte };
            match str_slice(t, lo, hi) {
                Some(x) => {
                    proof {
                        lemma_slice_text(t@, lo as int, hi as int, x@);
                    }
                    Some(String::from_str(x))
                },
                None => None,
            }
        } else {
            None
        }
    } else {
        let lo = if anchor_index <= current_index { anchor_index } else { current_index };
        let hi = if anchor_index >= current_index { anchor_index } else { current_index };
        let n = texts.len();
        let mut out = String::new();
        let mut k = lo;
        let mut done = false;
        while !done
            invariant
                lo <= k <= hi,
                lo < hi,
                n == texts@.len(),
                views == texts@.map_values(|t: &str| t@),
                !done ==> out@ == pieces(views, lo as int, k as int, hi as int, anchor_index as int, anchor_byte as int, current_byte as int),
                done ==> out@ == pieces(views, lo as int, hi + 1, hi as int, anchor_index as int, anchor_byte as int, current_byte as int),
            decreases hi - k, if done { 0int } else { 1int },
        {
            let ghost before = out@;
            if k < n {
                let t = texts[k];
                let body: &str = if k == lo && k == anchor_index {
                    tail_text(t, anchor_byte)
                } else if k == lo {
                    tail_text(t, current_byte)
                } else if k == hi && k == anchor_index {
                    head_text(t, anchor_byte)
                } else if k == hi {
                    head_text(t, current_byte)
                } else {
                    t
                };
                out.append(body);
                if k < hi {
                    string_push(&mut out, '\n');
                }
                proof {
                    assert(views[k as int] == t@);
                    assert(out@ =~= before + piece(views, k as int, lo as int, hi as int, anchor_index as int, anchor_byte as int, current_byte as int));
                }
            } else {
                proof {
                    assert(piece(views, k as int, lo as int, hi as int, anchor_index as int, anchor_byte as int, current_byte as int) =~= Seq::<char>::empty());
                    assert(out@ =~= before + piece(views, k as int, lo as int, hi as int, anchor_index as int, anchor_byte as int, current_byte as int));
                }
            }
            if k == hi {
                done = true;
            } else {
                k = k + 1;
            }
        }
        if out.as_str().is_empty() {
            None
        } else {
            Some(out)
        }
    }
}


/// The texts that selections read, one per activity item.
pub open spec fn log_texts(log: Seq<ActivityItem>) -> Seq<Seq<char>> {
    log.map_values(|item: ActivityItem| item_text(item))
}

/// The views of some strings.
pub open spec fn string_views(lines: Seq<String>) -> Seq<Seq<char>> {
    lines.map_values(|l: String| l@)
}

/// The text that `selection` covers, given the activity log, the current
/// suggestion's content, the current goal's text and the chat input's lines.
pub open spec fn selected_text(
    selection: Option<SelectionTarget>,
    log: Seq<Seq<char>>,
    suggestion: Option<Seq<char>>,
    goal: Option<Seq<char>>,
    lines: Seq<Seq<char>>,
) -> Option<Seq<char>> {
    match selection {
        None => None,
        Some(SelectionTarget::ActivityItem { anchor_index, anchor_byte, current_index, current_byte }) =>
            span_text(log, anchor_index, anchor_byte, current_index, current_byte),
        Some(SelectionTarget::Suggestion { anchor_byte, current_byte }) => match suggestion {
            Some(c) => byte_slice(c, min_u(anchor_byte, current_byte) as int, max_u(anchor_byte, current_byte) as int),
            None => None,
        },
        Some(SelectionTarget::Goal { anchor_byte, current_byte }) => match goal {
            Some(g) => byte_slice(g, min_u(anchor_byte, current_byte) as int, max_u(anchor_byte, current_byte) as int),
            None => None,
        },
        Some(SelectionTarget::ChatInput { anchor_line, anchor_byte, current_line, current_byte }) =>
            span_text(lines, anchor_line, anchor_byte, current_line, current_byte),
    }
}

/// The bytes between two offsets of `t`, as a new string.
fn range_text(t: &str, a: usize, b: usize) -> (r: Option<String>)
    ensures
        match r {
            Some(s) => byte_slice(t@, min_u(a, b) as int, max_u(a, b) as int) == Some(s@),
            None => byte_slice(t@, min_u(a, b) as int, max_u(a, b) as int) is None,
        },
{
    let lo = if a <= b { a } else { b };
    let hi = if a >= b { a } else { b };
    match str_slice(t, lo, hi) {
        Some(x) => {
            proof {
                lemma_slice_text(t@, lo as int, hi as int, x@);
            }
            Some(String::from_str(x))
        },
        None => None,
    }
}

impl SelectionState {
    /// No selection, nothing prepared, not dragging.
    pub fn new() -> (s: Self)
        ensures
            s.active_selection is None,
            s.prepared_selection is None,
            !s.is_dragging,
    {
        SelectionState { active_selection: None, prepared_selection: None, is_dragging: false }
    }

    /// The selected text (see `selected_text`).
    pub fn get_selected_text(
        &self,
        activity_log: &Vec<ActivityItem>,
        suggestion_content: Option<&str>,
        goal_text: Option<&str>,
        chat_lines: &Vec<String>,
    ) -> (r: Option<String>)
        ensures
            match r {
                Some(s) => selected_text(
                    self.active_selection,
                    log_texts(activity_log@),
                    match suggestion_content { Some(c) => Some(c@), None => None },
                    match goal_text { Some(g) => Some(g@), None => None },
                    string_views(chat_lines@),
                ) == Some(s@),
                None => selected_text(
                    self.active_selection,
                    log_texts(activity_log@),
                    match suggestion_content { Some(c) => Some(c@), None => None },
                    match goal_text { Some(g) => Some(g@), None => None },
                    string_views(chat_lines@),
                ) is None,
            },
    {
        match self.active_selection {
            None => None,
            Some(SelectionTarget::ActivityItem { anchor_index, anchor_byte, current_index, current_byte }) => {
                let mut texts: Vec<&str> = Vec::new();
                let mut i: usize = 0;
                while i < activity_log.len()
                    invariant
                        i <= activity_log@.len(),
                        texts@.len() == i,
                        forall|j: int| 0 <= j < i ==> (#[trigger] texts@[j])@ == item_text(activity_log@[j]),
                    decreases activity_log@.len() - i,
                {
                    texts.push(get_item_text(&activity_log[i]));
                    i = i + 1;
                }
                proof {
                    assert(texts@.map_values(|t: &str| t@) =~= log_texts(activity_log@));
                }
                span_selection(&texts, anchor_index, anchor_byte, current_index, current_byte)
            },
            Some(SelectionTarget::Suggestion { anchor_byte, current_byte }) => match suggestion_content {
                Some(c) => range_text(c, anchor_byte, current_byte),
                None => None,
            },
            Some(SelectionTarget::Goal { anchor_byte, current_byte }) => match goal_text {
                Some(g) => range_text(g, anchor_byte, current_byte),
                None => None,
            },
            Some(SelectionTarget::ChatInput { anchor_line, anchor_byte, current_line, current_byte }) => {
                let mut texts: Vec<&str> = Vec::new();
                let mut i: usize = 0;
                while i < chat_lines.len()
                    invariant
                        i <= chat_lines@.len(),
                        texts@.len() == i,
                        forall|j: int| 0 <= j < i ==> (#[trigger] texts@[j])@ == chat_lines@[j]@,
                    decreases chat_lines@.len() - i,
                {
                    texts.push(chat_lines[i].as_str());
                    i = i + 1;
                }
                proof {
                    assert(texts@.map_values(|t: &str| t@) =~= string_views(chat_lines@));
                }
                span_selection(&texts, anchor_line, anchor_byte, current_line, current_byte)
            },
        }
    }

    /// Forgets the selection, the prepared one, and the drag.
    pub fn clear(&mut self)
        ensures
            final(self).active_selection is None,
            final(self).prepared_selection is None,
            !final(self).is_dragging,
    {
        self.active_selection = None;
        self.prepared_selection = None;
        self.is_dragging = false;
    }

    /// Starts a selection in activity item `index` at `byte_offset`, if the
    /// log (of `item_count` items) has that item.
    pub fn start_activity_item_selection(&mut self, index: usize, byte_offset: usize, item_count: usize)
        ensures
            index < item_count ==> final(self).active_selection == Some(SelectionTarget::ActivityItem {
                anchor_index: index,
                anchor_byte: byte_offset,
                current_index: index,
                current_byte: byte_offset,
            }) && final(self).is_dragging && final(self).prepared_selection == old(self).prepared_selection,
            index >= item_count ==> *final(self) == *old(self),
    {
        if index < item_count {
            self.active_selection = Some(SelectionTarget::ActivityItem {
                anchor_index: index,
                anchor_byte: byte_offset,
                current_index: index,
                current_byte: byte_offset,
            });
            self.is_dragging = true;
        }
    }

    /// Starts a selection in the current suggestion, if there is one.
    pub fn start_suggestion_selection(&mut self, byte_offset: usize, has_suggestion: bool)
        ensures
            has_suggestion ==> final(self).active_selection == Some(SelectionTarget::Suggestion {
                anchor_byte: byte_offset,
                current_byte: byte_offset,
            }) && final(self).is_dragging && final(self).prepared_selection == old(self).prepared_selection,
            !has_suggestion ==> *final(self) == *old(self),
    {
        if has_suggestion {
            self.active_selection = Some(SelectionTarget::Suggestion { anchor_byte: byte_offset, current_byte: byte_offset });
            self.is_dragging = true;
        }
    }

    /// Starts a selection in the current goal, if there is one.
    pub fn start_goal_selection(&mut self, byte_offset: usize, has_goal: bool)
        ensures
            has_goal ==> final(self).active_selection == Some(SelectionTarget::Goal {
                anchor_byte: byte_offset,
                current_byte: byte_offset,
            }) && final(self).is_dragging && final(self).prepared_selection == old(self).prepared_selection,
            !has_goal ==> *final(self) == *old(self),
    {
        if has_goal {
            self.active_selection = Some(SelectionTarget::Goal { anchor_byte: byte_offset, current_byte: byte_offset });
            self.is_dragging = true;
        }
    }

    /// Starts a selection in the chat input at `line`, `byte_offset`.
    pub fn start_chat_input_selection(&mut self, line: usize, byte_offset: usize)
        ensures
            final(self).active_selection == Some(SelectionTarget::ChatInput {
                anchor_line: line,
                anchor_byte: byte_offset,
                current_line: line,
                current_byte: byte_offset,
            }),
            final(self).is_dragging,
            final(self).prepared_selection == old(self).prepared_selection,
    {
        self.active_selection = Some(SelectionTarget::ChatInput {
            anchor_line: line,
            anchor_byte: byte_offset,
            current_line: line,
            current_byte: byte_offset,
        });
        self.is_dragging = true;
    }

    /// While dragging, moves the end of a selection within its text to
    /// `byte_offset`; chat input selections move by line and byte instead.
    pub fn update_selection_drag(&mut self, byte_offset: usize)
        ensures
            final(self).is_dragging == old(self).is_dragging,
            final(self).prepared_selection == old(self).prepared_selection,
            final(self).active_selection == (if !old(self).is_dragging {
                old(self).active_selection
            } else {
                match old(self).active_selection {
                    Some(SelectionTarget::ActivityItem { anchor_index, anchor_byte, current_index, .. }) =>
                        Some(SelectionTarget::ActivityItem { anchor_index, anchor_byte, current_index, current_byte: byte_offset }),
                    Some(SelectionTarget::Suggestion { anchor_byte, .. }) =>
                        Some(SelectionTarget::Suggestion { anchor_byte, current_byte: byte_offset }),
                    Some(SelectionTarget::Goal { anchor_byte, .. }) =>
                        Some(SelectionTarget::Goal { anchor_byte, current_byte: byte_offset }),
                    other => other,
                }
            }),
    {
        if !self.is_dragging {
            return;
        }
        self.active_selection = match self.active_selection {
            Some(SelectionTarget::ActivityItem { anchor_index, anchor_byte, current_index, .. }) =>
                Some(SelectionTarget::ActivityItem { anchor_index, anchor_byte, current_index, current_byte: byte_offset }),
            Some(SelectionTarget::Suggestion { anchor_byte, .. }) =>
                Some(SelectionTarget::Suggestion { anchor_byte, current_byte: byte_offset }),
            Some(SelectionTarget::Goal { anchor_byte, .. }) =>
                Some(SelectionTarget::Goal { anchor_byte, current_byte: byte_offset }),
            other => other,
        };
    }

    /// While dragging an activity selection, moves its end to item
    /// `item_index`, `byte_offset`, possibly across items.
    pub fn update_activity_log_selection_drag(&mut self, item_index: usize, byte_offset: usize)
        ensures
            final(self).is_dragging == old(self).is_dragging,
            final(self).prepared_selection == old(self).prepared_selection,
            final(self).active_selection == (if !old(self).is_dragging {
                old(self).active_selection
            } else {
                match old(self).active_selection {
                    Some(SelectionTarget::ActivityItem { anchor_index, anchor_byte, .. }) =>
                        Some(SelectionTarget::ActivityItem { anchor_index, anchor_byte, current_index: item_index, current_byte: byte_offset }),
                    other => other,
                }
            }),
    {
        if !self.is_dragging {
            return;
        }
        match self.active_selection {
            Some(SelectionTarget::ActivityItem { anchor_index, anchor_byte, .. }) => {
                self.active_selection = Some(SelectionTarget::ActivityItem {
                    anchor_index,
                    anchor_byte,
                    current_index: item_index,
                    current_byte: byte_offset,
                });
            },
            _ => {},
        }
    }

    /// While dragging a chat input selection, moves its end to `line`, `byte_offset`.
    pub fn update_chat_input_selection(&mut self, line: usize, byte_offset: usize)
        ensures
            final(self).is_dragging == old(self).is_dragging,
            final(self).prepared_selection == old(self).prepared_selection,
            final(self).active_selection == (if !old(self).is_dragging {
                old(self).active_selection
            } else {
                match old(self).active_selection {
                    Some(SelectionTarget::ChatInput { anchor_line, anchor_byte, .. }) =>
                        Some(SelectionTarget::ChatInput { anchor_line, anchor_byte, current_line: line, current_byte: byte_offset }),
                    other => other,
                }
            }),
    {
        if !self.is_dragging {
            return;
        }
        match self.active_selection {
            Some(SelectionTarget::ChatInput { anchor_line, anchor_byte, .. }) => {
                self.active_selection = Some(SelectionTarget::ChatInput {
                    anchor_line,
                    anchor_byte,
                    current_line: line,
                    current_byte: byte_offset,
                });
            },
            _ => {},
        }
    }

    /// Whether a selection drag is in progress.
    pub fn is_selecting(&self) -> (b: bool)
        ensures
            b == self.is_dragging,
    {
        self.is_dragging
    }

    /// On mouse down: remembers `target` as a possible selection and drops
    /// any active one. Returns whether an active selection was dropped.
    pub fn prepare_selection(&mut self, target: SelectionTarget) -> (r: bool)
        ensures
            r == old(self).active_selection is Some,
            final(self).prepared_selection == Some(target),
            final(self).active_selection is None,
            !final(self).is_dragging,
    {
        let had_selection = self.active_selection.is_some();
        self.prepared_selection = Some(target);
        self.active_selection = None;
        self.is_dragging = false;
        had_selection
    }

    /// On drag start: the prepared selection becomes the active one.
    pub fn activate_prepared_selection(&mut self)
        ensures
            old(self).prepared_selection is Some ==> final(self).active_selection == old(self).prepared_selection
                && final(self).prepared_selection is None && final(self).is_dragging,
            old(self).prepared_selection is None ==> *final(self) == *old(self),
    {
        match self.prepared_selection {
            Some(prepared) => {
                self.prepared_selection = None;
                self.active_selection = Some(prepared);
                self.is_dragging = true;
            },
            None => {},
        }
    }

    /// Ends the drag, keeping the selection.
    pub fn end_selection(&mut self)
        ensures
            !final(self).is_dragging,
            final(self).active_selection == old(self).active_selection,
            final(self).prepared_selection == old(self).prepared_selection,
    {
        self.is_dragging = false;
    }

    /// Clears everything. Returns whether there was a selection or a
    /// prepared one.
    pub fn clear_selection(&mut self) -> (r: bool)
        ensures
            r == (old(self).active_selection is Some || old(self).prepared_selection is Some),
            final(self).active_selection is None,
            final(self).prepared_selection is None,
            !final(self).is_dragging,
    {
        let had = self.active_selection.is_some() || self.prepared_selection.is_some();
        self.clear();
        had
    }

    /// Clears an activity selection that refers to an item the log (of
    /// `item_count` items) no longer has.
    pub fn clear_selection_if_invalid(&mut self, item_count: usize)
        ensures
            (match old(self).active_selection {
                Some(SelectionTarget::ActivityItem { anchor_index, current_index, .. }) =>
                    anchor_index >= item_count || current_index >= item_count,
                _ => false,
            }) ==> final(self).active_selection is None && final(self).prepared_selection is None && !final(self).is_dragging,
            !(match old(self).active_selection {
                Some(SelectionTarget::ActivityItem { anchor_index, current_index, .. }) =>
                    anchor_index >= item_count || current_index >= item_count,
                _ => false,
            }) ==> *final(self) == *old(self),
    {
        match self.active_selection {
            Some(SelectionTarget::ActivityItem { anchor_index, current_index, .. }) => {
                if anchor_index >= item_count || current_index >= item_count {
                    self.clear();
                }
            },
            _ => {},
        }
    }
}

/// A span of a text line and whether it is selected.
#[derive(Debug, Clone, Copy, PartialEq, Eq, Structural)]
pub struct SelectionSpan {
    pub start: usize,
    pub end: usize,
    pub selected: bool,
}

/// Spans that colour a line of `text_len` bytes with the bytes
/// `[start_byte, end_byte)` selected: the text before (if any), the selection,
/// the text after (if any).
pub fn create_selection_spans(text_len: usize, start_byte: usize, end_byte: usize) -> (v: Vec<SelectionSpan>)
    ensures
        v@ == (if start_byte > 0 { seq![SelectionSpan { start: 0, end: start_byte, selected: false }] } else { Seq::empty() })
            + seq![SelectionSpan { start: start_byte, end: end_byte, selected: true }]
            + (if end_byte < text_len { seq![SelectionSpan { start: end_byte, end: text_len, selected: false }] } else { Seq::empty() }),
{
    let mut v: Vec<SelectionSpan> = Vec::new();
    if start_byte > 0 {
        v.push(SelectionSpan { start: 0, end: start_byte, selected: false });
    }
    v.push(SelectionSpan { start: start_byte, end: end_byte, selected: true });
    if end_byte < text_len {
        v.push(SelectionSpan { start: end_byte, end: text_len, selected: false });
    }
    proof {
        assert(v@ =~= (if start_byte > 0 { seq![SelectionSpan { start: 0, end: start_byte, selected: false }] } else { Seq::empty() })
            + seq![SelectionSpan { start: start_byte, end: end_byte, selected: true }]
            + (if end_byte < text_len { seq![SelectionSpan { start: end_byte, end: text_len, selected: false }] } else { Seq::empty() }));
    }
    v
}


/// Swapping the two ends of a selection across entries changes no piece.
proof fn lemma_pieces_swap(texts: Seq<Seq<char>>, lo: int, k: int, hi: int, ai: int, ab: int, ci: int, cb: int)
    requires
        lo < hi,
        (ai == lo && ci == hi) || (ai == hi && ci == lo),
    ensures
        pieces(texts, lo, k, hi, ai, ab, cb) == pieces(texts, lo, k, hi, ci, cb, ab),
    decreases k - lo,
{
    if k > lo {
        lemma_pieces_swap(texts, lo, k - 1, hi, ai, ab, ci, cb);
        assert(piece(texts, k - 1, lo, hi, ai, ab, cb) == piece(texts, k - 1, lo, hi, ci, cb, ab));
    }
}

/// A selection covers the same text whichever of its ends was the anchor:
/// dragging backwards selects what dragging forwards does.
pub proof fn law_selection_direction_does_not_matter(
    texts: Seq<Seq<char>>,
    anchor_index: usize,
    anchor_byte: usize,
    current_index: usize,
    current_byte: usize,
)
    ensures
        span_text(texts, anchor_index, anchor_byte, current_index, current_byte) == span_text(
            texts,
            current_index,
            current_byte,
            anchor_index,
            anchor_byte,
        ),
{
    if anchor_index != current_index {
        let lo = min_u(anchor_index, current_index) as int;
        let hi = max_u(anchor_index, current_index) as int;
        lemma_pieces_swap(texts, lo, hi + 1, hi, anchor_index as int, anchor_byte as int, current_index as int, current_byte as int);
    }
}

/// A selection within one entry of the activity log reads the text the
/// entry shows: a chat's message, a command's output (its command line where
/// it has none), a suggestion's content and a goal's text, between the two
/// ends of the selection.
pub proof fn law_log_selection_reads_entry_text(
    log: Seq<ActivityItem>,
    k: usize,
    a: usize,
    b: usize,
    suggestion: Option<Seq<char>>,
    goal: Option<Seq<char>>,
    lines: Seq<Seq<char>>,
)
    requires
        k < log.len(),
    ensures
        ({
            let shown = match log[k as int] {
                ActivityItem::Chat { message, .. } => message@,
                ActivityItem::Command { command, output, .. } => match output {
                    Some(o) => o@,
                    None => command@,
                },
                ActivityItem::Suggestion { content, .. } => content@,
                ActivityItem::Goal { text, .. } => text@,
            };
            selected_text(
                Some(SelectionTarget::ActivityItem { anchor_index: k, anchor_byte: a, current_index: k, current_byte: b }),
                log_texts(log),
                suggestion,
                goal,
                lines,
            ) == byte_slice(shown, min_u(a, b) as int, max_u(a, b) as int)
        }),
{
}

} // verus!
