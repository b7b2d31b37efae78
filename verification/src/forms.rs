//! Form widgets: text input, button, toggle, dropdown and file picker.

use vstd::prelude::*;
use vstd::utf8::{encode_utf8_decode_utf8, encode_utf8_valid_utf8};
use crate::text::{
    boundary, byte_len, bytes_of, char_bytes, cut_bytes, insert_bytes, lemma_cut_boundaries,
    lemma_insert_then_cut, next_char_width, string_clear, string_cut, string_insert, string_push,
    string_remove,
};

verus! {

/// Text input component for forms.
pub struct TextInput {
    /// Current text value
    pub value: String,
    /// Placeholder text when empty
    pub placeholder: String,
    /// Whether the input is focused
    pub focused: bool,
    /// Cursor position (a byte offset into `value`)
    pub cursor_pos: usize,
    /// Selection start (if any), a byte offset
    pub selection_start: Option<usize>,
    /// Maximum length in bytes (None for unlimited)
    pub max_length: Option<usize>,
    /// Whether the input is disabled
    pub disabled: bool,
    /// Validation error message
    pub error: Option<String>,
}

/// The ordered byte range between the selection anchor and the cursor.
pub open spec fn ordered(a: usize, b: usize) -> (usize, usize) {
    if a < b { (a, b) } else { (b, a) }
}

impl TextInput {
    /// Byte length of the current value.
    pub open spec fn len_bytes(&self) -> int {
        bytes_of(self.value@).len() as int
    }

    /// Whether the maximum length forbids further input.
    pub open spec fn at_max_length(&self) -> bool {
        match self.max_length {
            Some(max) => self.len_bytes() >= max,
            None => false,
        }
    }

    /// Fields that editing never touches.
    pub open spec fn same_settings(&self, other: &TextInput) -> bool {
        &&& self.placeholder@ == other.placeholder@
        &&& self.focused == other.focused
        &&& self.max_length == other.max_length
        &&& self.disabled == other.disabled
        &&& self.error == other.error
    }

    /// Everything is as in `other`.
    pub open spec fn same_as(&self, other: &TextInput) -> bool {
        &&& self.same_settings(other)
        &&& self.value@ == other.value@
        &&& self.cursor_pos == other.cursor_pos
        &&& self.selection_start == other.selection_start
    }

    /// The selection (if any) lies between character boundaries of the value.
    pub open spec fn selection_on_boundaries(&self) -> bool {
        match self.selection_start {
            Some(start) => {
                let (lo, hi) = ordered(start, self.cursor_pos);
                boundary(self.value@, lo as int) && boundary(self.value@, hi as int)
            },
            None => true,
        }
    }

    /// Bytes of the value once the selection (if any) has been removed.
    pub open spec fn bytes_without_selection(&self) -> Seq<u8> {
        match self.selection_start {
            Some(start) => {
                let (lo, hi) = ordered(start, self.cursor_pos);
                cut_bytes(bytes_of(self.value@), lo as int, hi as int)
            },
            None => bytes_of(self.value@),
        }
    }

    /// Cursor position once the selection (if any) has been removed.
    pub open spec fn cursor_without_selection(&self) -> usize {
        match self.selection_start {
            Some(start) => ordered(start, self.cursor_pos).0,
            None => self.cursor_pos,
        }
    }

    /// `after` is this input once `c` has been typed: unless disabled or at
    /// the maximum length, the selection (if any) is removed and the
    /// character's encoding goes in at the cursor, which moves one byte on.
    pub open spec fn typed(&self, c: char, after: &TextInput) -> bool {
        if self.disabled || self.at_max_length() {
            after.same_as(self)
        } else {
            &&& bytes_of(after.value@) == insert_bytes(
                self.bytes_without_selection(),
                self.cursor_without_selection() as int,
                char_bytes(c),
            )
            &&& after.cursor_pos == self.cursor_without_selection() + 1
            &&& after.selection_start is None
            &&& after.same_settings(self)
        }
    }

    /// `after` is this input once Backspace has been pressed: unless
    /// disabled, the selection (if any) is removed, or else the character
    /// starting one byte before the cursor, and the cursor moves there.
    pub open spec fn backspaced(&self, after: &TextInput) -> bool {
        if self.disabled {
            after.same_as(self)
        } else if self.selection_start is Some {
            &&& bytes_of(after.value@) == self.bytes_without_selection()
            &&& after.cursor_pos == self.cursor_without_selection()
            &&& after.selection_start is None
            &&& after.same_settings(self)
        } else if self.cursor_pos == 0 {
            after.same_as(self)
        } else {
            let at = self.cursor_pos - 1;
            let b = bytes_of(self.value@);
            &&& bytes_of(after.value@) == cut_bytes(b, at, at + next_char_width(b, at))
            &&& after.cursor_pos == at
            &&& after.selection_start is None
            &&& after.same_settings(self)
        }
    }

    pub fn new() -> (t: Self)
        ensures
            t.value@ == Seq::<char>::empty(),
            t.placeholder@ == Seq::<char>::empty(),
            !t.focused,
            t.cursor_pos == 0,
            t.selection_start is None,
            t.max_length is None,
            !t.disabled,
            t.error is None,
    {
        TextInput {
            value: String::new(),
            placeholder: String::new(),
            focused: false,
            cursor_pos: 0,
            selection_start: None,
            max_length: None,
            disabled: false,
            error: None,
        }
    }

    pub fn with_placeholder(self, placeholder: String) -> (t: Self)
        ensures
            t.placeholder@ == placeholder@,
            t.value@ == self.value@,
            t.focused == self.focused,
            t.cursor_pos == self.cursor_pos,
            t.selection_start == self.selection_start,
            t.max_length == self.max_length,
            t.disabled == self.disabled,
            t.error == self.error,
    {
        let mut t = self;
        t.placeholder = placeholder;
        t
    }

    /// Sets the value and puts the cursor at its end.
    pub fn with_value(self, value: String) -> (t: Self)
        ensures
            t.value@ == value@,
            t.cursor_pos == bytes_of(value@).len(),
            t.same_settings(&self),
            t.selection_start == self.selection_start,
    {
        let mut t = self;
        t.value = value;
        t.cursor_pos = byte_len(&t.value);
        t
    }

    pub fn with_max_length(self, max_length: usize) -> (t: Self)
        ensures
            t.max_length == Some(max_length),
            t.value@ == self.value@,
            t.placeholder@ == self.placeholder@,
            t.focused == self.focused,
            t.cursor_pos == self.cursor_pos,
            t.selection_start == self.selection_start,
            t.disabled == self.disabled,
            t.error == self.error,
    {
        let mut t = self;
        t.max_length = Some(max_length);
        t
    }

    pub fn disabled(self, disabled: bool) -> (t: Self)
        ensures
            t.disabled == disabled,
            t.value@ == self.value@,
            t.placeholder@ == self.placeholder@,
            t.focused == self.focused,
            t.cursor_pos == self.cursor_pos,
            t.selection_start == self.selection_start,
            t.max_length == self.max_length,
            t.error == self.error,
    {
        let mut t = self;
        t.disabled = disabled;
        t
    }

    pub fn with_error(self, error: Option<String>) -> (t: Self)
        ensures
            t.error == error,
            t.value@ == self.value@,
            t.placeholder@ == self.placeholder@,
            t.focused == self.focused,
            t.cursor_pos == self.cursor_pos,
            t.selection_start == self.selection_start,
            t.max_length == self.max_length,
            t.disabled == self.disabled,
    {
        let mut t = self;
        t.error = error;
        t
    }

    /// Removes the selected bytes and places the cursor at the start of the
    /// removed range.
    fn remove_selection(&mut self, start: usize)
        requires
            old(self).selection_start == Some(start),
            old(self).selection_on_boundaries(),
        ensures
            bytes_of(final(self).value@) == old(self).bytes_without_selection(),
            final(self).cursor_pos == old(self).cursor_without_selection(),
            final(self).selection_start is None,
            final(self).same_settings(old(self)),
            boundary(final(self).value@, final(self).cursor_pos as int),
    {
        let end = self.cursor_pos;
        let (lo, hi) = if start < end { (start, end) } else { (end, start) };
        proof {
            lemma_cut_boundaries(self.value@, lo as int, hi as int);
        }
        string_cut(&mut self.value, lo, hi);
        self.cursor_pos = lo;
        self.selection_start = None;
    }

    /// Types a character: replaces the selection, if any, and inserts `c` at
    /// the cursor. Nothing happens when disabled or at the maximum length.
    pub fn insert_char(&mut self, c: char)
        requires
            !old(self).disabled && !old(self).at_max_length() ==> {
                &&& old(self).selection_on_boundaries()
                &&& boundary(old(self).value@, old(self).cursor_without_selection() as int)
                &&& old(self).cursor_without_selection() < usize::MAX
            },
        ensures
            old(self).typed(c, final(self)),
    {
        if self.disabled {
            return;
        }
        match self.max_length {
            Some(max) => {
                if byte_len(&self.value) >= max {
                    return;
                }
            },
            None => {},
        }
        match self.selection_start {
            Some(start) => {
                self.remove_selection(start);
            },
            None => {},
        }
        string_insert(&mut self.value, self.cursor_pos, c);
        self.cursor_pos = self.cursor_pos + 1;
    }

    /// Backspace: removes the selection, or else the character just before
    /// the cursor (which must start at byte `cursor_pos - 1`).
    pub fn backspace(&mut self)
        requires
            !old(self).disabled ==> match old(self).selection_start {
                Some(_) => old(self).selection_on_boundaries(),
                None => old(self).cursor_pos > 0 ==> {
                    &&& boundary(old(self).value@, old(self).cursor_pos - 1)
                    &&& old(self).cursor_pos - 1 < old(self).len_bytes()
                },
            },
        ensures
            old(self).backspaced(final(self)),
    {
        if self.disabled {
            return;
        }
        match self.selection_start {
            Some(start) => {
                self.remove_selection(start);
            },
            None => {
                if self.cursor_pos > 0 {
                    self.cursor_pos = self.cursor_pos - 1;
                    let _ = string_remove(&mut self.value, self.cursor_pos);
                }
            },
        }
    }

    /// Delete key: removes the selection, or else the character at the cursor.
    pub fn delete(&mut self)
        requires
            !old(self).disabled ==> match old(self).selection_start {
                Some(_) => old(self).selection_on_boundaries(),
                None => old(self).cursor_pos < old(self).len_bytes() ==> boundary(
                    old(self).value@,
                    old(self).cursor_pos as int,
                ),
            },
        ensures
            old(self).disabled ==> final(self).same_as(old(self)),
            !old(self).disabled && old(self).selection_start is Some ==> {
                &&& bytes_of(final(self).value@) == old(self).bytes_without_selection()
                &&& final(self).cursor_pos == old(self).cursor_without_selection()
                &&& final(self).selection_start is None
                &&& final(self).same_settings(old(self))
            },
            !old(self).disabled && old(self).selection_start is None && old(self).cursor_pos
                >= old(self).len_bytes() ==> final(self).same_as(old(self)),
            !old(self).disabled && old(self).selection_start is None && old(self).cursor_pos
                < old(self).len_bytes() ==> {
                let at = old(self).cursor_pos as int;
                let b = bytes_of(old(self).value@);
                &&& bytes_of(final(self).value@) == cut_bytes(b, at, at + next_char_width(b, at))
                &&& final(self).cursor_pos == old(self).cursor_pos
                &&& final(self).selection_start is None
                &&& final(self).same_settings(old(self))
            },
    {
        if self.disabled {
            return;
        }
        match self.selection_start {
            Some(start) => {
                self.remove_selection(start);
            },
            None => {
                if self.cursor_pos < byte_len(&self.value) {
                    let _ = string_remove(&mut self.value, self.cursor_pos);
                }
            },
        }
    }

    /// Moves the cursor one byte left, stopping at 0.
    pub fn move_left(&mut self)
        ensures
            final(self).cursor_pos == (if old(self).cursor_pos > 0 { (old(self).cursor_pos - 1) as usize } else { 0 }),
            final(self).value@ == old(self).value@,
            final(self).selection_start == old(self).selection_start,
            final(self).same_settings(old(self)),
    {
        if self.cursor_pos > 0 {
            self.cursor_pos = self.cursor_pos - 1;
        }
    }

    /// Moves the cursor one byte right, stopping at the end of the value.
    pub fn move_right(&mut self)
        ensures
            final(self).cursor_pos == (if old(self).cursor_pos < old(self).len_bytes() { (old(self).cursor_pos + 1) as usize } else { old(self).cursor_pos }),
            final(self).value@ == old(self).value@,
            final(self).selection_start == old(self).selection_start,
            final(self).same_settings(old(self)),
    {
        if self.cursor_pos < byte_len(&self.value) {
            self.cursor_pos = self.cursor_pos + 1;
        }
    }

    /// Moves the cursor to the beginning.
    pub fn move_home(&mut self)
        ensures
            final(self).cursor_pos == 0,
            final(self).value@ == old(self).value@,
            final(self).selection_start == old(self).selection_start,
            final(self).same_settings(old(self)),
    {
        self.cursor_pos = 0;
    }

    /// Moves the cursor to the end.
    pub fn move_end(&mut self)
        ensures
            final(self).cursor_pos == old(self).len_bytes(),
            final(self).value@ == old(self).value@,
            final(self).selection_start == old(self).selection_start,
            final(self).same_settings(old(self)),
    {
        self.cursor_pos = byte_len(&self.value);
    }

    /// Selects the whole value.
    pub fn select_all(&mut self)
        ensures
            final(self).selection_start == Some(0usize),
            final(self).cursor_pos == old(self).len_bytes(),
            final(self).value@ == old(self).value@,
            final(self).same_settings(old(self)),
    {
        self.selection_start = Some(0);
        self.cursor_pos = byte_len(&self.value);
    }

    /// The text the field shows and whether it is the placeholder (shown,
    /// dimmed, while the field is empty and unfocused).
    pub fn render(&self) -> (r: (&str, bool))
        ensures
            r.1 == (self.value@.len() == 0 && !self.focused),
            r.0@ == (if r.1 { self.placeholder@ } else { self.value@ }),
    {
        if self.value.as_str().is_empty() && !self.focused {
            (self.placeholder.as_str(), true)
        } else {
            (self.value.as_str(), false)
        }
    }

    /// Empties the input.
    pub fn clear(&mut self)
        ensures
            final(self).value@ == Seq::<char>::empty(),
            final(self).cursor_pos == 0,
            final(self).selection_start is None,
            final(self).same_settings(old(self)),
    {
        string_clear(&mut self.value);
        self.cursor_pos = 0;
        self.selection_start = None;
    }
}


/// Typing a character with nothing selected and then pressing Backspace
/// leaves the input as it was, when typing was possible (not disabled, below
/// the maximum length, the cursor on a character boundary).
pub proof fn law_text_input_backspace_undoes_typing(
    start: TextInput,
    typed: TextInput,
    erased: TextInput,
    c: char,
)
    requires
        start.selection_start is None,
        !start.disabled,
        !start.at_max_length(),
        boundary(start.value@, start.cursor_pos as int),
        start.typed(c, &typed),
        typed.backspaced(&erased),
    ensures
        boundary(typed.value@, typed.cursor_pos - 1),
        typed.cursor_pos - 1 < typed.len_bytes(),
        erased.same_as(&start),
{
    let b = bytes_of(start.value@);
    let at = start.cursor_pos as int;
    encode_utf8_valid_utf8(start.value@);
    lemma_insert_then_cut(b, at, c);
    assert(bytes_of(erased.value@) == b);
    encode_utf8_decode_utf8(erased.value@);
    encode_utf8_decode_utf8(start.value@);
}

/// Button style variant.
#[derive(Debug, Clone, Copy, PartialEq, Eq, Structural)]
pub enum ButtonVariant {
    Primary,
    Secondary,
    Danger,
    Transparent,
}

/// Push button.
pub struct Button {
    /// Button label
    pub label: String,
    /// Whether the button is hovered
    pub hovered: bool,
    /// Whether the button is pressed
    pub pressed: bool,
    /// Whether the button is disabled
    pub disabled: bool,
    /// Button style variant
    pub variant: ButtonVariant,
}

impl Button {
    pub fn new(label: String) -> (b: Self)
        ensures
            b.label@ == label@,
            !b.hovered,
            !b.pressed,
            !b.disabled,
            b.variant == ButtonVariant::Primary,
    {
        Button { label, hovered: false, pressed: false, disabled: false, variant: ButtonVariant::Primary }
    }

    pub fn variant(self, variant: ButtonVariant) -> (b: Self)
        ensures
            b.variant == variant,
            b.label@ == self.label@,
            b.hovered == self.hovered,
            b.pressed == self.pressed,
            b.disabled == self.disabled,
    {
        let mut b = self;
        b.variant = variant;
        b
    }

    pub fn disabled(self, disabled: bool) -> (b: Self)
        ensures
            b.disabled == disabled,
            b.label@ == self.label@,
            b.hovered == self.hovered,
            b.pressed == self.pressed,
            b.variant == self.variant,
    {
        let mut b = self;
        b.disabled = disabled;
        b
    }

    /// Hover state follows the pointer unless the button is disabled.
    pub fn set_hovered(&mut self, hovered: bool)
        ensures
            final(self).hovered == (if old(self).disabled { old(self).hovered } else { hovered }),
            final(self).pressed == old(self).pressed,
            final(self).disabled == old(self).disabled,
            final(self).variant == old(self).variant,
            final(self).label@ == old(self).label@,
    {
        if !self.disabled {
            self.hovered = hovered;
        }
    }

    /// Pressed state follows the pointer unless the button is disabled.
    pub fn set_pressed(&mut self, pressed: bool)
        ensures
            final(self).pressed == (if old(self).disabled { old(self).pressed } else { pressed }),
            final(self).hovered == old(self).hovered,
            final(self).disabled == old(self).disabled,
            final(self).variant == old(self).variant,
            final(self).label@ == old(self).label@,
    {
        if !self.disabled {
            self.pressed = pressed;
        }
    }
}

/// Toggle switch.
pub struct Toggle {
    /// Whether the toggle is on
    pub checked: bool,
    /// Whether the toggle is disabled
    pub disabled: bool,
    /// Whether the toggle is hovered
    pub hovered: bool,
}

impl Toggle {
    pub fn new(checked: bool) -> (t: Self)
        ensures
            t.checked == checked,
            !t.disabled,
            !t.hovered,
    {
        Toggle { checked, disabled: false, hovered: false }
    }

    /// Flips the state unless the toggle is disabled.
    pub fn toggle(&mut self)
        ensures
            final(self).checked == (if old(self).disabled { old(self).checked } else { !old(self).checked }),
            final(self).disabled == old(self).disabled,
            final(self).hovered == old(self).hovered,
    {
        if !self.disabled {
            self.checked = !self.checked;
        }
    }

    pub fn disabled(self, disabled: bool) -> (t: Self)
        ensures
            t.disabled == disabled,
            t.checked == self.checked,
            t.hovered == self.hovered,
    {
        let mut t = self;
        t.disabled = disabled;
        t
    }

    /// Hover state follows the pointer unless the toggle is disabled.
    pub fn set_hovered(&mut self, hovered: bool)
        ensures
            final(self).hovered == (if old(self).disabled { old(self).hovered } else { hovered }),
            final(self).checked == old(self).checked,
            final(self).disabled == old(self).disabled,
    {
        if !self.disabled {
            self.hovered = hovered;
        }
    }
    /// The text the toggle shows: a filled dot in brackets when on, a hollow
    /// one when off.
    pub fn render(&self) -> (t: String)
        ensures
            t@ == seq!['[', if self.checked { '\u{25CF}' } else { '\u{25CB}' }, ']'],
    {
        let mut t = String::new();
        string_push(&mut t, '[');
        string_push(&mut t, if self.checked { '\u{25CF}' } else { '\u{25CB}' });
        string_push(&mut t, ']');
        proof {
            assert(t@ =~= seq!['[', if self.checked { '\u{25CF}' } else { '\u{25CB}' }, ']']);
        }
        t
    }
}

/// One entry of a dropdown.
pub struct DropdownOption {
    pub value: String,
    pub label: String,
}

/// Dropdown / select component.
pub struct Dropdown {
    /// Available options
    pub options: Vec<DropdownOption>,
    /// Currently selected option index
    pub selected: Option<usize>,
    /// Whether the dropdown is open
    pub open: bool,
    /// Whether the dropdown is disabled
    pub disabled: bool,
    /// Placeholder text when nothing selected
    pub placeholder: String,
}

impl Dropdown {
    /// The value of the selected option, if the selection points at one.
    pub open spec fn selected_value_spec(&self) -> Option<Seq<char>> {
        match self.selected {
            Some(i) => if i < self.options@.len() { Some(self.options@[i as int].value@) } else { None },
            None => None,
        }
    }

    pub fn new() -> (d: Self)
        ensures
            d.options@.len() == 0,
            d.selected is None,
            !d.open,
            !d.disabled,
            d.placeholder@ == "Select..."@,
    {
        Dropdown {
            options: Vec::new(),
            selected: None,
            open: false,
            disabled: false,
            placeholder: String::from_str("Select..."),
        }
    }

    pub fn with_options(self, options: Vec<DropdownOption>) -> (d: Self)
        ensures
            d.options@ == options@,
            d.selected == self.selected,
            d.open == self.open,
            d.disabled == self.disabled,
            d.placeholder@ == self.placeholder@,
    {
        let mut d = self;
        d.options = options;
        d
    }

    pub fn with_placeholder(self, placeholder: String) -> (d: Self)
        ensures
            d.placeholder@ == placeholder@,
            d.options@ == self.options@,
            d.selected == self.selected,
            d.open == self.open,
            d.disabled == self.disabled,
    {
        let mut d = self;
        d.placeholder = placeholder;
        d
    }

    pub fn disabled(self, disabled: bool) -> (d: Self)
        ensures
            d.disabled == disabled,
            d.options@ == self.options@,
            d.selected == self.selected,
            d.open == self.open,
            d.placeholder@ == self.placeholder@,
    {
        let mut d = self;
        d.disabled = disabled;
        d
    }

    /// Selects the option at `index` and closes the list; an index past the
    /// options changes nothing.
    pub fn select(&mut self, index: usize)
        ensures
            index < old(self).options@.len() ==> final(self).selected == Some(index) && !final(self).open,
            index >= old(self).options@.len() ==> final(self).selected == old(self).selected
                && final(self).open == old(self).open,
            final(self).options@ == old(self).options@,
            final(self).disabled == old(self).disabled,
            final(self).placeholder@ == old(self).placeholder@,
    {
        if index < self.options.len() {
            self.selected = Some(index);
            self.open = false;
        }
    }

    /// Opens or closes the list unless the dropdown is disabled.
    pub fn toggle_open(&mut self)
        ensures
            final(self).open == (if old(self).disabled { old(self).open } else { !old(self).open }),
            final(self).options@ == old(self).options@,
            final(self).selected == old(self).selected,
            final(self).disabled == old(self).disabled,
            final(self).placeholder@ == old(self).placeholder@,
    {
        if !self.disabled {
            self.open = !self.open;
        }
    }

    /// The label of the selected option, or the placeholder when the
    /// selection points at none.
    pub open spec fn shown_label(&self) -> Seq<char> {
        match self.selected {
            Some(i) => if i < self.options@.len() { self.options@[i as int].label@ } else { self.placeholder@ },
            None => self.placeholder@,
        }
    }

    /// The text the closed dropdown shows: the selected option's label (or
    /// the placeholder), a space, and an arrow pointing up when open, down
    /// when closed.
    pub fn render(&self) -> (t: String)
        ensures
            t@ == self.shown_label() + seq![' ', if self.open { '\u{25B2}' } else { '\u{25BC}' }],
    {
        let mut t = match self.selected {
            Some(idx) => if idx < self.options.len() {
                self.options[idx].label.clone()
            } else {
                self.placeholder.clone()
            },
            None => self.placeholder.clone(),
        };
        string_push(&mut t, ' ');
        string_push(&mut t, if self.open { '\u{25B2}' } else { '\u{25BC}' });
        t
    }

    /// The options listed while the dropdown is open, each label with
    /// whether it is the selected one; none while it is closed.
    pub fn render_options(&self) -> (v: Vec<(&str, bool)>)
        ensures
            !self.open ==> v@.len() == 0,
            self.open ==> v@.len() == self.options@.len(),
            self.open ==> forall|i: int|
                0 <= i < v@.len() ==> (#[trigger] v@[i]).0@ == self.options@[i].label@ && v@[i].1 == (
                self.selected == Some(i as usize)),
    {
        let mut v: Vec<(&str, bool)> = Vec::new();
        if !self.open {
            return v;
        }
        let mut i: usize = 0;
        while i < self.options.len()
            invariant
                i <= self.options@.len(),
                v@.len() == i,
                forall|j: int|
                    0 <= j < i ==> (#[trigger] v@[j]).0@ == self.options@[j].label@ && v@[j].1 == (
                    self.selected == Some(j as usize)),
            decreases self.options@.len() - i,
        {
            let is_selected = match self.selected {
                Some(s) => s == i,
                None => false,
            };
            v.push((self.options[i].label.as_str(), is_selected));
            i = i + 1;
        }
        v
    }

    /// The value of the selected option.
    pub fn get_selected_value(&self) -> (r: Option<&str>)
        ensures
            match r {
                Some(v) => self.selected_value_spec() == Some(v@),
                None => self.selected_value_spec() is None,
            },
    {
        match self.selected {
            Some(idx) => {
                if idx < self.options.len() {
                    Some(self.options[idx].value.as_str())
                } else {
                    None
                }
            },
            None => None,
        }
    }
}

/// File type filter of a file picker.
pub enum FilePickerFilter {
    All,
    SshKeys,
    Images,
    Documents,
    /// Extensions
    Custom(Vec<String>),
}

/// `std::path::PathBuf`, carried as an opaque value.
#[verifier::external_type_specification]
#[verifier::external_body]
pub struct ExPathBuf(std::path::PathBuf);

/// File picker component.
pub struct FilePicker {
    pub path: Option<std::path::PathBuf>,
    pub filter: FilePickerFilter,
    pub disabled: bool,
}

impl FilePicker {
    pub fn new() -> (p: Self)
        ensures
            p.path is None,
            p.filter is All,
            !p.disabled,
    {
        FilePicker { path: None, filter: FilePickerFilter::All, disabled: false }
    }
}

} // verus!
