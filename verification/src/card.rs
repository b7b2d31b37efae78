//! Card container: a titled box with content, actions and an expansion state.

use vstd::prelude::*;

verus! {

/// Expansion state of a card.
#[derive(Debug, Clone, Copy, PartialEq, Eq, Structural)]
pub enum CardState {
    Normal,
    Expanded,
    Collapsed,
}

/// The state after a toggle: an expandable card alternates between expanded
/// and collapsed, one in its initial state expands; other cards keep theirs.
pub open spec fn toggled(state: CardState, expandable: bool) -> CardState {
    if !expandable {
        state
    } else if state == CardState::Expanded {
        CardState::Collapsed
    } else {
        CardState::Expanded
    }
}

/// Toggling twice gives back the state of a card that is not in its initial
/// state, and an expandable card that was toggled once is never back in it.
pub proof fn law_toggle_twice(state: CardState, expandable: bool)
    ensures
        state != CardState::Normal ==> toggled(toggled(state, expandable), expandable) == state,
        expandable ==> toggled(state, expandable) != CardState::Normal,
{
}

/// What a card shows: its header (title, with an expand indicator when the
/// card is expandable), its content and actions (hidden while collapsed or
/// empty), whether it draws its hover look, and its item type.
pub struct CardView<'a, E, I> {
    pub title: Option<&'a str>,
    pub indicator: Option<char>,
    pub content: Option<&'a Vec<E>>,
    pub actions: Option<&'a Vec<E>>,
    pub hovered: bool,
    pub item_type: Option<&'a I>,
}

/// A card holding elements of type `E` (content and actions), optionally
/// tagged with a UI item type `I`.
pub struct Card<E, I> {
    title: Option<String>,
    content: Vec<E>,
    actions: Vec<E>,
    state: CardState,
    hover_state: bool,
    expandable: bool,
    item_type: Option<I>,
}

impl<E, I> Card<E, I> {
    pub closed spec fn title_spec(&self) -> Option<Seq<char>> {
        match self.title {
            Some(t) => Some(t@),
            None => None,
        }
    }

    pub closed spec fn content_spec(&self) -> Seq<E> {
        self.content@
    }

    pub closed spec fn actions_spec(&self) -> Seq<E> {
        self.actions@
    }

    pub closed spec fn state_spec(&self) -> CardState {
        self.state
    }

    pub closed spec fn hovered_spec(&self) -> bool {
        self.hover_state
    }

    pub closed spec fn expandable_spec(&self) -> bool {
        self.expandable
    }

    pub closed spec fn item_type_spec(&self) -> Option<I> {
        self.item_type
    }

    /// `self` and `other` agree on every field whose flag is `false`.
    pub open spec fn agrees_except(&self, other: &Self, title: bool, content: bool, actions: bool, state: bool, hover: bool, expandable: bool, item_type: bool) -> bool {
        &&& (title || self.title_spec() == other.title_spec())
        &&& (content || self.content_spec() == other.content_spec())
        &&& (actions || self.actions_spec() == other.actions_spec())
        &&& (state || self.state_spec() == other.state_spec())
        &&& (hover || self.hovered_spec() == other.hovered_spec())
        &&& (expandable || self.expandable_spec() == other.expandable_spec())
        &&& (item_type || self.item_type_spec() == other.item_type_spec())
    }

    pub fn new() -> (c: Self)
        ensures
            c.title_spec() is None,
            c.content_spec().len() == 0,
            c.actions_spec().len() == 0,
            c.state_spec() == CardState::Normal,
            !c.hovered_spec(),
            !c.expandable_spec(),
            c.item_type_spec() is None,
    {
        Card {
            title: None,
            content: Vec::new(),
            actions: Vec::new(),
            state: CardState::Normal,
            hover_state: false,
            expandable: false,
            item_type: None,
        }
    }

    pub fn with_title(self, title: String) -> (c: Self)
        ensures
            c.title_spec() == Some(title@),
            c.agrees_except(&self, true, false, false, false, false, false, false),
    {
        let mut c = self;
        c.title = Some(title);
        c
    }

    pub fn with_content(self, content: Vec<E>) -> (c: Self)
        ensures
            c.content_spec() == content@,
            c.agrees_except(&self, false, true, false, false, false, false, false),
    {
        let mut c = self;
        c.content = content;
        c
    }

    pub fn with_actions(self, actions: Vec<E>) -> (c: Self)
        ensures
            c.actions_spec() == actions@,
            c.agrees_except(&self, false, false, true, false, false, false, false),
    {
        let mut c = self;
        c.actions = actions;
        c
    }

    pub fn expandable(self, expandable: bool) -> (c: Self)
        ensures
            c.expandable_spec() == expandable,
            c.agrees_except(&self, false, false, false, false, false, true, false),
    {
        let mut c = self;
        c.expandable = expandable;
        c
    }

    pub fn with_item_type(self, item_type: I) -> (c: Self)
        ensures
            c.item_type_spec() == Some(item_type),
            c.agrees_except(&self, false, false, false, false, false, false, true),
    {
        let mut c = self;
        c.item_type = Some(item_type);
        c
    }

    /// An expandable card alternates between expanded and collapsed; a
    /// card in its initial state expands. Other cards do not change.
    pub fn toggle_expand(&mut self)
        ensures
            final(self).state_spec() == toggled(old(self).state_spec(), old(self).expandable_spec()),
            final(self).agrees_except(old(self), false, false, false, true, false, false, false),
    {
        if self.expandable {
            self.state = match self.state {
                CardState::Normal | CardState::Collapsed => CardState::Expanded,
                CardState::Expanded => CardState::Collapsed,
            };
        }
    }

    /// What the card shows (see `CardView`): the indicator points down when
    /// expanded and right otherwise.
    pub fn render(&self) -> (v: CardView<'_, E, I>)
        ensures
            match v.title {
                Some(t) => self.title_spec() == Some(t@),
                None => self.title_spec() is None,
            },
            v.indicator == (if self.title_spec() is Some && self.expandable_spec() {
                Some(if self.state_spec() == CardState::Expanded { '\u{25BC}' } else { '\u{25B6}' })
            } else {
                None
            }),
            match v.content {
                Some(c) => self.state_spec() != CardState::Collapsed && self.content_spec().len() > 0
                    && c@ == self.content_spec(),
                None => self.state_spec() == CardState::Collapsed || self.content_spec().len() == 0,
            },
            match v.actions {
                Some(a) => self.state_spec() != CardState::Collapsed && self.actions_spec().len() > 0
                    && a@ == self.actions_spec(),
                None => self.state_spec() == CardState::Collapsed || self.actions_spec().len() == 0,
            },
            v.hovered == self.hovered_spec(),
            match v.item_type {
                Some(t) => self.item_type_spec() == Some(*t),
                None => self.item_type_spec() is None,
            },
    {
        let title: Option<&str> = match &self.title {
            Some(t) => Some(t.as_str()),
            None => None,
        };
        let indicator = if self.title.is_some() && self.expandable {
            Some(if self.state == CardState::Expanded { '\u{25BC}' } else { '\u{25B6}' })
        } else {
            None
        };
        let open = self.state != CardState::Collapsed;
        let content = if open && self.content.len() > 0 { Some(&self.content) } else { None };
        let actions = if open && self.actions.len() > 0 { Some(&self.actions) } else { None };
        let item_type = match &self.item_type {
            Some(t) => Some(t),
            None => None,
        };
        CardView { title, indicator, content, actions, hovered: self.hover_state, item_type }
    }

    pub fn set_hover(&mut self, hover: bool)
        ensures
            final(self).hovered_spec() == hover,
            final(self).agrees_except(old(self), false, false, false, false, true, false, false),
    {
        self.hover_state = hover;
    }
}

} // verus!
