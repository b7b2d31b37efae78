//! The assistant sidebar's state and the decisions its event handlers make:
//! selection in its texts, the goal and suggestion, the chat input, key
//! routing and visibility. Geometry, colours and drawing are the caller's.

use vstd::prelude::*;
use crate::activity::{ActivityFilter, ActivityItem, AgentMode, CurrentGoal, CurrentSuggestion, GoalView};
use crate::chat::{handle_chat_send, sent};
use crate::multiline::{
    cleared, joined, key_ok, key_result, wf, EditKey, EditModifiers, EditorModel,
    MultilineTextInput,
};
use crate::selection::{log_texts, selected_text, string_views, SelectionState, SelectionTarget};
use crate::modal::{no_modifiers, Modal, ModalAnimationState, ModalManager, SuggestionModal};
use crate::validation::{blank, is_blank};
use crate::widgets::{Chip, ChipSize};

verus! {

/// State of the assistant sidebar.
pub struct AiSidebar {
    pub width: u16,
    pub visible: bool,
    pub agent_mode: AgentMode,
    pub agent_mode_enabled: bool,
    pub high_risk_mode_enabled: bool,
    pub activity_filter: ActivityFilter,
    pub current_goal: Option<CurrentGoal>,
    pub current_suggestion: Option<CurrentSuggestion>,
    pub activity_log: Vec<ActivityItem>,
    pub chat_input: MultilineTextInput,
    pub selection_state: SelectionState,
    pub modal_manager: ModalManager<SuggestionModal>,
}

/// The content of the current suggestion, if any.
pub open spec fn suggestion_text(s: Option<CurrentSuggestion>) -> Option<Seq<char>> {
    match s {
        Some(x) => Some(x.content@),
        None => None,
    }
}

/// The text of the current goal, if any.
pub open spec fn goal_text(g: Option<CurrentGoal>) -> Option<Seq<char>> {
    match g {
        Some(x) => Some(x.text_spec()),
        None => None,
    }
}

/// The name the status chip gives a mode of the assistant.
pub open spec fn status_label(mode: AgentMode) -> Seq<char> {
    match mode {
        AgentMode::Idle => "Idle"@,
        AgentMode::Thinking => "Thinking"@,
        AgentMode::GatheringData => "Gathering Data"@,
        AgentMode::NeedsApproval => "Needs Approval"@,
    }
}

/// The icon the status chip shows for a mode of the assistant.
pub open spec fn status_icon(mode: AgentMode) -> Seq<char> {
    match mode {
        AgentMode::Idle => "\u{25CB}"@,
        AgentMode::Thinking => "\u{25D0}"@,
        AgentMode::GatheringData => "\u{25D1}"@,
        AgentMode::NeedsApproval => "\u{26A0}"@,
    }
}

/// The filters in the order their chips appear.
pub open spec fn filter_at(i: int) -> ActivityFilter {
    if i == 0 {
        ActivityFilter::All
    } else if i == 1 {
        ActivityFilter::Commands
    } else if i == 2 {
        ActivityFilter::Chat
    } else {
        ActivityFilter::Suggestions
    }
}

/// The label of a filter's chip.
pub open spec fn filter_label(f: ActivityFilter) -> Seq<char> {
    match f {
        ActivityFilter::All => "All"@,
        ActivityFilter::Commands => "Commands"@,
        ActivityFilter::Chat => "Chat"@,
        ActivityFilter::Suggestions => "Suggestions"@,
    }
}

impl AiSidebar {
    /// The chat input is in a usable state.
    pub open spec fn wf(&self) -> bool {
        &&& wf(self.chat_input@)
        &&& self.modal_manager.consistent()
    }

    /// Everything but the selection is as in `other`.
    pub open spec fn same_but_selection(&self, other: &AiSidebar) -> bool {
        *self == (AiSidebar { selection_state: self.selection_state, ..*other })
    }

    /// Everything but the goal is as in `other`.
    pub open spec fn same_but_goal(&self, other: &AiSidebar) -> bool {
        *self == (AiSidebar { current_goal: self.current_goal, ..*other })
    }

    /// The text that the sidebar's selection covers.
    pub open spec fn selected_text_spec(&self) -> Option<Seq<char>> {
        selected_text(
            self.selection_state.active_selection,
            log_texts(self.activity_log@),
            suggestion_text(self.current_suggestion),
            goal_text(self.current_goal),
            string_views(self.chat_input.lines@),
        )
    }

    /// A sidebar `width` wide, shown at once if `show_on_startup`: idle, all
    /// activity shown, nothing logged, an empty two-line chat input.
    pub fn new(width: u16, show_on_startup: bool) -> (s: Self)
        ensures
            s.wf(),
            s.width == width,
            s.visible == show_on_startup,
            s.agent_mode == AgentMode::Idle,
            !s.agent_mode_enabled,
            !s.high_risk_mode_enabled,
            s.activity_filter == ActivityFilter::All,
            s.current_goal is None,
            s.current_suggestion is None,
            s.activity_log@.len() == 0,
            s.chat_input@ == (EditorModel {
                lines: seq![Seq::<char>::empty()],
                placeholder: "Type a message..."@,
                focused: false,
                cursor_line: 0,
                cursor_col: 0,
                selection_start: None,
                max_lines: None,
                disabled: false,
                display_lines: 2,
                scroll_offset: 0,
                user_has_scrolled: false,
            }),
            s.selection_state.active_selection is None,
            s.selection_state.prepared_selection is None,
            !s.selection_state.is_dragging,
            s.modal_manager.active_spec() is None,
    {
        let chat_input = MultilineTextInput::new(2).with_placeholder(String::from_str("Type a message..."));
        AiSidebar {
            width,
            visible: show_on_startup,
            agent_mode: AgentMode::Idle,
            agent_mode_enabled: false,
            high_risk_mode_enabled: false,
            activity_filter: ActivityFilter::All,
            current_goal: None,
            current_suggestion: None,
            activity_log: Vec::new(),
            chat_input,
            selection_state: SelectionState::new(),
            modal_manager: ModalManager::new(),
        }
    }

    /// Starts a selection in activity item `index`, if the log has it.
    pub fn start_activity_item_selection(&mut self, index: usize, byte_offset: usize)
        ensures
            final(self).same_but_selection(old(self)),
            final(self).selection_state == (if index < old(self).activity_log@.len() {
                SelectionState {
                    active_selection: Some(SelectionTarget::ActivityItem {
                        anchor_index: index,
                        anchor_byte: byte_offset,
                        current_index: index,
                        current_byte: byte_offset,
                    }),
                    is_dragging: true,
                    ..old(self).selection_state
                }
            } else {
                old(self).selection_state
            }),
    {
        let n = self.activity_log.len();
        self.selection_state.start_activity_item_selection(index, byte_offset, n);
    }

    /// Starts a selection at item `item_index` of the activity log, if the
    /// log has it.
    pub fn start_activity_log_selection(&mut self, item_index: usize, byte_offset: usize)
        ensures
            final(self).same_but_selection(old(self)),
            final(self).selection_state == (if item_index < old(self).activity_log@.len() {
                SelectionState {
                    active_selection: Some(SelectionTarget::ActivityItem {
                        anchor_index: item_index,
                        anchor_byte: byte_offset,
                        current_index: item_index,
                        current_byte: byte_offset,
                    }),
                    is_dragging: true,
                    ..old(self).selection_state
                }
            } else {
                old(self).selection_state
            }),
    {
        self.start_activity_item_selection(item_index, byte_offset);
    }

    /// Starts a selection in the current suggestion, if there is one.
    pub fn start_suggestion_selection(&mut self, byte_offset: usize)
        ensures
            final(self).same_but_selection(old(self)),
            final(self).selection_state == (if old(self).current_suggestion is Some {
                SelectionState {
                    active_selection: Some(SelectionTarget::Suggestion { anchor_byte: byte_offset, current_byte: byte_offset }),
                    is_dragging: true,
                    ..old(self).selection_state
                }
            } else {
                old(self).selection_state
            }),
    {
        let has = self.current_suggestion.is_some();
        self.selection_state.start_suggestion_selection(byte_offset, has);
    }

    /// Starts a selection in the current goal, if there is one.
    pub fn start_goal_selection(&mut self, byte_offset: usize)
        ensures
            final(self).same_but_selection(old(self)),
            final(self).selection_state == (if old(self).current_goal is Some {
                SelectionState {
                    active_selection: Some(SelectionTarget::Goal { anchor_byte: byte_offset, current_byte: byte_offset }),
                    is_dragging: true,
                    ..old(self).selection_state
                }
            } else {
                old(self).selection_state
            }),
    {
        let has = self.current_goal.is_some();
        self.selection_state.start_goal_selection(byte_offset, has);
    }

    /// Removes a selection of activity items that the log no longer has.
    pub fn clear_selection_if_invalid(&mut self)
        ensures
            final(self).same_but_selection(old(self)),
            (match old(self).selection_state.active_selection {
                Some(SelectionTarget::ActivityItem { anchor_index, current_index, .. }) =>
                    anchor_index >= old(self).activity_log@.len() || current_index >= old(self).activity_log@.len(),
                _ => false,
            }) ==> final(self).selection_state.active_selection is None
                && final(self).selection_state.prepared_selection is None
                && !final(self).selection_state.is_dragging,
            !(match old(self).selection_state.active_selection {
                Some(SelectionTarget::ActivityItem { anchor_index, current_index, .. }) =>
                    anchor_index >= old(self).activity_log@.len() || current_index >= old(self).activity_log@.len(),
                _ => false,
            }) ==> final(self).selection_state == old(self).selection_state,
    {
        let n = self.activity_log.len();
        self.selection_state.clear_selection_if_invalid(n);
    }

    /// The text that the sidebar's selection covers (see `selected_text`).
    pub fn get_selected_text(&self) -> (r: Option<String>)
        ensures
            match r {
                Some(s) => self.selected_text_spec() == Some(s@),
                None => self.selected_text_spec() is None,
            },
    {
        let suggestion: Option<&str> = match &self.current_suggestion {
            Some(s) => Some(s.content.as_str()),
            None => None,
        };
        let goal: Option<&str> = match &self.current_goal {
            Some(g) => Some(g.text()),
            None => None,
        };
        self.selection_state.get_selected_text(&self.activity_log, suggestion, goal, &self.chat_input.lines)
    }

    /// The active selection, if any.
    pub fn get_active_selection(&self) -> (r: Option<&SelectionTarget>)
        ensures
            match r {
                Some(t) => self.selection_state.active_selection == Some(*t),
                None => self.selection_state.active_selection is None,
            },
    {
        match &self.selection_state.active_selection {
            Some(t) => Some(t),
            None => None,
        }
    }

    /// Shows activity of the kind `filter`. Returns whether the filter
    /// changed (the caller then drops what it measured for the old one).
    pub fn handle_filter_click(&mut self, filter: ActivityFilter) -> (changed: bool)
        ensures
            changed == (old(self).activity_filter != filter),
            *final(self) == (AiSidebar { activity_filter: filter, ..*old(self) }),
    {
        let changed = self.activity_filter != filter;
        self.activity_filter = filter;
        changed
    }

    /// The user confirms the current goal, if there is one.
    pub fn handle_goal_confirm(&mut self)
        ensures
            final(self).same_but_goal(old(self)),
            match old(self).current_goal {
                Some(g) => final(self).current_goal matches Some(n) && n.confirmed_spec()
                    && n.text_spec() == g.text_spec() && n.edit_text_spec() == g.edit_text_spec()
                    && n.ai_inferred_spec() == g.ai_inferred_spec() && n.editing_spec() == g.editing_spec(),
                None => final(self).current_goal is None,
            },
    {
        match self.current_goal.take() {
            Some(mut g) => {
                g.confirm();
                self.current_goal = Some(g);
            },
            None => {},
        }
    }

    /// Enters or leaves editing of the current goal, if there is one.
    pub fn handle_goal_edit_toggle(&mut self)
        ensures
            final(self).same_but_goal(old(self)),
            match old(self).current_goal {
                Some(g) => final(self).current_goal matches Some(n) && n.editing_spec() == !g.editing_spec()
                    && n.edit_text_spec() == (if n.editing_spec() { g.text_spec() } else { g.edit_text_spec() })
                    && n.text_spec() == g.text_spec() && n.confirmed_spec() == g.confirmed_spec()
                    && n.ai_inferred_spec() == g.ai_inferred_spec(),
                None => final(self).current_goal is None,
            },
    {
        match self.current_goal.take() {
            Some(mut g) => {
                g.toggle_edit();
                self.current_goal = Some(g);
            },
            None => {},
        }
    }

    /// The edited text becomes the goal, confirmed by the user.
    pub fn handle_goal_save(&mut self)
        ensures
            final(self).same_but_goal(old(self)),
            match old(self).current_goal {
                Some(g) => final(self).current_goal matches Some(n) && n.text_spec() == g.edit_text_spec()
                    && n.edit_text_spec() == g.edit_text_spec() && !n.editing_spec() && !n.ai_inferred_spec()
                    && n.confirmed_spec(),
                None => final(self).current_goal is None,
            },
    {
        match self.current_goal.take() {
            Some(mut g) => {
                g.save();
                self.current_goal = Some(g);
            },
            None => {},
        }
    }

    /// What the goal card shows, if there is a goal (see `CurrentGoal::render`).
    pub fn render_current_goal(&self) -> (v: Option<GoalView>)
        ensures
            v is Some <==> self.current_goal is Some,
            match (self.current_goal, v) {
                (Some(g), Some(view)) => {
                    &&& view.text@ == (if g.editing_spec() { g.edit_text_spec().push('_') } else { g.text_spec() })
                    &&& view.selection == (if g.editing_spec() {
                        None
                    } else {
                        match self.selection_state.active_selection {
                            Some(SelectionTarget::Goal { anchor_byte, current_byte }) => Some(
                                (
                                    crate::selection::min_u(anchor_byte, current_byte),
                                    crate::selection::max_u(anchor_byte, current_byte),
                                ),
                            ),
                            _ => None,
                        }
                    })
                    &&& view.actions@ == g.actions_spec()
                },
                _ => true,
            },
    {
        match &self.current_goal {
            Some(g) => Some(g.render(&self.selection_state.active_selection)),
            None => None,
        }
    }

    /// The status chip: a medium chip naming what the assistant is doing,
    /// with an icon for it.
    pub fn render_status_chip(&self) -> (c: Chip)
        ensures
            c.label_spec() == status_label(self.agent_mode),
            c.icon_spec() == Some(status_icon(self.agent_mode)),
            c.size_spec() == ChipSize::Medium,
            !c.closeable_spec(),
            !c.clickable_spec(),
            !c.selected_spec(),
            !c.hovering_spec(),
    {
        let (label, icon) = match self.agent_mode {
            AgentMode::Idle => ("Idle", "\u{25CB}"),
            AgentMode::Thinking => ("Thinking", "\u{25D0}"),
            AgentMode::GatheringData => ("Gathering Data", "\u{25D1}"),
            AgentMode::NeedsApproval => ("Needs Approval", "\u{26A0}"),
        };
        proof {
            reveal_strlit("Idle");
            reveal_strlit("Thinking");
            reveal_strlit("Gathering Data");
            reveal_strlit("Needs Approval");
            reveal_strlit("\u{25CB}");
            reveal_strlit("\u{25D0}");
            reveal_strlit("\u{25D1}");
            reveal_strlit("\u{26A0}");
        }
        Chip::new(String::from_str(label)).with_size(ChipSize::Medium).with_icon(String::from_str(icon))
    }

    /// The filter chips, in order All, Commands, Chat, Suggestions: small,
    /// clickable, the current filter's selected.
    pub fn render_filter_chips(&self) -> (v: Vec<Chip>)
        ensures
            v@.len() == 4,
            forall|i: int|
                0 <= i < 4 ==> {
                    &&& (#[trigger] v@[i]).label_spec() == filter_label(filter_at(i))
                    &&& v@[i].selected_spec() == (self.activity_filter == filter_at(i))
                    &&& v@[i].size_spec() == ChipSize::Small
                    &&& v@[i].clickable_spec()
                    &&& !v@[i].closeable_spec()
                    &&& v@[i].icon_spec() is None
                    &&& !v@[i].hovering_spec()
                },
    {
        let mut v: Vec<Chip> = Vec::new();
        let filters = [ActivityFilter::All, ActivityFilter::Commands, ActivityFilter::Chat, ActivityFilter::Suggestions];
        let labels = ["All", "Commands", "Chat", "Suggestions"];
        proof {
            reveal_strlit("All");
            reveal_strlit("Commands");
            reveal_strlit("Chat");
            reveal_strlit("Suggestions");
        }
        let mut i: usize = 0;
        while i < 4
            invariant
                i <= 4,
                v@.len() == i,
                filters@ == seq![ActivityFilter::All, ActivityFilter::Commands, ActivityFilter::Chat, ActivityFilter::Suggestions],
                labels@ == seq!["All", "Commands", "Chat", "Suggestions"],
                forall|j: int| 0 <= j < 4 ==> (#[trigger] labels@[j])@ == filter_label(filter_at(j)),
                forall|j: int| 0 <= j < 4 ==> #[trigger] filters@[j] == filter_at(j),
                forall|j: int|
                    0 <= j < i ==> {
                        &&& (#[trigger] v@[j]).label_spec() == filter_label(filter_at(j))
                        &&& v@[j].selected_spec() == (self.activity_filter == filter_at(j))
                        &&& v@[j].size_spec() == ChipSize::Small
                        &&& v@[j].clickable_spec()
                        &&& !v@[j].closeable_spec()
                        &&& v@[j].icon_spec() is None
                        &&& !v@[j].hovering_spec()
                    },
            decreases 4 - i,
        {
            let filter = filters[i];
            let chip = Chip::new(String::from_str(labels[i])).with_size(ChipSize::Small).clickable(true).selected(
                self.activity_filter == filter,
            );
            v.push(chip);
            i = i + 1;
        }
        v
    }

    /// Drops the current suggestion.
    pub fn handle_suggestion_dismiss(&mut self)
        ensures
            *final(self) == (AiSidebar { current_suggestion: None, ..*old(self) }),
    {
        self.current_suggestion = None;
    }

    /// The current suggestion, if any.
    pub fn get_current_suggestion(&self) -> (r: Option<&CurrentSuggestion>)
        ensures
            match r {
                Some(s) => self.current_suggestion == Some(*s),
                None => self.current_suggestion is None,
            },
    {
        match &self.current_suggestion {
            Some(s) => Some(s),
            None => None,
        }
    }

    /// Types a character into the chat input.
    pub fn handle_chat_input(&mut self, c: char)
        requires
            old(self).wf(),
            crate::multiline::insert_ok(old(self).chat_input@, c),
        ensures
            final(self).wf(),
            final(self).chat_input@ == crate::multiline::insert(old(self).chat_input@, c),
            *final(self) == (AiSidebar { chat_input: final(self).chat_input, ..*old(self) }),
    {
        self.chat_input.insert_char(c);
    }

    /// Sends the chat input to the log unless it is blank (see
    /// `handle_chat_send`). Returns whether it was sent.
    pub fn handle_chat_send(&mut self) -> (r: bool)
        requires
            old(self).wf(),
        ensures
            final(self).wf(),
            r == !blank(joined(old(self).chat_input@.lines)),
            r ==> sent(old(self).activity_log@, final(self).activity_log@, joined(old(self).chat_input@.lines))
                && final(self).chat_input@ == cleared(old(self).chat_input@),
            !r ==> final(self).activity_log@ == old(self).activity_log@ && final(self).chat_input@ == old(self).chat_input@,
            *final(self) == (AiSidebar { activity_log: final(self).activity_log, chat_input: final(self).chat_input, ..*old(self) }),
    {
        handle_chat_send(&mut self.activity_log, &mut self.chat_input)
    }

    /// Whether the chat input has the focus.
    pub fn has_input_focus(&self) -> (b: bool)
        ensures
            b == self.chat_input.focused,
    {
        self.chat_input.focused
    }

    /// Whether keys go to the sidebar: to an open modal or to the focused
    /// chat input.
    pub fn has_keyboard_focus(&self) -> (b: bool)
        ensures
            b == (self.modal_manager.active_spec() is Some || self.chat_input.focused),
    {
        self.modal_manager.is_active() || self.chat_input.focused
    }

    /// Whether a modal is up.
    pub fn has_modal_active(&self) -> (b: bool)
        ensures
            b == self.modal_manager.active_spec() is Some,
    {
        self.modal_manager.is_active()
    }

    /// Puts `suggestion` up in a modal that closes on a click outside it or
    /// on Escape.
    pub fn show_suggestion_modal(&mut self, suggestion: CurrentSuggestion)
        requires
            old(self).wf(),
        ensures
            final(self).wf(),
            final(self).modal_manager.active_spec() matches Some(m) && m.id@ == "suggestion_modal"@
                && m.content.suggestion == suggestion && m.animation_state == ModalAnimationState::Opening
                && m.close_on_click_outside && m.close_on_escape,
            *final(self) == (AiSidebar { modal_manager: final(self).modal_manager, ..*old(self) }),
    {
        let modal = Modal {
            id: String::from_str("suggestion_modal"),
            content: SuggestionModal::new(suggestion),
            animation_state: ModalAnimationState::Opening,
            close_on_click_outside: true,
            close_on_escape: true,
        };
        self.modal_manager.show(modal);
    }

    /// Starts the exit of the modal that is up, if any.
    pub fn close_modal(&mut self)
        requires
            old(self).wf(),
        ensures
            final(self).wf(),
            final(self).modal_manager.active_spec() == ModalManager::<SuggestionModal>::closing(
                old(self).modal_manager.active_spec(),
            ),
            *final(self) == (AiSidebar { modal_manager: final(self).modal_manager, ..*old(self) }),
    {
        self.modal_manager.close();
    }

    /// Gives the chat input the focus.
    pub fn focus_chat_input(&mut self)
        ensures
            final(self).chat_input@ == (EditorModel { focused: true, ..old(self).chat_input@ }),
            *final(self) == (AiSidebar { chat_input: final(self).chat_input, ..*old(self) }),
    {
        self.chat_input.focused = true;
    }

    /// Takes the focus from the chat input.
    pub fn clear_focus(&mut self)
        ensures
            final(self).chat_input@ == (EditorModel { focused: false, ..old(self).chat_input@ }),
            *final(self) == (AiSidebar { chat_input: final(self).chat_input, ..*old(self) }),
    {
        self.chat_input.focused = false;
    }

    /// Whether the modal that is up takes `key`: Escape with no modifier,
    /// when the modal closes on Escape.
    pub open spec fn modal_takes_key(&self, key: EditKey, modifiers: EditModifiers) -> bool {
        &&& self.modal_manager.active_spec() matches Some(m) && m.close_on_escape
        &&& key == EditKey::Escape
        &&& no_modifiers(modifiers)
    }

    /// What a key does to the chat input, from `before` to `after`, and
    /// whether it was `taken`. Only the focused chat input takes keys: Escape
    /// gives the focus back, Enter sends the message (Shift-Enter breaks the
    /// line), any other key edits the input.
    pub open spec fn chat_key_handled(
        before: AiSidebar,
        after: AiSidebar,
        key: EditKey,
        modifiers: EditModifiers,
        taken: bool,
    ) -> bool {
        &&& !before.chat_input.focused ==> !taken && after == before
        &&& before.chat_input.focused && key == EditKey::Escape ==> taken
            && after.chat_input@ == (EditorModel { focused: false, ..before.chat_input@ })
            && after == (AiSidebar { chat_input: after.chat_input, ..before })
        &&& before.chat_input.focused && key == EditKey::Enter && !modifiers.shift ==> taken && (if blank(
            joined(before.chat_input@.lines),
        ) {
            after == before
        } else {
            sent(before.activity_log@, after.activity_log@, joined(before.chat_input@.lines))
                && after.chat_input@ == cleared(before.chat_input@)
                && after == (AiSidebar {
                activity_log: after.activity_log,
                chat_input: after.chat_input,
                ..before
            })
        })
        &&& before.chat_input.focused && key != EditKey::Escape && !(key == EditKey::Enter && !modifiers.shift)
            ==> (after.chat_input@, taken) == key_result(before.chat_input@, key, modifiers)
            && after == (AiSidebar { chat_input: after.chat_input, ..before })
    }

    /// A key for the sidebar: the modal that is up takes Escape (and
    /// closes); any other key goes to the chat input. Returns whether the key
    /// was taken.
    pub fn handle_key_event(&mut self, key: &EditKey, modifiers: EditModifiers) -> (taken: bool)
        requires
            old(self).wf(),
            old(self).chat_input.focused && *key != EditKey::Escape && !(*key == EditKey::Enter && !modifiers.shift)
                ==> key_ok(old(self).chat_input@, *key, modifiers),
        ensures
            final(self).wf(),
            old(self).modal_takes_key(*key, modifiers) ==> taken
                && final(self).modal_manager.active_spec() == ModalManager::<SuggestionModal>::closing(
                old(self).modal_manager.active_spec(),
            ) && *final(self) == (AiSidebar { modal_manager: final(self).modal_manager, ..*old(self) }),
            !old(self).modal_takes_key(*key, modifiers) ==> Self::chat_key_handled(
                *old(self),
                *final(self),
                *key,
                modifiers,
                taken,
            ),
    {
        if self.modal_manager.is_active() {
            if self.modal_manager.handle_key_event(key, modifiers) {
                return true;
            }
        }
        self.handle_chat_key(key, modifiers)
    }

    fn handle_chat_key(&mut self, key: &EditKey, modifiers: EditModifiers) -> (taken: bool)
        requires
            old(self).wf(),
            old(self).chat_input.focused && *key != EditKey::Escape && !(*key == EditKey::Enter && !modifiers.shift)
                ==> key_ok(old(self).chat_input@, *key, modifiers),
        ensures
            final(self).wf(),
            Self::chat_key_handled(*old(self), *final(self), *key, modifiers, taken),
    {
        if !self.chat_input.focused {
            return false;
        }
        if *key == EditKey::Escape {
            self.chat_input.focused = false;
            return true;
        }
        if *key == EditKey::Enter && !modifiers.shift {
            let text = self.chat_input.get_text();
            if !is_blank(text.as_str()) {
                let _ = self.handle_chat_send();
            }
            return true;
        }
        self.chat_input.handle_key_event(key, modifiers)
    }

    /// The text that a copy puts on the clipboard: the chat input's selection
    /// when it has the focus and a selection, else the sidebar's selection.
    pub fn handle_copy(&self) -> (r: Option<String>)
        requires
            self.wf(),
        ensures
            self.chat_input.focused && crate::multiline::selection_text(self.chat_input@) is Some ==> r is Some
                && crate::multiline::selection_text(self.chat_input@) == Some(r->0@),
            !(self.chat_input.focused && crate::multiline::selection_text(self.chat_input@) is Some) ==> match r {
                Some(s) => self.selected_text_spec() == Some(s@),
                None => self.selected_text_spec() is None,
            },
    {
        if self.chat_input.focused {
            proof {
                crate::multiline::lemma_wf_selection_readable(self.chat_input@);
            }
            match self.chat_input.get_selected_text() {
                Some(t) => {
                    return Some(t);
                },
                None => {},
            }
        }
        self.get_selected_text()
    }

    /// Lines the chat input shows.
    pub fn get_chat_input_display_lines(&self) -> (n: usize)
        ensures
            n == self.chat_input.display_lines,
    {
        self.chat_input.display_lines
    }

    /// No animation of the sidebar itself needs frames.
    pub fn needs_animation_frame(&self) -> (b: bool)
        ensures
            !b,
    {
        false
    }

    pub fn get_width(&self) -> (w: u16)
        ensures
            w == self.width,
    {
        self.width
    }

    pub fn set_width(&mut self, width: u16)
        ensures
            *final(self) == (AiSidebar { width, ..*old(self) }),
    {
        self.width = width;
    }

    pub fn is_visible(&self) -> (b: bool)
        ensures
            b == self.visible,
    {
        self.visible
    }

    /// Shows a hidden sidebar, hides a shown one.
    pub fn toggle_visibility(&mut self)
        ensures
            *final(self) == (AiSidebar { visible: !old(self).visible, ..*old(self) }),
    {
        self.visible = !self.visible;
    }
}

} // verus!
