//! Items of the activity log, the current goal and suggestion, and the text
//! that each item contributes to selections and rendering.

use vstd::prelude::*;
use crate::selection::{max_u, min_u, SelectionTarget};
use crate::text::string_push;

verus! {

/// `std::time::SystemTime`, carried as an opaque value.
#[verifier::external_type_specification]
#[verifier::external_body]
pub struct ExSystemTime(std::time::SystemTime);

/// What the assistant is doing.
#[derive(Debug, Clone, Copy, PartialEq, Eq, Structural)]
pub enum AgentMode {
    Idle,
    Thinking,
    GatheringData,
    NeedsApproval,
}

/// Which kinds of activity the log shows.
#[derive(Debug, Clone, Copy, PartialEq, Eq, Structural)]
pub enum ActivityFilter {
    All,
    Commands,
    Chat,
    Suggestions,
}

/// Outcome of a command.
#[derive(Debug, Clone, Copy, PartialEq, Eq, Structural)]
pub enum CommandStatus {
    Running,
    Success,
    Failed(i32),
}

/// One entry of the activity log.
pub enum ActivityItem {
    Command {
        id: String,
        command: String,
        output: Option<String>,
        pane_id: Option<String>,
        status: CommandStatus,
        timestamp: std::time::SystemTime,
        expanded: bool,
    },
    Chat { id: String, message: String, is_user: bool, timestamp: std::time::SystemTime },
    Suggestion {
        id: String,
        title: String,
        content: String,
        timestamp: std::time::SystemTime,
        is_current: bool,
    },
    Goal {
        id: String,
        text: String,
        timestamp: std::time::SystemTime,
        is_current: bool,
        is_confirmed: bool,
    },
}

/// The plain text of an item that selections read: the message of a chat,
/// the output of a command (or the command when it has none), the content of
/// a suggestion, the text of a goal.
pub open spec fn item_text(item: ActivityItem) -> Seq<char> {
    match item {
        ActivityItem::Chat { message, .. } => message@,
        ActivityItem::Command { command, output, .. } => match output {
            Some(o) => o@,
            None => command@,
        },
        ActivityItem::Suggestion { content, .. } => content@,
        ActivityItem::Goal { text, .. } => text@,
    }
}

/// The identifier of an item.
pub open spec fn item_id(item: ActivityItem) -> Seq<char> {
    match item {
        ActivityItem::Command { id, .. } => id@,
        ActivityItem::Chat { id, .. } => id@,
        ActivityItem::Suggestion { id, .. } => id@,
        ActivityItem::Goal { id, .. } => id@,
    }
}

/// Extracts the plain text of an activity item for selection.
pub fn get_item_text(item: &ActivityItem) -> (t: &str)
    ensures
        t@ == item_text(*item),
{
    match item {
        ActivityItem::Chat { message, .. } => message.as_str(),
        ActivityItem::Command { command, output, .. } => match output {
            Some(o) => o.as_str(),
            None => command.as_str(),
        },
        ActivityItem::Suggestion { content, .. } => content.as_str(),
        ActivityItem::Goal { text, .. } => text.as_str(),
    }
}

/// Whether the filter shows the item.
pub open spec fn passes(filter: ActivityFilter, item: ActivityItem) -> bool {
    match filter {
        ActivityFilter::All => true,
        ActivityFilter::Commands => item is Command,
        ActivityFilter::Chat => item is Chat,
        ActivityFilter::Suggestions => item is Suggestion,
    }
}

/// Whether `filter` shows `item`.
pub fn filter_shows(filter: ActivityFilter, item: &ActivityItem) -> (b: bool)
    ensures
        b == passes(filter, *item),
{
    match filter {
        ActivityFilter::All => true,
        ActivityFilter::Commands => match item {
            ActivityItem::Command { .. } => true,
            _ => false,
        },
        ActivityFilter::Chat => match item {
            ActivityItem::Chat { .. } => true,
            _ => false,
        },
        ActivityFilter::Suggestions => match item {
            ActivityItem::Suggestion { .. } => true,
            _ => false,
        },
    }
}

/// Indices below `k` of the items that `filter` shows, in order.
pub open spec fn shown_indices(log: Seq<ActivityItem>, filter: ActivityFilter, k: int) -> Seq<usize>
    decreases k,
{
    if k <= 0 {
        Seq::empty()
    } else if passes(filter, log[k - 1]) {
        shown_indices(log, filter, k - 1).push((k - 1) as usize)
    } else {
        shown_indices(log, filter, k - 1)
    }
}

/// The indices of the log entries that `filter` shows, in log order.
pub fn filtered_indices(log: &Vec<ActivityItem>, filter: ActivityFilter) -> (v: Vec<usize>)
    ensures
        v@ == shown_indices(log@, filter, log@.len() as int),
{
    let mut v: Vec<usize> = Vec::new();
    let mut i: usize = 0;
    while i < log.len()
        invariant
            i <= log@.len(),
            v@ == shown_indices(log@, filter, i as int),
        decreases log@.len() - i,
    {
        if filter_shows(filter, &log[i]) {
            v.push(i);
        }
        i = i + 1;
    }
    v
}

/// The `All` filter shows every entry of the log, in order.
pub proof fn law_all_filter_shows_every_item(log: Seq<ActivityItem>, k: int)
    requires
        0 <= k <= log.len(),
        log.len() <= usize::MAX,
    ensures
        shown_indices(log, ActivityFilter::All, k) == Seq::new(k as nat, |i: int| i as usize),
    decreases k,
{
    if k > 0 {
        law_all_filter_shows_every_item(log, k - 1);
        assert(Seq::new((k - 1) as nat, |i: int| i as usize).push((k - 1) as usize) =~= Seq::new(
            k as nat,
            |i: int| i as usize,
        ));
    } else {
        assert(Seq::new(0nat, |i: int| i as usize) =~= Seq::<usize>::empty());
    }
}

/// A button of the goal card.
#[derive(Debug, Clone, Copy, PartialEq, Eq, Structural)]
pub enum GoalAction {
    Confirm,
    Edit,
    Save,
    Cancel,
}

/// What the goal card shows.
pub struct GoalView {
    /// The goal, or the text being edited followed by an underscore
    pub text: String,
    /// The selected bytes of the goal, when a selection is in it
    pub selection: Option<(usize, usize)>,
    /// The buttons, in order
    pub actions: Vec<GoalAction>,
}

/// The goal the assistant is working towards.
pub struct CurrentGoal {
    text: String,
    is_ai_inferred: bool,
    is_confirmed: bool,
    is_editing: bool,
    edit_text: String,
}

impl CurrentGoal {
    pub closed spec fn text_spec(&self) -> Seq<char> {
        self.text@
    }

    pub closed spec fn edit_text_spec(&self) -> Seq<char> {
        self.edit_text@
    }

    pub closed spec fn ai_inferred_spec(&self) -> bool {
        self.is_ai_inferred
    }

    pub closed spec fn confirmed_spec(&self) -> bool {
        self.is_confirmed
    }

    pub closed spec fn editing_spec(&self) -> bool {
        self.is_editing
    }

    /// A goal inferred by the assistant, awaiting confirmation.
    pub fn inferred(text: String) -> (g: Self)
        ensures
            g.text_spec() == text@,
            g.ai_inferred_spec(),
            !g.confirmed_spec(),
            !g.editing_spec(),
            g.edit_text_spec() == Seq::<char>::empty(),
    {
        CurrentGoal { text, is_ai_inferred: true, is_confirmed: false, is_editing: false, edit_text: String::new() }
    }

    /// The goal's text.
    pub fn text(&self) -> (t: &str)
        ensures
            t@ == self.text_spec(),
    {
        self.text.as_str()
    }

    /// The buttons the goal card offers: confirming an inferred goal that is
    /// neither confirmed nor being edited, then editing, or saving and
    /// cancelling while editing.
    pub open spec fn actions_spec(&self) -> Seq<GoalAction> {
        (if self.ai_inferred_spec() && !self.confirmed_spec() && !self.editing_spec() {
            seq![GoalAction::Confirm]
        } else {
            Seq::empty()
        }) + (if !self.editing_spec() {
            seq![GoalAction::Edit]
        } else {
            seq![GoalAction::Save, GoalAction::Cancel]
        })
    }

    /// What the goal card shows, given the sidebar's selection: while
    /// editing, the edited text with an underscore for the cursor; otherwise
    /// the goal with the bytes a goal selection covers.
    pub fn render(&self, selection: &Option<SelectionTarget>) -> (v: GoalView)
        ensures
            v.text@ == (if self.editing_spec() { self.edit_text_spec().push('_') } else { self.text_spec() }),
            v.selection == (if self.editing_spec() {
                None
            } else {
                match *selection {
                    Some(SelectionTarget::Goal { anchor_byte, current_byte }) =>
                        Some((min_u(anchor_byte, current_byte), max_u(anchor_byte, current_byte))),
                    _ => None,
                }
            }),
            v.actions@ == self.actions_spec(),
    {
        let mut actions: Vec<GoalAction> = Vec::new();
        if self.is_ai_inferred && !self.is_confirmed && !self.is_editing {
            actions.push(GoalAction::Confirm);
        }
        if !self.is_editing {
            actions.push(GoalAction::Edit);
        } else {
            actions.push(GoalAction::Save);
            actions.push(GoalAction::Cancel);
        }
        proof {
            assert(actions@ =~= self.actions_spec());
        }
        if self.is_editing {
            let mut text = self.edit_text.clone();
            string_push(&mut text, '_');
            GoalView { text, selection: None, actions }
        } else {
            let sel = match selection {
                Some(SelectionTarget::Goal { anchor_byte, current_byte }) => {
                    let lo = if *anchor_byte <= *current_byte { *anchor_byte } else { *current_byte };
                    let hi = if *anchor_byte >= *current_byte { *anchor_byte } else { *current_byte };
                    Some((lo, hi))
                },
                _ => None,
            };
            GoalView { text: self.text.clone(), selection: sel, actions }
        }
    }

    /// The user confirms the goal.
    pub fn confirm(&mut self)
        ensures
            final(self).confirmed_spec(),
            final(self).text_spec() == old(self).text_spec(),
            final(self).edit_text_spec() == old(self).edit_text_spec(),
            final(self).ai_inferred_spec() == old(self).ai_inferred_spec(),
            final(self).editing_spec() == old(self).editing_spec(),
    {
        self.is_confirmed = true;
    }

    /// Enters or leaves editing; entering starts from the current text.
    pub fn toggle_edit(&mut self)
        ensures
            final(self).editing_spec() == !old(self).editing_spec(),
            final(self).edit_text_spec() == (if final(self).editing_spec() { old(self).text_spec() } else { old(self).edit_text_spec() }),
            final(self).text_spec() == old(self).text_spec(),
            final(self).confirmed_spec() == old(self).confirmed_spec(),
            final(self).ai_inferred_spec() == old(self).ai_inferred_spec(),
    {
        self.is_editing = !self.is_editing;
        if self.is_editing {
            self.edit_text = self.text.clone();
        }
    }

    /// The edited text becomes the goal, confirmed by the user.
    pub fn save(&mut self)
        ensures
            final(self).text_spec() == old(self).edit_text_spec(),
            final(self).edit_text_spec() == old(self).edit_text_spec(),
            !final(self).editing_spec(),
            !final(self).ai_inferred_spec(),
            final(self).confirmed_spec(),
    {
        self.text = self.edit_text.clone();
        self.is_editing = false;
        self.is_ai_inferred = false;
        self.is_confirmed = true;
    }
}

/// A suggestion offered by the assistant.
pub struct CurrentSuggestion {
    pub title: String,
    pub content: String,
    pub has_action: bool,
    /// "run", "dismiss", etc.
    pub action_type: Option<String>,
}

} // verus!
