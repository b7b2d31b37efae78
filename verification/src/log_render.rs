//! Text of the rendered activity log.

use vstd::prelude::*;
use crate::activity::{item_id, ActivityItem, CommandStatus};
use crate::selection::{max_u, min_u, SelectionTarget};
use crate::text::string_push;

verus! {

/// Renders the activity log; it keeps no state of its own.
pub struct ActivityLogRenderer;

impl ActivityLogRenderer {
    pub fn new() -> ActivityLogRenderer {
        ActivityLogRenderer
    }
}

/// The icon shown for a command status.
pub open spec fn status_icon(status: CommandStatus) -> Seq<char> {
    match status {
        CommandStatus::Running => seq!['\u{25D0}'],
        CommandStatus::Success => seq!['\u{2713}'],
        CommandStatus::Failed(_) => seq!['\u{2715}'],
    }
}

/// The text an item shows in the rendered log: a command line is its status
/// icon, a space and the command, followed by a blank line and the output
/// when expanded and there is output; other items show their text.
pub open spec fn rendered_text(item: ActivityItem) -> Seq<char> {
    match item {
        ActivityItem::Command { command, output, status, expanded, .. } => {
            let head = status_icon(status) + seq![' '] + command@;
            match output {
                Some(o) => if expanded { head + seq!['\n', '\n'] + o@ } else { head },
                None => head,
            }
        },
        ActivityItem::Chat { message, .. } => message@,
        ActivityItem::Suggestion { content, .. } => content@,
        ActivityItem::Goal { text, .. } => text@,
    }
}

/// The text of an item as the log renders it.
pub fn get_item_text(item: &ActivityItem) -> (t: String)
    ensures
        t@ == rendered_text(*item),
{
    match item {
        ActivityItem::Chat { message, .. } => message.clone(),
        ActivityItem::Command { command, output, status, expanded, .. } => {
            let mut t = String::new();
            let icon = match status {
                CommandStatus::Running => '\u{25D0}',
                CommandStatus::Success => '\u{2713}',
                CommandStatus::Failed(_) => '\u{2715}',
            };
            string_push(&mut t, icon);
            string_push(&mut t, ' ');
            t.append(command.as_str());
            proof {
                assert(t@ =~= status_icon(*status) + seq![' '] + command@);
            }
            if *expanded {
                match output {
                    Some(o) => {
                        let ghost head = t@;
                        string_push(&mut t, '\n');
                        string_push(&mut t, '\n');
                        t.append(o.as_str());
                        proof {
                            assert(t@ =~= head + seq!['\n', '\n'] + o@);
                        }
                    },
                    None => {},
                }
            }
            t
        },
        ActivityItem::Suggestion { content, .. } => content.clone(),
        ActivityItem::Goal { text, .. } => text.clone(),
    }
}

/// Every item is selectable and counts towards selection offsets.
pub fn should_include_item_in_selection_offset(item: &ActivityItem) -> (b: bool)
    ensures
        b,
{
    true
}

/// The unique identifier of an item.
pub fn get_item_id(item: &ActivityItem) -> (id: String)
    ensures
        id@ == item_id(*item),
{
    match item {
        ActivityItem::Command { id, .. } => id.clone(),
        ActivityItem::Chat { id, .. } => id.clone(),
        ActivityItem::Suggestion { id, .. } => id.clone(),
        ActivityItem::Goal { id, .. } => id.clone(),
    }
}


/// The bytes of log entry `k` that a selection highlights: within a single
/// entry the bytes between the two ends; where the selection spans entries,
/// the first entry from its end of the selection to the end of its text
/// (`usize::MAX`), the last from its start to its end of the selection, and
/// every entry between them whole. Selections that are not in the log
/// highlight nothing.
pub open spec fn item_selection(selection: Option<SelectionTarget>, k: usize) -> Option<(usize, usize)> {
    match selection {
        Some(SelectionTarget::ActivityItem { anchor_index, anchor_byte, current_index, current_byte }) => {
            let lo = min_u(anchor_index, current_index);
            let hi = max_u(anchor_index, current_index);
            if anchor_index == k && current_index == k {
                Some((min_u(anchor_byte, current_byte), max_u(anchor_byte, current_byte)))
            } else if k == lo && lo < hi {
                Some((if anchor_index == k { anchor_byte } else { current_byte }, usize::MAX))
            } else if k == hi && lo < hi {
                Some((0, if anchor_index == k { anchor_byte } else { current_byte }))
            } else if lo < k < hi {
                Some((0, usize::MAX))
            } else {
                None
            }
        },
        _ => None,
    }
}

/// The bytes of log entry `item_index` that `selection` highlights (see
/// `item_selection`).
pub fn item_selection_range(selection: &Option<SelectionTarget>, item_index: usize) -> (r: Option<(usize, usize)>)
    ensures
        r == item_selection(*selection, item_index),
{
    match selection {
        Some(SelectionTarget::ActivityItem { anchor_index, anchor_byte, current_index, current_byte }) => {
            let lo_index = if *anchor_index <= *current_index { *anchor_index } else { *current_index };
            let hi_index = if *anchor_index >= *current_index { *anchor_index } else { *current_index };
            if *anchor_index == *current_index && *anchor_index == item_index {
                let lo = if *anchor_byte <= *current_byte { *anchor_byte } else { *current_byte };
                let hi = if *anchor_byte >= *current_byte { *anchor_byte } else { *current_byte };
                Some((lo, hi))
            } else if lo_index == item_index && lo_index < hi_index {
                let start = if *anchor_index == item_index { *anchor_byte } else { *current_byte };
                Some((start, usize::MAX))
            } else if hi_index == item_index && lo_index < hi_index {
                let end = if *anchor_index == item_index { *anchor_byte } else { *current_byte };
                Some((0, end))
            } else if item_index > lo_index && item_index < hi_index {
                Some((0, usize::MAX))
            } else {
                None
            }
        },
        _ => None,
    }
}

} // verus!
