//! Sending the chat input to the activity log.

use vstd::prelude::*;
use crate::activity::ActivityItem;
use crate::multiline::{cleared, joined, wf, MultilineTextInput};
use crate::validation::{blank, decimal, is_blank, usize_to_string};

verus! {

/// `SystemTime::now`: the current time. Nothing is known of the value.
#[verifier::external_body]
pub(crate) fn system_now() -> std::time::SystemTime {
    std::time::SystemTime::now()
}

/// The log after sending `text`: a user chat message whose identifier is
/// `chat_` followed by the log's former length.
pub open spec fn sent(old_log: Seq<ActivityItem>, new_log: Seq<ActivityItem>, text: Seq<char>) -> bool {
    &&& new_log.len() == old_log.len() + 1
    &&& new_log.subrange(0, old_log.len() as int) == old_log
    &&& new_log.last() matches ActivityItem::Chat { id, message, is_user, .. }
    &&& id@ == "chat_"@ + decimal(old_log.len())
    &&& message@ == text
    &&& is_user
}

/// Sends the chat input: unless it is blank, its text joins the log as a
/// user message and the input is cleared. Returns whether it was sent.
pub fn handle_chat_send(activity_log: &mut Vec<ActivityItem>, chat_input: &mut MultilineTextInput) -> (r: bool)
    requires
        wf(old(chat_input)@),
    ensures
        r == !blank(joined(old(chat_input)@.lines)),
        r ==> sent(old(activity_log)@, final(activity_log)@, joined(old(chat_input)@.lines))
            && final(chat_input)@ == cleared(old(chat_input)@),
        !r ==> final(activity_log)@ == old(activity_log)@ && final(chat_input)@ == old(chat_input)@,
        wf(final(chat_input)@),
{
    let text = chat_input.get_text();
    if is_blank(text.as_str()) {
        return false;
    }
    let mut id = String::from_str("chat_");
    let n = usize_to_string(activity_log.len());
    id.append(n.as_str());
    let ghost before = activity_log@;
    activity_log.push(ActivityItem::Chat { id, message: text, is_user: true, timestamp: system_now() });
    proof {
        assert(activity_log@.subrange(0, before.len() as int) =~= before);
    }
    chat_input.clear();
    true
}

} // verus!
