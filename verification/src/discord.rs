use crate::trigger::TriggerInfo;
use crate::trigger::TriggerInfoView;
use crate::twitter::append_or_empty;
use crate::twitter::or_empty;
use vstd::prelude::*;
use vstd::string::StringExecFns;

verus! {

/// The text of the message that announces an item on the webhook: a rule,
/// then the title, the link and the date, each on a line of its own.
pub open spec fn message_content(info: TriggerInfoView) -> Seq<char> {
    "--------------------\nTitle: "@ + or_empty(info.title) + "\nLink: "@ + or_empty(info.link)
        + "\nDate: "@ + or_empty(info.pub_date)
}

/// Writes the message that announces an item.
pub fn content(trigger_info: &TriggerInfo) -> (content: String)
    ensures
        content@ == message_content(trigger_info@),
{
    let mut content = String::from_str("--------------------\nTitle: ");
    append_or_empty(&mut content, trigger_info.get_title());
    content.append("\nLink: ");
    append_or_empty(&mut content, trigger_info.get_link());
    content.append("\nDate: ");
    append_or_empty(&mut content, trigger_info.get_pub_date());
    assert(content@ =~= message_content(trigger_info@));
    content
}

} // verus!
