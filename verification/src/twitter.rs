use crate::command::CommandOutput;
use crate::digest::text_of;
use crate::trigger::TriggerError;
use crate::trigger::TriggerInfo;
use crate::trigger::TriggerInfoView;
use vstd::prelude::*;
use vstd::string::StringExecFns;

verus! {

/// The channel that hands an item to a helper script, which posts it.
#[derive(Debug)]
pub struct TwitterNotification;

/// A text that may be missing, the empty text standing for a missing one.
pub open spec fn or_empty(text: Option<Seq<char>>) -> Seq<char> {
    match text {
        Some(t) => t,
        None => Seq::empty(),
    }
}

/// What the script reads of an item: its title, a line break, its link.
pub open spec fn script_input(info: TriggerInfoView) -> Seq<char> {
    or_empty(info.title) + "\n"@ + or_empty(info.link)
}

/// Appends a text that may be missing; a missing one adds nothing.
pub fn append_or_empty(target: &mut String, text: &Option<String>)
    ensures
        final(target)@ == old(target)@ + or_empty(text_of(*text)),
{
    match text {
        Some(t) => {
            target.append(t.as_str());
        },
        None => {
            assert(target@ =~= old(target)@ + Seq::<char>::empty());
        },
    }
}

impl TwitterNotification {
    pub fn new() -> Self {
        TwitterNotification {  }
    }

    /// What is written to the script's standard input for an item.
    pub fn script_input(&self, trigger_info: &TriggerInfo) -> (input: String)
        ensures
            input@ == script_input(trigger_info@),
    {
        let mut input = String::new();
        append_or_empty(&mut input, trigger_info.get_title());
        input.append("\n");
        append_or_empty(&mut input, trigger_info.get_link());
        assert(input@ =~= script_input(trigger_info@));
        input
    }

    /// Whether the script delivered: it did exactly when it ended with
    /// status 0.
    pub fn judge(&self, output: &CommandOutput) -> (r: Result<(), TriggerError>)
        ensures
            r is Ok <==> output.exit_status == 0,
    {
        if output.exit_status == 0 {
            Ok(())
        } else {
            Err(TriggerError { message: String::new() })
        }
    }
}

} // verus!
