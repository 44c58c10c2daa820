use crate::digest::text_of;
use vstd::prelude::*;

verus! {

/// Why a notification channel did not deliver.
#[derive(Debug)]
pub struct TriggerError {
    pub message: String,
}

/// A notification channel: it is handed one item at a time and reports
/// whether it delivered it.
pub trait Trigger {
    fn pull_trigger(&self, trigger_info: &TriggerInfo) -> Result<(), TriggerError>;
}

/// What a notification channel is told of an item.
#[derive(Debug)]
pub struct TriggerInfo {
    title: Option<String>,
    link: Option<String>,
    description: Option<String>,
    pub_date: Option<String>,
}

/// The mathematical value of a [`TriggerInfo`].
pub struct TriggerInfoView {
    pub title: Option<Seq<char>>,
    pub link: Option<Seq<char>>,
    pub description: Option<Seq<char>>,
    pub pub_date: Option<Seq<char>>,
}

impl View for TriggerInfo {
    type V = TriggerInfoView;

    closed spec fn view(&self) -> TriggerInfoView {
        TriggerInfoView {
            title: text_of(self.title),
            link: text_of(self.link),
            description: text_of(self.description),
            pub_date: text_of(self.pub_date),
        }
    }
}

/// A copy of a text that may be missing.
pub fn copy_text(text: &Option<String>) -> (copy: Option<String>)
    ensures
        text_of(copy) == text_of(*text),
{
    match text {
        Some(t) => Some(t.clone()),
        None => None,
    }
}

impl TriggerInfo {
    pub fn new(
        title: &Option<String>,
        link: &Option<String>,
        description: &Option<String>,
        pub_date: &Option<String>,
    ) -> (info: Self)
        ensures
            info@ == (TriggerInfoView {
                title: text_of(*title),
                link: text_of(*link),
                description: text_of(*description),
                pub_date: text_of(*pub_date),
            }),
    {
        TriggerInfo {
            title: copy_text(title),
            link: copy_text(link),
            description: copy_text(description),
            pub_date: copy_text(pub_date),
        }
    }

    pub fn get_title(&self) -> (title: &Option<String>)
        ensures
            text_of(*title) == self@.title,
    {
        &self.title
    }

    pub fn get_link(&self) -> (link: &Option<String>)
        ensures
            text_of(*link) == self@.link,
    {
        &self.link
    }

    pub fn get_description(&self) -> (description: &Option<String>)
        ensures
            text_of(*description) == self@.description,
    {
        &self.description
    }

    pub fn get_pub_date(&self) -> (pub_date: &Option<String>)
        ensures
            text_of(*pub_date) == self@.pub_date,
    {
        &self.pub_date
    }
}

} // verus!
