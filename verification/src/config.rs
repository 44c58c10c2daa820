use crate::feedconfig::FeedConfig;
use crate::gate::texts;
use crate::trigger::Trigger;
use vstd::prelude::*;
use vstd::string::StringExecFns;

verus! {

/// The settings of a run: whether to log in detail, where the store lies,
/// the notification channels, and the feeds to watch.
pub struct Config {
    should_log_debug: bool,
    database_file: String,
    trigger_list: Vec<Box<dyn Trigger>>,
    feed_config_list: Vec<FeedConfig>,
}

/// Whether settings are complete: the store has a file name, and there is
/// at least one channel and one feed.
pub open spec fn complete(
    database_file: Seq<char>,
    trigger_list: Seq<Box<dyn Trigger>>,
    feed_config_list: Seq<FeedConfig>,
) -> bool {
    database_file.len() > 0 && trigger_list.len() > 0 && feed_config_list.len() > 0
}

impl Config {
    pub closed spec fn spec_should_log_debug(&self) -> bool {
        self.should_log_debug
    }

    pub closed spec fn spec_database_file(&self) -> Seq<char> {
        self.database_file@
    }

    pub closed spec fn spec_trigger_list(&self) -> Seq<Box<dyn Trigger>> {
        self.trigger_list@
    }

    pub closed spec fn spec_feed_config_list(&self) -> Seq<FeedConfig> {
        self.feed_config_list@
    }

    /// Puts settings together, if they are complete.
    pub fn assemble(
        should_log_debug: bool,
        database_file: String,
        trigger_list: Vec<Box<dyn Trigger>>,
        feed_config_list: Vec<FeedConfig>,
    ) -> (config: Option<Self>)
        ensures
            config is Some <==> complete(database_file@, trigger_list@, feed_config_list@),
            config matches Some(c) ==> c.spec_should_log_debug() == should_log_debug
                && c.spec_database_file() == database_file@ && c.spec_trigger_list()
                == trigger_list@ && c.spec_feed_config_list() == feed_config_list@,
    {
        if database_file.as_str().is_empty() || trigger_list.len() == 0 || feed_config_list.len()
            == 0 {
            None
        } else {
            Some(Config { should_log_debug, database_file, trigger_list, feed_config_list })
        }
    }

    pub fn get_should_log_debug(&self) -> (flag: &bool)
        ensures
            *flag == self.spec_should_log_debug(),
    {
        &self.should_log_debug
    }

    pub fn get_database_file(&self) -> (file: &str)
        ensures
            file@ == self.spec_database_file(),
    {
        self.database_file.as_str()
    }

    pub fn get_trigger_list(&self) -> (list: &Vec<Box<dyn Trigger>>)
        ensures
            list@ == self.spec_trigger_list(),
    {
        &self.trigger_list
    }

    pub fn get_feed_config_list(&self) -> (list: &Vec<FeedConfig>)
        ensures
            list@ == self.spec_feed_config_list(),
    {
        &self.feed_config_list
    }
}

/// Whether the `regex` crate takes `pattern` for a regular expression.
pub uninterp spec fn regex_valid(pattern: Seq<char>) -> bool;

/// Whether the regular expression `pattern` matches somewhere in `text`,
/// as the `regex` crate reads the pattern.
pub uninterp spec fn regex_matches(pattern: Seq<char>, text: Seq<char>) -> bool;

/// Calls `regex::Regex::new` on the pattern and `regex::Regex::is_match`
/// with the text on what it gives.
///
/// Trusted: there is an answer exactly when the pattern compiles, and the
/// answer is whether the expression matches somewhere in the text.
#[verifier::external_body]
fn matches(pattern: &str, text: &str) -> (found: Option<bool>)
    ensures
        found is Some <==> regex_valid(pattern@),
        found matches Some(answer) ==> answer == regex_matches(pattern@, text@),
{
    match regex::Regex::new(pattern) {
        Ok(regex) => Some(regex.is_match(text)),
        Err(_) => None,
    }
}

/// The regular expression for a comment line of a settings file: a `#`
/// with nothing but white space before it.
pub open spec fn comment_pattern() -> Seq<char> {
    "^\\s*#.*"@
}

/// Which of the lines are comments.
pub open spec fn comment_marks(lines: Seq<Seq<char>>) -> Seq<bool> {
    Seq::new(lines.len(), |i: int| regex_matches(comment_pattern(), lines[i]))
}

/// The lines that are not marked, in order. A line without a mark is kept.
pub open spec fn unmarked(lines: Seq<Seq<char>>, marks: Seq<bool>) -> Seq<Seq<char>>
    decreases lines.len(),
{
    if lines.len() == 0 {
        Seq::empty()
    } else if lines.len() <= marks.len() && marks[lines.len() - 1] {
        unmarked(lines.drop_last(), marks)
    } else {
        unmarked(lines.drop_last(), marks).push(lines.last())
    }
}

/// The lines as one text, with a line break between each two of them.
pub open spec fn joined(lines: Seq<Seq<char>>) -> Seq<char>
    decreases lines.len(),
{
    if lines.len() == 0 {
        Seq::empty()
    } else if lines.len() == 1 {
        lines[0]
    } else {
        joined(lines.drop_last()) + "\n"@ + lines.last()
    }
}

/// Puts lines together into one text, with a line break between each two.
pub fn join_lines(lines: &Vec<String>) -> (text: String)
    ensures
        text@ == joined(texts(lines@)),
{
    let mut text = String::new();
    let mut i: usize = 0;
    assert(texts(lines@).take(0) =~= Seq::<Seq<char>>::empty());
    while i < lines.len()
        invariant
            i <= lines.len(),
            text@ == joined(texts(lines@).take(i as int)),
        decreases lines.len() - i,
    {
        assert(texts(lines@).take(i + 1).drop_last() =~= texts(lines@).take(i as int));
        assert(texts(lines@).take(i + 1).last() == lines@[i as int]@);
        if i > 0 {
            text.append("\n");
        } else {
            assert(text@ + lines@[i as int]@ =~= lines@[i as int]@);
        }
        text.append(lines[i].as_str());
        i = i + 1;
    }
    assert(texts(lines@).take(lines.len() as int) =~= texts(lines@));
    text
}

/// Copies the lines that are not marked. A line without a mark is copied.
pub fn drop_marked(lines: &Vec<String>, marks: &Vec<bool>) -> (kept: Vec<String>)
    ensures
        texts(kept@) == unmarked(texts(lines@), marks@),
{
    let mut kept: Vec<String> = Vec::new();
    let mut i: usize = 0;
    assert(texts(lines@).take(0) =~= Seq::<Seq<char>>::empty());
    assert(texts(kept@) =~= Seq::<Seq<char>>::empty());
    while i < lines.len()
        invariant
            i <= lines.len(),
            texts(kept@) == unmarked(texts(lines@).take(i as int), marks@),
        decreases lines.len() - i,
    {
        let ghost before = texts(kept@);
        assert(texts(lines@).take(i + 1).drop_last() =~= texts(lines@).take(i as int));
        assert(texts(lines@).take(i + 1).last() == lines@[i as int]@);
        if i < marks.len() && marks[i] {
        } else {
            kept.push(lines[i].clone());
            assert(texts(kept@) =~= before.push(lines@[i as int]@));
        }
        i = i + 1;
    }
    assert(texts(lines@).take(lines.len() as int) =~= texts(lines@));
    kept
}

/// The text of a settings file without its comment lines.
///
/// There is no text only where there are lines and the pattern for
/// comments is refused as a regular expression.
pub fn strip_comments(lines: &Vec<String>) -> (text: Option<String>)
    ensures
        text is Some <==> lines.len() == 0 || regex_valid(comment_pattern()),
        text matches Some(t) ==> t@ == joined(
            unmarked(texts(lines@), comment_marks(texts(lines@))),
        ),
{
    let mut marks: Vec<bool> = Vec::new();
    let mut i: usize = 0;
    while i < lines.len()
        invariant
            i <= lines.len(),
            marks.len() == i,
            i > 0 ==> regex_valid(comment_pattern()),
            forall|k: int|
                0 <= k < i ==> marks@[k] == regex_matches(comment_pattern(), #[trigger] lines@[k]@),
        decreases lines.len() - i,
    {
        match matches("^\\s*#.*", lines[i].as_str()) {
            Some(mark) => {
                marks.push(mark);
            },
            None => {
                return None;
            },
        }
        i = i + 1;
    }
    assert(marks@ =~= comment_marks(texts(lines@)));
    let kept = drop_marked(lines, &marks);
    Some(join_lines(&kept))
}

} // verus!
