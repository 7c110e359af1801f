//! The task record and the values it is made of.

use vstd::prelude::*;
use crate::text::same_text;

verus! {

/// Identifier of a task: the 128 bits of a UUID, most significant byte first.
#[derive(Clone, Copy, Debug, PartialEq, Eq, Structural)]
pub struct TaskId(pub u128);

/// How urgent a task is.
#[derive(Clone, Copy, Debug, PartialEq, Eq, Structural)]
pub enum Priority {
    High,
    Medium,
    Low,
}

impl Priority {
    /// The word that stands for this priority, in text and on the wire.
    pub open spec fn keyword(self) -> Seq<char> {
        match self {
            Priority::High => "High"@,
            Priority::Medium => "Medium"@,
            Priority::Low => "Low"@,
        }
    }

    /// The word that stands for this priority.
    pub fn label(self) -> (word: &'static str)
        ensures
            word@ == self.keyword(),
    {
        match self {
            Priority::High => "High",
            Priority::Medium => "Medium",
            Priority::Low => "Low",
        }
    }
}

impl Priority {
    /// The priority that `word` stands for, if it is the keyword of one.
    pub fn from_label(word: &str) -> (priority: Option<Priority>)
        ensures
            priority matches Some(named) ==> word@ == named.keyword(),
            priority is None ==> forall|any: Priority| word@ != any.keyword(),
    {
        if same_text(word, Priority::High.label()) {
            Some(Priority::High)
        } else if same_text(word, Priority::Medium.label()) {
            Some(Priority::Medium)
        } else if same_text(word, Priority::Low.label()) {
            Some(Priority::Low)
        } else {
            None
        }
    }

    /// No two priorities share a keyword.
    pub proof fn lemma_keywords_differ(a: Priority, b: Priority)
        requires
            a != b,
        ensures
            a.keyword() != b.keyword(),
    {
        reveal_strlit("High");
        reveal_strlit("Medium");
        reveal_strlit("Low");
        assert(Priority::High.keyword().len() == 4);
        assert(Priority::Medium.keyword().len() == 6);
        assert(Priority::Low.keyword().len() == 3);
    }
}

/// A unit of work that can be completed.
#[derive(Debug, PartialEq, Eq)]
pub struct Task {
    pub id: TaskId,
    pub title: String,
    pub completed: bool,
    pub priority: Option<Priority>,
    pub estimated_time: Option<String>,
}

/// What a task holds, as mathematical values.
pub struct TaskView {
    pub id: TaskId,
    pub title: Seq<char>,
    pub completed: bool,
    pub priority: Option<Priority>,
    pub estimated_time: Option<Seq<char>>,
}

/// The text an optional string holds, if any.
pub open spec fn optional_text(s: Option<String>) -> Option<Seq<char>> {
    match s {
        Some(text) => Some(text@),
        None => None,
    }
}

impl View for Task {
    type V = TaskView;

    open spec fn view(&self) -> TaskView {
        TaskView {
            id: self.id,
            title: self.title@,
            completed: self.completed,
            priority: self.priority,
            estimated_time: optional_text(self.estimated_time),
        }
    }
}

/// The task that a creation request starts from: not completed, and without
/// priority or estimate.
pub open spec fn draft_view(id: TaskId, title: Seq<char>) -> TaskView {
    TaskView { id, title, completed: false, priority: None, estimated_time: None }
}

impl Task {
    /// A fresh task with the given identifier and title.
    pub fn draft(id: TaskId, title: String) -> (task: Task)
        ensures
            task@ == draft_view(id, title@),
    {
        Task { id, title, completed: false, priority: None, estimated_time: None }
    }
}

impl Clone for Task {
    fn clone(&self) -> (copy: Task)
        ensures
            copy@ == self@,
    {
        let estimated_time = match &self.estimated_time {
            Some(text) => Some(text.clone()),
            None => None,
        };
        Task {
            id: self.id,
            title: self.title.clone(),
            completed: self.completed,
            priority: self.priority,
            estimated_time,
        }
    }
}

} // verus!
