//! One task record and its status.

use vstd::prelude::*;
use crate::text::same_text;

verus! {

/// Where a task stands.
#[derive(Clone, Copy, PartialEq, Eq, Structural, Debug)]
pub enum Status {
    Todo,
    InProgress,
    Done,
}

/// The status that a status word names: `todo` or `t`, `wip` or `w`,
/// `done` or `d`; no other word names one.
pub open spec fn status_named(w: Seq<char>) -> Option<Status> {
    if w == seq!['t', 'o', 'd', 'o'] || w == seq!['t'] {
        Some(Status::Todo)
    } else if w == seq!['w', 'i', 'p'] || w == seq!['w'] {
        Some(Status::InProgress)
    } else if w == seq!['d', 'o', 'n', 'e'] || w == seq!['d'] {
        Some(Status::Done)
    } else {
        None
    }
}

/// The status that the word `word` names, as `status_named` says.
pub fn parse_status(word: &str) -> (r: Option<Status>)
    ensures
        r == status_named(word@),
{
    proof {
        reveal_strlit("todo");
        assert("todo"@ =~= seq!['t','o','d','o']);
        reveal_strlit("t");
        assert("t"@ =~= seq!['t']);
        reveal_strlit("wip");
        assert("wip"@ =~= seq!['w','i','p']);
        reveal_strlit("w");
        assert("w"@ =~= seq!['w']);
        reveal_strlit("done");
        assert("done"@ =~= seq!['d','o','n','e']);
        reveal_strlit("d");
        assert("d"@ =~= seq!['d']);
    }
    if same_text(word, "todo") || same_text(word, "t") {
        Some(Status::Todo)
    } else if same_text(word, "wip") || same_text(word, "w") {
        Some(Status::InProgress)
    } else if same_text(word, "done") || same_text(word, "d") {
        Some(Status::Done)
    } else {
        None
    }
}

/// The text by which a status is shown to the user.
pub open spec fn status_label(s: Status) -> Seq<char> {
    match s {
        Status::Todo => seq!['T', 'o', 'd', 'o'],
        Status::InProgress => seq!['W', 'I', 'P'],
        Status::Done => seq!['C', 'o', 'm', 'p', 'l', 'e', 't', 'e', 'd'],
    }
}

/// The text by which a status is shown in a listing.
pub open spec fn status_column(s: Status) -> Seq<char> {
    match s {
        Status::Todo => seq!['T', 'o', 'd', 'o'],
        Status::InProgress => seq!['W', 'o', 'r', 'k', 'i', 'n', 'g'],
        Status::Done => seq!['C', 'o', 'm', 'p', 'l', 'e', 't', 'e'],
    }
}

impl Status {
    /// The text by which this status is shown in a listing, as
    /// `status_column` says.
    pub fn column_label(&self) -> (r: &'static str)
        ensures
            r@ == status_column(*self),
    {
        proof {
            reveal_strlit("Todo");
            reveal_strlit("Working");
            reveal_strlit("Complete");
        }
        match self {
            Status::Todo => "Todo",
            Status::InProgress => "Working",
            Status::Done => "Complete",
        }
    }

    /// The text by which this status is shown, as `status_label` says.
    pub fn label(&self) -> (r: &'static str)
        ensures
            r@ == status_label(*self),
    {
        proof {
            reveal_strlit("Todo");
            reveal_strlit("WIP");
            reveal_strlit("Completed");
        }
        match self {
            Status::Todo => "Todo",
            Status::InProgress => "WIP",
            Status::Done => "Completed",
        }
    }
}

/// One task: its id (its position in the collection), what it is, when it
/// was created, where it stands, and its tags.
#[derive(Debug)]
pub struct Task {
    pub id: usize,
    pub description: String,
    pub date: String,
    pub status: Status,
    pub tags: Vec<String>,
}

/// What a task holds, as plain values.
pub struct TaskView {
    pub id: usize,
    pub description: Seq<char>,
    pub date: Seq<char>,
    pub status: Status,
    pub tags: Seq<Seq<char>>,
}

impl View for Task {
    type V = TaskView;

    open spec fn view(&self) -> TaskView {
        TaskView {
            id: self.id,
            description: self.description@,
            date: self.date@,
            status: self.status,
            tags: self.tags.deep_view(),
        }
    }
}

impl Task {
    /// A task with these fields.
    pub fn new(id: usize, description: String, date: String, status: Status, tags: Vec<String>) -> (r: Task)
        ensures
            r.id == id,
            r.description == description,
            r.date == date,
            r.status == status,
            r.tags == tags,
    {
        Task { id, description, date, status, tags }
    }

    /// An equal task.
    pub fn duplicate(&self) -> (r: Task)
        ensures
            r@ == self@,
    {
        let mut tags: Vec<String> = Vec::new();
        let mut i: usize = 0;
        while i < self.tags.len()
            invariant
                i <= self.tags.len(),
                tags.len() == i,
                tags.deep_view() == self.tags.deep_view().subrange(0, i as int),
            decreases self.tags.len() - i,
        {
            let tag = self.tags[i].clone();
            assert(tag@ == self.tags@[i as int]@);
            tags.push(tag);
            assert(tags@[i as int]@ == self.tags@[i as int]@);
            assert(tags.deep_view() =~= self.tags.deep_view().subrange(0, i + 1));
            i = i + 1;
        }
        assert(tags.deep_view() =~= self.tags.deep_view());
        Task {
            id: self.id,
            description: self.description.clone(),
            date: self.date.clone(),
            status: self.status,
            tags,
        }
    }
}

} // verus!
