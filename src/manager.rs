//! The actions on the task collection, each with what it does to the
//! collection and what it reports.

use vstd::prelude::*;
use vstd::string::StrSliceExecFns;
use crate::storage::{dense, lemma_outside_len, lemma_renumbered_dense, outside, renumbered, Storage, views};
use crate::tags::{normal_tags, normalize_tags};
use crate::task::{parse_status, status_named, Status, Task, TaskView};
use crate::text::{chars_of, contains_text, decimal, decimal_in, occurs_in, same_text};

verus! {

/// One action on the task collection.
pub enum TaskAction {
    /// A description and, optionally, comma-separated tags.
    AddTask(String, Option<String>),
    /// An id, or an inclusive range of ids written `first..last`.
    RemoveTask(String),
    /// Optionally, a query: `@tag` for a tag, else text of the description.
    ListTasks(Option<String>),
    /// An id and a status word.
    MarkTask(usize, String),
    /// An id and the new description.
    EditTask(usize, String),
    /// An id.
    View(usize),
}

/// What an action reports.
pub enum Outcome {
    /// The task that was created.
    Added(Task),
    /// An empty description was given; nothing was created.
    MissingDescription,
    /// How many tasks were removed.
    Removed(usize),
    /// The ids to remove were not a number or a range of numbers.
    MalformedIndex,
    /// The collection is empty.
    NoTasks,
    /// The tasks that a listing shows, in order.
    Listed(Vec<Task>),
    /// The id of the task and the status it now has.
    Marked(usize, Status),
    /// The status word that names no status.
    UnknownStatus(String),
    /// The id of the task and its new description.
    Edited(usize, String),
    /// The task asked for.
    Viewed(Task),
    /// No task has this id.
    NotFound(usize),
    /// How to use the command line was asked for.
    Usage,
}

/// What an outcome holds, as plain values.
pub enum OutcomeView {
    Added(TaskView),
    MissingDescription,
    Removed(usize),
    MalformedIndex,
    NoTasks,
    Listed(Seq<TaskView>),
    Marked(usize, Status),
    UnknownStatus(Seq<char>),
    Edited(usize, Seq<char>),
    Viewed(TaskView),
    NotFound(usize),
    Usage,
}

impl View for Outcome {
    type V = OutcomeView;

    open spec fn view(&self) -> OutcomeView {
        match self {
            Outcome::Added(t) => OutcomeView::Added(t@),
            Outcome::MissingDescription => OutcomeView::MissingDescription,
            Outcome::Removed(n) => OutcomeView::Removed(*n),
            Outcome::MalformedIndex => OutcomeView::MalformedIndex,
            Outcome::NoTasks => OutcomeView::NoTasks,
            Outcome::Listed(v) => OutcomeView::Listed(views(v@)),
            Outcome::Marked(i, s) => OutcomeView::Marked(*i, *s),
            Outcome::UnknownStatus(w) => OutcomeView::UnknownStatus(w@),
            Outcome::Edited(i, d) => OutcomeView::Edited(*i, d@),
            Outcome::Viewed(t) => OutcomeView::Viewed(t@),
            Outcome::NotFound(i) => OutcomeView::NotFound(*i),
            Outcome::Usage => OutcomeView::Usage,
        }
    }
}

/// The outcomes after which the collection has changed and must be stored.
pub open spec fn changes_collection(r: OutcomeView) -> bool {
    match r {
        OutcomeView::Added(_) | OutcomeView::Removed(_) | OutcomeView::Marked(_, _)
        | OutcomeView::Edited(_, _) => true,
        _ => false,
    }
}

impl Outcome {
    /// Whether the collection changed, as `changes_collection` says.
    pub fn changes_store(&self) -> (r: bool)
        ensures
            r == changes_collection(self@),
    {
        match self {
            Outcome::Added(_) | Outcome::Removed(_) | Outcome::Marked(_, _) | Outcome::Edited(
                _,
                _,
            ) => true,
            _ => false,
        }
    }
}

/// The optional text as plain values.
pub open spec fn opt_view(o: Option<String>) -> Option<Seq<char>> {
    match o {
        Some(s) => Some(s@),
        None => None,
    }
}

// Adding
/// Adding a task with the description `d`, the optional tag text `raw` and the
/// creation date `date` to `s` gives `post` and reports `r`.
pub open spec fn add_spec(
    s: Seq<TaskView>,
    d: Seq<char>,
    raw: Option<Seq<char>>,
    date: Seq<char>,
    post: Seq<TaskView>,
    r: OutcomeView,
) -> bool {
    if d.len() == 0 {
        post == s && r == OutcomeView::MissingDescription
    } else {
        match r {
            OutcomeView::Added(t) => t.id == s.len() && t.description == d && t.date == date
                && t.status == Status::Todo && normal_tags(raw, t.tags) && post == s.push(t),
            _ => false,
        }
    }
}

// Removing
/// The first position at or after `i` where `..` starts (or the end).
pub open spec fn first_dots(s: Seq<char>, i: int) -> int
    decreases s.len() - i,
{
    if i < 0 || i + 1 >= s.len() {
        s.len() as int
    } else if s[i] == '.' && s[i + 1] == '.' {
        i
    } else {
        first_dots(s, i + 1)
    }
}

/// The ids that the text `s` names for removal: `first..last` (both ends
/// included) or one id; `None` where it is neither.
pub open spec fn index_range(s: Seq<char>) -> Option<(usize, usize)> {
    let k = first_dots(s, 0);
    if k < s.len() {
        match (decimal(s.subrange(0, k)), decimal(s.subrange(k + 2, s.len() as int))) {
            (Some(a), Some(b)) => Some((a, b)),
            _ => None,
        }
    } else {
        match decimal(s) {
            Some(a) => Some((a, a)),
            None => None,
        }
    }
}

/// Removing the tasks that the text `text` names from `s`: the collection
/// after, and what is reported.
pub open spec fn remove_spec(s: Seq<TaskView>, text: Seq<char>) -> (Seq<TaskView>, OutcomeView) {
    match index_range(text) {
        Some((a, b)) => {
            let kept = outside(s, a, b);
            (renumbered(kept), OutcomeView::Removed((s.len() - kept.len()) as usize))
        },
        None => (s, OutcomeView::MalformedIndex),
    }
}

// Listing
/// `q` with its leading `@`s dropped.
pub open spec fn after_ats(q: Seq<char>, i: int) -> Seq<char>
    decreases q.len() - i,
{
    if i < 0 || i >= q.len() {
        Seq::empty()
    } else if q[i] == '@' {
        after_ats(q, i + 1)
    } else {
        q.subrange(i, q.len() as int)
    }
}

/// A task matches a query: a query that starts with `@` names a tag the task
/// has (after the `@`s); any other is text that its description contains.
pub open spec fn task_matches(t: TaskView, q: Seq<char>) -> bool {
    if q.len() > 0 && q[0] == '@' {
        t.tags.contains(after_ats(q, 0))
    } else {
        occurs_in(q, t.description)
    }
}

/// The tasks of `s` that match `q`, in order.
pub open spec fn matching(s: Seq<TaskView>, q: Seq<char>) -> Seq<TaskView>
    decreases s.len(),
{
    if s.len() == 0 {
        s
    } else {
        let rest = matching(s.drop_last(), q);
        if task_matches(s.last(), q) {
            rest.push(s.last())
        } else {
            rest
        }
    }
}

/// What listing `s` with the optional query `q` reports.
pub open spec fn list_spec(s: Seq<TaskView>, q: Option<Seq<char>>) -> OutcomeView {
    if s.len() == 0 {
        OutcomeView::NoTasks
    } else {
        match q {
            Some(q) => OutcomeView::Listed(matching(s, q)),
            None => OutcomeView::Listed(s),
        }
    }
}

// Marking, editing, viewing
/// `t` with the status `st`.
pub open spec fn with_status(t: TaskView, st: Status) -> TaskView {
    TaskView { id: t.id, description: t.description, date: t.date, status: st, tags: t.tags }
}

/// `t` with the description `d`.
pub open spec fn with_description(t: TaskView, d: Seq<char>) -> TaskView {
    TaskView { id: t.id, description: d, date: t.date, status: t.status, tags: t.tags }
}

/// Marking the task `id` of `s` with the status word `w`.
pub open spec fn mark_spec(s: Seq<TaskView>, id: usize, w: Seq<char>) -> (Seq<TaskView>, OutcomeView) {
    if id >= s.len() {
        (s, OutcomeView::NotFound(id))
    } else {
        match status_named(w) {
            Some(st) => (s.update(id as int, with_status(s[id as int], st)), OutcomeView::Marked(id, st)),
            None => (s, OutcomeView::UnknownStatus(w)),
        }
    }
}

/// Giving the task `id` of `s` the description `d`.
pub open spec fn edit_spec(s: Seq<TaskView>, id: usize, d: Seq<char>) -> (Seq<TaskView>, OutcomeView) {
    if id >= s.len() {
        (s, OutcomeView::NotFound(id))
    } else {
        (s.update(id as int, with_description(s[id as int], d)), OutcomeView::Edited(id, d))
    }
}

/// What viewing the task `id` of `s` reports.
pub open spec fn view_spec(s: Seq<TaskView>, id: usize) -> OutcomeView {
    if id >= s.len() {
        OutcomeView::NotFound(id)
    } else {
        OutcomeView::Viewed(s[id as int])
    }
}

/// Carrying out `a` on `s`, with `date` as the date of a task it creates,
/// gives `post` and reports `r`.
pub open spec fn step(
    s: Seq<TaskView>,
    a: TaskAction,
    date: Seq<char>,
    post: Seq<TaskView>,
    r: OutcomeView,
) -> bool {
    match a {
        TaskAction::AddTask(d, raw) => add_spec(s, d@, opt_view(raw), date, post, r),
        TaskAction::RemoveTask(text) => (post, r) == remove_spec(s, text@),
        TaskAction::ListTasks(q) => post == s && r == list_spec(s, opt_view(q)),
        TaskAction::MarkTask(id, w) => (post, r) == mark_spec(s, id, w@),
        TaskAction::EditTask(id, d) => (post, r) == edit_spec(s, id, d@),
        TaskAction::View(id) => post == s && r == view_spec(s, id),
    }
}

proof fn lemma_first_dots_bounds(s: Seq<char>, i: int)
    requires
        0 <= i <= s.len(),
    ensures
        i <= first_dots(s, i) <= s.len(),
        first_dots(s, i) < s.len() ==> first_dots(s, i) + 1 < s.len(),
    decreases s.len() - i,
{
    if i + 1 < s.len() && !(s[i] == '.' && s[i + 1] == '.') {
        lemma_first_dots_bounds(s, i + 1);
    }
}

/// The ids that `text` names for removal, as `index_range` says.
pub fn parse_range(text: &str) -> (r: Option<(usize, usize)>)
    ensures
        r == index_range(text@),
{
    let cs = chars_of(text);
    let n = cs.len();
    let mut k: usize = 0;
    while n > 0 && k < n - 1 && !(cs[k] == '.' && cs[k + 1] == '.')
        invariant
            cs@ == text@,
            n == cs.len(),
            k <= n,
            first_dots(text@, 0) == first_dots(text@, k as int),
        decreases n - k,
    {
        k = k + 1;
    }
    if n > 0 && k < n - 1 {
        proof {
            lemma_first_dots_bounds(text@, 0);
        }
        let first = decimal_in(&cs, 0, k);
        let last = decimal_in(&cs, k + 2, n);
        match (first, last) {
            (Some(a), Some(b)) => Some((a, b)),
            _ => None,
        }
    } else {
        assert(cs@.subrange(0, n as int) =~= text@);
        match decimal_in(&cs, 0, n) {
            Some(a) => Some((a, a)),
            None => None,
        }
    }
}

/// Ids stay positions: whatever action is carried out on a collection whose
/// ids are positions, the ids of the collection after are positions too.
pub proof fn law_ids_stay_dense(
    s: Seq<TaskView>,
    a: TaskAction,
    date: Seq<char>,
    post: Seq<TaskView>,
    r: OutcomeView,
)
    requires
        dense(s),
        step(s, a, date, post, r),
    ensures
        dense(post),
{
    match a {
        TaskAction::RemoveTask(text) => {
            match index_range(text@) {
                Some((x, y)) => {
                    if s.len() > 0 {
                        assert(s[s.len() - 1].id == s.len() - 1);
                    }
                    lemma_outside_len(s, x, y);
                    lemma_renumbered_dense(outside(s, x, y));
                },
                None => {},
            }
        },
        TaskAction::MarkTask(id, w) => {
            if id < s.len() {
                match status_named(w@) {
                    Some(st) => {
                        assert forall|i: int| 0 <= i < post.len() implies (#[trigger] post[i]).id == i by {
                            if i != id {
                                assert(post[i] == s[i]);
                            }
                        }
                    },
                    None => {},
                }
            }
        },
        TaskAction::EditTask(id, d) => {
            if id < s.len() {
                assert forall|i: int| 0 <= i < post.len() implies (#[trigger] post[i]).id == i by {
                    if i != id {
                        assert(post[i] == s[i]);
                    }
                }
            }
        },
        TaskAction::AddTask(d, raw) => {
            if d@.len() > 0 {
                assert forall|i: int| 0 <= i < post.len() implies (#[trigger] post[i]).id == i by {
                    if i < s.len() {
                        assert(post[i] == s[i]);
                    }
                }
            }
        },
        _ => {},
    }
}

/// The status words `t` and `todo` mark a task alike, and a word that names no
/// status (`bogus`) changes nothing: where the task exists it is reported as
/// an unknown status, where it does not as a missing task.
pub proof fn law_status_words(s: Seq<TaskView>, id: usize)
    ensures
        mark_spec(s, id, seq!['t']) == mark_spec(s, id, seq!['t', 'o', 'd', 'o']),
        mark_spec(s, id, seq!['b', 'o', 'g', 'u', 's']).0 == s,
        id < s.len() ==> mark_spec(s, id, seq!['b', 'o', 'g', 'u', 's']).1
            == OutcomeView::UnknownStatus(seq!['b', 'o', 'g', 'u', 's']),
{
    let bogus = seq!['b', 'o', 'g', 'u', 's'];
    assert(bogus.len() == 5);
    assert(seq!['t'].len() == 1 && seq!['w'].len() == 1 && seq!['d'].len() == 1);
    assert(seq!['t', 'o', 'd', 'o'].len() == 4 && seq!['d', 'o', 'n', 'e'].len() == 4);
    assert(seq!['w', 'i', 'p'].len() == 3);
}

/// Asking for a task that does not exist changes nothing and reports it
/// missing, whether to view, edit or mark it.
pub proof fn law_missing_id(s: Seq<TaskView>, id: usize, d: Seq<char>, w: Seq<char>)
    requires
        id >= s.len(),
    ensures
        view_spec(s, id) == OutcomeView::NotFound(id),
        edit_spec(s, id, d) == (s, OutcomeView::NotFound(id)),
        mark_spec(s, id, w) == (s, OutcomeView::NotFound(id)),
{
}

/// Whether the task `t` matches the query `q`, as `task_matches` says.
pub fn matches_query(t: &Task, q: &str) -> (r: bool)
    ensures
        r == task_matches(t@, q@),
{
    let cs = chars_of(q);
    if cs.len() > 0 && cs[0] == '@' {
        let mut k: usize = 0;
        while k < cs.len() && cs[k] == '@'
            invariant
                cs@ == q@,
                k <= cs.len(),
                k > 0 ==> after_ats(q@, 0) == after_ats(q@, k as int),
                k == 0 ==> cs@[0] == '@',
            decreases cs.len() - k,
        {
            k = k + 1;
        }
        let tag = q.substring_char(k, cs.len());
        assert(tag@ == after_ats(q@, 0));
        let mut i: usize = 0;
        while i < t.tags.len()
            invariant
                i <= t.tags.len(),
                tag@ == after_ats(q@, 0),
                cs@ == q@,
                cs.len() > 0 && cs@[0] == '@',
                forall|j: int| 0 <= j < i ==> t.tags.deep_view()[j] != tag@,
            decreases t.tags.len() - i,
        {
            if same_text(t.tags[i].as_str(), tag) {
                assert(t@.tags[i as int] == tag@);
                assert(t@.tags.contains(tag@));
                return true;
            }
            i = i + 1;
        }
        false
    } else {
        contains_text(t.description.as_str(), q)
    }
}

/// The tasks of `tasks` that match `q`, in order.
fn filter_tasks(tasks: &Vec<Task>, q: &str) -> (r: Vec<Task>)
    ensures
        views(r@) == matching(views(tasks@), q@),
{
    let ghost s = views(tasks@);
    let mut r: Vec<Task> = Vec::new();
    let mut i: usize = 0;
    while i < tasks.len()
        invariant
            s == views(tasks@),
            i <= tasks.len(),
            views(r@) == matching(s.subrange(0, i as int), q@),
        decreases tasks.len() - i,
    {
        assert(s.subrange(0, i + 1).drop_last() =~= s.subrange(0, i as int));
        assert(s.subrange(0, i + 1).last() == tasks@[i as int]@);
        if matches_query(&tasks[i], q) {
            let t = tasks[i].duplicate();
            let ghost earlier = views(r@);
            r.push(t);
            assert(views(r@) =~= earlier.push(t@));
        }
        i = i + 1;
    }
    assert(s.subrange(0, i as int) =~= s);
    r
}

/// The manager of one invocation: it owns the task collection and carries out
/// actions on it.
pub struct TaskManager {
    pub storage: Storage,
}

impl TaskManager {
    /// Each task's id is its position.
    pub open spec fn wf(&self) -> bool {
        self.storage.wf()
    }

    /// A manager of the collection `storage`.
    pub fn new(storage: Storage) -> (r: TaskManager)
        requires
            storage.wf(),
        ensures
            r.storage@ == storage@,
            r.wf(),
    {
        TaskManager { storage }
    }

    /// Adds a task with the description `description`, the tags that
    /// `tags` names and the creation date `date`; an empty description is
    /// refused.
    pub fn add_task(&mut self, description: String, tags: Option<String>, date: String) -> (r:
        Outcome)
        requires
            old(self).wf(),
        ensures
            final(self).wf(),
            add_spec(old(self).storage@, description@, opt_view(tags), date@, final(self).storage@, r@),
    {
        if description.as_str().is_empty() {
            return Outcome::MissingDescription;
        }
        let tag_list = normalize_tags(&tags);
        let task = Task::new(self.storage.tasks.len(), description, date, Status::Todo, tag_list);
        let reported = task.duplicate();
        self.storage.insert_task(task);
        Outcome::Added(reported)
    }

    /// Removes the task whose id `index` names, or every task in the
    /// inclusive range `first..last` that it names, and renumbers the rest.
    pub fn remove_tasks(&mut self, index: &str) -> (r: Outcome)
        requires
            old(self).wf(),
        ensures
            final(self).wf(),
            (final(self).storage@, r@) == remove_spec(old(self).storage@, index@),
    {
        match parse_range(index) {
            Some((first, last)) => {
                let n = self.storage.remove_range(first, last);
                Outcome::Removed(n)
            },
            None => Outcome::MalformedIndex,
        }
    }

    /// The tasks that match `query`, or all of them where there is none.
    pub fn list_tasks(&self, query: &Option<String>) -> (r: Outcome)
        ensures
            r@ == list_spec(self.storage@, opt_view(*query)),
    {
        if self.storage.tasks.len() == 0 {
            return Outcome::NoTasks;
        }
        match query {
            Some(q) => Outcome::Listed(filter_tasks(&self.storage.tasks, q.as_str())),
            None => Outcome::Listed(self.storage.get_tasks()),
        }
    }

    /// Gives the task `index` the status that `status` names.
    pub fn mark_task(&mut self, index: usize, status: String) -> (r: Outcome)
        requires
            old(self).wf(),
        ensures
            final(self).wf(),
            (final(self).storage@, r@) == mark_spec(old(self).storage@, index, status@),
    {
        if !self.storage.task_exists(index) {
            return Outcome::NotFound(index);
        }
        match parse_status(status.as_str()) {
            Some(st) => {
                let ghost before = self.storage@;
                self.storage.tasks[index].status = st;
                assert(self.storage@ =~= before.update(index as int, with_status(before[index as int], st)));
                Outcome::Marked(index, st)
            },
            None => Outcome::UnknownStatus(status),
        }
    }

    /// Gives the task `index` the description `description`.
    pub fn edit_task(&mut self, index: usize, description: String) -> (r: Outcome)
        requires
            old(self).wf(),
        ensures
            final(self).wf(),
            (final(self).storage@, r@) == edit_spec(old(self).storage@, index, description@),
    {
        if !self.storage.task_exists(index) {
            return Outcome::NotFound(index);
        }
        let ghost before = self.storage@;
        let reported = description.clone();
        self.storage.tasks[index].description = description;
        assert(self.storage@ =~= before.update(index as int, with_description(before[index as int], description@)));
        Outcome::Edited(index, reported)
    }

    /// The task `index`.
    pub fn view_task(&self, index: usize) -> (r: Outcome)
        ensures
            r@ == view_spec(self.storage@, index),
    {
        if !self.storage.task_exists(index) {
            return Outcome::NotFound(index);
        }
        Outcome::Viewed(self.storage.get_task_at(index))
    }

    /// Carries out `action`, with `date` as the date of a task it creates.
    pub fn execute_at(&mut self, action: TaskAction, date: String) -> (r: Outcome)
        requires
            old(self).wf(),
        ensures
            final(self).wf(),
            step(old(self).storage@, action, date@, final(self).storage@, r@),
    {
        match action {
            TaskAction::AddTask(description, tags) => self.add_task(description, tags, date),
            TaskAction::RemoveTask(index) => self.remove_tasks(index.as_str()),
            TaskAction::ListTasks(query) => self.list_tasks(&query),
            TaskAction::MarkTask(index, status) => self.mark_task(index, status),
            TaskAction::EditTask(index, description) => self.edit_task(index, description),
            TaskAction::View(index) => self.view_task(index),
        }
    }

    /// Carries out `action`; a task it creates is dated now.
    pub fn execute(&mut self, action: TaskAction) -> (r: Outcome)
        requires
            old(self).wf(),
        ensures
            final(self).wf(),
            exists|date: Seq<char>| step(old(self).storage@, action, date, final(self).storage@, r@),
    {
        let date = match &action {
            TaskAction::AddTask(_, _) => creation_date(),
            _ => String::new(),
        };
        let ghost d = date@;
        let r = self.execute_at(action, date);
        assert(step(old(self).storage@, action, d, self.storage@, r@));
        r
    }
}

/// Relies on chrono's `Local::now` and `format`: the local time now, written
/// as month name, day, year, hour and minute (`October 18, 2026, 09:05 AM`).
/// It reads the clock, so nothing is promised of the text.
#[verifier::external_body]
fn creation_date() -> (r: String) {
    chrono::Local::now().format("%B %d, %Y, %I:%M %p").to_string()
}

} // verus!
