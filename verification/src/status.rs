use vstd::prelude::*;

verus! {

/// The column a card sits in. Cards move through the columns in the order
/// `New`, `WorkInProgress`, `Review`, `Done`.
#[derive(PartialEq, Eq, Structural, Clone, Copy, Debug)]
pub enum Status {
    New,
    WorkInProgress,
    Review,
    Done,
}

/// The column after `s`, or `None` when `s` is the last one.
pub open spec fn next_status(s: Status) -> Option<Status> {
    match s {
        Status::New => Some(Status::WorkInProgress),
        Status::WorkInProgress => Some(Status::Review),
        Status::Review => Some(Status::Done),
        Status::Done => None,
    }
}

/// The column before `s`, or `None` when `s` is the first one.
pub open spec fn previous_status(s: Status) -> Option<Status> {
    match s {
        Status::New => None,
        Status::WorkInProgress => Some(Status::New),
        Status::Review => Some(Status::WorkInProgress),
        Status::Done => Some(Status::Review),
    }
}

/// Where `s` stands in the workflow, counting from zero.
pub open spec fn status_rank(s: Status) -> nat {
    match s {
        Status::New => 0,
        Status::WorkInProgress => 1,
        Status::Review => 2,
        Status::Done => 3,
    }
}

/// Every column, in workflow order.
pub open spec fn all_statuses() -> Seq<Status> {
    seq![Status::New, Status::WorkInProgress, Status::Review, Status::Done]
}

/// The text under which a column is shown.
pub open spec fn status_label(s: Status) -> Seq<char> {
    match s {
        Status::New => "New"@,
        Status::WorkInProgress => "Work in Progress"@,
        Status::Review => "Review"@,
        Status::Done => "Done"@,
    }
}

impl Status {
    /// The column after this one; `None` for `Done`.
    pub fn next(&self) -> (r: Option<Status>)
        ensures
            r == next_status(*self),
    {
        match self {
            Status::New => Some(Status::WorkInProgress),
            Status::WorkInProgress => Some(Status::Review),
            Status::Review => Some(Status::Done),
            Status::Done => None,
        }
    }

    /// The column before this one; `None` for `New`.
    pub fn previous(&self) -> (r: Option<Status>)
        ensures
            r == previous_status(*self),
    {
        match self {
            Status::New => None,
            Status::WorkInProgress => Some(Status::New),
            Status::Review => Some(Status::WorkInProgress),
            Status::Done => Some(Status::Review),
        }
    }

    /// Every column, in workflow order.
    pub fn all() -> (v: Vec<Status>)
        ensures
            v@ == all_statuses(),
    {
        let v = vec![Status::New, Status::WorkInProgress, Status::Review, Status::Done];
        assert(v@ == all_statuses());
        v
    }

    /// The text under which this column is shown.
    pub fn label(&self) -> (s: &'static str)
        ensures
            s@ == status_label(*self),
    {
        match self {
            Status::New => "New",
            Status::WorkInProgress => "Work in Progress",
            Status::Review => "Review",
            Status::Done => "Done",
        }
    }
}

/// Moving forward and moving back undo each other: `t` follows `s` exactly
/// when `s` precedes `t`.
pub proof fn lemma_next_previous_inverse(s: Status, t: Status)
    ensures
        next_status(s) == Some(t) <==> previous_status(t) == Some(s),
{
}

/// Moving forward raises the rank by one and moving back lowers it by one;
/// only `Done` has no successor and only `New` has no predecessor.
pub proof fn lemma_moves_step_rank(s: Status)
    ensures
        next_status(s) is None <==> s == Status::Done,
        previous_status(s) is None <==> s == Status::New,
        next_status(s) matches Some(t) ==> status_rank(t) == status_rank(s) + 1,
        previous_status(s) matches Some(t) ==> status_rank(t) + 1 == status_rank(s),
{
}

/// The list of columns holds every column once, each at the index of its rank.
pub proof fn lemma_all_statuses_in_order(s: Status)
    ensures
        all_statuses().len() == 4,
        all_statuses()[status_rank(s) as int] == s,
        forall|i: int| 0 <= i < 4 ==> #[trigger] status_rank(all_statuses()[i]) == i,
{
}

} // verus!
