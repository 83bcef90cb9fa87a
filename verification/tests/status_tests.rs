use kanban::status::Status;

#[test]
fn next_walks_the_workflow() {
    assert_eq!(Status::New.next(), Some(Status::WorkInProgress));
    assert_eq!(Status::WorkInProgress.next(), Some(Status::Review));
    assert_eq!(Status::Review.next(), Some(Status::Done));
    assert_eq!(Status::Done.next(), None);
}

#[test]
fn previous_walks_back() {
    assert_eq!(Status::New.previous(), None);
    assert_eq!(Status::WorkInProgress.previous(), Some(Status::New));
    assert_eq!(Status::Review.previous(), Some(Status::WorkInProgress));
    assert_eq!(Status::Done.previous(), Some(Status::Review));
}

#[test]
fn next_and_previous_undo_each_other() {
    for s in Status::all() {
        if let Some(t) = s.next() {
            assert_eq!(t.previous(), Some(s));
        }
        if let Some(t) = s.previous() {
            assert_eq!(t.next(), Some(s));
        }
    }
}

#[test]
fn all_lists_the_columns_in_order() {
    assert_eq!(
        Status::all(),
        vec![Status::New, Status::WorkInProgress, Status::Review, Status::Done]
    );
}

#[test]
fn labels() {
    assert_eq!(Status::New.label(), "New");
    assert_eq!(Status::WorkInProgress.label(), "Work in Progress");
    assert_eq!(Status::Review.label(), "Review");
    assert_eq!(Status::Done.label(), "Done");
}
