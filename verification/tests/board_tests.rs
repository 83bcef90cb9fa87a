use kanban::board::{Board, BoardError, Item, DEFAULT_BOARD_NAME};
use kanban::edit::Edit;
use kanban::status::Status;

fn snapshot(b: &Board) -> (String, Vec<(String, String, Status)>, Vec<Status>) {
    (
        b.get_name().to_string(),
        b.items()
            .iter()
            .map(|i| (i.name().to_string(), i.contents().to_string(), i.status()))
            .collect(),
        b.statuses().clone(),
    )
}

fn board_with(names: &[&str]) -> Board {
    let mut b = Board::new("test");
    for n in names {
        assert_eq!(b.add_item(n, "c"), Ok(()));
    }
    b
}

#[test]
fn new_board_is_empty_with_every_column() {
    let b = Board::new("my board");
    assert_eq!(b.get_name(), "my board");
    assert!(b.items().is_empty());
    assert_eq!(b.statuses(), &Status::all());
}

#[test]
fn loaded_or_default_keeps_a_loaded_board() {
    let b = Board::loaded_or_default(Some(board_with(&["a"])));
    assert_eq!(b.get_name(), "test");
    assert_eq!(b.items().len(), 1);
}

#[test]
fn loaded_or_default_without_a_board() {
    let b = Board::loaded_or_default(None);
    assert_eq!(b.get_name(), "default-board");
    assert_eq!(b.get_name(), DEFAULT_BOARD_NAME);
    assert!(b.items().is_empty());
    assert_eq!(b.statuses(), &Status::all());
}

#[test]
fn add_puts_a_new_card_last() {
    let mut b = board_with(&["a"]);
    assert_eq!(b.add_item("b", "stuff to do"), Ok(()));
    let (_, items, _) = snapshot(&b);
    assert_eq!(items[1], ("b".to_string(), "stuff to do".to_string(), Status::New));
}

#[test]
fn add_refuses_a_taken_name() {
    let mut b = board_with(&["a"]);
    let before = snapshot(&b);
    assert_eq!(b.add_item("a", "other"), Err(BoardError::AlreadyExists));
    assert_eq!(snapshot(&b), before);
}

#[test]
fn promote_moves_forward() {
    let mut b = board_with(&["a"]);
    assert_eq!(b.promote_item("a"), Ok(()));
    assert_eq!(b.items()[0].status(), Status::WorkInProgress);
}

#[test]
fn promote_refused_in_last_column() {
    let mut b = board_with(&["a"]);
    for _ in 0..3 {
        assert_eq!(b.promote_item("a"), Ok(()));
    }
    assert_eq!(b.items()[0].status(), Status::Done);
    let before = snapshot(&b);
    assert_eq!(b.promote_item("a"), Err(BoardError::AlreadyDone));
    assert_eq!(snapshot(&b), before);
}

#[test]
fn demote_refused_in_first_column() {
    let mut b = board_with(&["a"]);
    let before = snapshot(&b);
    assert_eq!(b.demote_item("a"), Err(BoardError::AlreadyNew));
    assert_eq!(snapshot(&b), before);
}

#[test]
fn demote_moves_back() {
    let mut b = board_with(&["a"]);
    b.promote_item("a").unwrap();
    b.promote_item("a").unwrap();
    assert_eq!(b.demote_item("a"), Ok(()));
    assert_eq!(b.items()[0].status(), Status::WorkInProgress);
}

#[test]
fn edits_of_missing_cards_are_refused() {
    let mut b = board_with(&["a"]);
    let before = snapshot(&b);
    assert_eq!(b.promote_item("x"), Err(BoardError::NotFound));
    assert_eq!(b.demote_item("x"), Err(BoardError::NotFound));
    assert_eq!(b.rename_item("x", "y"), Err(BoardError::NotFound));
    assert_eq!(b.update_item("x", "y"), Err(BoardError::NotFound));
    assert_eq!(b.remove_item("x"), Err(BoardError::NotFound));
    assert_eq!(snapshot(&b), before);
}

#[test]
fn rename_changes_only_the_name() {
    let mut b = board_with(&["a", "b"]);
    b.promote_item("b").unwrap();
    assert_eq!(b.rename_item("b", "c"), Ok(()));
    let (_, items, _) = snapshot(&b);
    assert_eq!(items[1], ("c".to_string(), "c".to_string(), Status::WorkInProgress));
    assert_eq!(items[0].0, "a");
}

#[test]
fn rename_may_take_a_used_name_and_edits_then_act_on_the_first() {
    let mut b = board_with(&["a", "b"]);
    assert_eq!(b.rename_item("b", "a"), Ok(()));
    assert_eq!(b.promote_item("a"), Ok(()));
    assert_eq!(b.items()[0].status(), Status::WorkInProgress);
    assert_eq!(b.items()[1].status(), Status::New);
    assert_eq!(b.remove_item("a"), Ok(()));
    assert_eq!(b.items().len(), 1);
    assert_eq!(b.items()[0].status(), Status::New);
}

#[test]
fn update_replaces_contents() {
    let mut b = board_with(&["a"]);
    assert_eq!(b.update_item("a", "new text"), Ok(()));
    assert_eq!(b.items()[0].contents(), "new text");
    assert_eq!(b.items()[0].name(), "a");
}

#[test]
fn remove_takes_the_card_off() {
    let mut b = board_with(&["a", "b", "c"]);
    assert_eq!(b.remove_item("b"), Ok(()));
    let names: Vec<&str> = b.items().iter().map(|i| i.name()).collect();
    assert_eq!(names, vec!["a", "c"]);
}

#[test]
fn law_promote_then_demote_restores() {
    let mut b = board_with(&["a", "b"]);
    b.promote_item("b").unwrap();
    let before = snapshot(&b);
    assert_eq!(b.promote_item("b"), Ok(()));
    assert_eq!(b.demote_item("b"), Ok(()));
    assert_eq!(snapshot(&b), before);
}

#[test]
fn law_demote_then_promote_restores() {
    let mut b = board_with(&["a"]);
    b.promote_item("a").unwrap();
    let before = snapshot(&b);
    assert_eq!(b.demote_item("a"), Ok(()));
    assert_eq!(b.promote_item("a"), Ok(()));
    assert_eq!(snapshot(&b), before);
}

#[test]
fn law_add_then_remove_restores() {
    let mut b = board_with(&["a", "b"]);
    let before = snapshot(&b);
    assert_eq!(b.add_item("z", "zz"), Ok(()));
    assert_eq!(b.remove_item("z"), Ok(()));
    assert_eq!(snapshot(&b), before);
}

#[test]
fn law_add_twice_refused() {
    let mut b = Board::new("t");
    assert_eq!(b.add_item("a", "one"), Ok(()));
    assert_eq!(b.add_item("a", "two"), Err(BoardError::AlreadyExists));
    assert_eq!(b.items().len(), 1);
    assert_eq!(b.items()[0].contents(), "one");
}

#[test]
fn law_rename_round_trip() {
    let mut b = board_with(&["a", "b"]);
    let before = snapshot(&b);
    assert_eq!(b.rename_item("a", "fresh"), Ok(()));
    assert_eq!(b.rename_item("fresh", "a"), Ok(()));
    assert_eq!(snapshot(&b), before);
}

#[test]
fn law_update_read_back() {
    let mut b = board_with(&["a", "b"]);
    let before = snapshot(&b);
    assert_eq!(b.update_item("b", "written"), Ok(()));
    assert_eq!(b.items()[1].contents(), "written");
    assert_eq!(b.update_item("b", "c"), Ok(()));
    assert_eq!(snapshot(&b), before);
}

#[test]
fn law_edits_keep_name_and_columns() {
    let mut b = board_with(&["a"]);
    let edits = vec![
        Edit::Add("b".to_string(), "x".to_string()),
        Edit::Promote("a".to_string()),
        Edit::Rename("b".to_string(), "c".to_string()),
        Edit::Update("c".to_string(), "y".to_string()),
        Edit::Demote("a".to_string()),
        Edit::Remove("c".to_string()),
        Edit::Remove("nothing".to_string()),
    ];
    for e in &edits {
        let _ = b.apply(e);
        assert_eq!(b.get_name(), "test");
        assert_eq!(b.statuses(), &Status::all());
    }
}

#[test]
fn law_card_count() {
    let mut b = board_with(&["a"]);
    assert_eq!(b.apply(&Edit::Add("b".to_string(), "x".to_string())), Ok(()));
    assert_eq!(b.items().len(), 2);
    assert_eq!(b.apply(&Edit::Add("b".to_string(), "x".to_string())), Err(BoardError::AlreadyExists));
    assert_eq!(b.items().len(), 2);
    assert_eq!(b.apply(&Edit::Promote("b".to_string())), Ok(()));
    assert_eq!(b.items().len(), 2);
    assert_eq!(b.apply(&Edit::Remove("a".to_string())), Ok(()));
    assert_eq!(b.items().len(), 1);
}

#[test]
fn law_names_stay_distinct_without_renames() {
    let mut b = Board::new("t");
    let _ = b.add_item("a", "1");
    let _ = b.add_item("b", "2");
    let _ = b.add_item("a", "3");
    let _ = b.remove_item("b");
    let _ = b.add_item("b", "4");
    let mut names: Vec<&str> = b.items().iter().map(|i| i.name()).collect();
    names.sort();
    names.dedup();
    assert_eq!(names.len(), b.items().len());
}

#[test]
fn law_three_promotions_reach_done() {
    let mut b = board_with(&["a"]);
    for _ in 0..3 {
        assert_eq!(b.promote_item("a"), Ok(()));
    }
    assert_eq!(b.items()[0].status(), Status::Done);
    assert_eq!(b.promote_item("a"), Err(BoardError::AlreadyDone));
}

#[test]
fn item_new_and_setters() {
    let mut i = Item::new("n", "c");
    assert_eq!((i.name(), i.contents(), i.status()), ("n", "c", Status::New));
    assert!(i.promote());
    assert_eq!(i.status(), Status::WorkInProgress);
    assert!(i.demote());
    assert!(!i.demote());
    assert_eq!(i.status(), Status::New);
    i.set_name("m");
    i.set_contents("d");
    assert_eq!((i.name(), i.contents()), ("m", "d"));
    let j = Item::from_parts("x".to_string(), "y".to_string(), Status::Done);
    assert_eq!(j.status(), Status::Done);
}

#[test]
fn item_describe() {
    let mut i = Item::new("write docs", "the readme");
    i.promote();
    assert_eq!(
        i.describe(),
        "item; name: 'write docs', status: 'Work in Progress', contents: 'the readme'"
    );
}

#[test]
fn from_parts_keeps_fields() {
    let b = Board::from_parts(
        "stored".to_string(),
        vec![Item::from_parts("a".to_string(), "b".to_string(), Status::Review)],
        vec![Status::Done],
    );
    assert_eq!(b.get_name(), "stored");
    assert_eq!(b.items()[0].status(), Status::Review);
    assert_eq!(b.statuses(), &vec![Status::Done]);
}
