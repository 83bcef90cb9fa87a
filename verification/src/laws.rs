//! What holds of the board's edits taken together.
use vstd::prelude::*;

use crate::board::{
    BoardError, BoardView, ItemView, has_named, is_first_named, lemma_position_spec, position,
};
use crate::edit::EditView;
use crate::cli::{CliCommandView, cli_command_of, cli_inputs};
use crate::request::{ClientRequestView, RequestOutcome, client_request_of};
use crate::text::{is_white_space, lemma_words_split_at_white_space, lemma_words_without_white_space, words};
use crate::status::{
    Status, lemma_next_previous_inverse, next_status, previous_status, status_rank,
};

verus! {

broadcast use vstd::string::group_string_axioms;

/// Every card on the board has a name of its own.
pub open spec fn names_distinct(items: Seq<ItemView>) -> bool {
    forall|i: int, j: int|
        0 <= i < items.len() && 0 <= j < items.len() && i != j ==> items[i].name != items[j].name
}

/// Changing fields other than the name of the card at `i` keeps every
/// name where it was, so every name is found where it was found before.
proof fn lemma_same_names_same_position(
    items: Seq<ItemView>,
    new_items: Seq<ItemView>,
    name: Seq<char>,
)
    requires
        new_items.len() == items.len(),
        forall|k: int| 0 <= k < items.len() ==> (#[trigger] new_items[k]).name == items[k].name,
    ensures
        position(new_items, name) == position(items, name),
{
    lemma_position_spec(items, name);
    lemma_position_spec(new_items, name);
    if let Some(i) = position(items, name) {
        assert(is_first_named(new_items, name, i));
        assert(is_first_named(items, name, i));
        let k = position(new_items, name)->0;
        assert(is_first_named(new_items, name, k));
        if k < i {
            assert(items[k].name == new_items[k].name);
        } else if i < k {
            assert(new_items[i].name == items[i].name);
        }
    } else {
        if position(new_items, name) is Some {
            let j = choose|j: int| 0 <= j < new_items.len() && new_items[j].name == name;
            assert(items[j].name == name);
        }
    }
}

/// Promoting a card and then demoting it gives back the board it started from.
pub proof fn lemma_promote_then_demote(b: BoardView, name: Seq<char>)
    requires
        b.promote(name).1 is Ok,
    ensures
        b.promote(name).0.demote(name) == (b, Ok::<(), BoardError>(())),
{
    let i = position(b.items, name)->0;
    let s = next_status(b.items[i].status)->0;
    let p = b.promote(name).0;
    lemma_same_names_same_position(b.items, p.items, name);
    lemma_next_previous_inverse(b.items[i].status, s);
    assert(p.items.update(i, p.items[i].with_status(b.items[i].status)) =~= b.items);
}

/// Demoting a card and then promoting it gives back the board it started from.
pub proof fn lemma_demote_then_promote(b: BoardView, name: Seq<char>)
    requires
        b.demote(name).1 is Ok,
    ensures
        b.demote(name).0.promote(name) == (b, Ok::<(), BoardError>(())),
{
    let i = position(b.items, name)->0;
    let s = previous_status(b.items[i].status)->0;
    let d = b.demote(name).0;
    lemma_same_names_same_position(b.items, d.items, name);
    lemma_next_previous_inverse(s, b.items[i].status);
    assert(d.items.update(i, d.items[i].with_status(b.items[i].status)) =~= b.items);
}

/// Adding a card and then removing it by its name gives back the board it
/// started from.
pub proof fn lemma_add_then_remove(b: BoardView, name: Seq<char>, contents: Seq<char>)
    requires
        b.add(name, contents).1 is Ok,
    ensures
        b.add(name, contents).0.remove(name) == (b, Ok::<(), BoardError>(())),
{
    let a = b.add(name, contents).0;
    lemma_position_spec(b.items, name);
    let n = b.items.len() as int;
    assert(is_first_named(a.items, name, n)) by {
        assert forall|j: int| 0 <= j < n implies a.items[j].name != name by {
            assert(a.items[j] == b.items[j]);
        }
    }
    lemma_position_spec(a.items, name);
    let k = position(a.items, name)->0;
    assert(is_first_named(a.items, name, k));
    if k < n {
        assert(a.items[k] == b.items[k]);
    }
    assert(a.items.remove(n) =~= b.items);
}

/// Once a card is added, adding another card with the same name is refused
/// and changes nothing.
pub proof fn lemma_add_twice_refused(
    b: BoardView,
    name: Seq<char>,
    contents: Seq<char>,
    other: Seq<char>,
)
    requires
        b.add(name, contents).1 is Ok,
    ensures
        b.add(name, contents).0.add(name, other) == (
            b.add(name, contents).0,
            Err::<(), BoardError>(BoardError::AlreadyExists),
        ),
{
    let a = b.add(name, contents).0;
    assert(a.items[b.items.len() as int].name == name);
    lemma_position_spec(a.items, name);
}

/// Renaming a card to a name that no card has, and then back, gives back
/// the board it started from.
pub proof fn lemma_rename_round_trip(b: BoardView, name: Seq<char>, new_name: Seq<char>)
    requires
        b.rename(name, new_name).1 is Ok,
        !has_named(b.items, new_name),
    ensures
        b.rename(name, new_name).0.rename(new_name, name) == (b, Ok::<(), BoardError>(())),
{
    let i = position(b.items, name)->0;
    let r = b.rename(name, new_name).0;
    lemma_position_spec(b.items, name);
    assert(is_first_named(r.items, new_name, i)) by {
        assert forall|j: int| 0 <= j < i implies r.items[j].name != new_name by {
            assert(r.items[j] == b.items[j]);
        }
    }
    lemma_position_spec(r.items, new_name);
    let k = position(r.items, new_name)->0;
    assert(is_first_named(r.items, new_name, k));
    if k < i {
        assert(r.items[k] == b.items[k]);
    }
    assert(r.items.update(i, r.items[i].with_name(name)) =~= b.items);
}

/// After new contents are written to a card, the card found by its name
/// holds them, and writing the old contents back gives back the board it
/// started from.
pub proof fn lemma_update_read_back(b: BoardView, name: Seq<char>, contents: Seq<char>)
    requires
        b.update(name, contents).1 is Ok,
    ensures
        ({
            let u = b.update(name, contents).0;
            let i = position(b.items, name)->0;
            &&& position(u.items, name) == Some(i)
            &&& u.items[i].contents == contents
            &&& u.update(name, b.items[i].contents) == (b, Ok::<(), BoardError>(()))
        }),
{
    let i = position(b.items, name)->0;
    let u = b.update(name, contents).0;
    lemma_same_names_same_position(b.items, u.items, name);
    assert(u.items.update(i, u.items[i].with_contents(b.items[i].contents)) =~= b.items);
}

/// No edit changes the board's name or its columns, and an edit that is
/// refused leaves the board as it was.
pub proof fn lemma_edit_frame(b: BoardView, e: EditView)
    ensures
        b.apply(e).0.name == b.name,
        b.apply(e).0.statuses == b.statuses,
        b.apply(e).1 is Err ==> b.apply(e).0 == b,
{
}

/// An edit that is made adds one card for an addition, takes one away for a
/// removal, and keeps the number of cards otherwise; one that is refused
/// keeps it too.
pub proof fn lemma_edit_card_count(b: BoardView, e: EditView)
    ensures
        b.apply(e).0.items.len() == (match (e, b.apply(e).1) {
            (EditView::Add(_, _), Ok(_)) => b.items.len() + 1int,
            (EditView::Remove(_), Ok(_)) => b.items.len() - 1,
            _ => b.items.len() as int,
        }),
{
    if let EditView::Remove(n) = e {
        lemma_position_spec(b.items, n);
    }
}

/// Every edit but a rename keeps the cards' names distinct: cards added
/// through the board never share a name.
pub proof fn lemma_edit_keeps_names_distinct(b: BoardView, e: EditView)
    requires
        names_distinct(b.items),
        !(e is Rename),
    ensures
        names_distinct(b.apply(e).0.items),
{
    let a = b.apply(e).0;
    match e {
        EditView::Add(n, c) => {
            lemma_position_spec(b.items, n);
            if b.apply(e).1 is Ok {
                assert forall|i: int, j: int|
                    0 <= i < a.items.len() && 0 <= j < a.items.len() && i != j implies a.items[i].name
                    != a.items[j].name by {
                    if i < b.items.len() && j < b.items.len() {
                        assert(a.items[i] == b.items[i]);
                        assert(a.items[j] == b.items[j]);
                    } else if i < b.items.len() {
                        assert(a.items[i] == b.items[i]);
                    } else {
                        assert(a.items[j] == b.items[j]);
                    }
                }
            }
        },
        EditView::Remove(n) => {
            if b.apply(e).1 is Ok {
                let k = position(b.items, n)->0;
                assert forall|i: int, j: int|
                    0 <= i < a.items.len() && 0 <= j < a.items.len() && i != j implies a.items[i].name
                    != a.items[j].name by {
                    let i2 = if i < k { i } else { i + 1 };
                    let j2 = if j < k { j } else { j + 1 };
                    assert(a.items[i] == b.items[i2]);
                    assert(a.items[j] == b.items[j2]);
                }
            }
        },
        _ => {
            assert forall|i: int, j: int|
                0 <= i < a.items.len() && 0 <= j < a.items.len() && i != j implies a.items[i].name
                != a.items[j].name by {
                assert(a.items[i].name == b.items[i].name);
                assert(a.items[j].name == b.items[j].name);
            }
        },
    }
}

/// Promoting a card in the first column three times brings it to the last
/// column, where a fourth promotion is refused.
pub proof fn lemma_three_promotions_reach_done(b: BoardView, name: Seq<char>)
    requires
        position(b.items, name) matches Some(i) && b.items[i].status == Status::New,
    ensures
        ({
            let i = position(b.items, name)->0;
            let p1 = b.promote(name).0;
            let p2 = p1.promote(name).0;
            let p3 = p2.promote(name).0;
            &&& p3.items[i].status == Status::Done
            &&& p3.promote(name) == (p3, Err::<(), BoardError>(BoardError::AlreadyDone))
        }),
{
    let i = position(b.items, name)->0;
    let p1 = b.promote(name).0;
    let p2 = p1.promote(name).0;
    let p3 = p2.promote(name).0;
    lemma_same_names_same_position(b.items, p1.items, name);
    lemma_same_names_same_position(p1.items, p2.items, name);
    lemma_same_names_same_position(p2.items, p3.items, name);
}

/// Every client request but an unknown command is answered with the board,
/// and only an edit changes it: a refused edit and a `ready` leave it as it
/// was.
pub proof fn lemma_requests_answered(b: BoardView, req: ClientRequestView)
    ensures
        b.handle(req).1 is Ignored <==> req is Unknown,
        !(req is Edit) ==> b.handle(req).0 == b,
        b.handle(req).1 is Refused ==> b.handle(req).0 == b,
{
}

/// There is only one first card with a name.
proof fn lemma_first_named_unique(items: Seq<ItemView>, name: Seq<char>, i: int, j: int)
    requires
        is_first_named(items, name, i),
        is_first_named(items, name, j),
    ensures
        i == j,
{
    if i < j {
        assert(items[i].name == name);
    } else if j < i {
        assert(items[j].name == name);
    }
}

/// Names the first card called `name`, once one is known to exist.
proof fn lemma_found_at(items: Seq<ItemView>, name: Seq<char>, i: int)
    requires
        is_first_named(items, name, i),
    ensures
        position(items, name) == Some(i),
        has_named(items, name),
{
    lemma_position_spec(items, name);
    let p = position(items, name)->0;
    lemma_first_named_unique(items, name, i, p);
}

/// Adding a card (through `add_item` or an `Add` edit): refused, changing
/// nothing, exactly when a card already has the name; otherwise the board
/// gains one card at the end, in the first column, and every other card
/// stays as it was.
pub proof fn lemma_add_semantics(b: BoardView, name: Seq<char>, contents: Seq<char>)
    ensures
        has_named(b.items, name) ==> b.apply(EditView::Add(name, contents)) == (
            b,
            Err::<(), BoardError>(BoardError::AlreadyExists),
        ),
        !has_named(b.items, name) ==> ({
            let (a, r) = b.apply(EditView::Add(name, contents));
            &&& r == Ok::<(), BoardError>(())
            &&& a.name == b.name
            &&& a.statuses == b.statuses
            &&& a.items.len() == b.items.len() + 1
            &&& forall|k: int| 0 <= k < b.items.len() ==> #[trigger] a.items[k] == b.items[k]
            &&& a.items[b.items.len() as int] == (ItemView {
                name,
                contents,
                status: Status::New,
            })
        }),
{
    lemma_position_spec(b.items, name);
}

/// Promoting a card (through `promote_item` or a `Promote` edit): refused
/// when no card has the name, or when the first card with it is already in
/// the last column; otherwise that card moves exactly one column forward,
/// keeping its name and contents, and every other card stays as it was.
pub proof fn lemma_promote_semantics(b: BoardView, name: Seq<char>)
    ensures
        !has_named(b.items, name) ==> b.apply(EditView::Promote(name)) == (
            b,
            Err::<(), BoardError>(BoardError::NotFound),
        ),
        forall|i: int|
            #[trigger] is_first_named(b.items, name, i) ==> ({
                let (a, r) = b.apply(EditView::Promote(name));
                &&& b.items[i].status == Status::Done ==> (a, r) == (
                    b,
                    Err::<(), BoardError>(BoardError::AlreadyDone),
                )
                &&& b.items[i].status != Status::Done ==> {
                    &&& r == Ok::<(), BoardError>(())
                    &&& a.name == b.name
                    &&& a.statuses == b.statuses
                    &&& a.items.len() == b.items.len()
                    &&& status_rank(a.items[i].status) == status_rank(b.items[i].status) + 1
                    &&& a.items[i].name == b.items[i].name
                    &&& a.items[i].contents == b.items[i].contents
                    &&& forall|k: int|
                        0 <= k < b.items.len() && k != i ==> #[trigger] a.items[k] == b.items[k]
                }
            }),
{
    lemma_position_spec(b.items, name);
    assert forall|i: int| #[trigger] is_first_named(b.items, name, i) implies position(b.items, name)
        == Some(i) by {
        lemma_found_at(b.items, name, i);
    }
}

/// Demoting a card (through `demote_item` or a `Demote` edit): refused when
/// no card has the name, or when the first card with it is already in the
/// first column; otherwise that card moves exactly one column back, keeping
/// its name and contents, and every other card stays as it was.
pub proof fn lemma_demote_semantics(b: BoardView, name: Seq<char>)
    ensures
        !has_named(b.items, name) ==> b.apply(EditView::Demote(name)) == (
            b,
            Err::<(), BoardError>(BoardError::NotFound),
        ),
        forall|i: int|
            #[trigger] is_first_named(b.items, name, i) ==> ({
                let (a, r) = b.apply(EditView::Demote(name));
                &&& b.items[i].status == Status::New ==> (a, r) == (
                    b,
                    Err::<(), BoardError>(BoardError::AlreadyNew),
                )
                &&& b.items[i].status != Status::New ==> {
                    &&& r == Ok::<(), BoardError>(())
                    &&& a.name == b.name
                    &&& a.statuses == b.statuses
                    &&& a.items.len() == b.items.len()
                    &&& status_rank(a.items[i].status) + 1 == status_rank(b.items[i].status)
                    &&& a.items[i].name == b.items[i].name
                    &&& a.items[i].contents == b.items[i].contents
                    &&& forall|k: int|
                        0 <= k < b.items.len() && k != i ==> #[trigger] a.items[k] == b.items[k]
                }
            }),
{
    lemma_position_spec(b.items, name);
    assert forall|i: int| #[trigger] is_first_named(b.items, name, i) implies position(b.items, name)
        == Some(i) by {
        lemma_found_at(b.items, name, i);
    }
}

/// Renaming a card (through `rename_item` or a `Rename` edit): refused when
/// no card has the name; otherwise, whatever its column, the first card
/// with the name takes the new name, keeping its contents and column, and
/// every other card stays as it was.
pub proof fn lemma_rename_semantics(b: BoardView, name: Seq<char>, new_name: Seq<char>)
    ensures
        !has_named(b.items, name) ==> b.apply(EditView::Rename(name, new_name)) == (
            b,
            Err::<(), BoardError>(BoardError::NotFound),
        ),
        has_named(b.items, name) ==> b.apply(EditView::Rename(name, new_name)).1 is Ok,
        forall|i: int|
            #[trigger] is_first_named(b.items, name, i) ==> ({
                let (a, r) = b.apply(EditView::Rename(name, new_name));
                &&& r == Ok::<(), BoardError>(())
                &&& a.name == b.name
                &&& a.statuses == b.statuses
                &&& a.items.len() == b.items.len()
                &&& a.items[i].name == new_name
                &&& a.items[i].contents == b.items[i].contents
                &&& a.items[i].status == b.items[i].status
                &&& forall|k: int|
                    0 <= k < b.items.len() && k != i ==> #[trigger] a.items[k] == b.items[k]
            }),
{
    lemma_position_spec(b.items, name);
    assert forall|i: int| #[trigger] is_first_named(b.items, name, i) implies position(b.items, name)
        == Some(i) by {
        lemma_found_at(b.items, name, i);
    }
}

/// Updating a card (through `update_item` or an `Update` edit): refused
/// when no card has the name; otherwise, whatever its column, the first
/// card with the name holds the new contents, keeping its name and column,
/// and every other card stays as it was.
pub proof fn lemma_update_semantics(b: BoardView, name: Seq<char>, contents: Seq<char>)
    ensures
        !has_named(b.items, name) ==> b.apply(EditView::Update(name, contents)) == (
            b,
            Err::<(), BoardError>(BoardError::NotFound),
        ),
        has_named(b.items, name) ==> b.apply(EditView::Update(name, contents)).1 is Ok,
        forall|i: int|
            #[trigger] is_first_named(b.items, name, i) ==> ({
                let (a, r) = b.apply(EditView::Update(name, contents));
                &&& r == Ok::<(), BoardError>(())
                &&& a.name == b.name
                &&& a.statuses == b.statuses
                &&& a.items.len() == b.items.len()
                &&& a.items[i].contents == contents
                &&& a.items[i].name == name
                &&& a.items[i].status == b.items[i].status
                &&& forall|k: int|
                    0 <= k < b.items.len() && k != i ==> #[trigger] a.items[k] == b.items[k]
                &&& is_first_named(a.items, name, i)
            }),
{
    lemma_position_spec(b.items, name);
    assert forall|i: int| #[trigger] is_first_named(b.items, name, i) implies position(b.items, name)
        == Some(i) by {
        lemma_found_at(b.items, name, i);
    }
}

/// Removing a card (through `remove_item` or a `Remove` edit): refused when
/// no card has the name; otherwise, whatever its column, the first card
/// with the name is taken off and the others keep their order.
pub proof fn lemma_remove_semantics(b: BoardView, name: Seq<char>)
    ensures
        !has_named(b.items, name) ==> b.apply(EditView::Remove(name)) == (
            b,
            Err::<(), BoardError>(BoardError::NotFound),
        ),
        has_named(b.items, name) ==> b.apply(EditView::Remove(name)).1 is Ok,
        forall|i: int|
            #[trigger] is_first_named(b.items, name, i) ==> ({
                let (a, r) = b.apply(EditView::Remove(name));
                &&& r == Ok::<(), BoardError>(())
                &&& a.name == b.name
                &&& a.statuses == b.statuses
                &&& a.items.len() + 1 == b.items.len()
                &&& forall|k: int| 0 <= k < i ==> #[trigger] a.items[k] == b.items[k]
                &&& forall|k: int| i <= k < a.items.len() ==> #[trigger] a.items[k] == b.items[k + 1]
            }),
{
    lemma_position_spec(b.items, name);
    assert forall|i: int| #[trigger] is_first_named(b.items, name, i) implies position(b.items, name)
        == Some(i) by {
        lemma_found_at(b.items, name, i);
    }
}

/// A client request that carries an edit changes the board exactly as the
/// edit does, and is answered `Edited` when the edit is made and `Refused`
/// with its reason when it is not.
pub proof fn lemma_request_edit_agrees(b: BoardView, e: EditView)
    ensures
        b.handle(ClientRequestView::Edit(e)).0 == b.apply(e).0,
        b.apply(e).1 is Ok <==> b.handle(ClientRequestView::Edit(e)).1 == RequestOutcome::Edited,
        forall|err: BoardError|
            b.apply(e).1 == Err::<(), BoardError>(err) <==> #[trigger] b.handle(
                ClientRequestView::Edit(e),
            ).1 == RequestOutcome::Refused(err),
{
}

/// Each client command stands for its edit: `add` adds, `demote` demotes,
/// `promote` promotes, `edit_content` updates, `remove` removes, each with
/// the arguments in order, and `ready` leaves the board as it is.
pub proof fn lemma_client_commands(b: BoardView, args: Seq<Seq<char>>)
    requires
        args.len() >= 2,
    ensures
        b.handle(client_request_of("ready"@, args)) == (b, RequestOutcome::Snapshot),
        b.handle(client_request_of("add"@, args)) == b.handle(
            ClientRequestView::Edit(EditView::Add(args[0], args[1])),
        ),
        b.handle(client_request_of("demote"@, args)) == b.handle(
            ClientRequestView::Edit(EditView::Demote(args[0])),
        ),
        b.handle(client_request_of("promote"@, args)) == b.handle(
            ClientRequestView::Edit(EditView::Promote(args[0])),
        ),
        b.handle(client_request_of("edit_content"@, args)) == b.handle(
            ClientRequestView::Edit(EditView::Update(args[0], args[1])),
        ),
        b.handle(client_request_of("remove"@, args)) == b.handle(
            ClientRequestView::Edit(EditView::Remove(args[0])),
        ),
{
    reveal_strlit("ready");
    assert("ready"@.len() == 5 && "ready"@[0] == 'r');
    reveal_strlit("add");
    assert("add"@.len() == 3 && "add"@[0] == 'a');
    reveal_strlit("demote");
    assert("demote"@.len() == 6 && "demote"@[0] == 'd');
    reveal_strlit("promote");
    assert("promote"@.len() == 7 && "promote"@[0] == 'p');
    reveal_strlit("edit_content");
    assert("edit_content"@.len() == 12 && "edit_content"@[0] == 'e');
    reveal_strlit("remove");
    assert("remove"@.len() == 6 && "remove"@[0] == 'r');
}

/// An `edit_content` request for a card on the board leaves the first card
/// with that name holding the new contents, in the same column, with every
/// other card as it was, and is answered `Edited`; for a name no card has
/// it is refused and changes nothing.
pub proof fn lemma_edit_content_request(b: BoardView, args: Seq<Seq<char>>)
    requires
        args.len() >= 2,
    ensures
        !has_named(b.items, args[0]) ==> b.handle(client_request_of("edit_content"@, args)) == (
            b,
            RequestOutcome::Refused(BoardError::NotFound),
        ),
        forall|i: int|
            #[trigger] is_first_named(b.items, args[0], i) ==> ({
                let (a, o) = b.handle(client_request_of("edit_content"@, args));
                &&& o == RequestOutcome::Edited
                &&& a.items.len() == b.items.len()
                &&& a.items[i].contents == args[1]
                &&& a.items[i].name == args[0]
                &&& a.items[i].status == b.items[i].status
                &&& forall|k: int|
                    0 <= k < b.items.len() && k != i ==> #[trigger] a.items[k] == b.items[k]
            }),
{
    lemma_client_commands(b, args);
    lemma_update_semantics(b, args[0], args[1]);
    lemma_request_edit_agrees(b, EditView::Update(args[0], args[1]));
}

/// Each terminal command word stands for its edit, with the arguments in
/// order: `add`, `rename` and `update` take two, `promote`, `demote` and
/// `remove` one; `exit` and `quit` end the session, and `list`, `help` and
/// `format` ask for the listing and the help texts.
pub proof fn lemma_cli_command_words(a: Seq<char>, c: Seq<char>)
    ensures
        cli_command_of(seq!["add"@, a, c]) == CliCommandView::Edit(EditView::Add(a, c)),
        cli_command_of(seq!["rename"@, a, c]) == CliCommandView::Edit(EditView::Rename(a, c)),
        cli_command_of(seq!["update"@, a, c]) == CliCommandView::Edit(EditView::Update(a, c)),
        cli_command_of(seq!["promote"@, a]) == CliCommandView::Edit(EditView::Promote(a)),
        cli_command_of(seq!["demote"@, a]) == CliCommandView::Edit(EditView::Demote(a)),
        cli_command_of(seq!["remove"@, a]) == CliCommandView::Edit(EditView::Remove(a)),
        cli_command_of(seq!["exit"@]) == CliCommandView::Exit,
        cli_command_of(seq!["quit"@]) == CliCommandView::Exit,
        cli_command_of(seq!["list"@]) == CliCommandView::List,
        cli_command_of(seq!["help"@]) == CliCommandView::Help,
        cli_command_of(seq!["format"@]) == CliCommandView::Format,
{
    reveal_strlit("add");
    assert("add"@.len() == 3 && "add"@[0] == 'a');
    reveal_strlit("rename");
    assert("rename"@.len() == 6 && "rename"@[0] == 'r');
    reveal_strlit("update");
    assert("update"@.len() == 6 && "update"@[0] == 'u');
    reveal_strlit("promote");
    assert("promote"@.len() == 7 && "promote"@[0] == 'p');
    reveal_strlit("demote");
    assert("demote"@.len() == 6 && "demote"@[0] == 'd');
    reveal_strlit("remove");
    assert("remove"@.len() == 6 && "remove"@[0] == 'r');
    reveal_strlit("exit");
    assert("exit"@.len() == 4 && "exit"@[0] == 'e');
    reveal_strlit("quit");
    assert("quit"@.len() == 4 && "quit"@[0] == 'q');
    reveal_strlit("list");
    assert("list"@.len() == 4 && "list"@[0] == 'l');
    reveal_strlit("help");
    assert("help"@.len() == 4 && "help"@[0] == 'h');
    reveal_strlit("format");
    assert("format"@.len() == 6 && "format"@[0] == 'f');
}

/// A terminal line made of a command word, white space and a name without
/// white space (and no quoted argument) asks for that command on exactly
/// that name: `promote name_without_spaces` promotes the card
/// `name_without_spaces`, and likewise for `demote` and `remove`.
pub proof fn lemma_plain_line_names_one_card(cmd: Seq<char>, sp: char, name: Seq<char>)
    requires
        cmd == "promote"@ || cmd == "demote"@ || cmd == "remove"@,
        is_white_space(sp),
        name.len() > 0,
        forall|i: int| 0 <= i < name.len() ==> !is_white_space(#[trigger] name[i]),
    ensures
        words(cmd + seq![sp] + name) == seq![cmd, name],
        cli_command_of(cli_inputs(words(cmd + seq![sp] + name), Seq::empty())) == (
            if cmd == "promote"@ {
                CliCommandView::Edit(EditView::Promote(name))
            } else if cmd == "demote"@ {
                CliCommandView::Edit(EditView::Demote(name))
            } else {
                CliCommandView::Edit(EditView::Remove(name))
            }),
{
    reveal_strlit("promote");
    reveal_strlit("demote");
    reveal_strlit("remove");
    assert forall|i: int| 0 <= i < cmd.len() implies !is_white_space(#[trigger] cmd[i]) by {
        assert(cmd[i] as int >= 0x61);
    }
    lemma_words_without_white_space(cmd);
    lemma_words_without_white_space(name);
    lemma_words_split_at_white_space(cmd, sp, name);
    assert(seq![cmd] + seq![name] =~= seq![cmd, name]);
    assert(cli_inputs(seq![cmd, name], Seq::empty()) =~= seq![cmd, name]);
    lemma_cli_command_words(name, name);
}

} // verus!
