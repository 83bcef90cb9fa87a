use vstd::prelude::*;
use vstd::string::*;

use crate::status::{Status, all_statuses, next_status, previous_status, status_label};

verus! {

/// Why an edit of the board was refused. A refused edit leaves the board as
/// it was.
#[derive(PartialEq, Eq, Structural, Clone, Copy, Debug)]
pub enum BoardError {
    /// A card with the requested name is already on the board.
    AlreadyExists,
    /// No card has the requested name.
    NotFound,
    /// The card is already in the last column and cannot move forward.
    AlreadyDone,
    /// The card is already in the first column and cannot move back.
    AlreadyNew,
}

/// The abstract value of a card.
pub struct ItemView {
    pub name: Seq<char>,
    pub contents: Seq<char>,
    pub status: Status,
}

impl ItemView {
    pub open spec fn with_status(self, status: Status) -> ItemView {
        ItemView { status, ..self }
    }

    pub open spec fn with_name(self, name: Seq<char>) -> ItemView {
        ItemView { name, ..self }
    }

    pub open spec fn with_contents(self, contents: Seq<char>) -> ItemView {
        ItemView { contents, ..self }
    }
}

/// A card on the board.
pub struct Item {
    name: String,
    contents: String,
    status: Status,
}

impl View for Item {
    type V = ItemView;

    closed spec fn view(&self) -> ItemView {
        ItemView { name: self.name@, contents: self.contents@, status: self.status }
    }
}

impl Item {
    /// A fresh card, in the first column.
    pub fn new(name: &str, contents: &str) -> (item: Item)
        ensures
            item@ == (ItemView { name: name@, contents: contents@, status: Status::New }),
    {
        Item { name: String::from_str(name), contents: String::from_str(contents), status: Status::New }
    }

    /// A card with the given fields, as read back from storage.
    pub fn from_parts(name: String, contents: String, status: Status) -> (item: Item)
        ensures
            item@ == (ItemView { name: name@, contents: contents@, status }),
    {
        Item { name, contents, status }
    }

    pub fn name(&self) -> (s: &str)
        ensures
            s@ == self@.name,
    {
        self.name.as_str()
    }

    pub fn contents(&self) -> (s: &str)
        ensures
            s@ == self@.contents,
    {
        self.contents.as_str()
    }

    pub fn status(&self) -> (s: Status)
        ensures
            s == self@.status,
    {
        self.status
    }

    /// Moves the card one column forward, unless it is in the last one.
    /// Returns whether it moved.
    pub fn promote(&mut self) -> (moved: bool)
        ensures
            moved == next_status(old(self)@.status) is Some,
            final(self)@ == (match next_status(old(self)@.status) {
                Some(s) => old(self)@.with_status(s),
                None => old(self)@,
            }),
    {
        match self.status.next() {
            Some(s) => {
                self.status = s;
                true
            },
            None => false,
        }
    }

    /// Moves the card one column back, unless it is in the first one.
    /// Returns whether it moved.
    pub fn demote(&mut self) -> (moved: bool)
        ensures
            moved == previous_status(old(self)@.status) is Some,
            final(self)@ == (match previous_status(old(self)@.status) {
                Some(s) => old(self)@.with_status(s),
                None => old(self)@,
            }),
    {
        match self.status.previous() {
            Some(s) => {
                self.status = s;
                true
            },
            None => false,
        }
    }

    /// The line under which the card is listed:
    /// `item; name: '<name>', status: '<status>', contents: '<contents>'`.
    pub fn describe(&self) -> (line: String)
        ensures
            line@ == "item; name: '"@ + self@.name + "', status: '"@ + status_label(self@.status)
                + "', contents: '"@ + self@.contents + "'"@,
    {
        let mut line = String::from_str("item; name: '");
        line.append(self.name.as_str());
        line.append("', status: '");
        line.append(self.status.label());
        line.append("', contents: '");
        line.append(self.contents.as_str());
        line.append("'");
        line
    }

    pub fn set_name(&mut self, name: &str)
        ensures
            final(self)@ == old(self)@.with_name(name@),
    {
        self.name = String::from_str(name);
    }

    pub fn set_contents(&mut self, new_contents: &str)
        ensures
            final(self)@ == old(self)@.with_contents(new_contents@),
    {
        self.contents = String::from_str(new_contents);
    }
}

/// `i` is the index of the first card named `name`.
pub open spec fn is_first_named(items: Seq<ItemView>, name: Seq<char>, i: int) -> bool {
    &&& 0 <= i < items.len()
    &&& items[i].name == name
    &&& forall|j: int| 0 <= j < i ==> items[j].name != name
}

/// Some card is named `name`.
pub open spec fn has_named(items: Seq<ItemView>, name: Seq<char>) -> bool {
    exists|j: int| 0 <= j < items.len() && items[j].name == name
}

/// The index of the first card named `name`, if there is one. Edits by name
/// act on this card.
pub open spec fn position(items: Seq<ItemView>, name: Seq<char>) -> Option<int> {
    if exists|i: int| is_first_named(items, name, i) {
        Some(choose|i: int| is_first_named(items, name, i))
    } else {
        None
    }
}

/// The abstract value of a board.
pub struct BoardView {
    pub name: Seq<char>,
    pub items: Seq<ItemView>,
    pub statuses: Seq<Status>,
}

impl BoardView {
    pub open spec fn with_items(self, items: Seq<ItemView>) -> BoardView {
        BoardView { items, ..self }
    }

    /// Adding a card: refused when the name is taken, else a new card in the
    /// first column goes to the end.
    pub open spec fn add(self, name: Seq<char>, contents: Seq<char>) -> (
        BoardView,
        Result<(), BoardError>,
    ) {
        match position(self.items, name) {
            Some(_) => (self, Err(BoardError::AlreadyExists)),
            None => (
                self.with_items(
                    self.items.push(ItemView { name, contents, status: Status::New }),
                ),
                Ok(()),
            ),
        }
    }

    /// Moving the first card named `name` one column forward.
    pub open spec fn promote(self, name: Seq<char>) -> (BoardView, Result<(), BoardError>) {
        match position(self.items, name) {
            None => (self, Err(BoardError::NotFound)),
            Some(i) => match next_status(self.items[i].status) {
                None => (self, Err(BoardError::AlreadyDone)),
                Some(s) => (self.with_items(self.items.update(i, self.items[i].with_status(s))), Ok(())),
            },
        }
    }

    /// Moving the first card named `name` one column back.
    pub open spec fn demote(self, name: Seq<char>) -> (BoardView, Result<(), BoardError>) {
        match position(self.items, name) {
            None => (self, Err(BoardError::NotFound)),
            Some(i) => match previous_status(self.items[i].status) {
                None => (self, Err(BoardError::AlreadyNew)),
                Some(s) => (self.with_items(self.items.update(i, self.items[i].with_status(s))), Ok(())),
            },
        }
    }

    /// Renaming the first card named `name`. The new name is not checked
    /// against the other cards.
    pub open spec fn rename(self, name: Seq<char>, new_name: Seq<char>) -> (
        BoardView,
        Result<(), BoardError>,
    ) {
        match position(self.items, name) {
            None => (self, Err(BoardError::NotFound)),
            Some(i) => (self.with_items(self.items.update(i, self.items[i].with_name(new_name))), Ok(())),
        }
    }

    /// Replacing the contents of the first card named `name`.
    pub open spec fn update(self, name: Seq<char>, contents: Seq<char>) -> (
        BoardView,
        Result<(), BoardError>,
    ) {
        match position(self.items, name) {
            None => (self, Err(BoardError::NotFound)),
            Some(i) => (self.with_items(self.items.update(i, self.items[i].with_contents(contents))), Ok(())),
        }
    }

    /// Taking the first card named `name` off the board.
    pub open spec fn remove(self, name: Seq<char>) -> (BoardView, Result<(), BoardError>) {
        match position(self.items, name) {
            None => (self, Err(BoardError::NotFound)),
            Some(i) => (self.with_items(self.items.remove(i)), Ok(())),
        }
    }
}

/// A named board of cards.
pub struct Board {
    board_name: String,
    items: Vec<Item>,
    statuses: Vec<Status>,
}

impl View for Board {
    type V = BoardView;

    closed spec fn view(&self) -> BoardView {
        BoardView {
            name: self.board_name@,
            items: self.items@.map_values(|i: Item| i@),
            statuses: self.statuses@,
        }
    }
}

/// The name of the board made when none could be loaded.
pub const DEFAULT_BOARD_NAME: &'static str = "default-board";

proof fn lemma_position_is(items: Seq<ItemView>, name: Seq<char>, i: int)
    requires
        is_first_named(items, name, i),
    ensures
        position(items, name) == Some(i),
{
    let k = choose|k: int| is_first_named(items, name, k);
    assert(is_first_named(items, name, k));
    if k < i {
        assert(items[k].name != name);
    } else if i < k {
        assert(items[i].name != name);
    }
}

proof fn lemma_first_named_exists(items: Seq<ItemView>, name: Seq<char>, j: int)
    requires
        0 <= j < items.len(),
        items[j].name == name,
    ensures
        exists|i: int| is_first_named(items, name, i),
    decreases j,
{
    if exists|k: int| 0 <= k < j && items[k].name == name {
        let k = choose|k: int| 0 <= k < j && items[k].name == name;
        lemma_first_named_exists(items, name, k);
    } else {
        assert(is_first_named(items, name, j));
    }
}

/// A name is found exactly when some card carries it, and what is found is
/// the first such card.
pub proof fn lemma_position_spec(items: Seq<ItemView>, name: Seq<char>)
    ensures
        position(items, name) is Some <==> has_named(items, name),
        position(items, name) matches Some(i) ==> is_first_named(items, name, i),
{
    if has_named(items, name) {
        let j = choose|j: int| 0 <= j < items.len() && items[j].name == name;
        lemma_first_named_exists(items, name, j);
    }
    if position(items, name) is Some {
        let i = choose|i: int| is_first_named(items, name, i);
        assert(is_first_named(items, name, i));
    }
}

impl Board {
    /// An empty board with every column.
    pub fn new(name: &str) -> (b: Board)
        ensures
            b@ == (BoardView { name: name@, items: Seq::empty(), statuses: all_statuses() }),
    {
        let b = Board { board_name: String::from_str(name), items: Vec::new(), statuses: Status::all() };
        assert(b@.items =~= Seq::<ItemView>::empty());
        b
    }

    /// A board with the given fields, as read back from storage.
    pub fn from_parts(board_name: String, items: Vec<Item>, statuses: Vec<Status>) -> (b: Board)
        ensures
            b@ == (BoardView {
                name: board_name@,
                items: items@.map_values(|i: Item| i@),
                statuses: statuses@,
            }),
    {
        Board { board_name, items, statuses }
    }

    /// The board that a start-up uses: the one that was loaded, if any, else
    /// an empty board named `default-board`.
    pub fn loaded_or_default(loaded: Option<Board>) -> (b: Board)
        ensures
            b@ == (match loaded {
                Some(l) => l@,
                None => BoardView {
                    name: DEFAULT_BOARD_NAME@,
                    items: Seq::empty(),
                    statuses: all_statuses(),
                },
            }),
    {
        match loaded {
            Some(l) => l,
            None => Board::new(DEFAULT_BOARD_NAME),
        }
    }

    pub fn get_name(&self) -> (s: &str)
        ensures
            s@ == self@.name,
    {
        self.board_name.as_str()
    }

    pub fn items(&self) -> (items: &Vec<Item>)
        ensures
            items@.map_values(|i: Item| i@) == self@.items,
    {
        &self.items
    }

    pub fn statuses(&self) -> (statuses: &Vec<Status>)
        ensures
            statuses@ == self@.statuses,
    {
        &self.statuses
    }

    /// The index of the first card named `name`.
    fn find_item(&self, name: &str) -> (r: Option<usize>)
        ensures
            r matches Some(i) ==> position(self@.items, name@) == Some(i as int),
            r is None ==> position(self@.items, name@) is None,
    {
        let target = String::from_str(name);
        let mut i: usize = 0;
        while i < self.items.len()
            invariant
                i <= self.items.len(),
                target@ == name@,
                forall|j: int| 0 <= j < i ==> (#[trigger] self@.items[j]).name != name@,
            decreases self.items.len() - i,
        {
            assert(self@.items[i as int] == self.items@[i as int]@);
            if self.items[i].name == target {
                proof {
                    lemma_position_is(self@.items, name@, i as int);
                }
                return Some(i);
            }
            i += 1;
        }
        proof {
            lemma_position_spec(self@.items, name@);
        }
        None
    }

    /// Adds a card in the first column, unless a card already has the name.
    pub fn add_item(&mut self, name: &str, contents: &str) -> (r: Result<(), BoardError>)
        ensures
            (final(self)@, r) == old(self)@.add(name@, contents@),
    {
        match self.find_item(name) {
            Some(_) => Err(BoardError::AlreadyExists),
            None => {
                self.items.push(Item::new(name, contents));
                assert(self@.items =~= old(self)@.items.push(
                    ItemView { name: name@, contents: contents@, status: Status::New },
                ));
                Ok(())
            },
        }
    }

    /// Moves the first card named `name` one column back.
    pub fn demote_item(&mut self, name: &str) -> (r: Result<(), BoardError>)
        ensures
            (final(self)@, r) == old(self)@.demote(name@),
    {
        match self.find_item(name) {
            None => Err(BoardError::NotFound),
            Some(i) => {
                assert(old(self)@.items[i as int] == old(self).items@[i as int]@);
                if self.items[i].demote() {
                    assert(self@.items =~= old(self)@.items.update(
                        i as int,
                        old(self)@.items[i as int].with_status(
                            previous_status(old(self)@.items[i as int].status).unwrap(),
                        ),
                    ));
                    Ok(())
                } else {
                    assert(self@.items =~= old(self)@.items);
                    Err(BoardError::AlreadyNew)
                }
            },
        }
    }

    /// Moves the first card named `name` one column forward.
    pub fn promote_item(&mut self, name: &str) -> (r: Result<(), BoardError>)
        ensures
            (final(self)@, r) == old(self)@.promote(name@),
    {
        match self.find_item(name) {
            None => Err(BoardError::NotFound),
            Some(i) => {
                assert(old(self)@.items[i as int] == old(self).items@[i as int]@);
                if self.items[i].promote() {
                    assert(self@.items =~= old(self)@.items.update(
                        i as int,
                        old(self)@.items[i as int].with_status(
                            next_status(old(self)@.items[i as int].status).unwrap(),
                        ),
                    ));
                    Ok(())
                } else {
                    assert(self@.items =~= old(self)@.items);
                    Err(BoardError::AlreadyDone)
                }
            },
        }
    }

    /// Gives the first card named `name` the name `new_name`.
    pub fn rename_item(&mut self, name: &str, new_name: &str) -> (r: Result<(), BoardError>)
        ensures
            (final(self)@, r) == old(self)@.rename(name@, new_name@),
    {
        match self.find_item(name) {
            None => Err(BoardError::NotFound),
            Some(i) => {
                assert(old(self)@.items[i as int] == old(self).items@[i as int]@);
                self.items[i].set_name(new_name);
                assert(self@.items =~= old(self)@.items.update(
                    i as int,
                    old(self)@.items[i as int].with_name(new_name@),
                ));
                Ok(())
            },
        }
    }

    /// Replaces the contents of the first card named `name`.
    pub fn update_item(&mut self, name: &str, new_contents: &str) -> (r: Result<(), BoardError>)
        ensures
            (final(self)@, r) == old(self)@.update(name@, new_contents@),
    {
        match self.find_item(name) {
            None => Err(BoardError::NotFound),
            Some(i) => {
                assert(old(self)@.items[i as int] == old(self).items@[i as int]@);
                self.items[i].set_contents(new_contents);
                assert(self@.items =~= old(self)@.items.update(
                    i as int,
                    old(self)@.items[i as int].with_contents(new_contents@),
                ));
                Ok(())
            },
        }
    }

    /// Takes the first card named `name` off the board.
    pub fn remove_item(&mut self, name: &str) -> (r: Result<(), BoardError>)
        ensures
            (final(self)@, r) == old(self)@.remove(name@),
    {
        match self.find_item(name) {
            None => Err(BoardError::NotFound),
            Some(i) => {
                self.items.remove(i);
                assert(self@.items =~= old(self)@.items.remove(i as int));
                Ok(())
            },
        }
    }
}

} // verus!
