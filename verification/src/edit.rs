use vstd::prelude::*;

use crate::board::{Board, BoardError, BoardView};

verus! {

/// One change to a board, as both front ends ask for it.
#[derive(Debug)]
pub enum Edit {
    /// Add a card with a name and contents.
    Add(String, String),
    /// Give the card with the first name the second name.
    Rename(String, String),
    /// Give the card with the name new contents.
    Update(String, String),
    /// Move the card with the name one column forward.
    Promote(String),
    /// Move the card with the name one column back.
    Demote(String),
    /// Take the card with the name off the board.
    Remove(String),
}

/// The abstract value of an [`Edit`].
pub enum EditView {
    Add(Seq<char>, Seq<char>),
    Rename(Seq<char>, Seq<char>),
    Update(Seq<char>, Seq<char>),
    Promote(Seq<char>),
    Demote(Seq<char>),
    Remove(Seq<char>),
}

impl View for Edit {
    type V = EditView;

    open spec fn view(&self) -> EditView {
        match self {
            Edit::Add(n, c) => EditView::Add(n@, c@),
            Edit::Rename(n, m) => EditView::Rename(n@, m@),
            Edit::Update(n, c) => EditView::Update(n@, c@),
            Edit::Promote(n) => EditView::Promote(n@),
            Edit::Demote(n) => EditView::Demote(n@),
            Edit::Remove(n) => EditView::Remove(n@),
        }
    }
}

impl BoardView {
    /// The board after an edit, and whether the edit was made.
    pub open spec fn apply(self, e: EditView) -> (BoardView, Result<(), BoardError>) {
        match e {
            EditView::Add(n, c) => self.add(n, c),
            EditView::Rename(n, m) => self.rename(n, m),
            EditView::Update(n, c) => self.update(n, c),
            EditView::Promote(n) => self.promote(n),
            EditView::Demote(n) => self.demote(n),
            EditView::Remove(n) => self.remove(n),
        }
    }
}

impl Board {
    /// Makes one edit.
    pub fn apply(&mut self, e: &Edit) -> (r: Result<(), BoardError>)
        ensures
            (final(self)@, r) == old(self)@.apply(e@),
    {
        match e {
            Edit::Add(n, c) => self.add_item(n.as_str(), c.as_str()),
            Edit::Rename(n, m) => self.rename_item(n.as_str(), m.as_str()),
            Edit::Update(n, c) => self.update_item(n.as_str(), c.as_str()),
            Edit::Promote(n) => self.promote_item(n.as_str()),
            Edit::Demote(n) => self.demote_item(n.as_str()),
            Edit::Remove(n) => self.remove_item(n.as_str()),
        }
    }
}

} // verus!
