//! The requests that web clients send, and how the board answers them.
use vstd::prelude::*;

use crate::board::{Board, BoardError, BoardView};
use crate::edit::{Edit, EditView};
use crate::text::same_text;

verus! {

/// How many arguments a client command reads: two for `add` and
/// `edit_content`, one for `demote`, `promote` and `remove`, none otherwise.
pub open spec fn args_needed(command: Seq<char>) -> nat {
    if command == "add"@ || command == "edit_content"@ {
        2
    } else if command == "demote"@ || command == "promote"@ || command == "remove"@ {
        1
    } else {
        0
    }
}

/// What a client asked for.
#[derive(Debug)]
pub enum ClientRequest {
    /// `ready`: the client wants the board as it is.
    Ready,
    /// A change to the board.
    Edit(Edit),
    /// Any other command.
    Unknown,
}

/// The abstract value of a [`ClientRequest`].
pub enum ClientRequestView {
    Ready,
    Edit(EditView),
    Unknown,
}

impl View for ClientRequest {
    type V = ClientRequestView;

    open spec fn view(&self) -> ClientRequestView {
        match self {
            ClientRequest::Ready => ClientRequestView::Ready,
            ClientRequest::Edit(e) => ClientRequestView::Edit(e@),
            ClientRequest::Unknown => ClientRequestView::Unknown,
        }
    }
}

/// The request that a command and its arguments stand for.
pub open spec fn client_request_of(command: Seq<char>, args: Seq<Seq<char>>) -> ClientRequestView {
    if command == "ready"@ {
        ClientRequestView::Ready
    } else if command == "add"@ {
        ClientRequestView::Edit(EditView::Add(args[0], args[1]))
    } else if command == "demote"@ {
        ClientRequestView::Edit(EditView::Demote(args[0]))
    } else if command == "promote"@ {
        ClientRequestView::Edit(EditView::Promote(args[0]))
    } else if command == "edit_content"@ {
        ClientRequestView::Edit(EditView::Update(args[0], args[1]))
    } else if command == "remove"@ {
        ClientRequestView::Edit(EditView::Remove(args[0]))
    } else {
        ClientRequestView::Unknown
    }
}

/// How many arguments `command` reads.
pub fn required_args(command: &str) -> (n: usize)
    ensures
        n == args_needed(command@),
{
    if same_text(command, "add") || same_text(command, "edit_content") {
        2
    } else if same_text(command, "demote") || same_text(command, "promote") || same_text(
        command,
        "remove",
    ) {
        1
    } else {
        0
    }
}

impl ClientRequest {
    /// The request that a command and its arguments stand for. Arguments
    /// past those the command reads are ignored.
    pub fn parse(command: &str, args: &Vec<String>) -> (r: ClientRequest)
        requires
            args.len() >= args_needed(command@),
        ensures
            r@ == client_request_of(command@, args.deep_view()),
    {
        if same_text(command, "ready") {
            ClientRequest::Ready
        } else if same_text(command, "add") {
            ClientRequest::Edit(Edit::Add(args[0].clone(), args[1].clone()))
        } else if same_text(command, "demote") {
            ClientRequest::Edit(Edit::Demote(args[0].clone()))
        } else if same_text(command, "promote") {
            ClientRequest::Edit(Edit::Promote(args[0].clone()))
        } else if same_text(command, "edit_content") {
            ClientRequest::Edit(Edit::Update(args[0].clone(), args[1].clone()))
        } else if same_text(command, "remove") {
            ClientRequest::Edit(Edit::Remove(args[0].clone()))
        } else {
            ClientRequest::Unknown
        }
    }
}

/// What became of a request.
#[derive(PartialEq, Eq, Structural, Clone, Copy, Debug)]
pub enum RequestOutcome {
    /// The command was not known; nobody is answered.
    Ignored,
    /// Nothing was changed; every client gets the board.
    Snapshot,
    /// The edit was made; every client gets the board.
    Edited,
    /// The edit was refused; every client still gets the board.
    Refused(BoardError),
}

impl RequestOutcome {
    /// Whether the board is sent to the clients after this request.
    pub fn broadcasts(&self) -> (b: bool)
        ensures
            b == !(*self is Ignored),
    {
        match self {
            RequestOutcome::Ignored => false,
            _ => true,
        }
    }
}

impl BoardView {
    /// The board after a client's request, and what became of the request.
    pub open spec fn handle(self, req: ClientRequestView) -> (BoardView, RequestOutcome) {
        match req {
            ClientRequestView::Ready => (self, RequestOutcome::Snapshot),
            ClientRequestView::Unknown => (self, RequestOutcome::Ignored),
            ClientRequestView::Edit(e) => (
                self.apply(e).0,
                match self.apply(e).1 {
                    Ok(_) => RequestOutcome::Edited,
                    Err(err) => RequestOutcome::Refused(err),
                },
            ),
        }
    }
}

impl Board {
    /// Answers a client's request.
    pub fn handle_request(&mut self, req: &ClientRequest) -> (o: RequestOutcome)
        ensures
            (final(self)@, o) == old(self)@.handle(req@),
    {
        match req {
            ClientRequest::Ready => RequestOutcome::Snapshot,
            ClientRequest::Unknown => RequestOutcome::Ignored,
            ClientRequest::Edit(e) => match self.apply(e) {
                Ok(()) => RequestOutcome::Edited,
                Err(err) => RequestOutcome::Refused(err),
            },
        }
    }
}

} // verus!
