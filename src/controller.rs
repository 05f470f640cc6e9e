use vstd::prelude::*;
use vstd::string::*;

use crate::entity::{Book, BookView};
use crate::error::code::{BAD_REQUEST, INTERNAL_SERVER_ERROR};
use crate::error::{SocketError, SocketErrorView};
use crate::repository::{added, lists, lookup, updated, views, BooksRepository};

verus! {

/// A decoded request.
pub enum ActionTypes {
    UpdateBook { id: String, book: Book },
    AddBook { book: Book },
    GetBook { id: String },
    DeleteBook { id: String },
    GetBooks,
}

/// The mathematical value of an [`ActionTypes`].
pub enum ActionView {
    UpdateBook { id: Seq<char>, book: BookView },
    AddBook { book: BookView },
    GetBook { id: Seq<char> },
    DeleteBook { id: Seq<char> },
    GetBooks,
}

impl View for ActionTypes {
    type V = ActionView;

    open spec fn view(&self) -> ActionView {
        match self {
            ActionTypes::UpdateBook { id, book } => ActionView::UpdateBook { id: id@, book: book@ },
            ActionTypes::AddBook { book } => ActionView::AddBook { book: book@ },
            ActionTypes::GetBook { id } => ActionView::GetBook { id: id@ },
            ActionTypes::DeleteBook { id } => ActionView::DeleteBook { id: id@ },
            ActionTypes::GetBooks => ActionView::GetBooks,
        }
    }
}

/// The members of an inbound JSON object that the protocol reads: the `action`
/// discriminator, the `id` and the `book`. Each is `None` where the member is missing
/// or does not have the expected shape.
pub struct ActionFrame {
    pub action: Option<String>,
    pub id: Option<String>,
    pub book: Option<Book>,
}

/// An inbound frame of the connection, as the transport delivers it.
pub enum Frame {
    /// A text frame; `None` where the text is not a JSON object.
    Text(Option<ActionFrame>),
    /// The peer closes the connection.
    Close,
    /// Any other kind of frame.
    Other,
}

/// What is answered on the connection.
pub enum Reply {
    Record(Book),
    Records(Vec<Book>),
    Failure(SocketError),
}

/// The characters of an optional string.
pub open spec fn opt_view(s: Option<String>) -> Option<Seq<char>> {
    match s {
        Some(t) => Some(t@),
        None => None,
    }
}

/// The action that a frame with discriminator `action`, identifier `id` and record
/// `book` asks for, or `None` where it asks for none.
pub open spec fn decoded(
    action: Option<Seq<char>>,
    id: Option<Seq<char>>,
    book: Option<BookView>,
) -> Option<ActionView> {
    match action {
        None => None,
        Some(tag) => if tag == "update_book"@ {
            match (id, book) {
                (Some(i), Some(b)) => Some(ActionView::UpdateBook { id: i, book: b }),
                _ => None,
            }
        } else if tag == "add_book"@ {
            match book {
                Some(b) => Some(ActionView::AddBook { book: b }),
                None => None,
            }
        } else if tag == "get_book"@ {
            match id {
                Some(i) => Some(ActionView::GetBook { id: i }),
                None => None,
            }
        } else if tag == "delete_book"@ {
            match id {
                Some(i) => Some(ActionView::DeleteBook { id: i }),
                None => None,
            }
        } else if tag == "get_books"@ {
            Some(ActionView::GetBooks)
        } else {
            None
        },
    }
}

/// The action that `frame` asks for, if any.
pub open spec fn frame_action(frame: ActionFrame) -> Option<ActionView> {
    decoded(
        opt_view(frame.action),
        opt_view(frame.id),
        match frame.book {
            Some(b) => Some(b@),
            None => None,
        },
    )
}

/// The error for a frame that names no action the protocol knows.
pub open spec fn incorrect_action() -> SocketErrorView {
    SocketErrorView { code: BAD_REQUEST, message: "Incorrect action"@ }
}

/// The error for a frame that is neither text nor a close.
pub open spec fn bad_message_type() -> SocketErrorView {
    SocketErrorView { code: BAD_REQUEST, message: "Bad message type"@ }
}

/// The error for a reply that could not be encoded.
pub open spec fn internal_error() -> SocketErrorView {
    SocketErrorView { code: INTERNAL_SERVER_ERROR, message: "Internal server error"@ }
}

/// `reply` answers the outcome `outcome` of a store operation.
pub open spec fn answers(reply: Reply, outcome: Result<BookView, SocketErrorView>) -> bool {
    match (reply, outcome) {
        (Reply::Record(b), Ok(v)) => b@ == v,
        (Reply::Failure(e), Err(v)) => e@ == v,
        _ => false,
    }
}

/// Performing `action` on the store `before` leaves the store `after` and answers `reply`.
pub open spec fn dispatched(
    before: Map<Seq<char>, BookView>,
    action: ActionView,
    after: Map<Seq<char>, BookView>,
    reply: Reply,
) -> bool {
    match action {
        ActionView::AddBook { book } => match reply {
            Reply::Record(b) => b@.id is Some && b@ == book.with_id(b@.id->Some_0) && after == added(
                before,
                b@.id->Some_0,
                book,
            ),
            _ => false,
        },
        ActionView::UpdateBook { id, book } => after == updated(before, id, book) && answers(
            reply,
            lookup(after, id),
        ),
        ActionView::GetBook { id } => after == before && answers(reply, lookup(before, id)),
        ActionView::DeleteBook { id } => after == before.remove(id) && answers(reply, lookup(before, id)),
        ActionView::GetBooks => after == before && match reply {
            Reply::Records(v) => lists(before, views(v@)),
            _ => false,
        },
    }
}

/// A string with the characters of a literal.
fn text(s: &str) -> (r: String)
    ensures
        r@ == s@,
{
    String::from_str(s)
}

/// The error answered to a frame that names no action the protocol knows.
pub fn incorrect_action_error() -> (r: SocketError)
    ensures
        r@ == incorrect_action(),
{
    SocketError { code: BAD_REQUEST, message: text("Incorrect action") }
}

/// The error answered to a frame that is neither text nor a close.
pub fn bad_message_type_error() -> (r: SocketError)
    ensures
        r@ == bad_message_type(),
{
    SocketError { code: BAD_REQUEST, message: text("Bad message type") }
}

/// The error answered where a reply could not be encoded.
pub fn internal_server_error() -> (r: SocketError)
    ensures
        r@ == internal_error(),
{
    SocketError { code: INTERNAL_SERVER_ERROR, message: text("Internal server error") }
}

/// The payload sent where not even the internal error could be encoded.
pub fn fallback_payload() -> (r: String)
    ensures
        r@ == "{code: 500, message: Internal server error}"@,
{
    text("{code: 500, message: Internal server error}")
}

/// Whether `tag` holds the characters of `name`.
fn is_tag(tag: &String, name: &str) -> (r: bool)
    ensures
        r == (tag@ == name@),
{
    let expected = text(name);
    *tag == expected
}

/// The action that `frame` asks for, or the incorrect-action error where it asks for none.
pub fn decode_action(frame: ActionFrame) -> (r: Result<ActionTypes, SocketError>)
    ensures
        match r {
            Ok(a) => frame_action(frame) == Some(a@),
            Err(e) => frame_action(frame) is None && e@ == incorrect_action(),
        },
{
    let ActionFrame { action, id, book } = frame;
    let tag = match action {
        Some(t) => t,
        None => return Err(incorrect_action_error()),
    };
    if is_tag(&tag, "update_book") {
        match (id, book) {
            (Some(id), Some(book)) => Ok(ActionTypes::UpdateBook { id, book }),
            _ => Err(incorrect_action_error()),
        }
    } else if is_tag(&tag, "add_book") {
        match book {
            Some(book) => Ok(ActionTypes::AddBook { book }),
            None => Err(incorrect_action_error()),
        }
    } else if is_tag(&tag, "get_book") {
        match id {
            Some(id) => Ok(ActionTypes::GetBook { id }),
            None => Err(incorrect_action_error()),
        }
    } else if is_tag(&tag, "delete_book") {
        match id {
            Some(id) => Ok(ActionTypes::DeleteBook { id }),
            None => Err(incorrect_action_error()),
        }
    } else if is_tag(&tag, "get_books") {
        Ok(ActionTypes::GetBooks)
    } else {
        Err(incorrect_action_error())
    }
}

/// The reply for the outcome of a store operation.
fn reply_of(outcome: Result<Book, SocketError>) -> (r: Reply)
    ensures
        answers(r, crate::repository::result_view(outcome)),
{
    match outcome {
        Ok(b) => Reply::Record(b),
        Err(e) => Reply::Failure(e),
    }
}

/// Performs `action` on the store with one store operation, and returns the reply.
pub fn do_action(repository: &mut BooksRepository, action: ActionTypes) -> (r: Reply)
    requires
        old(repository).wf(),
    ensures
        final(repository).wf(),
        dispatched(old(repository)@, action@, final(repository)@, r),
{
    match action {
        ActionTypes::AddBook { book } => Reply::Record(repository.add(book)),
        ActionTypes::UpdateBook { id, book } => reply_of(repository.update(id, book)),
        ActionTypes::GetBook { id } => reply_of(repository.find_by_id(id)),
        ActionTypes::DeleteBook { id } => reply_of(repository.delete(id)),
        ActionTypes::GetBooks => Reply::Records(repository.find_all()),
    }
}

/// Answers one inbound frame: a close gets no reply; a frame that is not text, or text
/// that names no known action, gets a bad-request error and leaves the store as it was;
/// a known action is performed on the store.
pub fn handle_frame(repository: &mut BooksRepository, frame: Frame) -> (r: Option<Reply>)
    requires
        old(repository).wf(),
    ensures
        final(repository).wf(),
        match frame {
            Frame::Close => r is None && final(repository)@ == old(repository)@,
            Frame::Other => final(repository)@ == old(repository)@ && match r {
                Some(Reply::Failure(e)) => e@ == bad_message_type(),
                _ => false,
            },
            Frame::Text(parsed) => match parsed {
                Some(f) if frame_action(f) is Some => match r {
                    Some(reply) => dispatched(
                        old(repository)@,
                        frame_action(f)->Some_0,
                        final(repository)@,
                        reply,
                    ),
                    None => false,
                },
                _ => final(repository)@ == old(repository)@ && match r {
                    Some(Reply::Failure(e)) => e@ == incorrect_action(),
                    _ => false,
                },
            },
        },
{
    match frame {
        Frame::Close => None,
        Frame::Other => Some(Reply::Failure(bad_message_type_error())),
        Frame::Text(None) => Some(Reply::Failure(incorrect_action_error())),
        Frame::Text(Some(f)) => match decode_action(f) {
            Ok(action) => Some(do_action(repository, action)),
            Err(e) => Some(Reply::Failure(e)),
        },
    }
}

} // verus!
