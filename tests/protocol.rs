use book_socket::controller::{
    bad_message_type_error, decode_action, do_action, fallback_payload, handle_frame,
    incorrect_action_error, internal_server_error, ActionFrame, ActionTypes, Frame, Reply,
};
use book_socket::entity::Book;
use book_socket::error::code::{BAD_REQUEST, INTERNAL_SERVER_ERROR, NOT_FOUND};
use book_socket::ident::timestamp_id;
use book_socket::repository::BooksRepository;

fn book(title: &str, author: &str, year: u32) -> Book {
    Book {
        id: None,
        title: title.to_string(),
        author: author.to_string(),
        year,
    }
}

fn frame(action: Option<&str>, id: Option<&str>, b: Option<Book>) -> ActionFrame {
    ActionFrame {
        action: action.map(|a| a.to_string()),
        id: id.map(|i| i.to_string()),
        book: b,
    }
}

fn text(action: Option<&str>, id: Option<&str>, b: Option<Book>) -> Frame {
    Frame::Text(Some(frame(action, id, b)))
}

fn record(reply: Option<Reply>) -> Book {
    match reply {
        Some(Reply::Record(b)) => b,
        _ => panic!("expected a record"),
    }
}

fn failure(reply: Option<Reply>) -> (u32, String) {
    match reply {
        Some(Reply::Failure(e)) => (e.code, e.message),
        _ => panic!("expected an error"),
    }
}

fn count(repository: &mut BooksRepository) -> usize {
    repository.find_all().len()
}

#[test]
fn decodes_each_action() {
    match decode_action(frame(Some("add_book"), None, Some(book("T", "A", 1)))) {
        Ok(ActionTypes::AddBook { book }) => assert_eq!(book.title, "T"),
        _ => panic!("add_book"),
    }
    match decode_action(frame(Some("update_book"), Some("5"), Some(book("T", "A", 1)))) {
        Ok(ActionTypes::UpdateBook { id, book }) => {
            assert_eq!(id, "5");
            assert_eq!(book.year, 1);
        }
        _ => panic!("update_book"),
    }
    match decode_action(frame(Some("get_book"), Some("5"), None)) {
        Ok(ActionTypes::GetBook { id }) => assert_eq!(id, "5"),
        _ => panic!("get_book"),
    }
    match decode_action(frame(Some("delete_book"), Some("6"), None)) {
        Ok(ActionTypes::DeleteBook { id }) => assert_eq!(id, "6"),
        _ => panic!("delete_book"),
    }
    assert!(matches!(decode_action(frame(Some("get_books"), None, None)), Ok(ActionTypes::GetBooks)));
}

#[test]
fn rejects_missing_members() {
    let cases = vec![
        frame(None, Some("1"), Some(book("T", "A", 1))),
        frame(Some("add_book"), Some("1"), None),
        frame(Some("update_book"), None, Some(book("T", "A", 1))),
        frame(Some("update_book"), Some("1"), None),
        frame(Some("get_book"), None, None),
        frame(Some("delete_book"), None, Some(book("T", "A", 1))),
        frame(Some("nonsense"), Some("1"), Some(book("T", "A", 1))),
        frame(Some("GET_BOOKS"), None, None),
    ];
    for f in cases {
        match decode_action(f) {
            Err(e) => {
                assert_eq!(e.code, 400);
                assert_eq!(e.message, "Incorrect action");
            }
            Ok(_) => panic!("accepted a malformed frame"),
        }
    }
}

#[test]
fn nonsense_action_is_rejected_and_store_kept() {
    let mut repository = BooksRepository::new();
    repository.add_with_id("1".to_string(), book("T", "A", 1));
    let (code, message) = failure(handle_frame(&mut repository, text(Some("nonsense"), None, None)));
    assert_eq!(code, BAD_REQUEST);
    assert_eq!(message, "Incorrect action");
    assert_eq!(count(&mut repository), 1);
}

#[test]
fn unparsed_text_is_rejected() {
    let mut repository = BooksRepository::new();
    let (code, message) = failure(handle_frame(&mut repository, Frame::Text(None)));
    assert_eq!(code, 400);
    assert_eq!(message, "Incorrect action");
    assert_eq!(count(&mut repository), 0);
}

#[test]
fn binary_frame_is_rejected_and_store_kept() {
    let mut repository = BooksRepository::new();
    repository.add_with_id("1".to_string(), book("T", "A", 1));
    let (code, message) = failure(handle_frame(&mut repository, Frame::Other));
    assert_eq!(code, 400);
    assert_eq!(message, "Bad message type");
    assert_eq!(count(&mut repository), 1);
}

#[test]
fn close_frame_gets_no_reply() {
    let mut repository = BooksRepository::new();
    assert!(handle_frame(&mut repository, Frame::Close).is_none());
    assert_eq!(count(&mut repository), 0);
}

#[test]
fn end_to_end_session() {
    let mut repository = BooksRepository::new();
    let added = record(handle_frame(
        &mut repository,
        text(Some("add_book"), None, Some(book("T1", "A", 2024))),
    ));
    let x = added.id.clone().expect("assigned id");
    assert_eq!(added.title, "T1");

    let got = record(handle_frame(&mut repository, text(Some("get_book"), Some(&x), None)));
    assert_eq!(got.id, added.id);
    assert_eq!(got.title, added.title);
    assert_eq!(got.author, added.author);
    assert_eq!(got.year, added.year);

    let changed = record(handle_frame(
        &mut repository,
        text(Some("update_book"), Some(&x), Some(book("T2", "A", 2024))),
    ));
    assert_eq!(changed.id, Some(x.clone()));
    assert_eq!(changed.title, "T2");

    let removed = record(handle_frame(&mut repository, text(Some("delete_book"), Some(&x), None)));
    assert_eq!(removed.id, Some(x.clone()));
    assert_eq!(removed.title, "T2");

    let (code, message) = failure(handle_frame(&mut repository, text(Some("get_book"), Some(&x), None)));
    assert_eq!(code, 404);
    assert_eq!(message, format!("Book with id: {} not found", x));
}

#[test]
fn list_action_returns_all_records() {
    let mut repository = BooksRepository::new();
    repository.add_with_id("1".to_string(), book("A", "X", 1));
    repository.add_with_id("2".to_string(), book("B", "Y", 2));
    match do_action(&mut repository, ActionTypes::GetBooks) {
        Reply::Records(v) => {
            let mut titles: Vec<String> = v.into_iter().map(|b| b.title).collect();
            titles.sort();
            assert_eq!(titles, vec!["A".to_string(), "B".to_string()]);
        }
        _ => panic!("expected records"),
    }
}

#[test]
fn dispatcher_reports_not_found() {
    let mut repository = BooksRepository::new();
    for action in vec![
        ActionTypes::GetBook { id: "nope".to_string() },
        ActionTypes::DeleteBook { id: "nope".to_string() },
        ActionTypes::UpdateBook { id: "nope".to_string(), book: book("T", "A", 1) },
    ] {
        match do_action(&mut repository, action) {
            Reply::Failure(e) => {
                assert_eq!(e.code, NOT_FOUND);
                assert_eq!(e.message, "Book with id: nope not found");
            }
            _ => panic!("expected not found"),
        }
    }
    assert_eq!(count(&mut repository), 0);
}

#[test]
fn fixed_errors() {
    let e = incorrect_action_error();
    assert_eq!((e.code, e.message.as_str()), (400, "Incorrect action"));
    let e = bad_message_type_error();
    assert_eq!((e.code, e.message.as_str()), (400, "Bad message type"));
    let e = internal_server_error();
    assert_eq!((e.code, e.message.as_str()), (INTERNAL_SERVER_ERROR, "Internal server error"));
    assert_eq!(fallback_payload(), "{code: 500, message: Internal server error}");
}

#[test]
fn timestamp_ids_are_decimal_numbers() {
    let id = timestamp_id();
    assert!(!id.is_empty());
    assert!(id.parse::<u64>().is_ok());
    assert_eq!(id.parse::<u64>().unwrap().to_string(), id);
}
