//! Requests as they arrive: a JSON array of strings that names a command and
//! its arguments.

use vstd::prelude::*;

use crate::account::{Account, AccountView};
use crate::database::{found_view, Database};
use crate::error::TableError;
use crate::model::TableView;

verus! {

/// The error type of `serde_json`. Nothing is known of a value of it.
#[verifier::external_type_specification]
#[verifier::external_body]
pub struct ExJsonError(serde_json::Error);

/// The strings that the JSON text `bytes` lists, where the whole of it is one
/// JSON array of strings; `None` for any other text.
pub uninterp spec fn json_strings(bytes: Seq<u8>) -> Option<Seq<Seq<char>>>;

/// Each string of a list as a mathematical value.
pub open spec fn strings_view(texts: Seq<String>) -> Seq<Seq<char>> {
    texts.map_values(|text: String| text@)
}

/// `serde_json::from_slice` at the type `Vec<String>`: the strings that the
/// JSON text lists, or the parser's error where the text is not one JSON
/// array of strings. The outcome depends on the bytes alone.
#[verifier::external_body]
fn strings_from_json(bytes: &[u8]) -> (r: Result<Vec<String>, serde_json::Error>)
    ensures
        match json_strings(bytes@) {
            Some(texts) => r is Ok && strings_view(r->Ok_0@) == texts,
            None => r is Err,
        },
{
    serde_json::from_slice::<Vec<String>>(bytes)
}

/// What a client asks of the table.
#[derive(Debug, PartialEq, Eq)]
pub enum Request {
    /// Look up the account with this username and this password.
    Find { user: String, pass: String },
    /// Store a new account with this username and this password.
    Add { user: String, pass: String },
}

/// A request as a mathematical value.
pub enum RequestView {
    Find { user: Seq<char>, pass: Seq<char> },
    Add { user: Seq<char>, pass: Seq<char> },
}

impl View for Request {
    type V = RequestView;

    open spec fn view(&self) -> RequestView {
        match *self {
            Request::Find { user, pass } => RequestView::Find { user: user@, pass: pass@ },
            Request::Add { user, pass } => RequestView::Add { user: user@, pass: pass@ },
        }
    }
}

/// The request that a list of strings stands for: the word `find` or `add`,
/// then a username and a password. Any other list stands for none.
pub open spec fn request_of(args: Seq<Seq<char>>) -> Option<RequestView> {
    if args.len() == 3 && args[0] == "find"@ {
        Some(RequestView::Find { user: args[1], pass: args[2] })
    } else if args.len() == 3 && args[0] == "add"@ {
        Some(RequestView::Add { user: args[1], pass: args[2] })
    } else {
        None
    }
}

/// A request that was read, or none, as a mathematical value.
pub open spec fn read_view(request: Option<Request>) -> Option<RequestView> {
    match request {
        Some(request) => Some(request@),
        None => None,
    }
}

/// What the table answers to a request: the account found or created, or
/// nothing where none was found or the new account was refused.
pub open spec fn answer_of(table: TableView, request: RequestView) -> Option<AccountView> {
    match request {
        RequestView::Find { user, pass } => table.find(user, pass),
        RequestView::Add { user, pass } => match table.add_result(user, pass) {
            Ok(account) => Some(account),
            Err(_) => None,
        },
    }
}

/// The table after it has answered a request.
pub open spec fn after_answer(table: TableView, request: RequestView) -> TableView {
    match request {
        RequestView::Find { user, pass } => table,
        RequestView::Add { user, pass } => table.after_add(user, pass),
    }
}

impl Request {
    /// Reads a request from the strings of a message.
    pub fn from_args(args: &Vec<String>) -> (request: Option<Request>)
        ensures
            read_view(request) == request_of(strings_view(args@)),
    {
        if args.len() != 3 {
            return None;
        }
        let find = "find".to_owned();
        let add = "add".to_owned();
        if args[0] == find {
            Some(Request::Find { user: args[1].clone(), pass: args[2].clone() })
        } else if args[0] == add {
            Some(Request::Add { user: args[1].clone(), pass: args[2].clone() })
        } else {
            None
        }
    }

    /// Reads a request from the bytes of a message: a JSON array of strings.
    /// Bytes that are no such array give `Deserialization`; an array that
    /// names no known command gives no request.
    pub fn from_json(bytes: &[u8]) -> (r: Result<Option<Request>, TableError>)
        ensures
            match json_strings(bytes@) {
                Some(args) => r is Ok && read_view(r->Ok_0) == request_of(args),
                None => r == Err::<Option<Request>, TableError>(TableError::Deserialization),
            },
    {
        match strings_from_json(bytes) {
            Ok(args) => Ok(Request::from_args(&args)),
            Err(_) => Err(TableError::Deserialization),
        }
    }
}

impl Database {
    /// Answers one request: the account found or created, or nothing where
    /// none was found or the new account was refused.
    pub fn answer(&mut self, request: Request) -> (reply: Option<Account>)
        requires
            old(self).wf(),
            request is Add ==> old(self)@.issued < usize::MAX,
        ensures
            final(self).wf(),
            final(self)@ == after_answer(old(self)@, request@),
            found_view(reply) == answer_of(old(self)@, request@),
    {
        match request {
            Request::Find { user, pass } => self.find(user, pass),
            Request::Add { user, pass } => match self.add(user, pass) {
                Ok(account) => Some(account),
                Err(_) => None,
            },
        }
    }
}

} // verus!
