//! What each route does: the statement it asks the store to run, and the
//! response that the statement's outcome becomes.

use vstd::prelude::*;
use vstd::string::*;
use crate::model::{Helado, RecordView, record_json, records_json, record_json_spec, records_json_spec};
use crate::request::{Route, route, route_of, get_id, id_segment_of, parse_i32, parse_i32_spec};

verus! {

/// A statement for the `helados` table. Its parameters are bound by position.
#[derive(Clone, Debug, PartialEq, Eq)]
pub enum Command {
    /// `INSERT INTO helados (sabor, stock) VALUES ($1, $2)`
    Insert { sabor: String, stock: String },
    /// `SELECT * FROM helados WHERE id = $1`
    SelectOne { id: i32 },
    /// `SELECT id, sabor, stock FROM helados`
    SelectAll,
    /// `UPDATE helados SET sabor = $1, stock = $2 WHERE id = $3`
    Update { id: i32, sabor: String, stock: String },
    /// `DELETE FROM helados WHERE id = $1`
    Delete { id: i32 },
}

pub enum CommandView {
    Insert { sabor: Seq<char>, stock: Seq<char> },
    SelectOne { id: i32 },
    SelectAll,
    Update { id: i32, sabor: Seq<char>, stock: Seq<char> },
    Delete { id: i32 },
}

impl View for Command {
    type V = CommandView;

    open spec fn view(&self) -> CommandView {
        match self {
            Command::Insert { sabor, stock } => CommandView::Insert { sabor: sabor@, stock: stock@ },
            Command::SelectOne { id } => CommandView::SelectOne { id: *id },
            Command::SelectAll => CommandView::SelectAll,
            Command::Update { id, sabor, stock } => CommandView::Update {
                id: *id,
                sabor: sabor@,
                stock: stock@,
            },
            Command::Delete { id } => CommandView::Delete { id: *id },
        }
    }
}

/// What came back from running a statement.
#[derive(Clone, Debug, PartialEq, Eq)]
pub enum Outcome {
    /// No connection, or the statement failed.
    Failed,
    /// The statement ran and changed this many rows.
    Affected(u64),
    /// The single-row query ran; the row, if there was one.
    Row(Option<Helado>),
    /// The query ran; every row it returned.
    Rows(Vec<Helado>),
}

pub enum OutcomeView {
    Failed,
    Affected(u64),
    Row(Option<RecordView>),
    Rows(Seq<RecordView>),
}

impl View for Outcome {
    type V = OutcomeView;

    open spec fn view(&self) -> OutcomeView {
        match self {
            Outcome::Failed => OutcomeView::Failed,
            Outcome::Affected(n) => OutcomeView::Affected(*n),
            Outcome::Row(r) => OutcomeView::Row(
                match r {
                    Some(h) => Some(h@),
                    None => None,
                },
            ),
            Outcome::Rows(v) => OutcomeView::Rows(v@.map_values(|h: Helado| h@)),
        }
    }
}

/// The status of a response.
#[derive(Clone, Copy, Debug, PartialEq, Eq)]
pub enum Status {
    Success,
    NotFound,
    InternalError,
}

/// A response: its status and its body.
#[derive(Clone, Debug, PartialEq, Eq)]
pub struct Response {
    pub status: Status,
    pub content: String,
}

pub struct ResponseView {
    pub status: Status,
    pub content: Seq<char>,
}

impl View for Response {
    type V = ResponseView;

    open spec fn view(&self) -> ResponseView {
        ResponseView { status: self.status, content: self.content@ }
    }
}

/// What to do with a request.
#[derive(Clone, Debug, PartialEq, Eq)]
pub enum Plan {
    /// Answer at once, without the store.
    Respond(Response),
    /// Run the statement, then hand its outcome to `finish`.
    Run(Command),
}

pub enum PlanView {
    Respond(ResponseView),
    Run(CommandView),
}

impl View for Plan {
    type V = PlanView;

    open spec fn view(&self) -> PlanView {
        match self {
            Plan::Respond(r) => PlanView::Respond(r@),
            Plan::Run(c) => PlanView::Run(c@),
        }
    }
}

pub open spec fn text_created() -> Seq<char> {
    "Helado created"@
}

pub open spec fn text_updated() -> Seq<char> {
    "Helado updated"@
}

pub open spec fn text_deleted() -> Seq<char> {
    "Helado deleted"@
}

pub open spec fn text_missing() -> Seq<char> {
    "Helado not found"@
}

pub open spec fn text_internal() -> Seq<char> {
    "Internal error"@
}

pub open spec fn text_no_route() -> Seq<char> {
    "404 not found"@
}

pub open spec fn reply(status: Status, content: Seq<char>) -> ResponseView {
    ResponseView { status, content }
}

/// The answer to a request that cannot be served: a bad id or body, or a
/// store that failed.
pub open spec fn internal_error() -> ResponseView {
    reply(Status::InternalError, text_internal())
}

/// What a request leads to, given its text and its body read as a record
/// (`None` when the body is not one).
pub open spec fn plan_of(request: Seq<char>, body: Option<RecordView>) -> PlanView {
    let id = parse_i32_spec(id_segment_of(request));
    match route_of(request) {
        Route::Create => match body {
            Some(b) => PlanView::Run(CommandView::Insert { sabor: b.sabor, stock: b.stock }),
            None => PlanView::Respond(internal_error()),
        },
        Route::GetOne => match id {
            Some(k) => PlanView::Run(CommandView::SelectOne { id: k }),
            None => PlanView::Respond(internal_error()),
        },
        Route::GetAll => PlanView::Run(CommandView::SelectAll),
        Route::Update => match (id, body) {
            (Some(k), Some(b)) => PlanView::Run(
                CommandView::Update { id: k, sabor: b.sabor, stock: b.stock },
            ),
            _ => PlanView::Respond(internal_error()),
        },
        Route::Delete => match id {
            Some(k) => PlanView::Run(CommandView::Delete { id: k }),
            None => PlanView::Respond(internal_error()),
        },
        Route::NotFound => PlanView::Respond(reply(Status::NotFound, text_no_route())),
    }
}

/// The response to a statement's outcome. An outcome of another shape than
/// the statement yields is taken as a failure.
pub open spec fn finish_of(cmd: CommandView, out: OutcomeView) -> ResponseView {
    match (cmd, out) {
        (CommandView::Insert { .. }, OutcomeView::Affected(_)) => reply(Status::Success, text_created()),
        (CommandView::SelectOne { .. }, OutcomeView::Row(Some(r))) => reply(
            Status::Success,
            record_json_spec(r),
        ),
        (CommandView::SelectOne { .. }, OutcomeView::Row(None)) => reply(
            Status::NotFound,
            text_missing(),
        ),
        (CommandView::SelectAll, OutcomeView::Rows(rs)) => reply(
            Status::Success,
            records_json_spec(rs),
        ),
        (CommandView::Update { .. }, OutcomeView::Affected(_)) => reply(Status::Success, text_updated()),
        (CommandView::Delete { .. }, OutcomeView::Affected(n)) => if n == 0 {
            reply(Status::NotFound, text_missing())
        } else {
            reply(Status::Success, text_deleted())
        },
        _ => internal_error(),
    }
}

fn text(lit: &str) -> (r: String)
    ensures
        r@ == lit@,
{
    let mut s = String::new();
    s.append(lit);
    s
}

fn respond(status: Status, lit: &str) -> (r: Response)
    ensures
        r@ == reply(status, lit@),
{
    Response { status, content: text(lit) }
}

/// Decides what a request leads to: an answer at once, or a statement to
/// run. `body` is the request's body read as a record, `None` when it is not
/// one; its id is never used.
pub fn plan(request: &str, body: Option<Helado>) -> (r: Plan)
    ensures
        r@ == plan_of(
            request@,
            match body {
                Some(h) => Some(h@),
                None => None,
            },
        ),
{
    let id = parse_i32(get_id(request));
    match route(request) {
        Route::Create => match body {
            Some(b) => Plan::Run(Command::Insert { sabor: b.sabor, stock: b.stock }),
            None => Plan::Respond(respond(Status::InternalError, "Internal error")),
        },
        Route::GetOne => match id {
            Some(k) => Plan::Run(Command::SelectOne { id: k }),
            None => Plan::Respond(respond(Status::InternalError, "Internal error")),
        },
        Route::GetAll => Plan::Run(Command::SelectAll),
        Route::Update => match (id, body) {
            (Some(k), Some(b)) => Plan::Run(Command::Update { id: k, sabor: b.sabor, stock: b.stock }),
            _ => Plan::Respond(respond(Status::InternalError, "Internal error")),
        },
        Route::Delete => match id {
            Some(k) => Plan::Run(Command::Delete { id: k }),
            None => Plan::Respond(respond(Status::InternalError, "Internal error")),
        },
        Route::NotFound => Plan::Respond(respond(Status::NotFound, "404 not found")),
    }
}

/// Turns the outcome of a statement into the response.
pub fn finish(cmd: &Command, out: Outcome) -> (r: Response)
    ensures
        r@ == finish_of(cmd@, out@),
{
    match (cmd, out) {
        (Command::Insert { .. }, Outcome::Affected(_)) => respond(Status::Success, "Helado created"),
        (Command::SelectOne { .. }, Outcome::Row(Some(h))) => Response {
            status: Status::Success,
            content: record_json(&h),
        },
        (Command::SelectOne { .. }, Outcome::Row(None)) => respond(Status::NotFound, "Helado not found"),
        (Command::SelectAll, Outcome::Rows(rows)) => Response {
            status: Status::Success,
            content: records_json(&rows),
        },
        (Command::Update { .. }, Outcome::Affected(_)) => respond(Status::Success, "Helado updated"),
        (Command::Delete { .. }, Outcome::Affected(n)) => if n == 0 {
            respond(Status::NotFound, "Helado not found")
        } else {
            respond(Status::Success, "Helado deleted")
        },
        _ => respond(Status::InternalError, "Internal error"),
    }
}

/// The status line and headers that open a response.
pub open spec fn status_head(s: Status) -> Seq<char> {
    match s {
        Status::Success => "HTTP/1.1 200 OK\r\nContent-Type: application/json\r\n\r\n"@,
        Status::NotFound => "HTTP/1.1 404 NOT FOUND\r\n\r\n"@,
        Status::InternalError => "HTTP/1.1 500 INTERNAL ERROR\r\n\r\n"@,
    }
}

/// The bytes of a response as they go on the wire, as text.
pub open spec fn render_of(r: ResponseView) -> Seq<char> {
    status_head(r.status) + r.content
}

impl Response {
    /// Frames the response: status line, headers, blank line, body.
    pub fn render(&self) -> (r: String)
        ensures
            r@ == render_of(self@),
    {
        let mut out = match self.status {
            Status::Success => text("HTTP/1.1 200 OK\r\nContent-Type: application/json\r\n\r\n"),
            Status::NotFound => text("HTTP/1.1 404 NOT FOUND\r\n\r\n"),
            Status::InternalError => text("HTTP/1.1 500 INTERNAL ERROR\r\n\r\n"),
        };
        out.append(self.content.as_str());
        out
    }
}

/// The SQL text of a statement; its parameters are bound as `$1`, `$2`, ...
pub open spec fn sql_of(cmd: CommandView) -> Seq<char> {
    match cmd {
        CommandView::Insert { .. } => "INSERT INTO helados (sabor, stock) VALUES ($1, $2)"@,
        CommandView::SelectOne { .. } => "SELECT * FROM helados WHERE id = $1"@,
        CommandView::SelectAll => "SELECT id, sabor, stock FROM helados"@,
        CommandView::Update { .. } => "UPDATE helados SET sabor = $1, stock = $2 WHERE id = $3"@,
        CommandView::Delete { .. } => "DELETE FROM helados WHERE id = $1"@,
    }
}

/// The statement that creates the table when it is absent.
pub open spec fn schema_sql() -> Seq<char> {
    "CREATE TABLE IF NOT EXISTS helados (id SERIAL PRIMARY KEY, sabor VARCHAR NOT NULL, stock VARCHAR NOT NULL)"@
}

/// The statement that creates the table when it is absent.
pub fn schema() -> (r: &'static str)
    ensures
        r@ == schema_sql(),
{
    "CREATE TABLE IF NOT EXISTS helados (id SERIAL PRIMARY KEY, sabor VARCHAR NOT NULL, stock VARCHAR NOT NULL)"
}

impl Command {
    /// The SQL text of the statement.
    pub fn sql(&self) -> (r: &'static str)
        ensures
            r@ == sql_of(self@),
    {
        match self {
            Command::Insert { .. } => "INSERT INTO helados (sabor, stock) VALUES ($1, $2)",
            Command::SelectOne { .. } => "SELECT * FROM helados WHERE id = $1",
            Command::SelectAll => "SELECT id, sabor, stock FROM helados",
            Command::Update { .. } => "UPDATE helados SET sabor = $1, stock = $2 WHERE id = $3",
            Command::Delete { .. } => "DELETE FROM helados WHERE id = $1",
        }
    }
}

} // verus!
