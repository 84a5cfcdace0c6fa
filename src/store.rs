//! The `helados` table as a mathematical map, what each statement does to
//! it, and the laws that the service's answers obey over it.

use vstd::prelude::*;
use crate::request::{Route, route_of, id_segment_of, parse_i32_spec};
use crate::model::{RecordView, record_json_spec, records_items, json_array};
use crate::handlers::{
    CommandView, OutcomeView, PlanView, Status, plan_of, finish_of, reply, text_created, text_updated,
    text_missing, text_deleted,
};

verus! {

/// The table: each id maps to its flavour and its stock.
pub type Table = Map<i32, (Seq<char>, Seq<char>)>;

/// The record that the table holds under an id.
pub open spec fn row_of(t: Table, id: i32) -> RecordView {
    RecordView { id: Some(id), sabor: t[id].0, stock: t[id].1 }
}

/// `rs` lists the rows of `t`, each once, in some order.
pub open spec fn lists_table(rs: Seq<RecordView>, t: Table) -> bool {
    &&& rs.len() == t.len()
    &&& forall|i: int|
        0 <= i < rs.len() ==> {
            &&& (#[trigger] rs[i]).id is Some
            &&& t.contains_key(rs[i].id->0)
            &&& rs[i] == row_of(t, rs[i].id->0)
        }
    &&& forall|i: int, j: int| 0 <= i < j < rs.len() ==> rs[i].id != rs[j].id
}

/// A statement that succeeds takes table `t` to `t2` and answers `out`.
/// `fresh` is the id that the store generates for an inserted row.
pub open spec fn store_step(
    cmd: CommandView,
    t: Table,
    fresh: i32,
    t2: Table,
    out: OutcomeView,
) -> bool {
    t.dom().finite() && match cmd {
        CommandView::Insert { sabor, stock } => {
            &&& !t.contains_key(fresh)
            &&& t2 == t.insert(fresh, (sabor, stock))
            &&& out == OutcomeView::Affected(1)
        },
        CommandView::SelectOne { id } => {
            &&& t2 == t
            &&& out == OutcomeView::Row(
                if t.contains_key(id) {
                    Some(row_of(t, id))
                } else {
                    None
                },
            )
        },
        CommandView::SelectAll => {
            &&& t2 == t
            &&& out is Rows
            &&& lists_table(out->Rows_0, t)
        },
        CommandView::Update { id, sabor, stock } => if t.contains_key(id) {
            &&& t2 == t.insert(id, (sabor, stock))
            &&& out == OutcomeView::Affected(1)
        } else {
            &&& t2 == t
            &&& out == OutcomeView::Affected(0)
        },
        CommandView::Delete { id } => if t.contains_key(id) {
            &&& t2 == t.remove(id)
            &&& out == OutcomeView::Affected(1)
        } else {
            &&& t2 == t
            &&& out == OutcomeView::Affected(0)
        },
    }
}

/// A record that was created is then found under the id that the store gave
/// it, with the flavour and stock that were sent: a create request with a
/// record body runs an insert of that record, and a get-one request for the
/// new id answers it.
pub proof fn lemma_created_then_found(
    post: Seq<char>,
    body: RecordView,
    get: Seq<char>,
    t: Table,
    fresh: i32,
    t2: Table,
    created: OutcomeView,
    any: i32,
    t3: Table,
    found: OutcomeView,
)
    requires
        route_of(post) == Route::Create,
        route_of(get) == Route::GetOne,
        parse_i32_spec(id_segment_of(get)) == Some(fresh),
        store_step(
            CommandView::Insert { sabor: body.sabor, stock: body.stock },
            t,
            fresh,
            t2,
            created,
        ),
        store_step(CommandView::SelectOne { id: fresh }, t2, any, t3, found),
    ensures
        plan_of(post, Some(body)) == PlanView::Run(
            CommandView::Insert { sabor: body.sabor, stock: body.stock },
        ),
        plan_of(get, None) == PlanView::Run(CommandView::SelectOne { id: fresh }),
        finish_of(CommandView::Insert { sabor: body.sabor, stock: body.stock }, created) == reply(
            Status::Success,
            text_created(),
        ),
        finish_of(CommandView::SelectOne { id: fresh }, found) == reply(
            Status::Success,
            record_json_spec(RecordView { id: Some(fresh), sabor: body.sabor, stock: body.stock }),
        ),
{
    assert(t2.contains_key(fresh));
    assert(row_of(t2, fresh) == RecordView { id: Some(fresh), sabor: body.sabor, stock: body.stock });
}

/// For an id that the table lacks, get-one and delete answer "not found",
/// while update answers success all the same.
pub proof fn lemma_absent_id(
    t: Table,
    id: i32,
    sabor: Seq<char>,
    stock: Seq<char>,
    fresh: i32,
    t_get: Table,
    got: OutcomeView,
    t_del: Table,
    deleted: OutcomeView,
    t_upd: Table,
    updated: OutcomeView,
)
    requires
        !t.contains_key(id),
        store_step(CommandView::SelectOne { id }, t, fresh, t_get, got),
        store_step(CommandView::Delete { id }, t, fresh, t_del, deleted),
        store_step(CommandView::Update { id, sabor, stock }, t, fresh, t_upd, updated),
    ensures
        finish_of(CommandView::SelectOne { id }, got) == reply(Status::NotFound, text_missing()),
        finish_of(CommandView::Delete { id }, deleted) == reply(Status::NotFound, text_missing()),
        finish_of(CommandView::Update { id, sabor, stock }, updated) == reply(
            Status::Success,
            text_updated(),
        ),
        t_upd == t,
{
}

/// A get-all request runs the query of every row, and answers a JSON array
/// with one element for each row of the table.
pub proof fn lemma_get_all_counts(
    get: Seq<char>,
    body: Option<RecordView>,
    t: Table,
    fresh: i32,
    t2: Table,
    out: OutcomeView,
)
    requires
        route_of(get) == Route::GetAll,
        store_step(CommandView::SelectAll, t, fresh, t2, out),
    ensures
        plan_of(get, body) == PlanView::Run(CommandView::SelectAll),
        finish_of(CommandView::SelectAll, out).status == Status::Success,
        finish_of(CommandView::SelectAll, out).content == json_array(records_items(out->Rows_0)),
        records_items(out->Rows_0).len() == t.len(),
        t2 == t,
{
}

/// Deleting twice leaves the table as one delete does; the second delete
/// answers "not found", and so does the first when the id was absent.
pub proof fn lemma_delete_twice(
    t: Table,
    id: i32,
    fresh: i32,
    t2: Table,
    first: OutcomeView,
    t3: Table,
    second: OutcomeView,
)
    requires
        store_step(CommandView::Delete { id }, t, fresh, t2, first),
        store_step(CommandView::Delete { id }, t2, fresh, t3, second),
    ensures
        t3 == t2,
        finish_of(CommandView::Delete { id }, second) == reply(Status::NotFound, text_missing()),
        !t.contains_key(id) ==> finish_of(CommandView::Delete { id }, first) == reply(
            Status::NotFound,
            text_missing(),
        ),
        t.contains_key(id) ==> finish_of(CommandView::Delete { id }, first) == reply(
            Status::Success,
            text_deleted(),
        ),
{
    if t.contains_key(id) {
        assert(!t2.contains_key(id));
    }
}

} // verus!
