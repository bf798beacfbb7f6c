//! The table of users as the service takes it to be, and what follows for
//! the replies. The table itself lives in the storage; here it is a
//! mathematical value, and every law is about the replies that the service
//! gives when the storage reports what such a table would.

use crate::handlers::{
    ends_collection, ends_identifier, law_delete_names_the_row, law_get_names_all_rows,
    law_get_names_the_row, law_post_names_the_user, law_put_names_the_row, reply_of, step_of,
    OutcomeModel, StatementModel, StepModel,
};
use crate::number::decimal;
use crate::request::{route_of, user_in, Route};
use crate::response::{failed, served, Failure, ResponseModel, Status};
use crate::user::{users_json, users_json_items, UserModel};
use vstd::prelude::*;

verus! {

/// The rows of the table by their identifiers, name first and email
/// second, and the number of identifiers issued so far. Identifiers are
/// issued in turn from 1 on, and none is issued twice.
pub ghost struct Table {
    pub rows: Map<int, (Seq<char>, Seq<char>)>,
    pub issued: nat,
}

impl Table {
    /// Every row bears an identifier that was issued.
    pub open spec fn wf(self) -> bool {
        forall|id: int| self.rows.contains_key(id) ==> 1 <= id <= self.issued
    }

    /// Whether `id` was ever issued.
    pub open spec fn created(self, id: int) -> bool {
        1 <= id <= self.issued
    }

    /// The identifier that the next row gets.
    pub open spec fn next_id(self) -> int {
        self.issued as int + 1
    }

    /// The row under `id` as a user.
    pub open spec fn record(self, id: int) -> UserModel {
        UserModel { id: Some(id), name: self.rows[id].0, email: self.rows[id].1 }
    }

    /// The table after `statement` ran. An update or a removal of a row
    /// that is not there changes nothing.
    pub open spec fn after(self, statement: StatementModel) -> Table {
        match statement {
            StatementModel::Insert { name, email } => Table {
                rows: self.rows.insert(self.next_id(), (name, email)),
                issued: self.issued + 1,
            },
            StatementModel::Update { id, name, email } => if self.rows.contains_key(id) {
                Table { rows: self.rows.insert(id, (name, email)), ..self }
            } else {
                self
            },
            StatementModel::Delete { id } => Table { rows: self.rows.remove(id), ..self },
            StatementModel::SelectOne { .. } => self,
            StatementModel::SelectAll => self,
        }
    }

    /// Whether `users` lists the table: every row once, in whatever order,
    /// and nothing else.
    pub open spec fn lists(self, users: Seq<UserModel>) -> bool {
        &&& users.no_duplicates()
        &&& forall|i: int|
            0 <= i < users.len() ==> (#[trigger] users[i]).id.is_some() && self.rows.contains_key(
                users[i].id.unwrap(),
            ) && users[i] == self.record(users[i].id.unwrap())
        &&& forall|id: int| #[trigger]
            self.rows.contains_key(id) ==> users.contains(self.record(id))
    }

    /// The number of rows that bear `id`.
    pub open spec fn count(self, id: int) -> nat {
        if self.rows.contains_key(id) {
            1
        } else {
            0
        }
    }

    /// Whether `outcome` is what the table reports when `statement` runs
    /// on it and nothing fails.
    pub open spec fn reports(self, statement: StatementModel, outcome: OutcomeModel) -> bool {
        match statement {
            StatementModel::Insert { .. } => outcome == OutcomeModel::Affected(1),
            StatementModel::SelectOne { id } => outcome == OutcomeModel::Rows(
                if self.rows.contains_key(id) {
                    seq![self.record(id)]
                } else {
                    Seq::empty()
                },
            ),
            StatementModel::SelectAll => match outcome {
                OutcomeModel::Rows(users) => self.lists(users),
                _ => false,
            },
            StatementModel::Update { id, .. } => outcome == OutcomeModel::Affected(self.count(id)),
            StatementModel::Delete { id } => outcome == OutcomeModel::Affected(self.count(id)),
        }
    }

    /// Whether `reply` is an answer of the service to `request` with this
    /// table behind it: the reply that the request gets at once, or the one
    /// to what the table reports of its statement.
    pub open spec fn answers(self, request: Seq<char>, reply: ResponseModel) -> bool {
        match step_of(request) {
            StepModel::Reply(at_once) => reply == at_once,
            StepModel::Run(statement) => exists|outcome: OutcomeModel| #[trigger]
                self.reports(statement, outcome) && reply == reply_of(statement, outcome),
        }
    }

    /// The table after `request` was served.
    pub open spec fn served(self, request: Seq<char>) -> Table {
        match step_of(request) {
            StepModel::Reply(_) => self,
            StepModel::Run(statement) => self.after(statement),
        }
    }
}

/// A request that creates a user is answered with 200 and `User created`.
/// A list of all users asked for afterwards is answered with 200 and the
/// JSON form of a list that holds a user with the name and the email of
/// the request, under an identifier that is positive and that no row bore
/// before.
pub proof fn law_created_user_is_listed(
    table: Table,
    body: Seq<char>,
    user: UserModel,
    created: ResponseModel,
    rest: Seq<char>,
    listed: ResponseModel,
) -> (found: (Seq<UserModel>, int))
    requires
        table.wf(),
        user_in("POST /user"@ + body) == Some(user),
        table.answers("POST /user"@ + body, created),
        ends_collection(rest),
        table.served("POST /user"@ + body).answers("GET /users"@ + rest, listed),
    ensures
        created == served("User created"@),
        listed == served(users_json(found.0)),
        0 <= found.1 < found.0.len(),
        found.0[found.1].name == user.name,
        found.0[found.1].email == user.email,
        found.0[found.1].id == Some(table.next_id()),
        table.next_id() > 0,
        !table.created(table.next_id()),
        !table.rows.contains_key(table.next_id()),
        table.served("POST /user"@ + body).wf(),
{
    let insert = StatementModel::Insert { name: user.name, email: user.email };
    law_post_names_the_user(body);
    law_get_names_all_rows(rest);
    let next = table.after(insert);
    let id = table.next_id();
    assert(next.rows.contains_key(id));
    assert(next.record(id) == UserModel { id: Some(id), name: user.name, email: user.email });
    let outcome = choose|outcome: OutcomeModel| #[trigger]
        next.reports(StatementModel::SelectAll, outcome) && listed == reply_of(
            StatementModel::SelectAll,
            outcome,
        );
    let users = outcome->Rows_0;
    assert(users.contains(next.record(id)));
    let i = choose|i: int| 0 <= i < users.len() && users[i] == next.record(id);
    (users, i)
}

/// Reading or removing the user under an identifier that was never
/// issued is answered with 404 and `User not found`, and leaves the table
/// as it was.
pub proof fn law_never_created_is_not_found(
    table: Table,
    id: int,
    rest: Seq<char>,
    reply: ResponseModel,
)
    requires
        table.wf(),
        !table.created(id),
        i32::MIN <= id <= i32::MAX,
        ends_identifier(rest),
        table.answers("GET /users/"@ + decimal(id) + rest, reply) || table.answers(
            "DELETE /users/"@ + decimal(id) + rest,
            reply,
        ),
    ensures
        reply == failed(Failure::NotFound, "User not found"@),
        reply.status.code_of() == 404,
        table.served("GET /users/"@ + decimal(id) + rest) == table,
        table.served("DELETE /users/"@ + decimal(id) + rest) == table,
{
    law_get_names_the_row(id, rest);
    law_delete_names_the_row(id, rest);
    assert(table.rows.remove(id) =~= table.rows);
}

/// Removing a user a second time is answered with 404 and `User not
/// found`, whether the first removal found the user or not.
pub proof fn law_second_delete_is_not_found(
    table: Table,
    id: int,
    rest: Seq<char>,
    again: Seq<char>,
    reply: ResponseModel,
)
    requires
        i32::MIN <= id <= i32::MAX,
        ends_identifier(rest),
        ends_identifier(again),
        table.served("DELETE /users/"@ + decimal(id) + rest).answers(
            "DELETE /users/"@ + decimal(id) + again,
            reply,
        ),
    ensures
        reply == failed(Failure::NotFound, "User not found"@),
        reply.status.code_of() == 404,
{
    law_delete_names_the_row(id, rest);
    law_delete_names_the_row(id, again);
}

/// Changing a user that is not there is answered like any other change,
/// with 200 and `User Updated`, and changes nothing: no one looks whether
/// the row exists.
pub proof fn law_update_of_missing_user_succeeds(
    table: Table,
    id: int,
    rest: Seq<char>,
    reply: ResponseModel,
)
    requires
        !table.rows.contains_key(id),
        i32::MIN <= id <= i32::MAX,
        ends_identifier(rest),
        user_in("PUT /users/"@ + decimal(id) + rest).is_some(),
        table.answers("PUT /users/"@ + decimal(id) + rest, reply),
    ensures
        reply == served("User Updated"@),
        reply.status.code_of() == 200,
        table.served("PUT /users/"@ + decimal(id) + rest) == table,
{
    law_put_names_the_row(id, rest);
}

/// Reading all users of a table without rows is answered with 200 and an
/// empty JSON array.
pub proof fn law_empty_table_lists_nothing(table: Table, rest: Seq<char>, reply: ResponseModel)
    requires
        forall|id: int| !table.rows.contains_key(id),
        ends_collection(rest),
        table.answers("GET /users"@ + rest, reply),
    ensures
        reply == served("[]"@),
        reply.status.code_of() == 200,
{
    law_get_names_all_rows(rest);
    let outcome = choose|outcome: OutcomeModel| #[trigger]
        table.reports(StatementModel::SelectAll, outcome) && reply == reply_of(
            StatementModel::SelectAll,
            outcome,
        );
    let users = outcome->Rows_0;
    if users.len() > 0 {
        assert(table.rows.contains_key(users[0].id.unwrap()));
    }
    reveal_strlit("[");
    reveal_strlit("]");
    reveal_strlit("[]");
    assert(users_json_items(users) =~= Seq::<char>::empty());
    assert(users_json(users) =~= "[]"@);
}

/// A request to create or to change a user whose body describes no user is
/// answered with 500 and never with a status of the 400s, and the storage
/// is not asked.
pub proof fn law_malformed_body_is_server_error(table: Table, request: Seq<char>, reply: ResponseModel)
    requires
        route_of(request) == Route::Create || route_of(request) == Route::Update,
        user_in(request).is_none(),
        table.answers(request, reply),
    ensures
        step_of(request) is Reply,
        reply.status == Status::InternalServerError,
        reply.status.code_of() == 500,
        reply.body == "Error"@,
        table.served(request) == table,
{
}

/// Every answer bears one of three status codes.
pub proof fn law_three_statuses(table: Table, request: Seq<char>, reply: ResponseModel)
    requires
        table.answers(request, reply),
    ensures
        reply.status.code_of() == 200 || reply.status.code_of() == 404 || reply.status.code_of()
            == 500,
{
}

} // verus!
