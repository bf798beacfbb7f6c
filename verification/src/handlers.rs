//! The five operations on users. Each is decided in two moves with the
//! storage between them: a request gives a reply at once or the statement
//! that the storage has to run, and what the storage reports gives the
//! reply.

use crate::number::{decimal, is_digit, law_decimal_reads_back, lemma_decimal_chars};
use crate::request::{
    get_identifier, get_user_request_body, identifier_of, law_path_parameter, route, route_of,
    user_in, Route,
};
use crate::response::{failed, served, Failure, Response, ResponseModel};
use crate::text::{is_solid, is_space, lacks, lemma_not_prefix, lemma_prefix};
use crate::user::{models, user_json, users_json, users_to_json, User, UserModel};
use vstd::prelude::*;

verus! {

/// One statement for the storage. No request asks for more than one.
#[derive(Clone, Debug, PartialEq, Eq)]
pub enum Statement {
    /// Add a row with a new identifier.
    Insert { name: String, email: String },
    /// Read the row with this identifier.
    SelectOne { id: i32 },
    /// Read every row.
    SelectAll,
    /// Set name and email of the row with this identifier.
    Update { id: i32, name: String, email: String },
    /// Remove the row with this identifier.
    Delete { id: i32 },
}

/// A `Statement` as a mathematical value.
pub ghost enum StatementModel {
    Insert { name: Seq<char>, email: Seq<char> },
    SelectOne { id: int },
    SelectAll,
    Update { id: int, name: Seq<char>, email: Seq<char> },
    Delete { id: int },
}

impl View for Statement {
    type V = StatementModel;

    open spec fn view(&self) -> StatementModel {
        match self {
            Statement::Insert { name, email } => StatementModel::Insert {
                name: name@,
                email: email@,
            },
            Statement::SelectOne { id } => StatementModel::SelectOne { id: *id as int },
            Statement::SelectAll => StatementModel::SelectAll,
            Statement::Update { id, name, email } => StatementModel::Update {
                id: *id as int,
                name: name@,
                email: email@,
            },
            Statement::Delete { id } => StatementModel::Delete { id: *id as int },
        }
    }
}

/// What to do with a request: send a reply, or run a statement first.
#[derive(Clone, Debug, PartialEq, Eq)]
pub enum Step {
    Reply(Response),
    Run(Statement),
}

/// A `Step` as a mathematical value.
pub ghost enum StepModel {
    Reply(ResponseModel),
    Run(StatementModel),
}

impl View for Step {
    type V = StepModel;

    open spec fn view(&self) -> StepModel {
        match self {
            Step::Reply(reply) => StepModel::Reply(reply@),
            Step::Run(statement) => StepModel::Run(statement@),
        }
    }
}

/// What the storage reports of one statement.
#[derive(Clone, Debug, PartialEq, Eq)]
pub enum Outcome {
    /// The storage could not be reached.
    ConnectionFailure,
    /// The statement failed.
    QueryFailure,
    /// The statement ran and changed this many rows.
    Affected(u64),
    /// The statement ran and found these rows.
    Rows(Vec<User>),
}

/// An `Outcome` as a mathematical value.
pub ghost enum OutcomeModel {
    ConnectionFailure,
    QueryFailure,
    Affected(nat),
    Rows(Seq<UserModel>),
}

impl View for Outcome {
    type V = OutcomeModel;

    open spec fn view(&self) -> OutcomeModel {
        match self {
            Outcome::ConnectionFailure => OutcomeModel::ConnectionFailure,
            Outcome::QueryFailure => OutcomeModel::QueryFailure,
            Outcome::Affected(n) => OutcomeModel::Affected(*n as nat),
            Outcome::Rows(rows) => OutcomeModel::Rows(models(rows@)),
        }
    }
}

/// The step for a request to create a user: insert the user that the body
/// describes, or fail where it describes none.
pub open spec fn create_step(request: Seq<char>) -> StepModel {
    match user_in(request) {
        Some(user) => StepModel::Run(
            StatementModel::Insert { name: user.name, email: user.email },
        ),
        None => StepModel::Reply(failed(Failure::MalformedBody, "Error"@)),
    }
}

/// The step for a request to read one user: select by the identifier in
/// the path, or fail where the path names none.
pub open spec fn get_step(request: Seq<char>) -> StepModel {
    match identifier_of(request) {
        Some(id) => StepModel::Run(StatementModel::SelectOne { id }),
        None => StepModel::Reply(failed(Failure::InvalidIdentifier, "Error"@)),
    }
}

/// The step for a request to read all users.
pub open spec fn get_all_step(request: Seq<char>) -> StepModel {
    StepModel::Run(StatementModel::SelectAll)
}

/// The step for a request to change a user: update the row that the path
/// names with what the body describes, or fail where either is missing.
pub open spec fn update_step(request: Seq<char>) -> StepModel {
    match (identifier_of(request), user_in(request)) {
        (Some(id), Some(user)) => StepModel::Run(
            StatementModel::Update { id, name: user.name, email: user.email },
        ),
        (None, _) => StepModel::Reply(failed(Failure::InvalidIdentifier, "Error"@)),
        (_, None) => StepModel::Reply(failed(Failure::MalformedBody, "Error"@)),
    }
}

/// The step for a request to remove a user: delete by the identifier in
/// the path, or fail where the path names none.
pub open spec fn delete_step(request: Seq<char>) -> StepModel {
    match identifier_of(request) {
        Some(id) => StepModel::Run(StatementModel::Delete { id }),
        None => StepModel::Reply(
            failed(Failure::InvalidIdentifier, "Error connecting to database or parsing ID"@),
        ),
    }
}

/// The step for any request: that of its route, and for a request that
/// matches no route the reply that nothing was found.
pub open spec fn step_of(request: Seq<char>) -> StepModel {
    match route_of(request) {
        Route::Create => create_step(request),
        Route::GetOne => get_step(request),
        Route::GetAll => get_all_step(request),
        Route::Update => update_step(request),
        Route::Delete => delete_step(request),
        Route::Unmatched => StepModel::Reply(failed(Failure::NotFound, "Not Found"@)),
    }
}

/// Decides on a request to create a user.
pub fn handle_post_request(request: &str) -> (step: Step)
    ensures
        step@ == create_step(request@),
{
    match get_user_request_body(request) {
        Ok(user) => Step::Run(Statement::Insert { name: user.name, email: user.email }),
        Err(failure) => Step::Reply(Response::failure(failure, "Error")),
    }
}

/// Decides on a request to read one user.
pub fn handle_get_request(request: &str) -> (step: Step)
    ensures
        step@ == get_step(request@),
{
    match get_identifier(request) {
        Ok(id) => Step::Run(Statement::SelectOne { id }),
        Err(failure) => Step::Reply(Response::failure(failure, "Error")),
    }
}

/// Decides on a request to read all users.
pub fn handle_get_all_request(request: &str) -> (step: Step)
    ensures
        step@ == get_all_step(request@),
{
    Step::Run(Statement::SelectAll)
}

/// Decides on a request to change a user.
pub fn handle_put_request(request: &str) -> (step: Step)
    ensures
        step@ == update_step(request@),
{
    match get_identifier(request) {
        Ok(id) => match get_user_request_body(request) {
            Ok(user) => Step::Run(Statement::Update { id, name: user.name, email: user.email }),
            Err(failure) => Step::Reply(Response::failure(failure, "Error")),
        },
        Err(failure) => Step::Reply(Response::failure(failure, "Error")),
    }
}

/// Decides on a request to remove a user.
pub fn handle_delete_request(request: &str) -> (step: Step)
    ensures
        step@ == delete_step(request@),
{
    match get_identifier(request) {
        Ok(id) => Step::Run(Statement::Delete { id }),
        Err(failure) => Step::Reply(
            Response::failure(failure, "Error connecting to database or parsing ID"),
        ),
    }
}

/// Decides on any request.
pub fn handle_client(request: &str) -> (step: Step)
    ensures
        step@ == step_of(request@),
{
    match route(request) {
        Route::Create => handle_post_request(request),
        Route::GetOne => handle_get_request(request),
        Route::GetAll => handle_get_all_request(request),
        Route::Update => handle_put_request(request),
        Route::Delete => handle_delete_request(request),
        Route::Unmatched => Step::Reply(Response::failure(Failure::NotFound, "Not Found")),
    }
}

/// The failure that an outcome stands for when `statement` was run, if it
/// stands for one: a report of rows where a count was due, or the other way
/// round, counts as a failed statement.
pub open spec fn failure_in(statement: StatementModel, outcome: OutcomeModel) -> Option<Failure> {
    match (statement, outcome) {
        (_, OutcomeModel::ConnectionFailure) => Some(Failure::ConnectionFailure),
        (_, OutcomeModel::QueryFailure) => Some(Failure::QueryFailure),
        (StatementModel::SelectOne { .. }, OutcomeModel::Rows(_)) => None,
        (StatementModel::SelectAll, OutcomeModel::Rows(_)) => None,
        (StatementModel::Insert { .. }, OutcomeModel::Affected(_)) => None,
        (StatementModel::Update { .. }, OutcomeModel::Affected(_)) => None,
        (StatementModel::Delete { .. }, OutcomeModel::Affected(_)) => None,
        _ => Some(Failure::QueryFailure),
    }
}

/// What a reply says of a failure of the storage.
pub open spec fn failure_text(statement: StatementModel, failure: Failure) -> Seq<char> {
    match (statement, failure) {
        (StatementModel::SelectOne { .. }, Failure::QueryFailure) => "Error executing query"@,
        (StatementModel::Delete { .. }, Failure::QueryFailure) => "Error deleting user"@,
        (StatementModel::Delete { .. }, _) => "Error connecting to database or parsing ID"@,
        _ => "Error"@,
    }
}

/// The reply to a request for which `statement` was run and the storage
/// reported `outcome`.
pub open spec fn reply_of(statement: StatementModel, outcome: OutcomeModel) -> ResponseModel {
    match failure_in(statement, outcome) {
        Some(failure) => failed(failure, failure_text(statement, failure)),
        None => match (statement, outcome) {
            (StatementModel::Insert { .. }, _) => served("User created"@),
            (StatementModel::SelectOne { .. }, OutcomeModel::Rows(rows)) => if rows.len() > 0 {
                served(user_json(rows[0]))
            } else {
                failed(Failure::NotFound, "User not found"@)
            },
            (StatementModel::SelectAll, OutcomeModel::Rows(rows)) => served(users_json(rows)),
            (StatementModel::Update { .. }, _) => served("User Updated"@),
            (StatementModel::Delete { .. }, OutcomeModel::Affected(n)) => if n == 0 {
                failed(Failure::NotFound, "User not found"@)
            } else {
                served("User Deleted"@)
            },
            _ => failed(Failure::QueryFailure, "Error"@),
        },
    }
}

/// Finds the failure that an outcome stands for.
pub fn failure_of(statement: &Statement, outcome: &Outcome) -> (failure: Option<Failure>)
    ensures
        failure == failure_in(statement@, outcome@),
{
    match (statement, outcome) {
        (_, Outcome::ConnectionFailure) => Some(Failure::ConnectionFailure),
        (_, Outcome::QueryFailure) => Some(Failure::QueryFailure),
        (Statement::SelectOne { .. }, Outcome::Rows(_)) => None,
        (Statement::SelectAll, Outcome::Rows(_)) => None,
        (Statement::Insert { .. }, Outcome::Affected(_)) => None,
        (Statement::Update { .. }, Outcome::Affected(_)) => None,
        (Statement::Delete { .. }, Outcome::Affected(_)) => None,
        _ => Some(Failure::QueryFailure),
    }
}

/// Words a failure of the storage.
pub fn failure_message(statement: &Statement, failure: Failure) -> (text: &'static str)
    ensures
        text@ == failure_text(statement@, failure),
{
    match (statement, failure) {
        (Statement::SelectOne { .. }, Failure::QueryFailure) => "Error executing query",
        (Statement::Delete { .. }, Failure::QueryFailure) => "Error deleting user",
        (Statement::Delete { .. }, _) => "Error connecting to database or parsing ID",
        _ => "Error",
    }
}

/// Replies to a request for which `statement` was run and the storage
/// reported `outcome`.
pub fn conclude(statement: &Statement, outcome: &Outcome) -> (reply: Response)
    ensures
        reply@ == reply_of(statement@, outcome@),
{
    match failure_of(statement, outcome) {
        Some(failure) => Response::failure(failure, failure_message(statement, failure)),
        None => match (statement, outcome) {
            (Statement::Insert { .. }, _) => Response::ok(String::from_str("User created")),
            (Statement::SelectOne { .. }, Outcome::Rows(rows)) => {
                if rows.len() > 0 {
                    Response::ok(rows[0].to_json())
                } else {
                    Response::failure(Failure::NotFound, "User not found")
                }
            },
            (Statement::SelectAll, Outcome::Rows(rows)) => Response::ok(users_to_json(rows)),
            (Statement::Update { .. }, _) => Response::ok(String::from_str("User Updated")),
            (Statement::Delete { .. }, Outcome::Affected(n)) => {
                if *n == 0 {
                    Response::failure(Failure::NotFound, "User not found")
                } else {
                    Response::ok(String::from_str("User Deleted"))
                }
            },
            _ => Response::failure(Failure::QueryFailure, "Error"),
        },
    }
}

/// Whether a request may go on with `rest` after the identifier in its
/// path: with white space, with `/`, or not at all.
pub open spec fn ends_identifier(rest: Seq<char>) -> bool {
    rest.len() == 0 || is_space(rest[0]) || rest[0] == '/'
}

/// The identifier of a request that reads a method on one line,
/// `/users/`, and the numeral of `id` is `id`.
proof fn lemma_identifier_in_path(method: Seq<char>, id: int, rest: Seq<char>)
    requires
        lacks(method, '/'),
        lacks(method, '\n'),
        i32::MIN <= id <= i32::MAX,
        ends_identifier(rest),
    ensures
        identifier_of(method + "/users/"@ + decimal(id) + rest) == Some(id),
{
    reveal_strlit("/users/");
    let collection = seq!['u', 's', 'e', 'r', 's'];
    let word = decimal(id);
    lemma_decimal_chars(id);
    assert forall|i: int| 0 <= i < word.len() implies !is_space(#[trigger] word[i]) && word[i]
        != '/' by {
        assert(is_digit(word[i]) || word[i] == '-');
    }
    assert("/users/"@ =~= seq!['/'] + collection + seq!['/']);
    assert(method + "/users/"@ + word + rest =~= method + seq!['/'] + collection + seq!['/'] + word
        + rest);
    law_path_parameter(method, collection, word, rest);
    law_decimal_reads_back(id);
}

/// `GET /users/` and the numeral of an identifier ask for the row under
/// that identifier.
pub proof fn law_get_names_the_row(id: int, rest: Seq<char>)
    requires
        i32::MIN <= id <= i32::MAX,
        ends_identifier(rest),
    ensures
        step_of("GET /users/"@ + decimal(id) + rest) == StepModel::Run(
            StatementModel::SelectOne { id },
        ),
{
    let request = "GET /users/"@ + decimal(id) + rest;
    reveal_strlit("GET /users/");
    reveal_strlit("/users/");
    reveal_strlit("POST /user");
    let method = seq!['G', 'E', 'T', ' '];
    assert("GET /users/"@ =~= method + "/users/"@);
    assert(request =~= method + "/users/"@ + decimal(id) + rest);
    lemma_identifier_in_path(method, id, rest);
    assert(request =~= "GET /users/"@ + (decimal(id) + rest));
    lemma_not_prefix("POST /user"@, request, 0);
    lemma_prefix("GET /users/"@, decimal(id) + rest);
}

/// `DELETE /users/` and the numeral of an identifier ask to remove the
/// row under that identifier.
pub proof fn law_delete_names_the_row(id: int, rest: Seq<char>)
    requires
        i32::MIN <= id <= i32::MAX,
        ends_identifier(rest),
    ensures
        step_of("DELETE /users/"@ + decimal(id) + rest) == StepModel::Run(
            StatementModel::Delete { id },
        ),
{
    let request = "DELETE /users/"@ + decimal(id) + rest;
    reveal_strlit("DELETE /users/");
    reveal_strlit("/users/");
    reveal_strlit("POST /user");
    reveal_strlit("GET /users/");
    reveal_strlit("GET /users");
    reveal_strlit("PUT /users");
    let method = seq!['D', 'E', 'L', 'E', 'T', 'E', ' '];
    assert("DELETE /users/"@ =~= method + "/users/"@);
    assert(request =~= method + "/users/"@ + decimal(id) + rest);
    lemma_identifier_in_path(method, id, rest);
    assert(request =~= "DELETE /users/"@ + (decimal(id) + rest));
    lemma_not_prefix("POST /user"@, request, 0);
    lemma_not_prefix("GET /users/"@, request, 0);
    lemma_not_prefix("GET /users"@, request, 0);
    lemma_not_prefix("PUT /users"@, request, 0);
    lemma_prefix("DELETE /users/"@, decimal(id) + rest);
}

/// `PUT /users/` and the numeral of an identifier ask to change the row
/// under that identifier to what the body describes, and fail where the
/// body describes no user.
pub proof fn law_put_names_the_row(id: int, rest: Seq<char>)
    requires
        i32::MIN <= id <= i32::MAX,
        ends_identifier(rest),
    ensures
        step_of("PUT /users/"@ + decimal(id) + rest) == match user_in(
            "PUT /users/"@ + decimal(id) + rest,
        ) {
            Some(user) => StepModel::Run(
                StatementModel::Update { id, name: user.name, email: user.email },
            ),
            None => StepModel::Reply(failed(Failure::MalformedBody, "Error"@)),
        },
{
    let request = "PUT /users/"@ + decimal(id) + rest;
    reveal_strlit("PUT /users/");
    reveal_strlit("/users/");
    reveal_strlit("POST /user");
    reveal_strlit("GET /users/");
    reveal_strlit("GET /users");
    reveal_strlit("PUT /users");
    let method = seq!['P', 'U', 'T', ' '];
    assert("PUT /users/"@ =~= method + "/users/"@);
    assert(request =~= method + "/users/"@ + decimal(id) + rest);
    lemma_identifier_in_path(method, id, rest);
    assert(request =~= "PUT /users"@ + (seq!['/'] + decimal(id) + rest));
    lemma_not_prefix("POST /user"@, request, 1);
    lemma_not_prefix("GET /users/"@, request, 0);
    lemma_not_prefix("GET /users"@, request, 0);
    lemma_prefix("PUT /users"@, seq!['/'] + decimal(id) + rest);
}

/// Whether a request for all users may go on with `rest` after
/// `GET /users`: with anything but `/`.
pub open spec fn ends_collection(rest: Seq<char>) -> bool {
    rest.len() == 0 || rest[0] != '/'
}

/// `GET /users`, not followed by `/`, asks for every row.
pub proof fn law_get_names_all_rows(rest: Seq<char>)
    requires
        ends_collection(rest),
    ensures
        step_of("GET /users"@ + rest) == StepModel::Run(StatementModel::SelectAll),
{
    let request = "GET /users"@ + rest;
    reveal_strlit("GET /users");
    reveal_strlit("GET /users/");
    reveal_strlit("POST /user");
    lemma_not_prefix("POST /user"@, request, 0);
    lemma_not_prefix("GET /users/"@, request, 10);
    lemma_prefix("GET /users"@, rest);
}

/// `POST /user` asks to insert the user that the body describes, and
/// fails where the body describes none.
pub proof fn law_post_names_the_user(rest: Seq<char>)
    ensures
        step_of("POST /user"@ + rest) == match user_in("POST /user"@ + rest) {
            Some(user) => StepModel::Run(
                StatementModel::Insert { name: user.name, email: user.email },
            ),
            None => StepModel::Reply(failed(Failure::MalformedBody, "Error"@)),
        },
{
    lemma_prefix("POST /user"@, rest);
}

} // verus!
