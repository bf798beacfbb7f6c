use user_service::handlers::{
    conclude, failure_message, failure_of, handle_client, handle_delete_request,
    handle_get_all_request, handle_get_request, handle_post_request, handle_put_request, Outcome,
    Statement, Step,
};
use user_service::response::{Failure, Response, Status};
use user_service::user::User;

fn user(id: Option<i32>, name: &str, email: &str) -> User {
    User { id, name: name.to_string(), email: email.to_string() }
}

fn reply(status: Status, body: &str) -> Response {
    Response { status, body: body.to_string() }
}

fn insert(name: &str, email: &str) -> Statement {
    Statement::Insert { name: name.to_string(), email: email.to_string() }
}

fn update(id: i32, name: &str, email: &str) -> Statement {
    Statement::Update { id, name: name.to_string(), email: email.to_string() }
}

const BODY: &str = "{\"name\":\"Ana\",\"email\":\"ana@x.com\"}";

#[test]
fn post_asks_for_an_insert() {
    let request = format!("POST /user HTTP/1.1\r\nHost: x\r\n\r\n{}", BODY);
    assert_eq!(handle_post_request(&request), Step::Run(insert("Ana", "ana@x.com")));
    assert_eq!(handle_client(&request), Step::Run(insert("Ana", "ana@x.com")));
}

#[test]
fn post_does_not_take_an_identifier_from_the_body() {
    let request = "POST /user HTTP/1.1\r\n\r\n{\"id\":9,\"name\":\"n\",\"email\":\"e\"}";
    assert_eq!(handle_client(request), Step::Run(insert("n", "e")));
}

#[test]
fn post_with_a_malformed_body_is_a_server_error() {
    let error = Step::Reply(reply(Status::InternalServerError, "Error"));
    assert_eq!(handle_post_request("POST /user HTTP/1.1\r\n\r\n{\"name\":\"Ana\""), error);
    assert_eq!(handle_client("POST /user HTTP/1.1\r\n\r\n{\"name\":\"Ana\""), error);
    assert_eq!(handle_client("POST /user HTTP/1.1\r\n\r\n"), error);
    assert_eq!(handle_client("POST /user HTTP/1.1\r\n\r\nname=Ana"), error);
    assert_eq!(handle_client("POST /user HTTP/1.1\r\n\r\n{\"name\":\"Ana\"}"), error);
    assert_eq!(handle_client("POST /user"), error);
}

#[test]
fn get_asks_for_one_row() {
    assert_eq!(
        handle_get_request("GET /users/12 HTTP/1.1\r\n\r\n"),
        Step::Run(Statement::SelectOne { id: 12 })
    );
    assert_eq!(
        handle_client("GET /users/-1 HTTP/1.1\r\n\r\n"),
        Step::Run(Statement::SelectOne { id: -1 })
    );
}

#[test]
fn get_with_a_bad_identifier_is_a_server_error() {
    let error = Step::Reply(reply(Status::InternalServerError, "Error"));
    assert_eq!(handle_get_request("GET /users/abc HTTP/1.1\r\n\r\n"), error);
    assert_eq!(handle_client("GET /users/ HTTP/1.1\r\n\r\n"), error);
    assert_eq!(handle_client("GET /users/99999999999 HTTP/1.1\r\n\r\n"), error);
    assert_eq!(handle_client("GET /users/ 12 HTTP/1.1\r\n\r\n"), error);
}

#[test]
fn get_all_asks_for_every_row() {
    assert_eq!(handle_get_all_request("GET /users HTTP/1.1\r\n\r\n"), Step::Run(Statement::SelectAll));
    assert_eq!(handle_client("GET /users HTTP/1.1\r\n\r\n"), Step::Run(Statement::SelectAll));
    assert_eq!(handle_client("GET /users?x=1"), Step::Run(Statement::SelectAll));
}

#[test]
fn put_asks_for_an_update() {
    let request = format!("PUT /users/4 HTTP/1.1\r\nHost: x\r\n\r\n{}", BODY);
    assert_eq!(handle_put_request(&request), Step::Run(update(4, "Ana", "ana@x.com")));
    assert_eq!(handle_client(&request), Step::Run(update(4, "Ana", "ana@x.com")));
}

#[test]
fn put_with_a_bad_identifier_or_body_is_a_server_error() {
    let error = Step::Reply(reply(Status::InternalServerError, "Error"));
    assert_eq!(handle_put_request(&format!("PUT /users/x HTTP/1.1\r\n\r\n{}", BODY)), error);
    assert_eq!(handle_client(&format!("PUT /users HTTP/1.1\r\n\r\n{}", BODY)), error);
    assert_eq!(handle_client("PUT /users/4 HTTP/1.1\r\n\r\n{\"name\":"), error);
    assert_eq!(handle_client("PUT /users/4 HTTP/1.1\r\n\r\n[]"), error);
    assert_eq!(handle_client("PUT /users/x HTTP/1.1\r\n\r\n"), error);
    assert_eq!(handle_client(&format!("PUT /users HTTP/2\r\n\r\n{}", BODY)), error);
    assert_eq!(handle_client(&format!("PUT /users/ 2 HTTP/1.1\r\n\r\n{}", BODY)), error);
    assert_eq!(handle_client(&format!("PUT /users/2 HTTP/1.1\r\n{}", BODY)), error);
}

#[test]
fn delete_asks_for_a_removal() {
    assert_eq!(
        handle_delete_request("DELETE /users/8 HTTP/1.1\r\n\r\n"),
        Step::Run(Statement::Delete { id: 8 })
    );
    assert_eq!(
        handle_client("DELETE /users/8 HTTP/1.1\r\n\r\n"),
        Step::Run(Statement::Delete { id: 8 })
    );
}

#[test]
fn delete_with_a_bad_identifier_is_a_server_error() {
    let error = Step::Reply(reply(
        Status::InternalServerError,
        "Error connecting to database or parsing ID",
    ));
    assert_eq!(handle_delete_request("DELETE /users/x HTTP/1.1\r\n\r\n"), error);
    assert_eq!(handle_client("DELETE /users/ HTTP/1.1\r\n\r\n"), error);
}

#[test]
fn unmatched_request_is_not_found() {
    let not_found = Step::Reply(reply(Status::NotFound, "Not Found"));
    assert_eq!(handle_client("PATCH /users/1 HTTP/1.1\r\n\r\n"), not_found);
    assert_eq!(handle_client(""), not_found);
    assert_eq!(handle_client("GET / HTTP/1.1\r\n\r\n"), not_found);
    assert_eq!(handle_client("DELETE /users HTTP/1.1\r\n\r\n"), not_found);
}

#[test]
fn insert_is_concluded() {
    let s = insert("n", "e");
    assert_eq!(conclude(&s, &Outcome::Affected(1)), reply(Status::Success, "User created"));
    assert_eq!(conclude(&s, &Outcome::Affected(0)), reply(Status::Success, "User created"));
    assert_eq!(conclude(&s, &Outcome::ConnectionFailure), reply(Status::InternalServerError, "Error"));
    assert_eq!(conclude(&s, &Outcome::QueryFailure), reply(Status::InternalServerError, "Error"));
}

#[test]
fn select_one_is_concluded() {
    let s = Statement::SelectOne { id: 1 };
    assert_eq!(
        conclude(&s, &Outcome::Rows(vec![user(Some(1), "Ana", "ana@x.com")])),
        reply(Status::Success, "{\"id\":1,\"name\":\"Ana\",\"email\":\"ana@x.com\"}")
    );
    assert_eq!(
        conclude(&s, &Outcome::Rows(vec![user(Some(1), "a", "b"), user(Some(2), "c", "d")])),
        reply(Status::Success, "{\"id\":1,\"name\":\"a\",\"email\":\"b\"}")
    );
    assert_eq!(conclude(&s, &Outcome::Rows(vec![])), reply(Status::NotFound, "User not found"));
    assert_eq!(conclude(&s, &Outcome::ConnectionFailure), reply(Status::InternalServerError, "Error"));
    assert_eq!(
        conclude(&s, &Outcome::QueryFailure),
        reply(Status::InternalServerError, "Error executing query")
    );
}

#[test]
fn select_all_is_concluded() {
    let s = Statement::SelectAll;
    assert_eq!(conclude(&s, &Outcome::Rows(vec![])), reply(Status::Success, "[]"));
    assert_eq!(
        conclude(&s, &Outcome::Rows(vec![user(Some(1), "a", "b"), user(Some(2), "c", "d")])),
        reply(
            Status::Success,
            "[{\"id\":1,\"name\":\"a\",\"email\":\"b\"},{\"id\":2,\"name\":\"c\",\"email\":\"d\"}]"
        )
    );
    assert_eq!(conclude(&s, &Outcome::ConnectionFailure), reply(Status::InternalServerError, "Error"));
    assert_eq!(conclude(&s, &Outcome::QueryFailure), reply(Status::InternalServerError, "Error"));
}

#[test]
fn update_is_concluded() {
    let s = update(3, "n", "e");
    assert_eq!(conclude(&s, &Outcome::Affected(1)), reply(Status::Success, "User Updated"));
    assert_eq!(conclude(&s, &Outcome::Affected(0)), reply(Status::Success, "User Updated"));
    assert_eq!(conclude(&s, &Outcome::ConnectionFailure), reply(Status::InternalServerError, "Error"));
    assert_eq!(conclude(&s, &Outcome::QueryFailure), reply(Status::InternalServerError, "Error"));
}

#[test]
fn delete_is_concluded() {
    let s = Statement::Delete { id: 3 };
    assert_eq!(conclude(&s, &Outcome::Affected(1)), reply(Status::Success, "User Deleted"));
    assert_eq!(conclude(&s, &Outcome::Affected(5)), reply(Status::Success, "User Deleted"));
    assert_eq!(conclude(&s, &Outcome::Affected(0)), reply(Status::NotFound, "User not found"));
    assert_eq!(
        conclude(&s, &Outcome::ConnectionFailure),
        reply(Status::InternalServerError, "Error connecting to database or parsing ID")
    );
    assert_eq!(
        conclude(&s, &Outcome::QueryFailure),
        reply(Status::InternalServerError, "Error deleting user")
    );
}

#[test]
fn an_outcome_of_the_wrong_shape_is_a_failed_statement() {
    let rows = Outcome::Rows(vec![user(Some(1), "a", "b")]);
    let count = Outcome::Affected(1);
    assert_eq!(failure_of(&insert("n", "e"), &rows), Some(Failure::QueryFailure));
    assert_eq!(failure_of(&update(1, "n", "e"), &rows), Some(Failure::QueryFailure));
    assert_eq!(failure_of(&Statement::Delete { id: 1 }, &rows), Some(Failure::QueryFailure));
    assert_eq!(failure_of(&Statement::SelectOne { id: 1 }, &count), Some(Failure::QueryFailure));
    assert_eq!(failure_of(&Statement::SelectAll, &count), Some(Failure::QueryFailure));
    assert_eq!(conclude(&insert("n", "e"), &rows), reply(Status::InternalServerError, "Error"));
    assert_eq!(
        conclude(&Statement::SelectOne { id: 1 }, &count),
        reply(Status::InternalServerError, "Error executing query")
    );
    assert_eq!(
        conclude(&Statement::Delete { id: 1 }, &rows),
        reply(Status::InternalServerError, "Error deleting user")
    );
}

#[test]
fn failures_of_the_storage() {
    assert_eq!(failure_of(&Statement::SelectAll, &Outcome::Rows(vec![])), None);
    assert_eq!(failure_of(&Statement::SelectOne { id: 1 }, &Outcome::Rows(vec![])), None);
    assert_eq!(failure_of(&insert("n", "e"), &Outcome::Affected(1)), None);
    assert_eq!(failure_of(&update(1, "n", "e"), &Outcome::Affected(0)), None);
    assert_eq!(failure_of(&Statement::Delete { id: 1 }, &Outcome::Affected(0)), None);
    assert_eq!(
        failure_of(&Statement::SelectAll, &Outcome::ConnectionFailure),
        Some(Failure::ConnectionFailure)
    );
    assert_eq!(
        failure_of(&Statement::Delete { id: 1 }, &Outcome::QueryFailure),
        Some(Failure::QueryFailure)
    );
    assert_eq!(failure_message(&Statement::SelectAll, Failure::QueryFailure), "Error");
    assert_eq!(
        failure_message(&Statement::SelectOne { id: 1 }, Failure::QueryFailure),
        "Error executing query"
    );
    assert_eq!(failure_message(&Statement::SelectOne { id: 1 }, Failure::ConnectionFailure), "Error");
    assert_eq!(
        failure_message(&Statement::Delete { id: 1 }, Failure::ConnectionFailure),
        "Error connecting to database or parsing ID"
    );
}

#[test]
fn only_not_found_has_a_status_of_its_own() {
    assert_eq!(Failure::NotFound.status(), Status::NotFound);
    assert_eq!(Failure::ConnectionFailure.status(), Status::InternalServerError);
    assert_eq!(Failure::QueryFailure.status(), Status::InternalServerError);
    assert_eq!(Failure::MalformedBody.status(), Status::InternalServerError);
    assert_eq!(Failure::InvalidIdentifier.status(), Status::InternalServerError);
}

#[test]
fn status_codes_and_lines() {
    assert_eq!(Status::Success.code(), 200);
    assert_eq!(Status::NotFound.code(), 404);
    assert_eq!(Status::InternalServerError.code(), 500);
    assert_eq!(Status::Success.line(), "HTTP/1.1 200 OK\r\nContent-Type: application/json\r\n\r\n");
    assert_eq!(Status::NotFound.line(), "HTTP/1.1 404 NOT FOUND\r\n\r\n");
    assert_eq!(Status::InternalServerError.line(), "HTTP/1.1 500 INTERNAL SERVER ERROR\r\n\r\n");
}

#[test]
fn replies_as_text() {
    assert_eq!(
        Response::ok("[]".to_string()).to_text(),
        "HTTP/1.1 200 OK\r\nContent-Type: application/json\r\n\r\n[]"
    );
    assert_eq!(
        Response::failure(Failure::NotFound, "User not found").to_text(),
        "HTTP/1.1 404 NOT FOUND\r\n\r\nUser not found"
    );
    assert_eq!(
        Response::failure(Failure::MalformedBody, "Error").to_text(),
        "HTTP/1.1 500 INTERNAL SERVER ERROR\r\n\r\nError"
    );
    assert_eq!(Response::ok(String::new()), reply(Status::Success, ""));
}
