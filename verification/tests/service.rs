use user_service::handlers::{conclude, handle_client, Outcome, Statement, Step};
use user_service::response::{Response, Status};
use user_service::user::User;

/// A table in memory that answers as the storage does.
struct Table {
    rows: Vec<User>,
    issued: i32,
}

fn empty_table() -> Table {
    Table { rows: Vec::new(), issued: 0 }
}

fn run(table: &mut Table, statement: &Statement) -> Outcome {
    match statement {
        Statement::Insert { name, email } => {
            table.issued += 1;
            table.rows.push(User { id: Some(table.issued), name: name.clone(), email: email.clone() });
            Outcome::Affected(1)
        }
        Statement::SelectOne { id } => {
            Outcome::Rows(table.rows.iter().filter(|u| u.id == Some(*id)).cloned().collect())
        }
        Statement::SelectAll => Outcome::Rows(table.rows.clone()),
        Statement::Update { id, name, email } => {
            let mut changed = 0;
            for row in table.rows.iter_mut().filter(|u| u.id == Some(*id)) {
                row.name = name.clone();
                row.email = email.clone();
                changed += 1;
            }
            Outcome::Affected(changed)
        }
        Statement::Delete { id } => {
            let before = table.rows.len();
            table.rows.retain(|u| u.id != Some(*id));
            Outcome::Affected((before - table.rows.len()) as u64)
        }
    }
}

fn serve(table: &mut Table, request: &str) -> Response {
    match handle_client(request) {
        Step::Reply(reply) => reply,
        Step::Run(statement) => {
            let outcome = run(table, &statement);
            conclude(&statement, &outcome)
        }
    }
}

fn post(name: &str, email: &str) -> String {
    format!(
        "POST /user HTTP/1.1\r\nContent-Type: application/json\r\n\r\n{{\"name\":\"{}\",\"email\":\"{}\"}}",
        name, email
    )
}

#[test]
fn created_user_is_listed_with_a_fresh_identifier() {
    let mut table = empty_table();
    for (i, (name, email)) in [("Ana", "ana@x.com"), ("Bo", "bo@x.com"), ("Cy", "cy@x.com")]
        .into_iter()
        .enumerate()
    {
        let before: Vec<Option<i32>> = table.rows.iter().map(|u| u.id).collect();
        let reply = serve(&mut table, &post(name, email));
        assert_eq!(reply.status, Status::Success);
        assert_eq!(reply.body, "User created");
        let listed = serve(&mut table, "GET /users HTTP/1.1\r\n\r\n");
        assert_eq!(listed.status, Status::Success);
        let value: serde_json::Value = serde_json::from_str(&listed.body).unwrap();
        let found: Vec<&serde_json::Value> = value
            .as_array()
            .unwrap()
            .iter()
            .filter(|u| u.get("name").unwrap().as_str() == Some(name))
            .collect();
        assert_eq!(found.len(), 1);
        assert_eq!(found[0].get("email").unwrap().as_str(), Some(email));
        let id = found[0].get("id").unwrap().as_i64().unwrap();
        assert_eq!(id, i as i64 + 1);
        assert!(id > 0);
        assert!(!before.contains(&Some(id as i32)));
    }
}

#[test]
fn example_create_then_list() {
    let mut table = empty_table();
    let reply = serve(
        &mut table,
        "POST /user HTTP/1.1\r\n\r\n{\"name\":\"Ana\",\"email\":\"ana@x.com\"}",
    );
    assert_eq!(reply.status.code(), 200);
    assert_eq!(reply.body, "User created");
    assert_eq!(
        reply.to_text(),
        "HTTP/1.1 200 OK\r\nContent-Type: application/json\r\n\r\nUser created"
    );
    let listed = serve(&mut table, "GET /users HTTP/1.1\r\n\r\n");
    assert_eq!(listed.status.code(), 200);
    assert_eq!(listed.body, "[{\"id\":1,\"name\":\"Ana\",\"email\":\"ana@x.com\"}]");
}

#[test]
fn example_get_of_a_missing_user() {
    let mut table = empty_table();
    let reply = serve(&mut table, "GET /users/999 HTTP/1.1\r\n\r\n");
    assert_eq!(reply.status.code(), 404);
    assert_eq!(reply.body, "User not found");
    assert_eq!(reply.to_text(), "HTTP/1.1 404 NOT FOUND\r\n\r\nUser not found");
}

#[test]
fn example_unmatched_method() {
    let mut table = empty_table();
    let reply = serve(&mut table, "PATCH /users/1 HTTP/1.1\r\n\r\n");
    assert_eq!(reply.status.code(), 404);
    assert_eq!(reply.body, "Not Found");
    assert_eq!(reply.to_text(), "HTTP/1.1 404 NOT FOUND\r\n\r\nNot Found");
}

#[test]
fn never_created_identifiers_are_not_found() {
    let mut table = empty_table();
    serve(&mut table, &post("Ana", "ana@x.com"));
    for id in ["2", "999", "0", "-1", "2147483647"] {
        let got = serve(&mut table, &format!("GET /users/{} HTTP/1.1\r\n\r\n", id));
        assert_eq!((got.status.code(), got.body.as_str()), (404, "User not found"));
        let gone = serve(&mut table, &format!("DELETE /users/{} HTTP/1.1\r\n\r\n", id));
        assert_eq!((gone.status.code(), gone.body.as_str()), (404, "User not found"));
    }
    assert_eq!(table.rows.len(), 1);
}

#[test]
fn get_of_a_user_that_is_there() {
    let mut table = empty_table();
    serve(&mut table, &post("Ana", "ana@x.com"));
    serve(&mut table, &post("Bo", "bo@x.com"));
    let got = serve(&mut table, "GET /users/2 HTTP/1.1\r\n\r\n");
    assert_eq!(got.status.code(), 200);
    assert_eq!(got.body, "{\"id\":2,\"name\":\"Bo\",\"email\":\"bo@x.com\"}");
}

#[test]
fn second_delete_is_not_found() {
    let mut table = empty_table();
    serve(&mut table, &post("Ana", "ana@x.com"));
    let first = serve(&mut table, "DELETE /users/1 HTTP/1.1\r\n\r\n");
    assert_eq!((first.status.code(), first.body.as_str()), (200, "User Deleted"));
    let second = serve(&mut table, "DELETE /users/1 HTTP/1.1\r\n\r\n");
    assert_eq!((second.status.code(), second.body.as_str()), (404, "User not found"));
    let got = serve(&mut table, "GET /users/1 HTTP/1.1\r\n\r\n");
    assert_eq!(got.status.code(), 404);
}

#[test]
fn identifiers_are_not_issued_again() {
    let mut table = empty_table();
    serve(&mut table, &post("Ana", "ana@x.com"));
    serve(&mut table, "DELETE /users/1 HTTP/1.1\r\n\r\n");
    serve(&mut table, &post("Bo", "bo@x.com"));
    let listed = serve(&mut table, "GET /users HTTP/1.1\r\n\r\n");
    assert_eq!(listed.body, "[{\"id\":2,\"name\":\"Bo\",\"email\":\"bo@x.com\"}]");
}

#[test]
fn update_of_a_missing_user_succeeds() {
    let mut table = empty_table();
    let reply = serve(
        &mut table,
        "PUT /users/41 HTTP/1.1\r\n\r\n{\"name\":\"Ana\",\"email\":\"ana@x.com\"}",
    );
    assert_eq!(reply.status.code(), 200);
    assert_eq!(reply.body, "User Updated");
    assert!(table.rows.is_empty());
}

#[test]
fn update_changes_name_and_email() {
    let mut table = empty_table();
    serve(&mut table, &post("Ana", "ana@x.com"));
    let reply = serve(
        &mut table,
        "PUT /users/1 HTTP/1.1\r\n\r\n{\"name\":\"Anna\",\"email\":\"anna@x.com\"}",
    );
    assert_eq!((reply.status.code(), reply.body.as_str()), (200, "User Updated"));
    let got = serve(&mut table, "GET /users/1 HTTP/1.1\r\n\r\n");
    assert_eq!(got.body, "{\"id\":1,\"name\":\"Anna\",\"email\":\"anna@x.com\"}");
}

#[test]
fn empty_table_lists_an_empty_array() {
    let mut table = empty_table();
    let listed = serve(&mut table, "GET /users HTTP/1.1\r\n\r\n");
    assert_eq!(listed.status.code(), 200);
    assert_eq!(listed.body, "[]");
    assert_eq!(listed.to_text(), "HTTP/1.1 200 OK\r\nContent-Type: application/json\r\n\r\n[]");
}

#[test]
fn malformed_json_is_a_server_error() {
    let mut table = empty_table();
    for request in [
        "POST /user HTTP/1.1\r\n\r\n{\"name\":\"Ana\",\"email\":",
        "POST /user HTTP/1.1\r\n\r\nnot json",
        "POST /user HTTP/1.1\r\n\r\n",
        "PUT /users/1 HTTP/1.1\r\n\r\n{\"name\":\"Ana\",\"email\":",
        "PUT /users/1 HTTP/1.1\r\n\r\n{\"name\":\"Ana\"}",
        "PUT /users/1 HTTP/1.1\r\n\r\n",
    ] {
        let reply = serve(&mut table, request);
        assert_eq!(reply.status.code(), 500, "{:?}", request);
        assert_eq!(reply.body, "Error");
        assert_eq!(reply.to_text(), "HTTP/1.1 500 INTERNAL SERVER ERROR\r\n\r\nError");
    }
    assert!(table.rows.is_empty());
    assert_eq!(table.issued, 0);
}
