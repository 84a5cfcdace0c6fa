use helados::handlers::{finish, plan, schema, Command, Outcome, Plan, Response, Status};
use helados::model::{record_json, records_json, Helado};
use helados::request::{get_id, parse_i32, request_body, route, Route};

fn helado(id: Option<i32>, sabor: &str, stock: &str) -> Helado {
    Helado { id, sabor: sabor.to_string(), stock: stock.to_string() }
}

fn run(request: &str, body: Option<Helado>) -> Command {
    match plan(request, body) {
        Plan::Run(cmd) => cmd,
        Plan::Respond(r) => panic!("expected a statement, got {:?}", r),
    }
}

fn respond(request: &str, body: Option<Helado>) -> Response {
    match plan(request, body) {
        Plan::Respond(r) => r,
        Plan::Run(cmd) => panic!("expected a response, got {:?}", cmd),
    }
}

#[test]
fn post_then_get_scenario() {
    let post = "POST /helados HTTP/1.1\r\nHost: x\r\n\r\n{\"sabor\":\"vanilla\",\"stock\":\"high\"}";
    assert_eq!(request_body(post), "{\"sabor\":\"vanilla\",\"stock\":\"high\"}");
    let cmd = run(post, Some(Helado::new("vanilla".to_string(), "high".to_string())));
    assert_eq!(cmd, Command::Insert { sabor: "vanilla".to_string(), stock: "high".to_string() });
    let created = finish(&cmd, Outcome::Affected(1));
    assert_eq!(created.status, Status::Success);
    assert_eq!(created.content, "Helado created");

    let get = run("GET /helados/1 HTTP/1.1\r\n\r\n", None);
    assert_eq!(get, Command::SelectOne { id: 1 });
    let found = finish(&get, Outcome::Row(Some(helado(Some(1), "vanilla", "high"))));
    assert_eq!(found.status, Status::Success);
    assert_eq!(found.content, "{\"id\":1,\"sabor\":\"vanilla\",\"stock\":\"high\"}");
    assert_eq!(
        found.render(),
        "HTTP/1.1 200 OK\r\nContent-Type: application/json\r\n\r\n{\"id\":1,\"sabor\":\"vanilla\",\"stock\":\"high\"}"
    );
}

#[test]
fn delete_missing_scenario() {
    let cmd = run("DELETE /helados/999 HTTP/1.1\r\n\r\n", None);
    assert_eq!(cmd, Command::Delete { id: 999 });
    let r = finish(&cmd, Outcome::Affected(0));
    assert_eq!(r.status, Status::NotFound);
    assert_eq!(r.content, "Helado not found");
    assert_eq!(r.render(), "HTTP/1.1 404 NOT FOUND\r\n\r\nHelado not found");
}

#[test]
fn unknown_path_scenario() {
    for req in ["GET /unknown HTTP/1.1\r\n\r\n", "POST /unknown HTTP/1.1\r\n\r\n{}", "PATCH /helados/1 HTTP/1.1\r\n\r\n"] {
        let r = respond(req, Some(helado(None, "a", "b")));
        assert_eq!(r.status, Status::NotFound);
        assert_eq!(r.content, "404 not found");
    }
}

#[test]
fn routes_in_order() {
    assert_eq!(route("POST /helados HTTP/1.1"), Route::Create);
    assert_eq!(route("POST /helados/3 HTTP/1.1"), Route::Create);
    assert_eq!(route("GET /helados/3 HTTP/1.1"), Route::GetOne);
    assert_eq!(route("GET /helados HTTP/1.1"), Route::GetAll);
    assert_eq!(route("GET /heladosx"), Route::GetAll);
    assert_eq!(route("PUT /helados/3 HTTP/1.1"), Route::Update);
    assert_eq!(route("PUT /helados HTTP/1.1"), Route::NotFound);
    assert_eq!(route("DELETE /helados/3 HTTP/1.1"), Route::Delete);
    assert_eq!(route("DELETE /helados HTTP/1.1"), Route::NotFound);
    assert_eq!(route(""), Route::NotFound);
    assert_eq!(route("get /helados"), Route::NotFound);
}

#[test]
fn get_id_cases() {
    assert_eq!(get_id("GET /helados/42 HTTP/1.1\r\n"), "42");
    assert_eq!(get_id("GET /helados/7/extra HTTP/1.1"), "7");
    assert_eq!(get_id("GET /helados/  9 HTTP/1.1"), "");
    assert_eq!(get_id("GET /helados/ HTTP/1.1\r\n\r\n"), "");
    assert_eq!(get_id("GET /helados/5\tHTTP/1.1"), "5");
    assert_eq!(get_id("GET /helados"), "");
    assert_eq!(get_id("GET /helados/"), "");
    assert_eq!(get_id("no slashes"), "");
}

#[test]
fn body_after_first_blank_line() {
    assert_eq!(request_body("A\r\n\r\nB\r\n\r\nC"), "B\r\n\r\nC");
    assert_eq!(request_body("A\r\nB"), "");
    assert_eq!(request_body("A\r\n\r\n"), "");
    assert_eq!(request_body(""), "");
}

#[test]
fn integer_ids() {
    assert_eq!(parse_i32("0"), Some(0));
    assert_eq!(parse_i32("+5"), Some(5));
    assert_eq!(parse_i32("-0"), Some(0));
    assert_eq!(parse_i32("007"), Some(7));
    assert_eq!(parse_i32("2147483647"), Some(i32::MAX));
    assert_eq!(parse_i32("-2147483648"), Some(i32::MIN));
    assert_eq!(parse_i32("2147483648"), None);
    assert_eq!(parse_i32("-2147483649"), None);
    assert_eq!(parse_i32("99999999999999999999"), None);
    assert_eq!(parse_i32("99999999999999999999x"), None);
    assert_eq!(parse_i32(""), None);
    assert_eq!(parse_i32("-"), None);
    assert_eq!(parse_i32("+"), None);
    assert_eq!(parse_i32("12a"), None);
    assert_eq!(parse_i32(" 1"), None);
    assert_eq!(parse_i32("\u{661}"), None);
}

#[test]
fn bad_id_or_body_is_internal_error() {
    for (req, body) in [
        ("GET /helados/  9 HTTP/1.1\r\n\r\n", None),
        ("GET /helados/abc HTTP/1.1\r\n\r\n", None),
        ("DELETE /helados/ HTTP/1.1\r\n\r\n", None),
        ("PUT /helados/x HTTP/1.1\r\n\r\n{}", Some(helado(None, "a", "b"))),
        ("PUT /helados/1 HTTP/1.1\r\n\r\nnot json", None),
        ("POST /helados HTTP/1.1\r\n\r\nnot json", None),
    ] {
        let r = respond(req, body);
        assert_eq!(r.status, Status::InternalError);
        assert_eq!(r.content, "Internal error");
        assert_eq!(r.render(), "HTTP/1.1 500 INTERNAL ERROR\r\n\r\nInternal error");
    }
}

#[test]
fn update_ignores_body_id() {
    let cmd = run("PUT /helados/3 HTTP/1.1\r\n\r\n{}", Some(helado(Some(8), "fresa", "low")));
    assert_eq!(cmd, Command::Update { id: 3, sabor: "fresa".to_string(), stock: "low".to_string() });
    assert_eq!(cmd.sql(), "UPDATE helados SET sabor = $1, stock = $2 WHERE id = $3");
}

#[test]
fn absent_id_answers() {
    let get = finish(&Command::SelectOne { id: 5 }, Outcome::Row(None));
    assert_eq!((get.status, get.content.as_str()), (Status::NotFound, "Helado not found"));
    let del = finish(&Command::Delete { id: 5 }, Outcome::Affected(0));
    assert_eq!((del.status, del.content.as_str()), (Status::NotFound, "Helado not found"));
    let upd = finish(
        &Command::Update { id: 5, sabor: "a".to_string(), stock: "b".to_string() },
        Outcome::Affected(0),
    );
    assert_eq!((upd.status, upd.content.as_str()), (Status::Success, "Helado updated"));
}

#[test]
fn delete_twice_answers() {
    let cmd = Command::Delete { id: 2 };
    let first = finish(&cmd, Outcome::Affected(1));
    assert_eq!((first.status, first.content.as_str()), (Status::Success, "Helado deleted"));
    let second = finish(&cmd, Outcome::Affected(0));
    assert_eq!((second.status, second.content.as_str()), (Status::NotFound, "Helado not found"));
}

#[test]
fn get_all_array() {
    let cmd = run("GET /helados HTTP/1.1\r\n\r\n", None);
    assert_eq!(cmd, Command::SelectAll);
    assert_eq!(cmd.sql(), "SELECT id, sabor, stock FROM helados");
    let empty = finish(&cmd, Outcome::Rows(vec![]));
    assert_eq!((empty.status, empty.content.as_str()), (Status::Success, "[]"));
    let two = finish(
        &cmd,
        Outcome::Rows(vec![helado(Some(1), "a", "b"), helado(Some(2), "c", "d")]),
    );
    assert_eq!(
        two.content,
        "[{\"id\":1,\"sabor\":\"a\",\"stock\":\"b\"},{\"id\":2,\"sabor\":\"c\",\"stock\":\"d\"}]"
    );
    let parsed: serde_json::Value = serde_json::from_str(&two.content).unwrap();
    assert_eq!(parsed.as_array().unwrap().len(), 2);
}

#[test]
fn json_escapes_and_numbers() {
    let h = helado(Some(-12), "a\"b\\c\n", "caf\u{e9}");
    assert_eq!(record_json(&h), "{\"id\":-12,\"sabor\":\"a\\\"b\\\\c\\n\",\"stock\":\"caf\u{e9}\"}");
    assert_eq!(
        record_json(&helado(Some(0), "\u{1}\u{8}\u{c}\r\t\u{1f}/\u{7f}", "")),
        "{\"id\":0,\"sabor\":\"\\u0001\\b\\f\\r\\t\\u001f/\u{7f}\",\"stock\":\"\"}"
    );
    assert_eq!(record_json(&helado(None, "", "")), "{\"id\":null,\"sabor\":\"\",\"stock\":\"\"}");
    assert_eq!(
        records_json(&vec![helado(Some(i32::MIN), "x", "y")]),
        "[{\"id\":-2147483648,\"sabor\":\"x\",\"stock\":\"y\"}]"
    );
}

#[test]
fn record_json_round_trip() {
    let h = helado(Some(4), "men\"ta\t", "alto");
    let v: serde_json::Value = serde_json::from_str(&record_json(&h)).unwrap();
    assert_eq!(v["id"].as_i64(), Some(4));
    assert_eq!(v["sabor"].as_str(), Some("men\"ta\t"));
    assert_eq!(v["stock"].as_str(), Some("alto"));
    let n: serde_json::Value = serde_json::from_str(&record_json(&helado(None, "a", "b"))).unwrap();
    assert!(n["id"].is_null());
}

#[test]
fn mismatched_outcome_is_internal_error() {
    let r = finish(&Command::Insert { sabor: "a".to_string(), stock: "b".to_string() }, Outcome::Rows(vec![]));
    assert_eq!(r.status, Status::InternalError);
    let f = finish(&Command::SelectAll, Outcome::Failed);
    assert_eq!((f.status, f.content.as_str()), (Status::InternalError, "Internal error"));
}

#[test]
fn statements_text() {
    assert_eq!(Command::SelectOne { id: 1 }.sql(), "SELECT * FROM helados WHERE id = $1");
    assert_eq!(Command::Delete { id: 1 }.sql(), "DELETE FROM helados WHERE id = $1");
    assert_eq!(
        Command::Insert { sabor: String::new(), stock: String::new() }.sql(),
        "INSERT INTO helados (sabor, stock) VALUES ($1, $2)"
    );
    assert!(schema().starts_with("CREATE TABLE IF NOT EXISTS helados"));
}
