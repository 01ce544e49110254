use maden::{dispatch, Dispatch, HttpMethod, Maden, Response, StringMap};

fn table() -> Maden<&'static str> {
    let mut table: Maden<&'static str> = Maden::new();
    table.add_route(HttpMethod::Get, "/", None, "root");
    table.add_route(HttpMethod::Get, "/users/{id}", None, "get_user");
    table.add_route(HttpMethod::Put, "/users/{id}", None, "update_user");
    table.add_route(HttpMethod::Get, "/items", None, "items");
    table.add_route(HttpMethod::Get, "/items", Some("type=special".to_string()), "special_items");
    table
}

fn is_not_found(response: &Response) -> bool {
    response.status_code == 404
        && response.body == b"{\"status\":404,\"message\":\"Route not found.\"}\r\n"
        && response.headers.get("Content-Type").map(|v| v.as_str()) == Some("application/json")
        && response.headers.get("Content-Length").map(|v| v.as_str()) == Some("45")
        && response.headers.len() == 2
}

#[test]
fn a_matched_request_goes_to_its_handler() {
    let table = table();
    let mut headers = StringMap::new();
    headers.insert("Host".to_string(), "example".to_string());
    match dispatch(&table, "PUT", "/users/42", Some("dry=1&dry=2&flag"), headers, b"{}".to_vec()) {
        Dispatch::Handle { index, handler, request } => {
            assert_eq!(index, 2);
            assert_eq!(*handler, "update_user");
            assert_eq!(request.method, HttpMethod::Put);
            assert_eq!(request.path, "/users/42");
            assert_eq!(request.headers.get("Host").map(|v| v.as_str()), Some("example"));
            assert_eq!(request.path_params.len(), 1);
            assert_eq!(request.path_params.get("id").map(|v| v.as_str()), Some("42"));
            assert_eq!(request.query_params.len(), 1);
            assert_eq!(request.query_params.get("dry").map(|v| v.as_str()), Some("1"));
            assert_eq!(request.body, b"{}");
        }
        Dispatch::Respond(_) => panic!("the request has a route"),
    }
}

#[test]
fn a_request_without_query_has_no_query_parameters() {
    let table = table();
    match dispatch(&table, "GET", "/", None, StringMap::new(), Vec::new()) {
        Dispatch::Handle { handler, request, .. } => {
            assert_eq!(*handler, "root");
            assert!(request.query_params.is_empty());
            assert!(request.path_params.is_empty());
            assert!(request.headers.is_empty());
            assert!(request.body.is_empty());
        }
        Dispatch::Respond(_) => panic!("the request has a route"),
    }
}

#[test]
fn conditions_decide_between_routes_of_one_path() {
    let table = table();
    match dispatch(&table, "GET", "/items", Some("type=special"), StringMap::new(), Vec::new()) {
        Dispatch::Handle { handler, .. } => assert_eq!(*handler, "special_items"),
        Dispatch::Respond(_) => panic!("the request has a route"),
    }
    match dispatch(&table, "GET", "/items", Some("type=other"), StringMap::new(), Vec::new()) {
        Dispatch::Handle { handler, request, .. } => {
            assert_eq!(*handler, "items");
            assert_eq!(request.query_params.get("type").map(|v| v.as_str()), Some("other"));
        }
        Dispatch::Respond(_) => panic!("the request has a route"),
    }
}

#[test]
fn an_unmatched_path_is_not_found() {
    let table = table();
    match dispatch(&table, "GET", "/nowhere", None, StringMap::new(), Vec::new()) {
        Dispatch::Respond(response) => assert!(is_not_found(&response)),
        Dispatch::Handle { .. } => panic!("no route fits"),
    }
}

#[test]
fn an_unregistered_method_is_not_found() {
    let table = table();
    match dispatch(&table, "DELETE", "/users/42", None, StringMap::new(), Vec::new()) {
        Dispatch::Respond(response) => assert!(is_not_found(&response)),
        Dispatch::Handle { .. } => panic!("no route fits"),
    }
}

#[test]
fn an_unknown_method_name_is_not_found() {
    let table = table();
    for name in ["TRACE", "get", "", "BREW"] {
        match dispatch(&table, name, "/", None, StringMap::new(), Vec::new()) {
            Dispatch::Respond(response) => assert!(is_not_found(&response)),
            Dispatch::Handle { .. } => panic!("no method of that name"),
        }
    }
}

#[test]
fn an_empty_table_answers_not_found() {
    let table: Maden<u8> = Maden::new();
    match dispatch(&table, "GET", "/", None, StringMap::new(), Vec::new()) {
        Dispatch::Respond(response) => assert!(is_not_found(&response)),
        Dispatch::Handle { .. } => panic!("no route at all"),
    }
}

#[test]
fn not_found_is_the_same_response_each_time() {
    let response = maden::service::not_found();
    assert!(is_not_found(&response));
}

#[test]
fn interleaved_requests_keep_their_own_parameters() {
    let mut table: Maden<usize> = Maden::new();
    for n in 0..16usize {
        table.add_route(HttpMethod::Get, &format!("/route{}/:value", n), None, n);
    }
    let mut outcomes = Vec::new();
    for round in 0..4usize {
        for n in 0..16usize {
            let path = format!("/route{}/v{}x{}", n, n, round);
            outcomes.push((n, round, dispatch(&table, "GET", &path, None, StringMap::new(), Vec::new())));
        }
    }
    assert_eq!(outcomes.len(), 64);
    for (n, round, outcome) in outcomes {
        match outcome {
            Dispatch::Handle { index, handler, request } => {
                assert_eq!(index, n);
                assert_eq!(*handler, n);
                assert_eq!(request.path, format!("/route{}/v{}x{}", n, n, round));
                assert_eq!(request.path_params.len(), 1);
                assert_eq!(
                    request.path_params.get("value").map(|v| v.as_str()),
                    Some(format!("v{}x{}", n, round).as_str())
                );
            }
            Dispatch::Respond(_) => panic!("the request has a route"),
        }
    }
}
