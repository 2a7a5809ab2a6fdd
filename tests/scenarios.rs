use cli_rs::config::default_fields;
use cli_rs::json::Json;
use cli_rs::query::{get_fields, run, QueryError};

fn text(s: &str) -> Json {
    Json::Str(s.to_string())
}

fn obj(entries: Vec<(&str, Json)>) -> Json {
    Json::Object(entries.into_iter().map(|(k, v)| (k.to_string(), v)).collect())
}

fn fields(names: &[&str]) -> Vec<String> {
    names.iter().map(|n| n.to_string()).collect()
}

fn media_item() -> Json {
    obj(vec![
        ("stack", text("media")),
        ("stage", text("PROD")),
        ("app", Json::Array(vec![text("router")])),
        ("arn", text("arn:1")),
    ])
}

fn instances_data(instances: Json) -> Json {
    obj(vec![("instances", instances)])
}

fn cells(row: &[Option<&str>]) -> Vec<Option<String>> {
    row.iter().map(|c| c.map(|s| s.to_string())).collect()
}

#[test]
fn scenario_default_fields_one_row() {
    let data = instances_data(Json::Array(vec![media_item()]));
    let grid = get_fields(&data, "instances", &default_fields()).unwrap();
    assert_eq!(grid, vec![cells(&[Some("media"), Some("PROD"), Some("router"), Some("arn:1")])]);
}

#[test]
fn scenario_default_fields_rendered() {
    let data = instances_data(Json::Array(vec![media_item()]));
    let out = run(&data, "instances", &default_fields()).unwrap();
    assert_eq!(
        out,
        " stack  stage  app/0   arn \n media  PROD   router  arn:1 \n"
    );
}

#[test]
fn scenario_index_out_of_range_is_absent() {
    let data = instances_data(Json::Array(vec![media_item()]));
    let grid = get_fields(&data, "instances", &fields(&["app/1"])).unwrap();
    assert_eq!(grid, vec![cells(&[None])]);
}

#[test]
fn scenario_index_out_of_range_renders_empty() {
    let data = instances_data(Json::Array(vec![media_item()]));
    let out = run(&data, "instances", &fields(&["stack", "app/1"])).unwrap();
    assert_eq!(out, " stack  app/1 \n media   \n");
}

#[test]
fn scenario_unknown_endpoint() {
    let data = instances_data(Json::Array(vec![media_item()]));
    let r = get_fields(&data, "certificates", &default_fields());
    assert!(matches!(r, Err(QueryError::UnknownEndpoint { ref endpoint }) if endpoint == "certificates"));
    let r = run(&data, "certificates", &default_fields());
    assert!(matches!(r, Err(QueryError::UnknownEndpoint { ref endpoint }) if endpoint == "certificates"));
}

#[test]
fn scenario_unexpected_shape() {
    let data = instances_data(media_item());
    let r = get_fields(&data, "instances", &default_fields());
    assert!(matches!(r, Err(QueryError::UnexpectedShape { ref endpoint }) if endpoint == "instances"));
    let r = run(&data, "instances", &default_fields());
    assert!(matches!(r, Err(QueryError::UnexpectedShape { ref endpoint }) if endpoint == "instances"));
}

#[test]
fn scenario_heterogeneous_items() {
    let other = obj(vec![("stack", text("deploy")), ("stage", text("CODE")), ("arn", text("arn:2"))]);
    let data = instances_data(Json::Array(vec![media_item(), other]));
    let grid = get_fields(&data, "instances", &default_fields()).unwrap();
    assert_eq!(
        grid,
        vec![
            cells(&[Some("media"), Some("PROD"), Some("router"), Some("arn:1")]),
            cells(&[Some("deploy"), Some("CODE"), None, Some("arn:2")]),
        ]
    );
    assert!(grid.iter().all(|row| row.len() == 4));
}

#[test]
fn data_that_is_not_a_mapping_has_no_endpoint() {
    let data = Json::Array(vec![media_item()]);
    let r = get_fields(&data, "instances", &default_fields());
    assert!(matches!(r, Err(QueryError::UnknownEndpoint { .. })));
}

#[test]
fn endpoint_is_a_key_not_a_path() {
    let data = obj(vec![("a", obj(vec![("b", Json::Array(vec![]))]))]);
    let r = get_fields(&data, "a/b", &default_fields());
    assert!(matches!(r, Err(QueryError::UnknownEndpoint { ref endpoint }) if endpoint == "a/b"));
}

#[test]
fn empty_endpoint_array_gives_empty_grid_and_header_only_table() {
    let data = instances_data(Json::Array(vec![]));
    let grid = get_fields(&data, "instances", &default_fields()).unwrap();
    assert!(grid.is_empty());
    let out = run(&data, "instances", &fields(&["stack", "arn"])).unwrap();
    assert_eq!(out, " stack  arn \n");
}

#[test]
fn no_fields_gives_empty_rows() {
    let data = instances_data(Json::Array(vec![media_item(), media_item()]));
    let grid = get_fields(&data, "instances", &fields(&[])).unwrap();
    assert_eq!(grid, vec![Vec::<Option<String>>::new(), Vec::new()]);
}

#[test]
fn escape_character_in_a_value_fails_the_query() {
    let item = obj(vec![("stack", text("\u{1b}[31mred"))]);
    let data = instances_data(Json::Array(vec![item]));
    let grid = get_fields(&data, "instances", &fields(&["stack"])).unwrap();
    assert_eq!(grid, vec![cells(&[Some("\u{1b}[31mred")])]);
    let r = run(&data, "instances", &fields(&["stack"]));
    assert!(matches!(r, Err(QueryError::UnrenderableText { ref endpoint }) if endpoint == "instances"));
}
