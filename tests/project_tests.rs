use apish::api_grammar::parse_argument;
use apish::builder::SyntaxError;
use apish::model_builder::get_models;
use apish::project::{DataType, Project, ProjectArgument};
use apish::tables::get_mime_types;
use apish::text::normalize_parsed;

fn build(text: &str) -> Result<Project, SyntaxError> {
    Project::new_from_source(text, Vec::new(), None)
}

fn strings(v: &[&str]) -> Vec<String> {
    v.iter().map(|s| s.to_string()).collect()
}

#[test]
fn test_item_parser() {
    let valid_expressions = vec![
        " x-my-auth string alias auth required (default_value): \"It does something\"\n",
        " x-my-optional string alias opt1: \"If present, something will happen\"\n",
        " id string: \"Unique identifier\"\n",
        " filter bool: \"Possible values name date\"\n",
    ];
    let expected_args = vec![
        ProjectArgument::new("x-my-auth", DataType::String, "auth", true, "default_value"),
        ProjectArgument::new("x-my-optional", DataType::String, "opt1", false, ""),
        ProjectArgument::new("id", DataType::String, "", false, ""),
        ProjectArgument::new("filter", DataType::Boolean, "", false, ""),
    ];
    let mut current_case = 0;
    for expr in valid_expressions {
        let arg = parse_argument(expr).unwrap();
        let expected = expected_args.get(current_case).unwrap();
        current_case += 1;
        assert_eq!(&arg, expected);
    }
}

#[test]
fn argument_description_and_types() {
    let arg = parse_argument(" x-my-auth string alias auth required (default_value): \"It does something\"").unwrap();
    assert_eq!(arg.description, "It does something");
    assert_eq!(parse_argument("n number: \"d\"").unwrap().data_type, DataType::Number);
    assert_eq!(parse_argument("n date: \"d\"").unwrap().data_type, DataType::Unknown);
    assert_eq!(parse_argument("n alias: \"d\"").is_none(), true);
    assert!(parse_argument("n string \"no colon\"").is_none());
    assert!(parse_argument("n string: unquoted").is_none());
}

const API: &str = "title: \"Pets\"
version: 1.0

headers:
 x-auth string alias auth required: \"token\"
 x-trace string: \"trace id\"

params:
 id number required: \"identifier\"

query:
 filter bool alias f: \"filter\"

status_codes:
 404: \"Nothing here\" retryable
 299: \"Custom\"

headers_groups:
 common: x-trace, auth

apis:
 /pets/{id}:
  get: \"Gets a pet\"
   operation: getPet
   use_cases: \"find one\", \"show\"
   headers: auth, @common, unknown
   params: id
   query: f
   tags: pets
   status_codes: 200, 404, 599
   produces: json, custom/type
   example: pet_example
  delete: \"Deletes a pet\"
   status_codes: 204
";

#[test]
fn endpoint_configuration_is_resolved() {
    let project = build(API).unwrap();
    assert_eq!(project.title, "Pets");
    assert_eq!(project.version, "1.0");
    assert_eq!(project.endpoints.len(), 1);
    let ep = &project.endpoints[0];
    assert_eq!(ep.path, "/pets/{id}");
    let get = ep.definition.get.as_ref().unwrap();
    assert_eq!(get.description, "Gets a pet");
    assert_eq!(get.operation, "getPet");
    assert_eq!(get.use_cases, strings(&["find one", "show"]));
    assert_eq!(get.headers, strings(&["auth", "x-trace", "auth", "unknown"]));
    assert_eq!(get.path_params, strings(&["id"]));
    assert_eq!(get.query_string, strings(&["f"]));
    assert_eq!(get.tags, strings(&["pets"]));
    assert_eq!(get.status_codes, strings(&["200", "404", "599"]));
    assert_eq!(get.produces, strings(&["json", "custom/type"]));
    assert_eq!(get.example, "pet_example");
    let delete = ep.definition.delete.as_ref().unwrap();
    assert_eq!(delete.status_codes, strings(&["204"]));
    assert!(ep.definition.post.is_none());
}

#[test]
fn references_resolve_in_order() {
    let project = build(API).unwrap();
    let get = project.endpoints[0].definition.get.as_ref().unwrap();
    let headers = project.get_headers(&get.headers);
    let names: Vec<&str> = headers.iter().map(|a| a.name.as_str()).collect();
    assert_eq!(names, vec!["x-auth", "x-trace", "x-auth"]);
    assert_eq!(project.get_path_params(&get.path_params)[0].data_type, DataType::Number);
    assert_eq!(project.get_query_strings(&get.query_string)[0].name, "filter");
}

#[test]
fn status_codes_resolve_against_catalog_then_table() {
    let project = build(API).unwrap();
    let get = project.endpoints[0].definition.get.as_ref().unwrap();
    let codes = project.get_status_codes(&get.status_codes);
    assert_eq!(codes.len(), 2);
    assert_eq!(codes[0].code, "200");
    assert_eq!(codes[0].description, "Ok");
    assert!(!codes[0].is_retryable);
    assert_eq!(codes[1].code, "404");
    assert_eq!(codes[1].description, "Nothing here");
    assert!(codes[1].is_retryable);
    assert_eq!(project.get_status_code("299").unwrap().description, "Custom");
}

#[test]
fn fallback_status_table() {
    let project = build("").unwrap();
    let nf = project.get_status_code("404").unwrap();
    assert_eq!(nf.code, "404");
    assert_eq!(nf.description, "Not Found");
    assert!(!nf.is_retryable);
    assert!(project.get_status_code("599").is_none());
    assert_eq!(project.get_status_code("418").unwrap().description, "I'm a teapot");
    assert_eq!(project.get_status_code("504").unwrap().description, "Gateway Timeout");
}

#[test]
fn mime_tokens_expand() {
    let out = get_mime_types(&strings(&["json", "custom/type", " png ", "js", "JSON"]));
    assert_eq!(out, strings(&["application/json", "custom/type", "image/png", "application/javascript", "JSON"]));
    assert_eq!(get_mime_types(&strings(&["svg", "multipart"])), strings(&["image/svg+xml", "multipart/form-data"]));
    assert!(get_mime_types(&[]).is_empty());
}

#[test]
fn alias_and_name_resolve_alike() {
    let text = "headers:\n x-my-auth string alias auth: \"a\"\n";
    let project = build(text).unwrap();
    let by_name = project.get_header("x-my-auth").unwrap();
    let by_alias = project.get_header("auth").unwrap();
    assert_eq!(by_name, by_alias);
    assert_eq!(by_alias.name, "x-my-auth");
    assert!(project.get_header(" auth ").is_some());
    assert!(project.get_header("").is_none());
    assert!(project.get_header("other").is_none());
}

#[test]
fn header_alias_reference_scenario() {
    let text = "headers:\n x-auth string alias auth required: \"token\"\napis:\n /a:\n  get: \"g\"\n   headers: auth\n";
    let project = build(text).unwrap();
    let get = project.endpoints[0].definition.get.as_ref().unwrap();
    let headers = project.get_headers(&get.headers);
    assert_eq!(headers.len(), 1);
    assert_eq!(headers[0].name, "x-auth");
    assert_eq!(headers[0].alias, "auth");
    assert!(headers[0].required);
    assert_eq!(headers[0].description, "token");
}

#[test]
fn forward_group_reference_expands_to_nothing() {
    let text = "headers:\n x-trace string: \"t\"\napis:\n /a:\n  get: \"g\"\n   headers: @common\nheaders_groups:\n common: x-trace\n";
    let project = build(text).unwrap();
    let get = project.endpoints[0].definition.get.as_ref().unwrap();
    assert!(get.headers.is_empty());
    assert!(project.get_headers(&get.headers).is_empty());
}

#[test]
fn groups_resolve_against_their_own_section() {
    let text = "query_groups:\n g: q1\nheaders_groups:\n g: h1, h2\nstatus_codes_groups:\n errs: 400, 500\napis:\n /a:\n  post: \"p\"\n   headers: @g\n   query: @g\n   tags: @g\n   status_codes: 201, @errs\n";
    let project = build(text).unwrap();
    let post = project.endpoints[0].definition.post.as_ref().unwrap();
    assert_eq!(post.headers, strings(&["h1", "h2"]));
    assert_eq!(post.query_string, strings(&["q1"]));
    assert!(post.tags.is_empty());
    assert_eq!(post.status_codes, strings(&["201", "400", "500"]));
}

#[test]
fn repeated_sections_replace_and_paths_overwrite() {
    let text = "headers:\n a string: \"1\"\nheaders:\n b string: \"2\"\napis:\n /x:\n  get: \"old\"\n /y:\n  put: \"y\"\n /x:\n  post: \"new\"\n";
    let project = build(text).unwrap();
    assert_eq!(project.headers.len(), 1);
    assert_eq!(project.headers[0].name, "b");
    assert_eq!(project.endpoints.len(), 2);
    assert_eq!(project.endpoints[0].path, "/x");
    assert!(project.endpoints[0].definition.get.is_none());
    assert_eq!(project.endpoints[0].definition.post.as_ref().unwrap().description, "new");
    assert_eq!(project.endpoints[1].path, "/y");
}

#[test]
fn empty_operation_keeps_previous() {
    let text = "apis:\n /a:\n  GET: \"g\"\n   operation: first\n   operation: \"\"\n";
    let project = build(text).unwrap();
    assert_eq!(project.endpoints[0].definition.get.as_ref().unwrap().operation, "first");
}

#[test]
fn grammar_violation_fails_whole_build() {
    assert_eq!(build("title: \"t\"\nnonsense\n").err().unwrap().line, 2);
    assert_eq!(build("apis:\n /a:\n   headers: x\n").err().unwrap().line, 3);
    assert_eq!(build("  stray item\n").err().unwrap().line, 1);
    assert_eq!(build("apis:\n  get: \"no path\"\n").err().unwrap().line, 2);
    assert_eq!(build("status_codes:\n abc: \"x\"\n").err().unwrap().line, 2);
    assert_eq!(build("status_codes:\n 200: \"x\" maybe\n").err().unwrap().line, 2);
    assert_eq!(build("headers: extra\n").err().unwrap().line, 1);
    assert!(build(API).is_ok());
}

#[test]
fn comments_and_blank_lines_are_skipped() {
    let project = build("# heading\n\n   \ntitle: T\n").unwrap();
    assert_eq!(project.title, "T");
}

#[test]
fn models_and_examples_are_carried() {
    let model = get_models("enum E:\n  a\n").unwrap();
    let project = Project::new_from_source("title: x\n", Vec::new(), Some(model)).unwrap();
    assert_eq!(project.models.as_ref().unwrap().enums.len(), 1);
}

#[test]
fn normalize_strips_blanks_and_quotes() {
    assert_eq!(normalize_parsed("  \"quoted text\" "), "quoted text");
    assert_eq!(normalize_parsed("plain"), "plain");
    assert_eq!(normalize_parsed("\""), "\"");
    assert_eq!(normalize_parsed("\"\""), "");
    assert_eq!(normalize_parsed(" é\t"), "é");
}

#[test]
fn data_type_names() {
    assert_eq!(DataType::String.as_str(), "string");
    assert_eq!(DataType::Number.as_str(), "number");
    assert_eq!(DataType::Boolean.as_str(), "boolean");
    assert_eq!(DataType::Unknown.as_str(), "unk");
}

#[test]
fn path_pieces_are_joined() {
    let project = build("apis:\n /users /{id} :\n  get: \"g\"\n").unwrap();
    assert_eq!(project.endpoints[0].path, "/users/{id}");
}

#[test]
fn verbs_ignore_ascii_case() {
    let project = build("apis:\n /a:\n  Get: \"g\"\n  PoSt: \"p\"\n  delete: \"d\"\n").unwrap();
    let def = &project.endpoints[0].definition;
    assert_eq!(def.get.as_ref().unwrap().description, "g");
    assert_eq!(def.post.as_ref().unwrap().description, "p");
    assert_eq!(def.delete.as_ref().unwrap().description, "d");
    assert!(build("apis:\n /a:\n  head: \"h\"\n").is_err());
}
