use apish::api_spec::API;
use apish::model_builder::get_models;
use apish::model_summary::convert;
use apish::open_api::OpenAPI;
use apish::project::{Example, ExampleEntry, Project};

const API_TEXT: &str = "title: Shop
version: \"2\"
headers:
 x-auth string alias auth required: \"token\"
query:
 page number: \"page\"
params:
 id string (none): \"id\"
status_codes:
 200: \"Fine\"
apis:
 /items/{id}:
  get: \"One item\"
   operation: getItem
   params: id
   query: page
   headers: auth
   status_codes: 200, 404, 404
   produces: json, xml, json
   consumes: text
   example: item
";

fn project() -> Project {
    let examples = vec![ExampleEntry {
        name: "item".to_string(),
        examples: vec![
            Example { request: None, response: Some(serde_json::Value::Bool(true)) },
            Example { request: None, response: None },
        ],
    }];
    let model = get_models("enum Color:\n  red\n").unwrap();
    Project::new_from_source(API_TEXT, examples, Some(model)).unwrap()
}

#[test]
fn open_api_operation_parameters_and_responses() {
    let open_api = OpenAPI::new_from_project_spec(&project());
    assert_eq!(open_api.openapi, "3.0.3");
    assert_eq!(open_api.info.title, "Shop");
    assert_eq!(open_api.info.version, "2");
    assert_eq!(open_api.paths.len(), 1);
    let (path, spec) = &open_api.paths[0];
    assert_eq!(path, "/items/{id}");
    let get = spec.get.as_ref().unwrap();
    assert!(spec.post.is_none());
    assert_eq!(get.operation_id, "getItem");
    assert_eq!(get.description, "One item");
    let places: Vec<(&str, &str)> =
        get.parameters.iter().map(|p| (p.name.as_str(), p.where_in.as_str())).collect();
    assert_eq!(places, vec![("x-auth", "header"), ("page", "query"), ("id", "path")]);
    assert!(get.parameters[0].required);
    assert_eq!(get.parameters[1].schema.type_field, "number");
    let codes: Vec<&str> = get.responses.iter().map(|(c, _)| c.as_str()).collect();
    assert_eq!(codes, vec!["200", "404"]);
    assert_eq!(get.responses[0].1.description, "Fine");
    assert_eq!(get.responses[1].1.description, "Not Found");
    let mimes: Vec<&str> = get.responses[0].1.content.iter().map(|(m, _)| m.as_str()).collect();
    assert_eq!(mimes, vec!["application/json", "application/xml"]);
    assert_eq!(get.responses[0].1.content[0].1.schema.type_field, "string");
}

#[test]
fn summary_resolves_each_verb() {
    let p = project();
    let spec = API::new_project_spec(&p);
    assert_eq!(spec.title, "Shop");
    assert_eq!(spec.spec.len(), 1);
    let get = spec.spec[0].1.get.as_ref().unwrap();
    assert_eq!(get.headers.len(), 1);
    assert_eq!(get.headers[0].name, "x-auth");
    assert_eq!(get.params[0].default_value, "none");
    assert_eq!(get.query_strings[0].name, "page");
    assert_eq!(get.status_codes.len(), 3);
    assert_eq!(get.produces, vec!["application/json", "application/xml", "application/json"]);
    assert_eq!(get.consumes, vec!["text/plain"]);
    let examples = get.example.as_ref().unwrap();
    assert_eq!(examples.len(), 2);
    assert!(examples[0].response.is_some());
    assert!(examples[1].response.is_none());
    assert_eq!(spec.models.as_ref().unwrap().enums[0].values, vec!["red"]);
}

#[test]
fn summary_without_matching_example() {
    let p = Project::new_from_source(API_TEXT, Vec::new(), None).unwrap();
    let spec = API::new_project_spec(&p);
    assert!(spec.spec[0].1.get.as_ref().unwrap().example.is_none());
    assert!(spec.models.is_none());
}

#[test]
fn model_summary_marks_required_fields() {
    let model = get_models(
        "enum E:\n  a, b\ntype P:\n  id string required example:7 \"i\"\n  note string[] \"n\"\n",
    )
    .unwrap();
    let summary = convert(&model);
    assert_eq!(summary.enums.len(), 1);
    assert_eq!(summary.entities.len(), 1);
    let fields = &summary.entities[0].fields;
    assert_eq!(fields[0].name, "id");
    assert!(fields[0].is_required);
    assert_eq!(fields[0].example, "");
    assert_eq!(fields[1].name, "note");
    assert!(!fields[1].is_required);
    assert!(fields[1].is_array);
}
