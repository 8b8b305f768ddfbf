use apish::model_builder::get_models;

const MODELS: &str = "# people and their moods
enum Mood:
  happy, mad
  sad

type Person:
  name string required example:123 \"Full name\"
  age number \"Age in years\"
  mood Mood \"Current mood\"
  friends Person[] \"Known people\"

type ClassRoom:
  students Person[] \"Who attends\"
";

#[test]
fn test_parser() {
    let result = get_models(MODELS).unwrap();
    let mood = result.get_enum("Mood").unwrap();

    assert_eq!(mood.name, "Mood");
    assert_eq!(mood.values, vec!["happy", "mad", "sad"]);

    let person = result.get_entity("Person").unwrap();
    assert_eq!(person.name, "Person");
    assert_eq!(person.fields.len(), 4);
    assert_eq!(person.get_field("name").unwrap().markers.len(), 1);
    assert_eq!(person.get_field("name").unwrap().markers.get(0).unwrap(), "required");
    assert_eq!(person.get_field("name").unwrap().example, "123");

    let class_room = result.get_entity("ClassRoom").unwrap();
    assert_eq!(class_room.name, "ClassRoom");
}

#[test]
fn field_parts_are_read() {
    let result = get_models(MODELS).unwrap();
    let person = result.get_entity("Person").unwrap();
    let friends = person.get_field("friends").unwrap();
    assert_eq!(friends.data_type, "Person");
    assert!(friends.is_array);
    assert_eq!(friends.description, "Known people");
    assert_eq!(friends.example, "");
    let name = person.get_field("name").unwrap();
    assert_eq!(name.data_type, "string");
    assert!(!name.is_array);
    assert_eq!(name.tags, vec![("example".to_string(), "123".to_string())]);
}

#[test]
fn repeated_field_keeps_the_later_declaration() {
    let text = "type User:\n  id string \"first\"\n  other bool \"x\"\n  id number required \"second\"\n";
    let model = get_models(text).unwrap();
    let user = model.get_entity("User").unwrap();
    assert_eq!(user.fields.len(), 2);
    let ids: Vec<_> = user.fields.iter().filter(|f| f.identifier == "id").collect();
    assert_eq!(ids.len(), 1);
    assert_eq!(ids[0].data_type, "number");
    assert_eq!(ids[0].description, "second");
    assert_eq!(ids[0].markers, vec!["required"]);
}

#[test]
fn enum_values_keep_order_and_duplicates() {
    let model = get_models("enum Level:\n  low, high, low\n").unwrap();
    assert_eq!(model.get_enum("Level").unwrap().values, vec!["low", "high", "low"]);
}

#[test]
fn repeated_tag_key_keeps_the_later_value() {
    let model = get_models("type T:\n  f string example:a example:b \"d\"\n").unwrap();
    let f = model.get_entity("T").unwrap().get_field("f").unwrap();
    assert_eq!(f.example, "b");
    assert_eq!(f.tags.len(), 1);
}

#[test]
fn model_syntax_error_names_the_line() {
    let err = get_models("type T:\n  f string \"ok\"\nnot a declaration\n").err().unwrap();
    assert_eq!(err.line, 3);
    let err = get_models("  orphan\n").err().unwrap();
    assert_eq!(err.line, 1);
    let err = get_models("type T:\n  f string missing description\n").err().unwrap();
    assert_eq!(err.line, 2);
}

#[test]
fn empty_model_document() {
    let model = get_models("").unwrap();
    assert!(model.entities.is_empty());
    assert!(model.enums.is_empty());
}
