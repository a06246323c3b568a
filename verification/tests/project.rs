use jlpkg::{
    add_project_identity, init_action, init_options, module_definition, new_project_toml,
    project_toml_text, project_with_identity, read_top_level_value, InitAction, InitError,
};

const UUID: &str = "0f1e2d3c-4b5a-4978-8695-a4b3c2d1e0f9";

#[test]
fn reads_top_level_values() {
    let text = "# project\nname = \"Foo\"\n uuid= \"abc\" \n\n[deps]\nname = \"Bar\"\n";
    assert_eq!(read_top_level_value(text, "name").as_deref(), Some("Foo"));
    assert_eq!(read_top_level_value(text, "uuid").as_deref(), Some("abc"));
    assert_eq!(read_top_level_value(text, "version"), None);
}

#[test]
fn table_stops_the_scan() {
    let text = "[deps]\nname = \"Inner\"\n";
    assert_eq!(read_top_level_value(text, "name"), None);
}

#[test]
fn value_quotes_and_spaces_are_stripped() {
    assert_eq!(read_top_level_value("name=\"\"X\"\"", "name").as_deref(), Some("X"));
    assert_eq!(read_top_level_value("version = 1.0 # c", "version").as_deref(), Some("1.0 # c"));
    assert_eq!(read_top_level_value("a = b = c", "a").as_deref(), Some("b = c"));
    assert_eq!(read_top_level_value("nameless line\nname = \"N\"", "name").as_deref(), Some("N"));
}

#[test]
fn new_project_text() {
    assert_eq!(
        project_toml_text("Foo", UUID),
        format!("name = \"Foo\"\nuuid = \"{}\"\nversion = \"0.1.0\"\n", UUID)
    );
    let t = new_project_toml("Foo").unwrap();
    assert_eq!(read_top_level_value(&t, "name").as_deref(), Some("Foo"));
    assert_eq!(read_top_level_value(&t, "uuid").unwrap().len(), 36);
    assert_eq!(read_top_level_value(&t, "version").as_deref(), Some("0.1.0"));
}

#[test]
fn identity_added_in_front_of_existing_content() {
    let content = "[deps]\nCSV = \"336ed68f-0bac-5ca0-87d4-7b16caf5d00b\"\n";
    let t = project_with_identity(content, "Foo", UUID);
    assert_eq!(
        t,
        format!("name = \"Foo\"\nuuid = \"{}\"\nversion = \"0.1.0\"\n\n{}", UUID, content)
    );
    assert!(t.ends_with(content));
}

#[test]
fn identity_keeps_present_fields() {
    let content = "version = \"2.3.0\"\n";
    let t = project_with_identity(content, "Foo", UUID);
    assert_eq!(t, format!("name = \"Foo\"\nuuid = \"{}\"\n\n{}", UUID, content));
    assert_eq!(read_top_level_value(&t, "version").as_deref(), Some("2.3.0"));
}

#[test]
fn identity_of_empty_file() {
    let t = project_with_identity("", "Foo", UUID);
    assert_eq!(t, format!("name = \"Foo\"\nuuid = \"{}\"\nversion = \"0.1.0\"\n", UUID));
}

#[test]
fn identity_with_existing_uuid_needs_no_random_bytes() {
    let content = "uuid = \"abc\"\n";
    let t = add_project_identity(content, "Foo").unwrap();
    assert_eq!(t, "name = \"Foo\"\nversion = \"0.1.0\"\n\nuuid = \"abc\"\n");
}

#[test]
fn identity_then_fields_are_present() {
    let content = "[deps]\nX = \"1\"\n";
    let t = add_project_identity(content, "Bar").unwrap();
    assert_eq!(read_top_level_value(&t, "name").as_deref(), Some("Bar"));
    assert_eq!(read_top_level_value(&t, "uuid").unwrap().len(), 36);
    assert_eq!(read_top_level_value(&t, "version").as_deref(), Some("0.1.0"));
}

#[test]
fn module_file_text() {
    assert_eq!(module_definition("Foo"), "module Foo\n\nend\n");
}

fn strings(v: &[&str]) -> Vec<String> {
    v.iter().map(|s| s.to_string()).collect()
}

#[test]
fn init_options_read() {
    let o = init_options(&strings(&["--package", "--name", "Foo"])).unwrap();
    assert!(o.package);
    assert_eq!(o.requested_name.as_deref(), Some("Foo"));
    let o = init_options(&vec![]).unwrap();
    assert!(!o.package);
    assert_eq!(o.requested_name, None);
    assert!(matches!(init_options(&strings(&["--name"])), Err(InitError::NameRequiresValue)));
    assert!(matches!(
        init_options(&strings(&["--name", "--package"])),
        Err(InitError::NameRequiresValue)
    ));
}

#[test]
fn init_decisions() {
    assert!(matches!(init_action(&None, "julia-pkg-cli", &None), Ok(InitAction::Create(n)) if n == "JuliaPkgCli"));
    assert!(matches!(init_action(&None, "CMS_HGLM", &None), Ok(InitAction::Create(n)) if n == "CMS_HGLM"));
    assert!(matches!(init_action(&Some("1x".to_string()), "dir", &None), Err(InitError::InvalidName(n)) if n == "1x"));
    assert!(matches!(init_action(&None, "---", &None), Err(InitError::InvalidName(n)) if n.is_empty()));
    let named = Some("name = \"Foo\"\n\n[deps]\n".to_string());
    assert!(matches!(init_action(&None, "dir", &named), Ok(InitAction::AddIdentity(n)) if n == "Foo"));
    let existing = Some(format!("name = \"Foo\"\nuuid = \"{}\"\nversion = \"1.2.0\"\n", UUID));
    assert!(matches!(init_action(&None, "dir", &existing), Ok(InitAction::AlreadyInitialized(n)) if n == "Foo"));
    assert!(matches!(
        init_action(&Some("Bar".to_string()), "dir", &existing),
        Err(InitError::NameConflict { existing, requested }) if existing == "Foo" && requested == "Bar"
    ));
    let bad = Some("name = \"my pkg\"\n".to_string());
    assert!(matches!(init_action(&None, "dir", &bad), Err(InitError::InvalidExistingName(n)) if n == "my pkg"));
    let anonymous = Some("[deps]\n".to_string());
    assert!(matches!(init_action(&None, "dir", &anonymous), Ok(InitAction::AddIdentity(n)) if n == "dir"));
}

#[test]
fn init_completes_a_named_project() {
    let content = "name = \"Foo\"\n\n[deps]\n";
    let t = add_project_identity(content, "Foo").unwrap();
    assert!(t.ends_with(content));
    assert_eq!(read_top_level_value(&t, "name").as_deref(), Some("Foo"));
    assert_eq!(read_top_level_value(&t, "uuid").unwrap().len(), 36);
    assert_eq!(read_top_level_value(&t, "version").as_deref(), Some("0.1.0"));
    assert!(matches!(init_action(&None, "dir", &Some(t)), Ok(InitAction::AlreadyInitialized(n)) if n == "Foo"));
}

#[test]
fn init_twice_settles() {
    let t = new_project_toml("Foo").unwrap();
    assert!(matches!(init_action(&Some("Foo".to_string()), "dir", &Some(t)), Ok(InitAction::AlreadyInitialized(n)) if n == "Foo"));
    let t = add_project_identity("[deps]\n", "dir").unwrap();
    assert!(matches!(init_action(&None, "dir", &Some(t)), Ok(InitAction::AlreadyInitialized(n)) if n == "dir"));
}
