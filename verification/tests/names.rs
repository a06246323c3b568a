use jlpkg::{default_project_name, is_valid_project_name, normalize_julia_name};

#[test]
fn valid_names() {
    assert!(is_valid_project_name("Foo"));
    assert!(is_valid_project_name("_x1"));
    assert!(is_valid_project_name("CMS_HGLM"));
    assert!(!is_valid_project_name(""));
    assert!(!is_valid_project_name("1abc"));
    assert!(!is_valid_project_name("julia-pkg-cli"));
    assert!(!is_valid_project_name("my package"));
    assert!(!is_valid_project_name("caf\u{e9}"));
}

#[test]
fn normalizes_documented_examples() {
    assert_eq!(normalize_julia_name("julia-pkg-cli"), "JuliaPkgCli");
    assert_eq!(normalize_julia_name("my package"), "MyPackage");
}

#[test]
fn normalize_drops_other_characters() {
    assert_eq!(normalize_julia_name("CMS_HGLM"), "CMSHGLM");
    assert_eq!(normalize_julia_name("--a--b--"), "AB");
    assert_eq!(normalize_julia_name("x1 2y"), "X12y");
    assert_eq!(normalize_julia_name("\u{e9}t\u{e9}"), "T");
    assert_eq!(normalize_julia_name(""), "");
    assert_eq!(normalize_julia_name("---"), "");
}

#[test]
fn normalize_is_idempotent_on_examples() {
    for s in ["julia-pkg-cli", "my package", "a_b-c", "9lives", "x"] {
        let once = normalize_julia_name(s);
        assert_eq!(normalize_julia_name(&once), once);
        assert!(once.chars().all(|c| c.is_ascii_alphanumeric()));
    }
}

#[test]
fn default_name_keeps_valid_directory_names() {
    assert_eq!(default_project_name("CMS_HGLM"), "CMS_HGLM");
    assert_eq!(default_project_name("julia-pkg-cli"), "JuliaPkgCli");
}
