use openapi2mcp::cli::{parse_args, Config, Target};
use openapi2mcp::error::Error;
use openapi2mcp::features::{handle_template_features, Features};
use openapi2mcp::gitignore::{is_ignored, matches_gitignore_pattern, parse_gitignore_line};
use openapi2mcp::names::{sanitize, sanitize_name, tool_name, unique_name};
use openapi2mcp::text::split_path;
use openapi2mcp::ir::HttpMethod;

#[test]
fn test_target_from_str() {
    assert!(matches!(
        "typescript".parse::<Target>().unwrap(),
        Target::TypeScript
    ));
    assert!(matches!(
        "ts".parse::<Target>().unwrap(),
        Target::TypeScript
    ));
    assert!(matches!("rust".parse::<Target>().unwrap(), Target::Rust));

    assert!("invalid".parse::<Target>().is_err());
    assert!("python".parse::<Target>().is_err());
}

#[test]
fn test_target_debug() {
    let ts_target = Target::TypeScript;
    let rust_target = Target::Rust;

    assert_eq!(format!("{:?}", ts_target), "TypeScript");
    assert_eq!(format!("{:?}", rust_target), "Rust");
}

#[test]
fn test_config_debug() {
    let config = Config {
        input_file: "/path/to/spec.yaml".to_string(),
        output_dir: "/path/to/output".to_string(),
        server_name: Some("test-server".to_string()),
        language: Target::TypeScript,
        template_dir: None,
    };

    let debug_str = format!("{:?}", config);
    assert!(debug_str.contains("spec.yaml"));
    assert!(debug_str.contains("test-server"));
    assert!(debug_str.contains("TypeScript"));
}

#[test]
fn test_error_display() {
    let io_error = Error::Io("file not found".to_string());
    assert!(io_error.message().contains("IO error"));

    let parse_error = Error::Parse("invalid syntax".to_string());
    assert_eq!(parse_error.message(), "Parse error: invalid syntax");

    let validation_error = Error::Validation("missing field".to_string());
    assert_eq!(validation_error.message(), "Validation error: missing field");

    let generation_error = Error::Generation("template error".to_string());
    assert_eq!(generation_error.message(), "Generation error: template error");
}

#[test]
fn test_parse_args_defaults() {
    let config = parse_args("spec.yaml".to_string(), None, None, None, None).unwrap();
    assert_eq!(config.input_file, "spec.yaml");
    assert_eq!(config.output_dir, "./output");
    assert!(matches!(config.language, Target::TypeScript));
    assert!(config.server_name.is_none());
    assert!(config.template_dir.is_none());
}

#[test]
fn test_parse_args_unknown_language() {
    let result = parse_args(
        "spec.yaml".to_string(),
        None,
        None,
        Some("python".to_string()),
        None,
    );
    match result {
        Err(Error::Parse(msg)) => assert_eq!(msg, "Unknown target: python"),
        _ => panic!("expected a parse error"),
    }
}

#[test]
fn no_replacement() {
    const INPUT: &str = r#"
            // random js code
        "#;
    const EXPECT: &str = INPUT;
    let output = handle_template_features(&Features { auth: true }, INPUT).unwrap();
    assert_eq!(output, EXPECT);
}

#[test]
fn auth_enabled() {
    const INPUT: &str = r#"
            // START_OF Features.Auth
            // // set var
            // const foo = "bar";
            // END_OF Features.Auth
            // log 42
            console.log(42);
            // START_OF Features.Auth
            // const baz = "qux";
            // END_OF Features.Auth
        "#;
    const EXPECT: &str = r#"
            // set var
            const foo = "bar";
            // log 42
            console.log(42);
            const baz = "qux";
        "#;
    let output = handle_template_features(&Features { auth: true }, INPUT).unwrap();
    assert_eq!(output, EXPECT);
}

#[test]
fn auth_disabled() {
    const INPUT: &str = r#"
            // START_OF Features.Auth
            // // set var
            // const foo = "bar";
            // END_OF Features.Auth
            // log 42
            console.log(42);
            // START_OF Features.Auth
            // const baz = "qux";
            // END_OF Features.Auth
        "#;
    const EXPECT: &str = r#"
            // log 42
            console.log(42);
        "#;
    let output = handle_template_features(&Features { auth: false }, INPUT).unwrap();
    assert_eq!(output, EXPECT);
}

#[test]
#[should_panic]
fn invalid_feature() {
    const INPUT: &str = r#"
            // START_OF Features.Invalid
            // const foo = "bar";
            // END_OF Features.Invalid
        "#;
    let _output = handle_template_features(&Features { auth: true }, INPUT).unwrap();
}

#[test]
fn parse_gitignore_negation() {
    assert_eq!(
        parse_gitignore_line("!important.log"),
        Some(("important.log".into(), true))
    );
    assert_eq!(
        parse_gitignore_line("*.log"),
        Some(("*.log".into(), false))
    );
    assert_eq!(
        parse_gitignore_line("  !foo  "),
        Some(("foo".into(), true))
    );
    assert_eq!(parse_gitignore_line("# comment"), None);
    assert_eq!(parse_gitignore_line("!"), None);
}

#[test]
fn gitignore_glob_matches() {
    assert!(matches_gitignore_pattern("a.log", "*.log", false));
    assert!(matches_gitignore_pattern("b.log", "*.log", false));
    assert!(!matches_gitignore_pattern("other.txt", "*.log", false));
    assert!(matches_gitignore_pattern("important.log", "important.log", false));
    assert!(matches_gitignore_pattern("build", "build/", true));
    assert!(!matches_gitignore_pattern("build", "build/", false));
    assert!(matches_gitignore_pattern("src/deep/file.log", "*.log", false));
}

#[test]
fn gitignore_negation_unignores() {
    let groups = vec![(
        String::new(),
        vec![
            ("*.log".to_string(), false),
            ("important.log".to_string(), true),
        ],
    )];
    assert!(is_ignored("a.log", false, &groups));
    assert!(is_ignored("b.log", false, &groups));
    assert!(!is_ignored("important.log", false, &groups));
    assert!(!is_ignored("other.txt", false, &groups));
}

#[test]
fn sanitize_examples() {
    assert_eq!(sanitize("users/{id}"), "users_id");
    assert_eq!(sanitize("X-Request-Id"), "x_request_id");
    assert_eq!(sanitize("/items/{itemId}"), "items_itemid");
    assert_eq!(sanitize("//a--b//"), "a_b");
    assert_eq!(sanitize(""), "");
}

#[test]
fn sanitize_name_keeps_case() {
    assert_eq!(sanitize_name("itemId"), "itemId");
    assert_eq!(sanitize_name("X-Request-Id"), "X_Request_Id");
    assert_eq!(sanitize_name("userName"), "userName");
    assert_eq!(sanitize_name("{wrapped}"), "wrapped");
}

#[test]
fn tool_name_examples() {
    assert_eq!(tool_name(HttpMethod::Get, "/users/{id}"), "get_users_id");
    assert_eq!(tool_name(HttpMethod::Post, "/users"), "post_users");
}

#[test]
fn split_path_examples() {
    assert_eq!(split_path("a/b/c.txt"), (Some("a/b".to_string()), "c.txt".to_string()));
    assert_eq!(split_path("/c.txt"), (Some("".to_string()), "c.txt".to_string()));
    assert_eq!(split_path("c.txt"), (None, "c.txt".to_string()));
    assert_eq!(split_path("dir/"), (Some("dir".to_string()), "".to_string()));
}

#[test]
fn unique_name_suffixes() {
    let used: Vec<String> = vec![];
    assert_eq!(unique_name(&used, "x"), "x");
    let used = vec!["x".to_string()];
    assert_eq!(unique_name(&used, "x"), "x_2");
    let used = vec!["x".to_string(), "x_2".to_string()];
    assert_eq!(unique_name(&used, "x"), "x_3");
    let used = vec!["x".to_string(), "x_3".to_string()];
    assert_eq!(unique_name(&used, "x"), "x_2");
}
