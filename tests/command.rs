use jars::command::{classify_output_line, get_line_parts, parse_command, transform_args, LogLevel};

#[test]
fn test_transform() {
    let value = "Hello {0} {0} {1}";
    let args_in = ["false".to_string(), "true".to_string()];

    let (command, args) = parse_command(value).unwrap();

    let new_args = transform_args(args, &args_in);
    println!("{command} {new_args:?}");
    assert_eq!(command, "Hello");
    assert_eq!(new_args, vec!["false", "false", "true"]);
}

#[test]
fn parse_command_splits_on_whitespace() {
    let (command, args) = parse_command("  java -jar\ttool.jar  {0} ").unwrap();
    assert_eq!(command, "java");
    assert_eq!(args, vec!["-jar", "tool.jar", "{0}"]);
    assert!(parse_command("   ").is_none());
    assert!(parse_command("").is_none());
}

#[test]
fn transform_keeps_unselected_arguments() {
    let args_in = ["in.jar".to_string(), "out.jar".to_string()];
    let args = vec![
        "-i".to_string(),
        "{0}".to_string(),
        "{2}".to_string(),
        "{x}".to_string(),
        "}1{".to_string(),
        "pre{+1}post".to_string(),
        "{99999999999999999999999}".to_string(),
        "{}".to_string(),
    ];
    let out = transform_args(args, &args_in);
    assert_eq!(out, vec!["-i", "in.jar", "{2}", "{x}", "}1{", "out.jar", "{99999999999999999999999}", "{}"]);
}

#[test]
fn line_parts_split_level_and_text() {
    assert_eq!(
        get_line_parts("[INFO] Building jar"),
        Some(("INFO".to_string(), " Building jar".to_string()))
    );
    assert_eq!(get_line_parts("no level"), None);
    assert_eq!(get_line_parts("] before ["), None);
    assert_eq!(get_line_parts("[]"), Some(("".to_string(), "".to_string())));
}

#[test]
fn output_lines_are_classified() {
    assert_eq!(classify_output_line("[WARNING] careful", false, false), (LogLevel::Warn, " careful".to_string(), false));
    assert_eq!(classify_output_line("[WARN] careful", false, false).0, LogLevel::Warn);
    assert_eq!(classify_output_line("[ERROR] broke", false, false).0, LogLevel::Error);
    assert_eq!(classify_output_line("[FATAL] broke", false, false).0, LogLevel::Error);
    assert_eq!(classify_output_line("[INFO] fine", false, false).0, LogLevel::Info);
    assert_eq!(classify_output_line("[INFO] fine", true, false).0, LogLevel::Error);
    assert_eq!(classify_output_line("[INFO] fine", false, true).0, LogLevel::Error);
    assert_eq!(classify_output_line("Some Error here", false, false), (LogLevel::Error, "Some Error here".to_string(), false));
    assert_eq!(
        classify_output_line("Exception in thread \"main\"", false, false),
        (LogLevel::Error, "Exception in thread \"main\"".to_string(), true)
    );
    assert_eq!(classify_output_line("\tat Foo.bar", false, true), (LogLevel::Error, "\tat Foo.bar".to_string(), true));
    assert_eq!(classify_output_line("plain", false, false), (LogLevel::Info, "plain".to_string(), false));
}
