use clikit::dispatch::dispatch;
use clikit::dispatch::HandlerId;
use clikit::handlers::config_get_lines;
use clikit::handlers::config_list_lines;
use clikit::handlers::config_lookup;
use clikit::handlers::config_set_lines;
use clikit::handlers::create_user_lines;
use clikit::handlers::deploy_done_line;
use clikit::handlers::deploy_plan_lines;
use clikit::handlers::get_current_timestamp;
use clikit::handlers::hello_lines;
use clikit::handlers::items_or_default;
use clikit::handlers::process_done_lines;
use clikit::handlers::process_header_lines;
use clikit::handlers::process_item_done;
use clikit::handlers::process_item_start;
use clikit::resolver::resolve;
use clikit::resolver::ArgumentError;
use clikit::resolver::ResolveError;
use clikit::schema::build_schema;
use clikit::schema::check_node;
use clikit::schema::ParamValue;
use clikit::text::format_u64;
use clikit::text::parse_u64;
use clikit::text::str_equal;

fn toks(words: &[&str]) -> Vec<String> {
    words.iter().map(|w| w.to_string()).collect()
}

#[test]
fn schema_is_well_formed() {
    let schema = build_schema();
    assert!(check_node(&schema));
}

#[test]
fn hello_example_dispatch() {
    let schema = build_schema();
    let rc = resolve(&schema, &toks(&["hello", "--name", "Ada", "--count", "2", "--shout"]))
        .expect("should resolve");
    assert_eq!(rc.path, vec!["hello".to_string()]);
    assert_eq!(dispatch(&rc).unwrap(), HandlerId::Hello);
    match rc.get("name") {
        Some(ParamValue::Text(s)) => assert_eq!(s, "Ada"),
        other => panic!("name not decoded as text: {:?}", other),
    }
    match rc.get("count") {
        Some(ParamValue::UInt(n)) => assert_eq!(*n, 2),
        other => panic!("count not decoded as number: {:?}", other),
    }
    match rc.get("shout") {
        Some(ParamValue::Boolean(b)) => assert!(*b),
        other => panic!("shout not decoded as boolean: {:?}", other),
    }
}

#[test]
fn hello_example_output() {
    let lines = hello_lines("Ada", 2, true);
    assert_eq!(
        lines,
        vec![
            "HELLO, ADA!".to_string(),
            "  (1/2)".to_string(),
            "HELLO, ADA!".to_string(),
            "  (2/2)".to_string(),
        ]
    );
}

#[test]
fn hello_defaults() {
    let schema = build_schema();
    let rc = resolve(&schema, &toks(&["hello"])).expect("should resolve");
    match rc.get("name") {
        Some(ParamValue::Text(s)) => assert_eq!(s, "World"),
        other => panic!("default name missing: {:?}", other),
    }
    match rc.get("count") {
        Some(ParamValue::UInt(n)) => assert_eq!(*n, 1),
        other => panic!("default count missing: {:?}", other),
    }
    match rc.get("shout") {
        Some(ParamValue::Boolean(b)) => assert!(!*b),
        other => panic!("default shout missing: {:?}", other),
    }
    assert_eq!(hello_lines("World", 1, false), vec!["Hello, World!".to_string()]);
}

#[test]
fn hello_inline_value_and_short_aliases() {
    let schema = build_schema();
    let rc = resolve(&schema, &toks(&["hello", "--name=Ada"])).expect("should resolve");
    match rc.get("name") {
        Some(ParamValue::Text(s)) => assert_eq!(s, "Ada"),
        other => panic!("inline value not taken: {:?}", other),
    }
    let rc2 = resolve(&schema, &toks(&["hello", "-n", "Bob", "-c", "3", "-s"]))
        .expect("should resolve");
    match rc2.get("name") {
        Some(ParamValue::Text(s)) => assert_eq!(s, "Bob"),
        other => panic!("short alias not taken: {:?}", other),
    }
    match rc2.get("count") {
        Some(ParamValue::UInt(n)) => assert_eq!(*n, 3),
        other => panic!("short count not taken: {:?}", other),
    }
    match rc2.get("shout") {
        Some(ParamValue::Boolean(b)) => assert!(*b),
        other => panic!("short flag not taken: {:?}", other),
    }
}

#[test]
fn config_set_example() {
    let schema = build_schema();
    let rc = resolve(&schema, &toks(&["config", "set", "theme", "dark", "--global"]))
        .expect("should resolve");
    assert_eq!(rc.path, vec!["config".to_string(), "set".to_string()]);
    assert_eq!(dispatch(&rc).unwrap(), HandlerId::ConfigSet);
    match rc.get("key") {
        Some(ParamValue::Text(s)) => assert_eq!(s, "theme"),
        other => panic!("key not decoded: {:?}", other),
    }
    match rc.get("value") {
        Some(ParamValue::Text(s)) => assert_eq!(s, "dark"),
        other => panic!("value not decoded: {:?}", other),
    }
    match rc.get("global") {
        Some(ParamValue::Boolean(b)) => assert!(*b),
        other => panic!("global not decoded: {:?}", other),
    }
}

#[test]
fn info_bad_choice_names_parameter_and_choices() {
    let schema = build_schema();
    let err = resolve(&schema, &toks(&["info", "--format", "xml"]))
        .expect_err("xml is not a declared choice");
    match err {
        ResolveError::Argument {
            error: ArgumentError::InvalidChoice { name, given, choices },
        } => {
            assert_eq!(name, "format");
            assert_eq!(given, "xml");
            assert_eq!(
                choices,
                vec!["json".to_string(), "table".to_string(), "yaml".to_string()]
            );
        },
        other => panic!("wrong error: {:?}", other),
    }
}

#[test]
fn missing_required_positional_is_named() {
    let schema = build_schema();
    let err = resolve(&schema, &toks(&["create-user", "--email", "a@b.c"]))
        .expect_err("username is required");
    match err {
        ResolveError::Argument { error: ArgumentError::MissingParameter { name } } => {
            assert_eq!(name, "username");
        },
        other => panic!("wrong error: {:?}", other),
    }
}

#[test]
fn unknown_token_errors() {
    let schema = build_schema();
    match resolve(&schema, &toks(&["hello", "--bogus", "x"])) {
        Err(ResolveError::Argument { error: ArgumentError::UnknownToken { token } }) => {
            assert_eq!(token, "--bogus");
        },
        other => panic!("wrong result: {:?}", other),
    }
    match resolve(&schema, &toks(&["hello", "stray"])) {
        Err(ResolveError::Argument { error: ArgumentError::UnknownToken { token } }) => {
            assert_eq!(token, "stray");
        },
        other => panic!("wrong result: {:?}", other),
    }
}

#[test]
fn duplicate_missing_value_and_unexpected_value_errors() {
    let schema = build_schema();
    match resolve(&schema, &toks(&["hello", "--name", "a", "--name", "b"])) {
        Err(ResolveError::Argument { error: ArgumentError::DuplicateParameter { name } }) => {
            assert_eq!(name, "name");
        },
        other => panic!("wrong result: {:?}", other),
    }
    match resolve(&schema, &toks(&["hello", "--name"])) {
        Err(ResolveError::Argument { error: ArgumentError::MissingValue { name } }) => {
            assert_eq!(name, "name");
        },
        other => panic!("wrong result: {:?}", other),
    }
    match resolve(&schema, &toks(&["hello", "--shout=yes"])) {
        Err(ResolveError::Argument { error: ArgumentError::UnexpectedValue { name } }) => {
            assert_eq!(name, "shout");
        },
        other => panic!("wrong result: {:?}", other),
    }
}

#[test]
fn invalid_number_errors() {
    let schema = build_schema();
    match resolve(&schema, &toks(&["hello", "--count", "abc"])) {
        Err(ResolveError::Argument { error: ArgumentError::InvalidNumber { name, given } }) => {
            assert_eq!(name, "count");
            assert_eq!(given, "abc");
        },
        other => panic!("wrong result: {:?}", other),
    }
    match resolve(&schema, &toks(&["hello", "--count", "99999999999999999999"])) {
        Err(ResolveError::Argument { error: ArgumentError::InvalidNumber { .. } }) => {},
        other => panic!("overflow not rejected: {:?}", other),
    }
}

#[test]
fn unresolved_paths() {
    let schema = build_schema();
    match resolve(&schema, &toks(&["bogus"])) {
        Err(ResolveError::UnresolvedPath { token: Some(t) }) => assert_eq!(t, "bogus"),
        other => panic!("wrong result: {:?}", other),
    }
    match resolve(&schema, &toks(&["file"])) {
        Err(ResolveError::UnresolvedPath { token: None }) => {},
        other => panic!("wrong result: {:?}", other),
    }
    match resolve(&schema, &toks(&[])) {
        Err(ResolveError::UnresolvedPath { token: None }) => {},
        other => panic!("wrong result: {:?}", other),
    }
}

#[test]
fn comma_list_decoding() {
    let schema = build_schema();
    let rc = resolve(&schema, &toks(&["process", "--items", "a,,c"])).expect("should resolve");
    match rc.get("items") {
        Some(ParamValue::TextList(v)) => {
            assert_eq!(v, &vec!["a".to_string(), "".to_string(), "c".to_string()]);
        },
        other => panic!("items not decoded as list: {:?}", other),
    }
    let rc2 = resolve(&schema, &toks(&["process", "--items="])).expect("should resolve");
    assert!(rc2.get("items").is_none(), "empty list input must count as not provided");
    let items = items_or_default(None);
    assert_eq!(items, vec!["item1".to_string(), "item2".to_string(), "item3".to_string()]);
}

#[test]
fn empty_text_value_is_kept() {
    let schema = build_schema();
    let rc = resolve(&schema, &toks(&["hello", "--name="])).expect("should resolve");
    match rc.get("name") {
        Some(ParamValue::Text(s)) => assert_eq!(s, ""),
        other => panic!("explicit empty value overridden: {:?}", other),
    }
}

#[test]
fn dispatch_all_paths() {
    let schema = build_schema();
    let cases: Vec<(Vec<&str>, HandlerId)> = vec![
        (vec!["hello"], HandlerId::Hello),
        (vec!["create-user", "bob"], HandlerId::CreateUser),
        (vec!["deploy"], HandlerId::Deploy),
        (vec!["file", "create", "f.txt"], HandlerId::FileCreate),
        (vec!["file", "read", "f.txt"], HandlerId::FileRead),
        (vec!["process"], HandlerId::Process),
        (vec!["config", "get", "theme"], HandlerId::ConfigGet),
        (vec!["config", "set", "theme", "dark"], HandlerId::ConfigSet),
        (vec!["config", "list"], HandlerId::ConfigList),
        (vec!["info"], HandlerId::Info),
    ];
    for (words, expected) in cases {
        let rc = resolve(&schema, &toks(&words)).expect("should resolve");
        assert_eq!(dispatch(&rc).unwrap(), expected);
    }
}

#[test]
fn numeral_functions() {
    assert_eq!(format_u64(0), "0");
    assert_eq!(format_u64(123), "123");
    assert_eq!(format_u64(u64::MAX), "18446744073709551615");
    assert_eq!(parse_u64("0"), Some(0));
    assert_eq!(parse_u64("18446744073709551615"), Some(u64::MAX));
    assert_eq!(parse_u64("18446744073709551616"), None);
    assert_eq!(parse_u64(""), None);
    assert_eq!(parse_u64("1x"), None);
    assert_eq!(parse_u64(&format_u64(987654321)), Some(987654321));
}

#[test]
fn string_helpers() {
    assert!(str_equal("abc", "abc"));
    assert!(!str_equal("abc", "abd"));
    assert!(!str_equal("abc", "ab"));
    assert!(str_equal("", ""));
}

#[test]
fn timestamp_is_decimal() {
    let ts = get_current_timestamp();
    assert!(parse_u64(&ts).is_some(), "timestamp must be a decimal numeral: {}", ts);
}

#[test]
fn create_user_output() {
    let lines = create_user_lines("alice", &Some("a@b.c".to_string()), &Some(30), true, "12345");
    assert_eq!(
        lines,
        vec![
            "Creating user...".to_string(),
            "User Information:".to_string(),
            "  Username: alice".to_string(),
            "  Email: a@b.c".to_string(),
            "  Age: 30".to_string(),
            "  Active: true".to_string(),
            "  Created: 12345".to_string(),
            "\u{2713} User created successfully!".to_string(),
        ]
    );
    let sparse = create_user_lines("bob", &None, &None, false, "0");
    assert_eq!(sparse[3], "  Email: Not provided");
    assert_eq!(sparse[4], "  Age: Not provided");
    assert_eq!(sparse[5], "  Active: false");
}

#[test]
fn deploy_output() {
    let dry = deploy_plan_lines("staging", false, true, &None);
    assert_eq!(
        dry,
        vec![
            "Deployment Configuration:".to_string(),
            "  Environment: staging".to_string(),
            "  Force: false".to_string(),
            "  Dry Run: true".to_string(),
            "  Config: Default".to_string(),
            "".to_string(),
            "[DRY RUN] Would deploy to staging".to_string(),
        ]
    );
    let wet = deploy_plan_lines("production", true, false, &Some("c.toml".to_string()));
    assert_eq!(wet[2], "  Force: true");
    assert_eq!(wet[4], "  Config: c.toml");
    assert_eq!(wet[6], "Deploying to production...");
    assert_eq!(deploy_done_line(), "\u{2713} Deployment completed successfully!");
}

#[test]
fn process_output() {
    let header = process_header_lines(3, true);
    assert_eq!(
        header,
        vec!["Processing 3 items...".to_string(), "Mode: Parallel".to_string(), "".to_string()]
    );
    assert_eq!(process_header_lines(1, false)[1], "Mode: Sequential");
    assert_eq!(process_item_start("x", true), Some("  Processing: x".to_string()));
    assert_eq!(process_item_start("x", false), None);
    assert_eq!(process_item_done(0, 3, "item1"), "  [1/3] Completed: item1");
    assert_eq!(
        process_done_lines(),
        vec!["".to_string(), "\u{2713} All items processed!".to_string()]
    );
}

#[test]
fn config_outputs() {
    assert_eq!(config_lookup("theme"), Some("dark".to_string()));
    assert_eq!(config_lookup("debug"), Some("false".to_string()));
    assert_eq!(config_lookup("timeout"), Some("30".to_string()));
    assert_eq!(config_lookup("nope"), None);
    assert_eq!(
        config_get_lines("theme", true),
        vec!["Configuration [global]:".to_string(), "  theme: dark".to_string()]
    );
    assert_eq!(
        config_get_lines("nope", false),
        vec!["Configuration [local]:".to_string(), "  nope: not found".to_string()]
    );
    assert_eq!(
        config_set_lines("theme", "dark", false),
        vec![
            "Configuration [local]:".to_string(),
            "  Setting theme = dark".to_string(),
            "\u{2713} Configuration updated!".to_string(),
        ]
    );
    assert_eq!(
        config_list_lines(true),
        vec![
            "Configuration [global]:".to_string(),
            "  theme: dark".to_string(),
            "  debug: false".to_string(),
            "  timeout: 30".to_string(),
        ]
    );
}

#[test]
fn error_messages_name_the_culprit() {
    let schema = build_schema();
    let err = resolve(&schema, &toks(&["info", "--format", "xml"])).expect_err("bad choice");
    assert_eq!(
        err.message(),
        "invalid choice for parameter format: xml (choices: json, table, yaml)"
    );
    let err2 = resolve(&schema, &toks(&["create-user"])).expect_err("missing username");
    assert_eq!(err2.message(), "missing required parameter: username");
    let err3 = resolve(&schema, &toks(&["bogus"])).expect_err("bad verb");
    assert_eq!(err3.message(), "unresolved command path at token: bogus");
    let err4 = resolve(&schema, &toks(&["hello", "--name"])).expect_err("no value");
    assert_eq!(err4.message(), "missing value for parameter: name");
    let err5 = resolve(&schema, &toks(&["hello", "--count", "x"])).expect_err("bad number");
    assert_eq!(err5.message(), "invalid number for parameter count: x");
    let err6 = resolve(&schema, &toks(&["hello", "--oops"])).expect_err("unknown");
    assert_eq!(err6.message(), "unknown token: --oops");
    let err7 = resolve(&schema, &toks(&[])).expect_err("no verb");
    assert_eq!(err7.message(), "unresolved command path: missing verb");
}
