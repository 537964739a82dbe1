use envf::args::{parse_args, str_equal, starts_with_str, ArgParseResult, Config, UsageError};
use envf::coerce::{decimal, scalar_text, FieldValue};
use envf::document::{load_document, table_into_env_map, LoadError};
use envf::env_map::EnvMap;
use envf::merge::{merge_env, warnings};
use envf::nesting::measure_nesting;

fn strings(v: &[&str]) -> Vec<String> {
    v.iter().map(|s| s.to_string()).collect()
}

fn config_of(v: &[&str]) -> Config {
    match parse_args(&strings(v)) {
        ArgParseResult::Config(c) => c,
        ArgParseResult::Help => panic!("unexpected help"),
        ArgParseResult::Usage(e) => panic!("unexpected usage error: {}", e.message()),
    }
}

fn value_of(m: &EnvMap, k: &str) -> Option<String> {
    m.get(&k.to_string()).cloned()
}

#[test]
fn files_silent_and_command() {
    let c = config_of(&["-f", "a.toml", "-s", "-f=b.toml", "cmd", "x", "-s"]);
    assert_eq!(c.files, strings(&["a.toml", "b.toml"]));
    assert!(c.silent);
    assert_eq!(c.command, strings(&["cmd", "x", "-s"]));
}

#[test]
fn no_flags_is_all_command() {
    let c = config_of(&["env"]);
    assert!(c.files.is_empty());
    assert!(!c.silent);
    assert_eq!(c.command, strings(&["env"]));
}

#[test]
fn both_file_forms_agree() {
    let a = config_of(&["-f", "p.toml", "run"]);
    let b = config_of(&["-f=p.toml", "run"]);
    assert_eq!(a.files, b.files);
    assert_eq!(a.command, b.command);
    let mixed = config_of(&["-f=one", "-f", "two", "-f=three", "run"]);
    assert_eq!(mixed.files, strings(&["one", "two", "three"]));
}

#[test]
fn empty_path_after_equals() {
    let c = config_of(&["-f=", "run"]);
    assert_eq!(c.files, strings(&[""]));
}

#[test]
fn help_overrides_earlier_flags() {
    for args in [
        vec!["-h"],
        vec!["--help"],
        vec!["-s", "-f", "a", "-h", "cmd"],
        vec!["-f=a", "--help"],
    ] {
        assert!(matches!(parse_args(&strings(&args)), ArgParseResult::Help));
    }
}

#[test]
fn help_after_command_is_an_argument() {
    let c = config_of(&["ls", "-h"]);
    assert_eq!(c.command, strings(&["ls", "-h"]));
}

#[test]
fn file_path_may_look_like_a_flag() {
    let c = config_of(&["-f", "-h", "run"]);
    assert_eq!(c.files, strings(&["-h"]));
    assert_eq!(c.command, strings(&["run"]));
}

#[test]
fn silent_without_command_is_usage_error() {
    assert!(matches!(
        parse_args(&strings(&["-s"])),
        ArgParseResult::Usage(UsageError::NoCommand)
    ));
    assert!(matches!(parse_args(&strings(&[])), ArgParseResult::Usage(UsageError::NoCommand)));
    assert_eq!(UsageError::NoCommand.message(), "No command to execute was provided.");
}

#[test]
fn double_dash_starts_the_command() {
    let c = config_of(&["-s", "--"]);
    assert_eq!(c.command, strings(&["--"]));
}

#[test]
fn trailing_file_flag_is_usage_error() {
    assert!(matches!(
        parse_args(&strings(&["-s", "-f"])),
        ArgParseResult::Usage(UsageError::TrailingFile)
    ));
    assert_eq!(UsageError::TrailingFile.message(), "Trailing -f");
}

#[test]
fn unknown_flag_starts_the_command() {
    let c = config_of(&["-x", "-s"]);
    assert!(!c.silent);
    assert_eq!(c.command, strings(&["-x", "-s"]));
}

#[test]
fn string_helpers() {
    assert!(starts_with_str("-f=abc", "-f="));
    assert!(!starts_with_str("-f", "-f="));
    assert!(str_equal("é-s", "é-s"));
    assert!(!str_equal("-s", "-sx"));
}

#[test]
fn decimal_renderings() {
    assert_eq!(decimal(0), "0");
    assert_eq!(decimal(7), "7");
    assert_eq!(decimal(42), "42");
    assert_eq!(decimal(-305), "-305");
    assert_eq!(decimal(i64::MAX), "9223372036854775807");
    assert_eq!(decimal(i64::MIN), "-9223372036854775808");
}

#[test]
fn stringify_each_kind() {
    assert_eq!(scalar_text(&FieldValue::Text("a b".to_string())), Some("a b".to_string()));
    assert_eq!(scalar_text(&FieldValue::Integer(-12)), Some("-12".to_string()));
    assert_eq!(scalar_text(&FieldValue::Float("1.5".to_string())), Some("1.5".to_string()));
    assert_eq!(scalar_text(&FieldValue::Boolean(true)), Some("true".to_string()));
    assert_eq!(scalar_text(&FieldValue::Boolean(false)), Some("false".to_string()));
    assert_eq!(
        scalar_text(&FieldValue::Datetime("1979-05-27T07:32:00Z".to_string())),
        Some("1979-05-27T07:32:00Z".to_string())
    );
    assert_eq!(scalar_text(&FieldValue::Composite("[]".to_string())), None);
}

#[test]
fn env_map_insert_replaces() {
    let mut m = EnvMap::new();
    assert_eq!(m.len(), 0);
    m.insert("A".to_string(), "1".to_string());
    m.insert("B".to_string(), "2".to_string());
    m.insert("A".to_string(), "3".to_string());
    assert_eq!(m.len(), 2);
    assert_eq!(value_of(&m, "A"), Some("3".to_string()));
    assert_eq!(value_of(&m, "B"), Some("2".to_string()));
    assert_eq!(value_of(&m, "C"), None);
    assert_eq!(m.pairs().len(), 2);
}

#[test]
fn load_scalars() {
    let text = "S = \"hi\\tthere\"\nN = 42\nF = 1.5\nB = false\nD = 1979-05-27T07:32:00Z\nE = -3\n";
    let m = match load_document(text) {
        Ok(m) => m,
        Err(e) => panic!("{}", e.message()),
    };
    assert_eq!(m.len(), 6);
    assert_eq!(value_of(&m, "S"), Some("hi\tthere".to_string()));
    assert_eq!(value_of(&m, "N"), Some("42".to_string()));
    assert_eq!(value_of(&m, "F"), Some("1.5".to_string()));
    assert_eq!(value_of(&m, "B"), Some("false".to_string()));
    assert_eq!(value_of(&m, "D"), Some("1979-05-27T07:32:00Z".to_string()));
    assert_eq!(value_of(&m, "E"), Some("-3".to_string()));
}

#[test]
fn load_empty_document() {
    match load_document("") {
        Ok(m) => assert_eq!(m.len(), 0),
        Err(e) => panic!("{}", e.message()),
    }
}

#[test]
fn array_field_rejects_whole_file() {
    match load_document("A = \"x\"\nL = [1, 2]\nZ = 3\n") {
        Ok(_) => panic!("file should be rejected"),
        Err(LoadError::Unconvertible { key, value }) => {
            assert_eq!(key, "L");
            assert!(value.contains("Array"));
        }
        Err(e) => panic!("wrong error: {}", e.message()),
    }
}

#[test]
fn table_field_rejects_whole_file() {
    match load_document("[section]\nK = 1\n") {
        Err(e @ LoadError::Unconvertible { .. }) => {
            assert!(e.message().starts_with("value for section ("));
            assert!(e.message().ends_with(") can't be converted into a string"));
        }
        _ => panic!("file should be rejected"),
    }
}

#[test]
fn invalid_toml_is_reported() {
    match load_document("X = = 1") {
        Err(e @ LoadError::InvalidToml(_)) => assert!(e.message().starts_with("Invalid TOML: ")),
        _ => panic!("expected a parse error"),
    }
}

#[test]
fn table_into_env_map_first_refusal() {
    let fields = vec![
        ("A".to_string(), FieldValue::Integer(1)),
        ("B".to_string(), FieldValue::Composite("first".to_string())),
        ("C".to_string(), FieldValue::Composite("second".to_string())),
    ];
    match table_into_env_map(&fields) {
        Err(LoadError::Unconvertible { key, value }) => {
            assert_eq!(key, "B");
            assert_eq!(value, "first");
        }
        _ => panic!("expected a refusal"),
    }
    let ok = vec![
        ("A".to_string(), FieldValue::Integer(1)),
        ("B".to_string(), FieldValue::Boolean(true)),
    ];
    let m = table_into_env_map(&ok).ok().unwrap();
    assert_eq!(value_of(&m, "A"), Some("1".to_string()));
    assert_eq!(value_of(&m, "B"), Some("true".to_string()));
}

#[test]
fn later_file_wins() {
    let a = load_document("X = \"1\"\nY = \"a\"").ok().unwrap();
    let b = load_document("X = \"2\"").ok().unwrap();
    let m = merge_env(&vec![Ok(a), Ok(b)]);
    assert_eq!(value_of(&m, "X"), Some("2".to_string()));
    assert_eq!(value_of(&m, "Y"), Some("a".to_string()));
    assert_eq!(m.len(), 2);
}

#[test]
fn failed_files_contribute_nothing() {
    let loads = vec![
        load_document("X = 1\nY = 1"),
        load_document("X = 2\nL = []"),
        Err(LoadError::Unreadable("No such file or directory".to_string())),
        load_document("Y = 3"),
    ];
    let m = merge_env(&loads);
    assert_eq!(m.len(), 2);
    assert_eq!(value_of(&m, "X"), Some("1".to_string()));
    assert_eq!(value_of(&m, "Y"), Some("3".to_string()));
}

#[test]
fn missing_file_silenced() {
    let c = config_of(&["-f", "missing.toml", "-s", "echo", "hi"]);
    assert!(c.silent);
    assert_eq!(c.command, strings(&["echo", "hi"]));
    let loads = vec![Err(LoadError::Unreadable("entity not found".to_string()))];
    let m = merge_env(&loads);
    assert_eq!(m.len(), 0);
    assert!(warnings(&c.files, &loads, c.silent).is_empty());
}

#[test]
fn warnings_name_each_failed_file() {
    let files = strings(&["ok.toml", "missing.toml", "bad.toml"]);
    let loads = vec![
        load_document("A = 1"),
        Err(LoadError::Unreadable("entity not found".to_string())),
        Err(LoadError::UnexpectedFormat("not a table".to_string())),
    ];
    assert_eq!(
        warnings(&files, &loads, false),
        strings(&[
            "missing.toml ignored: Could not read contents: entity not found",
            "bad.toml ignored: Unexpected format: not a table",
        ])
    );
}

#[test]
fn float_and_date_renderings() {
    let m = load_document("A = 3.0\nB = 1e3\nC = -0.25\nD = 1979-05-27\nT = 07:32:00.5\n").ok().unwrap();
    assert_eq!(value_of(&m, "A"), Some("3".to_string()));
    assert_eq!(value_of(&m, "B"), Some("1000".to_string()));
    assert_eq!(value_of(&m, "C"), Some("-0.25".to_string()));
    assert_eq!(value_of(&m, "D"), Some("1979-05-27".to_string()));
    assert_eq!(value_of(&m, "T"), Some("07:32:00.5".to_string()));
}

#[test]
fn unicode_keys_and_values() {
    let m = load_document("\"clé\" = \"välue ✓\"").ok().unwrap();
    assert_eq!(value_of(&m, "clé"), Some("välue ✓".to_string()));
}

#[test]
fn deep_arrays_refused_before_parsing() {
    let text = format!("a = {}", "[".repeat(20000));
    match load_document(&text) {
        Err(e @ LoadError::TooNested) => {
            assert_eq!(e.message(), "Nested too deeply to parse safely")
        }
        _ => panic!("expected the nesting bound to refuse the text"),
    }
}

#[test]
fn deep_dotted_key_refused_before_parsing() {
    let text = format!("{}a = 1", "a.".repeat(20000));
    assert!(matches!(load_document(&text), Err(LoadError::TooNested)));
}

#[test]
fn deep_table_header_refused_before_parsing() {
    let text = format!("[{}a]\nb = 1", "a.".repeat(20000));
    assert!(matches!(load_document(&text), Err(LoadError::TooNested)));
}

#[test]
fn nesting_within_bound_is_parsed() {
    let text = format!("a = {}1{}", "[".repeat(60), "]".repeat(60));
    match load_document(&text) {
        Err(LoadError::Unconvertible { key, .. }) => assert_eq!(key, "a"),
        Err(e) => panic!("unexpected error: {}", e.message()),
        Ok(_) => panic!("expected the nested array to be refused as a field"),
    }
}

#[test]
fn brackets_in_strings_and_comments_do_not_nest() {
    let many = "[{.".repeat(300);
    let mut text = String::new();
    text.push_str(&format!("# {}\n", many));
    text.push_str(&format!("S = \"{}\\\"\"\n", many));
    text.push_str(&format!("L = '{}'\n", many));
    text.push_str(&format!("M = \"\"\"\n{}\"\"{}\"\"\"\"\n", many, many));
    text.push_str(&format!("N = '''{}''' # {}\n", many, many));
    let m = match load_document(&text) {
        Ok(m) => m,
        Err(e) => panic!("{}", e.message()),
    };
    assert_eq!(m.len(), 4);
    assert_eq!(value_of(&m, "S"), Some(format!("{}\"", many)));
    assert_eq!(value_of(&m, "L"), Some(many.clone()));
    assert_eq!(value_of(&m, "M"), Some(format!("{}\"\"{}\"", many, many)));
    assert_eq!(value_of(&m, "N"), Some(many.clone()));
}

#[test]
fn nesting_measure_per_statement() {
    assert_eq!(measure_nesting(b"a.b.c = 1\nd = [[1], [2]]\n"), 3);
    assert_eq!(measure_nesting(b"x = \"[[[[\" # [[[[\ny = 1.5\n"), 1);
    assert_eq!(measure_nesting(b""), 0);
}

#[test]
fn later_file_wins_over_failed_file() {
    let a = load_document("X = \"1\"\nY = \"a\"");
    let bad = load_document("X = = 2");
    let b = load_document("X = \"2\"");
    assert!(bad.is_err());
    let bm = b.as_ref().ok().unwrap();
    assert_eq!(bm.len(), 1);
    assert_eq!(value_of(bm, "X"), Some("2".to_string()));
    let m = merge_env(&vec![a, bad, b]);
    assert_eq!(m.len(), 2);
    assert_eq!(value_of(&m, "X"), Some("2".to_string()));
    assert_eq!(value_of(&m, "Y"), Some("a".to_string()));
}

#[test]
fn missing_value_is_invalid_toml() {
    match load_document("A =") {
        Err(e @ LoadError::InvalidToml(_)) => {
            let m = e.message();
            assert!(m.starts_with("Invalid TOML: "));
            assert!(m.len() > "Invalid TOML: ".len());
        }
        _ => panic!("expected a parse error"),
    }
}

#[test]
fn deepest_admitted_document_is_parsed() {
    let header = format!("[{}a]\n", "a.".repeat(63));
    let key = format!("{}b = {}1{}\n", "b.".repeat(33), "[".repeat(31), "]".repeat(31));
    let text = format!("{}{}", header, key);
    assert_eq!(measure_nesting(text.as_bytes()), 64);
    match load_document(&text) {
        Err(LoadError::Unconvertible { key, .. }) => assert_eq!(key, "a"),
        Err(e) => panic!("unexpected error: {}", e.message()),
        Ok(_) => panic!("expected the table to be refused as a field"),
    }
}
