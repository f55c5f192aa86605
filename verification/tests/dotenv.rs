use agent_ssh::dotenv::{merge_missing, normalize_dotenv_value, parse_dotenv, parse_named_args};
use agent_ssh::table::Table;

#[test]
fn parse_dotenv_accepts_export_and_quotes() {
    let parsed = parse_dotenv(
        r#"
# comment
export AGENT_SSH_PASSWORD_REF="os_keychain:agent-ssh:legacy-web"
PLAIN_REF='os_keychain:agent-ssh:legacy-db'
"#,
    )
    .expect(".env should parse");
    assert_eq!(
        parsed.get("AGENT_SSH_PASSWORD_REF").map(String::as_str),
        Some("os_keychain:agent-ssh:legacy-web")
    );
    assert_eq!(parsed.get("PLAIN_REF").map(String::as_str), Some("os_keychain:agent-ssh:legacy-db"));
}

#[test]
fn parse_dotenv_rejects_invalid_env_var_names() {
    let error = parse_dotenv("BAD-NAME=value").expect_err("bad env var name must fail");
    assert!(error.message().contains("not a valid environment variable name"));
}

#[test]
fn dotenv_errors_carry_the_line_number() {
    let error = parse_dotenv("A=1\n\n# note\nnot a pair\nB=2").expect_err("must fail");
    assert_eq!(error.line_number, 4);
    assert_eq!(error.message(), "invalid .env line 4: expected KEY=VALUE");
}

#[test]
fn later_dotenv_lines_win() {
    let parsed = parse_dotenv("A=1\r\nA = 2 \r\n").expect("parses");
    assert_eq!(parsed.get("A").map(String::as_str), Some("2"));
    assert_eq!(parsed.len(), 1);
}

#[test]
fn dotenv_values_need_matching_quotes() {
    assert_eq!(normalize_dotenv_value(""), Ok(String::new()));
    assert_eq!(normalize_dotenv_value("\"abc\""), Ok("abc".to_string()));
    assert_eq!(normalize_dotenv_value("'a=b'"), Ok("a=b".to_string()));
    assert_eq!(normalize_dotenv_value("\""), Err("quoted values must be balanced".to_string()));
    assert_eq!(
        normalize_dotenv_value("\"abc'"),
        Err("quoted values must start and end with the same quote".to_string())
    );
    assert_eq!(normalize_dotenv_value("plain value"), Ok("plain value".to_string()));
}

#[test]
fn value_may_contain_equals_signs() {
    let parsed = parse_dotenv("TOKEN=a=b=c").expect("parses");
    assert_eq!(parsed.get("TOKEN").map(String::as_str), Some("a=b=c"));
}

#[test]
fn environment_wins_over_dotenv() {
    let mut env = Table::new();
    env.insert("A".to_string(), "from-env".to_string());
    let mut extra = Table::new();
    extra.insert("A".to_string(), "from-file".to_string());
    extra.insert("B".to_string(), "only-file".to_string());
    let merged = merge_missing(env, &extra);
    assert_eq!(merged.get("A").map(String::as_str), Some("from-env"));
    assert_eq!(merged.get("B").map(String::as_str), Some("only-file"));
    assert_eq!(merged.len(), 2);
}

#[test]
fn named_args_split_at_the_first_equals() {
    let parsed = parse_named_args(vec!["service=api".to_string(), "since=10 min=ago".to_string()]).expect("parses");
    assert_eq!(parsed.get("service").map(String::as_str), Some("api"));
    assert_eq!(parsed.get("since").map(String::as_str), Some("10 min=ago"));
}

#[test]
fn named_args_refuse_bad_forms() {
    assert_eq!(
        parse_named_args(vec!["service".to_string()]).unwrap_err(),
        "invalid --arg 'service'; expected the form key=value"
    );
    assert_eq!(parse_named_args(vec!["=x".to_string()]).unwrap_err(), "argument names must not be empty");
    assert_eq!(
        parse_named_args(vec!["a=1".to_string(), "a=2".to_string()]).unwrap_err(),
        "duplicate --arg key 'a'"
    );
}
