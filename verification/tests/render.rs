use agent_ssh::config::ProfileConfig;
use agent_ssh::error::BrokerError;
use agent_ssh::render::{
    parse_placeholder, shell_escape, split_ascii_words, CompiledProfile, MAX_ARG_VALUE_LEN,
};
use agent_ssh::table::Table;

fn profile(template: &str) -> ProfileConfig {
    ProfileConfig {
        description: None,
        template: template.to_string(),
        requires_approval: false,
    }
}

fn args(pairs: &[(&str, &str)]) -> Table<String> {
    let mut t = Table::new();
    for (k, v) in pairs {
        t.insert(k.to_string(), v.to_string());
    }
    t
}

fn expect_unsafe(result: Result<CompiledProfile, BrokerError>) {
    match result {
        Err(BrokerError::UnsafeTemplate { .. }) => {}
        Err(other) => panic!("unexpected error: {}", other.message()),
        Ok(_) => panic!("template should fail"),
    }
}

// ── Template compilation ─────────────────────────────────────────────────────

#[test]
fn rejects_unsafe_template_tokens() {
    expect_unsafe(CompiledProfile::compile("logs", &profile("journalctl -u {{service}} | tail -n 10")));
}

#[test]
fn rejects_duplicate_placeholders() {
    expect_unsafe(CompiledProfile::compile("logs", &profile("echo {{service}} {{service}}")));
}

#[test]
fn rejects_placeholder_in_executable_position() {
    expect_unsafe(CompiledProfile::compile("logs", &profile("{{cmd}} --version")));
}

#[test]
fn rejects_placeholder_in_flag_position() {
    expect_unsafe(CompiledProfile::compile("logs", &profile("tar {{flag}} /tmp/archive.tar")));
}

#[test]
fn rejects_semicolon_in_literal() {
    assert!(CompiledProfile::compile("cmd", &profile("ls; rm -rf /")).is_err(), "semicolon must be rejected");
}

#[test]
fn rejects_backtick_in_literal() {
    assert!(CompiledProfile::compile("cmd", &profile("echo `id`")).is_err(), "backtick must be rejected");
}

#[test]
fn rejects_dollar_sign_in_literal() {
    assert!(CompiledProfile::compile("cmd", &profile("echo $HOME")).is_err(), "dollar sign must be rejected");
}

#[test]
fn rejects_redirect_in_literal() {
    assert!(
        CompiledProfile::compile("cmd", &profile("cat /etc/passwd > /tmp/out")).is_err(),
        "redirect must be rejected"
    );
}

#[test]
fn rejects_ampersand_in_literal() {
    assert!(
        CompiledProfile::compile("cmd", &profile("sleep 100 &")).is_err(),
        "background operator must be rejected"
    );
}

#[test]
fn rejects_empty_template() {
    assert!(
        CompiledProfile::compile("empty", &profile("   ")).is_err(),
        "whitespace-only template must be rejected"
    );
}

#[test]
fn rejects_malformed_placeholder_uppercase() {
    assert!(
        CompiledProfile::compile("cmd", &profile("echo {{Service}}")).is_err(),
        "uppercase placeholder must be rejected as unsafe literal"
    );
}

// ── Rendering ────────────────────────────────────────────────────────────────

#[test]
fn renders_single_escaped_arguments() {
    let compiled = CompiledProfile::compile(
        "logs",
        &profile("journalctl -u {{service}} --since {{since}} --no-pager"),
    )
    .expect("template should compile");
    let rendered = compiled
        .render("logs", &args(&[("service", "api"), ("since", "10 min ago")]))
        .expect("should render");
    assert_eq!(rendered, "journalctl -u 'api' --since '10 min ago' --no-pager");
}

#[test]
fn renders_empty_argument_as_empty_quotes() {
    let compiled = CompiledProfile::compile("cmd", &profile("printf -- {{msg}}")).expect("compile");
    let rendered = compiled.render("cmd", &args(&[("msg", "")])).expect("render");
    assert_eq!(rendered, "printf -- ''");
}

#[test]
fn renders_value_containing_single_quote() {
    let compiled = CompiledProfile::compile("cmd", &profile("printf -- {{msg}}")).expect("compile");
    let rendered = compiled.render("cmd", &args(&[("msg", "it's a test")])).expect("render");
    assert_eq!(rendered, "printf -- 'it'\"'\"'s a test'");
}

#[test]
fn rejects_control_character_in_argument() {
    let compiled = CompiledProfile::compile("cmd", &profile("printf -- {{msg}}")).expect("compile");
    assert!(
        compiled.render("cmd", &args(&[("msg", "hello\x01world")])).is_err(),
        "control char must be rejected"
    );
}

#[test]
fn rejects_null_byte_in_argument() {
    let compiled = CompiledProfile::compile("cmd", &profile("printf -- {{msg}}")).expect("compile");
    assert!(
        compiled.render("cmd", &args(&[("msg", "hello\x00world")])).is_err(),
        "null byte must be rejected"
    );
}

#[test]
fn rejects_newline_in_argument() {
    let compiled = CompiledProfile::compile("cmd", &profile("printf -- {{msg}}")).expect("compile");
    assert!(
        compiled.render("cmd", &args(&[("msg", "line1\nline2")])).is_err(),
        "newline must be rejected"
    );
}

#[test]
fn rejects_argument_value_exceeding_max_length() {
    let compiled = CompiledProfile::compile("cmd", &profile("printf -- {{msg}}")).expect("compile");
    let long = "a".repeat(MAX_ARG_VALUE_LEN + 1);
    assert!(
        compiled.render("cmd", &args(&[("msg", long.as_str())])).is_err(),
        "overlong value must be rejected"
    );
}

#[test]
fn accepts_argument_value_at_max_length() {
    let compiled = CompiledProfile::compile("cmd", &profile("printf -- {{msg}}")).expect("compile");
    let exact = "a".repeat(MAX_ARG_VALUE_LEN);
    assert!(
        compiled.render("cmd", &args(&[("msg", exact.as_str())])).is_ok(),
        "value at exactly max length should be allowed"
    );
}

#[test]
fn rejects_missing_required_argument() {
    let compiled = CompiledProfile::compile(
        "logs",
        &profile("journalctl -u {{service}} --since {{since}}"),
    )
    .expect("compile");
    let err = compiled
        .render("logs", &args(&[("service", "api")]))
        .expect_err("missing arg must be rejected");
    match err {
        BrokerError::MissingArgument { name, .. } => assert_eq!(name, "since"),
        other => panic!("expected MissingArgument, got: {}", other.message()),
    }
}

#[test]
fn rejects_unexpected_extra_argument() {
    let compiled = CompiledProfile::compile("cmd", &profile("df -h")).expect("compile");
    let err = compiled
        .render("cmd", &args(&[("extra", "value")]))
        .expect_err("extra arg must be rejected");
    match err {
        BrokerError::UnexpectedArgument { name, .. } => assert_eq!(name, "extra"),
        other => panic!("expected UnexpectedArgument, got: {}", other.message()),
    }
}

#[test]
fn shell_escaped_value_never_breaks_out_of_single_quotes() {
    let compiled = CompiledProfile::compile("cmd", &profile("printf -- {{msg}}")).expect("compile");
    let rendered = compiled.render("cmd", &args(&[("msg", "'''")])).expect("render");
    assert_eq!(rendered, "printf -- ''\"'\"''\"'\"''\"'\"''");
}

// ── Further cases ────────────────────────────────────────────────────────────

#[test]
fn shell_escape_wraps_in_single_quotes() {
    assert_eq!(shell_escape("abc"), "'abc'");
    assert_eq!(shell_escape("a b"), "'a b'");
    assert_eq!(shell_escape("x'y"), "'x'\"'\"'y'");
}

#[test]
fn placeholders_are_lowercase_names_in_braces() {
    let chars = |s: &str| s.chars().collect::<Vec<char>>();
    assert_eq!(parse_placeholder(&chars("{{service}}")).as_deref(), Some("service"));
    assert_eq!(parse_placeholder(&chars("{{since_2}}")).as_deref(), Some("since_2"));
    assert_eq!(parse_placeholder(&chars("{{Service}}")), None);
    assert_eq!(parse_placeholder(&chars("{service}")), None);
    assert_eq!(parse_placeholder(&chars("{{}}")), None);
}

#[test]
fn template_words_split_on_ascii_whitespace() {
    let words = split_ascii_words("  df \t -h\n");
    assert_eq!(words, vec!["df".to_string(), "-h".to_string()]);
}

#[test]
fn render_reports_missing_before_unexpected() {
    let compiled = CompiledProfile::compile("logs", &profile("printf -- {{a}}")).expect("compile");
    let err = compiled.render("logs", &args(&[("b", "x")])).expect_err("must fail");
    assert!(matches!(err, BrokerError::MissingArgument { ref name, .. } if name == "a"));
    assert_eq!(err.message(), "missing required argument 'a' for profile 'logs'");
}

#[test]
fn invalid_argument_names_the_argument() {
    let compiled = CompiledProfile::compile("cmd", &profile("printf -- {{msg}}")).expect("compile");
    let err = compiled.render("cmd", &args(&[("msg", "a\u{7f}b")])).expect_err("DEL is a control char");
    assert_eq!(
        err.message(),
        "argument 'msg' for profile 'cmd' contains control characters and is rejected"
    );
}

#[test]
fn argument_value_length_counts_characters() {
    let compiled = CompiledProfile::compile("cmd", &profile("printf -- {{msg}}")).expect("compile");
    let wide = "é".repeat(MAX_ARG_VALUE_LEN);
    assert!(compiled.render("cmd", &args(&[("msg", wide.as_str())])).is_ok());
    let too_wide = "é".repeat(MAX_ARG_VALUE_LEN + 1);
    assert!(matches!(
        compiled.render("cmd", &args(&[("msg", too_wide.as_str())])),
        Err(BrokerError::InvalidArgumentValue { .. })
    ));
}
