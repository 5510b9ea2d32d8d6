//! Secrets that are commands.

use cielago::http::secret::{finish_secret, plan_secret, secret_not_started, SecretPlan};

fn literal(v: &str) -> SecretPlan {
    SecretPlan::Literal(v.to_string())
}

fn command(v: &str) -> SecretPlan {
    SecretPlan::Command(v.to_string())
}

#[test]
fn plain_values_pass_through() {
    assert_eq!(plan_secret("hunter2"), literal("hunter2"));
    // A `$(…)` that isn't the whole value is left untouched.
    assert_eq!(plan_secret("Bearer $(echo x)"), literal("Bearer $(echo x)"));
    assert_eq!(plan_secret("$()"), literal("$()"));
}

#[test]
fn command_substitution_runs_and_trims() {
    assert_eq!(plan_secret("$(printf 'sk-123')"), command("printf 'sk-123'"));
    assert_eq!(
        finish_secret("printf 'sk-123'", true, "exit status: 0", "sk-123", "").unwrap(),
        "sk-123"
    );
    // Surrounding whitespace on the value and on the output are both dropped.
    assert_eq!(plan_secret("  $(echo padded)  "), command("echo padded"));
    assert_eq!(
        finish_secret("echo padded", true, "exit status: 0", "padded\n", "").unwrap(),
        "padded"
    );
}

#[test]
fn only_one_whole_substitution_is_run() {
    // Two side by side, or text behind: a literal.
    for v in [
        "$(echo a) $(echo b)",
        "$(echo a)$(echo b)",
        "$(echo a) (b)",
        "$(echo a",
        "$(echo it's)",
        "$(echo \"a)",
        "$(echo a\\)",
        "$((echo a)",
    ] {
        assert_eq!(plan_secret(v), literal(v), "{v}");
    }
    // Nested, quoted and escaped parentheses belong to the command.
    assert_eq!(plan_secret("$(echo $(echo a))"), command("echo $(echo a)"));
    assert_eq!(plan_secret("$( (a); (b) )"), command("(a); (b)"));
    assert_eq!(plan_secret("$(echo ')' \"(\")"), command("echo ')' \"(\""));
    assert_eq!(plan_secret("$(echo \\))"), command("echo \\)"));
    assert_eq!(plan_secret("$(echo 'a\\')"), command("echo 'a\\'"));
    assert_eq!(
        plan_secret("$(op read \"op://vault/item/field\")"),
        command("op read \"op://vault/item/field\"")
    );
}

#[test]
fn failing_command_is_an_error() {
    assert_eq!(plan_secret("$(exit 3)"), command("exit 3"));
    let err = finish_secret("exit 3", false, "exit status: 3", "", " no \n").unwrap_err();
    assert!(err.contains("failed"), "unexpected error: {err}");
    assert_eq!(err, "secret command `exit 3` failed (exit status: 3): no");
}

#[test]
fn a_command_that_does_not_start_is_named() {
    assert_eq!(
        secret_not_started("op read", "no shell"),
        "running secret command `op read`: no shell"
    );
}
