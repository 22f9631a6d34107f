use villflow::sanitize::{dictation_output_suspicious, strip_context_echo};

#[test]
fn strip_removes_leading_context_echo() {
    let ctx = "Dear team,\nPlease find attached the quarterly report";
    let out = "find attached the quarterly report. Let me know your thoughts.";
    assert_eq!(strip_context_echo(out, ctx), "Let me know your thoughts.");
}

#[test]
fn strip_ignores_short_overlaps() {
    let ctx = "I went to the store";
    let out = "the store was closed so I came home";
    assert_eq!(strip_context_echo(out, ctx), out);
}

#[test]
fn strip_full_echo_returns_empty() {
    let ctx = "this is the existing document text right here";
    let out = "This is the existing document text right here.";
    assert_eq!(strip_context_echo(out, ctx), "");
}

#[test]
fn strip_no_context_is_noop() {
    assert_eq!(strip_context_echo("hello world out there", ""), "hello world out there");
}

#[test]
fn suspicious_on_length_balloon() {
    let out = "word ".repeat(60);
    assert!(dictation_output_suspicious(&out, "", "just three words"));
}

#[test]
fn suspicious_on_context_containment() {
    let ctx = "alpha beta gamma delta epsilon zeta eta theta iota kappa";
    let out = format!("Cleaned sentence first. {ctx} trailing.");
    assert!(dictation_output_suspicious(&out, ctx, &"w ".repeat(40)));
}

#[test]
fn clean_output_not_suspicious() {
    let ctx = "Dear team, please find attached the quarterly report for review";
    let out = "I will send the final numbers tomorrow morning.";
    assert!(!dictation_output_suspicious(out, ctx, "um I will send the final numbers uh tomorrow morning"));
}
