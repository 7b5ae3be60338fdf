use ocean_tui::router::route;

#[test]
fn stage_routes_to_deploy() {
    let inv = route("stage");
    assert_eq!(inv.program, "ocean");
    assert_eq!(inv.args, vec!["deploy".to_string(), "--no-dry-run".to_string()]);
    assert!(inv.prd_write.is_none());
}

#[test]
fn deploy_routes_to_deploy() {
    let inv = route("deploy");
    assert_eq!(inv.program, "ocean");
    assert_eq!(inv.args, vec!["deploy".to_string(), "--no-dry-run".to_string()]);
    assert!(inv.prd_write.is_none());
}

#[test]
fn plan_routes_to_clarify() {
    let inv = route("plan");
    assert_eq!(inv.program, "ocean");
    assert_eq!(inv.args, vec!["clarify".to_string()]);
    assert!(inv.prd_write.is_none());
}

#[test]
fn build_routes_to_chat_stage() {
    let inv = route("build");
    assert_eq!(inv.program, "ocean");
    assert_eq!(inv.args, vec!["chat".to_string(), "--stage=false".to_string()]);
    assert!(inv.prd_write.is_none());
}

#[test]
fn release_passes_tokens_through() {
    let inv = route("release --push");
    assert_eq!(inv.program, "ocean");
    assert_eq!(inv.args, vec!["release".to_string(), "--push".to_string()]);
    assert!(inv.prd_write.is_none());
}

#[test]
fn release_alone_has_no_extra_args() {
    let inv = route("release");
    assert_eq!(inv.program, "ocean");
    assert_eq!(inv.args, vec!["release".to_string()]);
}

#[test]
fn release_with_several_tokens() {
    let inv = route("release --push --tag v1");
    assert_eq!(
        inv.args,
        vec![
            "release".to_string(),
            "--push".to_string(),
            "--tag".to_string(),
            "v1".to_string()
        ]
    );
}

#[test]
fn plain_text_falls_back_to_shell() {
    let inv = route("plain text");
    assert_eq!(inv.program, "sh");
    assert_eq!(inv.args, vec!["-lc".to_string(), "plain text".to_string()]);
    assert!(inv.prd_write.is_none());
}

#[test]
fn prd_writes_trimmed_remainder_with_newline() {
    let inv = route("prd: Build X");
    assert_eq!(inv.program, "ocean");
    assert_eq!(inv.args, vec!["chat".to_string(), "--stage=false".to_string()]);
    assert_eq!(inv.prd_write, Some("Build X\n".to_string()));
}

#[test]
fn prd_with_empty_remainder() {
    let inv = route("prd:");
    assert_eq!(inv.prd_write, Some("\n".to_string()));
}

#[test]
fn exact_rules_do_not_match_longer_text() {
    // A line that merely begins with "build" is not the exact `build` rule.
    let inv = route("builder run");
    assert_eq!(inv.program, "sh");
    assert_eq!(inv.args, vec!["-lc".to_string(), "builder run".to_string()]);

    let inv = route("stage now");
    assert_eq!(inv.program, "sh");
}

#[test]
fn routing_is_deterministic() {
    let a = route("release --push");
    let b = route("release --push");
    assert_eq!(a.program, b.program);
    assert_eq!(a.args, b.args);
    assert_eq!(a.prd_write, b.prd_write);

    let a = route("prd:  padded  ");
    let b = route("prd:  padded  ");
    assert_eq!(a.prd_write, b.prd_write);
    assert_eq!(a.prd_write, Some("padded\n".to_string()));
}

#[test]
fn empty_line_falls_back_to_shell() {
    let inv = route("");
    assert_eq!(inv.program, "sh");
    assert_eq!(inv.args, vec!["-lc".to_string(), "".to_string()]);
}
