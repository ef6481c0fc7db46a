use mcp_cli::sanitize_server_name;
use mcp_cli::expand_template_vars;

#[test]
fn sanitize_keeps_safe_identifier() {
    assert_eq!(sanitize_server_name("playwright"), "playwright");
    assert_eq!(sanitize_server_name("my-server_2"), "my-server_2");
}

#[test]
fn sanitize_strips_path_separators() {
    assert_eq!(sanitize_server_name("../etc/passwd"), "etcpasswd");
    assert_eq!(sanitize_server_name("a/b\\c"), "abc");
    assert_eq!(sanitize_server_name(".."), "");
}

#[test]
fn sanitize_keeps_only_ascii_alphanumerics() {
    assert_eq!(sanitize_server_name("se rver!#"), "server");
    assert_eq!(sanitize_server_name("caf\u{e9}"), "caf");
    assert_eq!(sanitize_server_name(""), "");
}

#[test]
fn expand_substitutes_profile_dir() {
    let r = expand_template_vars("--profile={profile_dir}", "my server", "123", "/work");
    assert_eq!(r, "--profile=.mcp-profile/myserver");
}

#[test]
fn expand_substitutes_pid_and_cwd_in_any_order() {
    let a = expand_template_vars("{cwd}|{pid}", "s", "123", "/work");
    assert_eq!(a, "/work|123");
    let b = expand_template_vars("{pid}|{cwd}", "s", "123", "/work");
    assert_eq!(b, "123|/work");
}

#[test]
fn expand_is_noop_without_placeholders() {
    let r = expand_template_vars("--headless", "s", "123", "/work");
    assert_eq!(r, "--headless");
}

#[test]
fn expand_leaves_unrecognized_placeholders_verbatim() {
    let r = expand_template_vars("{unknown}-{pid}", "s", "9", "/w");
    assert_eq!(r, "{unknown}-9");
}

#[test]
fn expand_does_not_reexpand_substituted_text() {
    // A working directory that itself looks like a placeholder must come
    // through literally, not be expanded again.
    let r = expand_template_vars("{cwd}", "s", "9", "{pid}");
    assert_eq!(r, "{pid}");
}
