use tdops::tailscale::{funnel_start, select_output, status_output, serve_reset, serve_start, serve_status, status, Invocation};
use tdops::text::owned;

fn parts(i: &Invocation) -> (String, Vec<String>) {
    (i.program.clone(), i.args.clone())
}

fn strs(v: &[&str]) -> Vec<String> {
    v.iter().map(|s| owned(s)).collect()
}

#[test]
fn local_commands() {
    assert_eq!(parts(&status()), (owned("tailscale"), strs(&["status", "--json"])));
    assert_eq!(parts(&serve_status(None)), (owned("tailscale"), strs(&["serve", "status"])));
    assert_eq!(parts(&serve_start(None, 3000)), (owned("tailscale"), strs(&["serve", "--bg", "--yes", "3000"])));
    assert_eq!(parts(&funnel_start(None, 443)), (owned("tailscale"), strs(&["funnel", "--bg", "--yes", "443"])));
    let (a, b) = serve_reset(None);
    assert_eq!(parts(&a), (owned("tailscale"), strs(&["serve", "reset"])));
    assert_eq!(parts(&b), (owned("tailscale"), strs(&["funnel", "reset"])));
}

#[test]
fn remote_commands_go_over_ssh() {
    assert_eq!(parts(&serve_status(Some("my-droplet"))), (owned("ssh"), strs(&["root@my-droplet", "tailscale serve status"])));
    assert_eq!(parts(&serve_start(Some("my-droplet"), 8080)), (owned("ssh"), strs(&["root@my-droplet", "tailscale serve --bg --yes 8080"])));
    assert_eq!(parts(&funnel_start(Some("box"), 65535)), (owned("ssh"), strs(&["root@box", "tailscale funnel --bg --yes 65535"])));
    let (a, b) = serve_reset(Some("box"));
    assert_eq!(parts(&a), (owned("ssh"), strs(&["root@box", "tailscale serve reset"])));
    assert_eq!(parts(&b), (owned("ssh"), strs(&["root@box", "tailscale funnel reset"])));
}

#[test]
fn output_prefers_stdout() {
    assert_eq!(select_output(owned("out"), owned("err")), "out");
    assert_eq!(select_output(owned(""), owned("err")), "err");
    assert_eq!(select_output(owned("out"), owned("")), "out");
    assert_eq!(select_output(owned(""), owned("")), "");
}

#[test]
fn status_reports_stdout_only() {
    assert_eq!(status_output(owned("{}"), owned("warning")), "{}");
    assert_eq!(status_output(owned(""), owned("err")), "");
}
