//! The `tailscale` commands behind serve and funnel, run here or on a droplet over ssh.
use vstd::prelude::*;
use crate::text::{decimal, join, joined, owned, u64_to_decimal, views};

verus! {

/// A program to run and its arguments.
pub struct Invocation {
    pub program: String,
    pub args: Vec<String>,
}

/// The program that runs `tailscale` with `args`: `tailscale` itself where no host is given,
/// and otherwise `ssh` to `root@host` with the command line `tailscale` followed by the
/// arguments joined by single spaces.
pub open spec fn tailscale_program(host: Option<Seq<char>>) -> Seq<char> {
    match host {
        Some(_) => "ssh"@,
        None => "tailscale"@,
    }
}

/// The arguments of the program that runs `tailscale` with `args` (see `tailscale_program`).
pub open spec fn tailscale_args(host: Option<Seq<char>>, args: Seq<Seq<char>>) -> Seq<Seq<char>> {
    match host {
        Some(h) => seq!["root@"@ + h, "tailscale "@ + joined(args, " "@)],
        None => args,
    }
}

/// The characters of an optional string slice.
pub open spec fn opt_str_view(s: Option<&str>) -> Option<Seq<char>> {
    match s {
        Some(t) => Some(t@),
        None => None,
    }
}

/// Whether `inv` runs `tailscale` with `args` on `host`.
pub open spec fn runs_tailscale(inv: Invocation, host: Option<Seq<char>>, args: Seq<Seq<char>>) -> bool {
    inv.program@ == tailscale_program(host) && views(inv.args@) == tailscale_args(host, args)
}

/// The invocation that runs `tailscale` with `args`, locally or, given a host, over ssh.
pub fn tailscale_command(host: Option<&str>, args: Vec<String>) -> (r: Invocation)
    ensures
        runs_tailscale(r, opt_str_view(host), views(args@)),
{
    match host {
        Some(h) => {
            let mut target = owned("root@");
            target.append(h);
            let mut line = owned("tailscale ");
            let joined_args = join(&args, " ");
            line.append(joined_args.as_str());
            let mut v: Vec<String> = Vec::new();
            v.push(target);
            v.push(line);
            assert(views(v@) =~= tailscale_args(opt_str_view(host), views(args@)));
            Invocation { program: owned("ssh"), args: v }
        },
        None => Invocation { program: owned("tailscale"), args },
    }
}

fn words2(a: &str, b: &str) -> (r: Vec<String>)
    ensures
        views(r@) == seq![a@, b@],
{
    let mut v: Vec<String> = Vec::new();
    v.push(owned(a));
    v.push(owned(b));
    assert(views(v@) =~= seq![a@, b@]);
    v
}

fn words4(a: &str, b: &str, c: &str, d: &str) -> (r: Vec<String>)
    ensures
        views(r@) == seq![a@, b@, c@, d@],
{
    let mut v: Vec<String> = Vec::new();
    v.push(owned(a));
    v.push(owned(b));
    v.push(owned(c));
    v.push(owned(d));
    assert(views(v@) =~= seq![a@, b@, c@, d@]);
    v
}

/// The local invocation that reports the tailnet's status as JSON: `tailscale status --json`.
pub fn status() -> (r: Invocation)
    ensures
        runs_tailscale(r, None, seq!["status"@, "--json"@]),
{
    tailscale_command(None, words2("status", "--json"))
}

/// The report of `tailscale status --json`: its standard output alone, whatever its
/// standard error holds.
pub fn status_output(stdout: String, stderr: String) -> (r: String)
    ensures
        r@ == stdout@,
{
    stdout
}

/// The invocation that reports the serve configuration: `tailscale serve status`.
pub fn serve_status(host: Option<&str>) -> (r: Invocation)
    ensures
        runs_tailscale(r, opt_str_view(host), seq!["serve"@, "status"@]),
{
    tailscale_command(host, words2("serve", "status"))
}

/// The invocation that exposes `port` on the tailnet: `tailscale serve --bg --yes <port>`.
pub fn serve_start(host: Option<&str>, port: u16) -> (r: Invocation)
    ensures
        runs_tailscale(r, opt_str_view(host), seq!["serve"@, "--bg"@, "--yes"@, decimal(port as nat)]),
{
    let p = u64_to_decimal(port as u64);
    tailscale_command(host, words4("serve", "--bg", "--yes", p.as_str()))
}

/// The invocation that exposes `port` publicly: `tailscale funnel --bg --yes <port>`.
pub fn funnel_start(host: Option<&str>, port: u16) -> (r: Invocation)
    ensures
        runs_tailscale(r, opt_str_view(host), seq!["funnel"@, "--bg"@, "--yes"@, decimal(port as nat)]),
{
    let p = u64_to_decimal(port as u64);
    tailscale_command(host, words4("funnel", "--bg", "--yes", p.as_str()))
}

/// The two invocations that reset serve and funnel, in the order they run:
/// `tailscale serve reset`, whose outcome is ignored, then `tailscale funnel reset`, whose
/// output is the result.
pub fn serve_reset(host: Option<&str>) -> (r: (Invocation, Invocation))
    ensures
        runs_tailscale(r.0, opt_str_view(host), seq!["serve"@, "reset"@]),
        runs_tailscale(r.1, opt_str_view(host), seq!["funnel"@, "reset"@]),
{
    (tailscale_command(host, words2("serve", "reset")), tailscale_command(host, words2("funnel", "reset")))
}

/// The output a command reports: its standard error where that alone has text, and
/// otherwise its standard output.
pub open spec fn reported_output(stdout: Seq<char>, stderr: Seq<char>) -> Seq<char> {
    if stderr.len() > 0 && stdout.len() == 0 {
        stderr
    } else {
        stdout
    }
}

/// Chooses the text a finished command reports (see `reported_output`).
pub fn select_output(stdout: String, stderr: String) -> (r: String)
    ensures
        r@ == reported_output(stdout@, stderr@),
{
    if stderr.as_str().unicode_len() > 0 && stdout.as_str().unicode_len() == 0 {
        stderr
    } else {
        stdout
    }
}

} // verus!
