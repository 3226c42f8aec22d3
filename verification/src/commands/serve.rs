//! Serve and funnel: what is reported of a serve configuration.
use vstd::prelude::*;
use crate::text::{contains_text, occurs_in, trim, trimmed};

verus! {

/// A serve or funnel subcommand, on this machine or, given a droplet, on that droplet.
pub enum ServeAction {
    Status { droplet: Option<String> },
    Start { port: u16, droplet: Option<String> },
    Funnel { port: u16, droplet: Option<String> },
    Reset { droplet: Option<String> },
}

/// The machine a subcommand acts on, as it is named to the user: the droplet, or `local`.
pub fn target_label(droplet: Option<&str>) -> (r: &str)
    ensures
        r@ == match droplet {
            Some(d) => d@,
            None => "local"@,
        },
{
    match droplet {
        Some(d) => d,
        None => "local",
    }
}

/// Whether the output of `tailscale serve status` shows a configuration: it does unless it is
/// blank or says `No serve config`.
pub fn has_serve_config(output: &str) -> (r: bool)
    ensures
        r == !(trimmed(output@).len() == 0 || occurs_in(output@, "No serve config"@)),
{
    let blank = trim(output).unicode_len() == 0;
    !(blank || contains_text(output, "No serve config"))
}

} // verus!
