//! The droplet status table.
use vstd::prelude::*;
use crate::digitalocean::{Droplet, first_public_ip};
use crate::text::{owned, text_eq};

verus! {

/// How a droplet's status is shown: green when active, red when off, yellow otherwise.
#[derive(Debug, Clone, Copy, PartialEq, Eq, Structural)]
pub enum StatusStyle {
    Active,
    Off,
    Other,
}

/// One row of the status table.
pub struct DropletRow {
    pub name: String,
    pub status: String,
    pub style: StatusStyle,
    pub public_ip: String,
}

/// The style of a status text.
pub open spec fn style_of(status: Seq<char>) -> StatusStyle {
    if status == "active"@ {
        StatusStyle::Active
    } else if status == "off"@ {
        StatusStyle::Off
    } else {
        StatusStyle::Other
    }
}

/// The address shown for a droplet: its first public address, or `-`.
pub open spec fn shown_ip(d: Droplet) -> Seq<char> {
    match first_public_ip(d.networks.v4@) {
        Some(ip) => ip,
        None => "-"@,
    }
}

/// Whether `row` is the row shown for `d`.
pub open spec fn is_row_of(row: DropletRow, d: Droplet) -> bool {
    &&& row.name@ == d.name@
    &&& row.status@ == d.status@
    &&& row.style == style_of(d.status@)
    &&& row.public_ip@ == shown_ip(d)
}

/// The row shown for one droplet.
pub fn droplet_row(d: &Droplet) -> (r: DropletRow)
    ensures
        is_row_of(r, *d),
{
    let style = if text_eq(d.status.as_str(), "active") {
        StatusStyle::Active
    } else if text_eq(d.status.as_str(), "off") {
        StatusStyle::Off
    } else {
        StatusStyle::Other
    };
    let public_ip = match d.public_ip() {
        Some(ip) => owned(ip),
        None => owned("-"),
    };
    DropletRow { name: d.name.clone(), status: d.status.clone(), style, public_ip }
}

/// The rows of the status table, one per droplet, in the order listed.
pub fn rows(droplets: &Vec<Droplet>) -> (r: Vec<DropletRow>)
    ensures
        r@.len() == droplets@.len(),
        forall|i: int| 0 <= i < r@.len() ==> is_row_of(#[trigger] r@[i], droplets@[i]),
{
    let mut r: Vec<DropletRow> = Vec::new();
    let n = droplets.len();
    let mut i: usize = 0;
    while i < n
        invariant
            n == droplets@.len(),
            i <= n,
            r@.len() == i,
            forall|k: int| 0 <= k < i ==> is_row_of(#[trigger] r@[k], droplets@[k]),
        decreases n - i,
    {
        r.push(droplet_row(&droplets[i]));
        i = i + 1;
    }
    r
}

} // verus!
