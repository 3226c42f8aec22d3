//! Power control: which API actions a power subcommand takes, and in what order.
use vstd::prelude::*;
use crate::config::Config;
use crate::text::{lowercased, owned, starts_with_char, lowercase, trim, trimmed};

verus! {

/// A power subcommand on the droplet configured under `name`.
pub enum PowerAction {
    On { name: String },
    Off { name: String, snapshot: bool },
    Reboot { name: String },
    Snapshot { name: String },
}

/// One API action of a power subcommand, each awaited before the next.
pub enum PowerStep {
    PowerOn { droplet_id: u64 },
    PowerOff { droplet_id: u64 },
    Reboot { droplet_id: u64 },
    Snapshot { droplet_id: u64, name: String },
}

/// A power step as plain values.
pub enum PowerStepView {
    PowerOn(u64),
    PowerOff(u64),
    Reboot(u64),
    Snapshot(u64, Seq<char>),
}

impl View for PowerStep {
    type V = PowerStepView;

    open spec fn view(&self) -> PowerStepView {
        match self {
            PowerStep::PowerOn { droplet_id } => PowerStepView::PowerOn(*droplet_id),
            PowerStep::PowerOff { droplet_id } => PowerStepView::PowerOff(*droplet_id),
            PowerStep::Reboot { droplet_id } => PowerStepView::Reboot(*droplet_id),
            PowerStep::Snapshot { droplet_id, name } => PowerStepView::Snapshot(*droplet_id, name@),
        }
    }
}

/// Why a power subcommand was refused.
pub enum PowerError {
    /// No droplet is configured under the name.
    DropletNotFound(String),
}

impl PowerError {
    /// The message shown for the error.
    pub fn message(&self) -> (r: String)
        ensures
            match self {
                PowerError::DropletNotFound(name) => r@ == "Droplet '"@ + name@ + "' not found in config"@,
            },
    {
        match self {
            PowerError::DropletNotFound(name) => {
                let mut r = owned("Droplet '");
                r.append(name.as_str());
                r.append("' not found in config");
                r
            },
        }
    }
}

/// The name of the droplet a power subcommand acts on.
pub open spec fn action_name(a: PowerAction) -> Seq<char> {
    match a {
        PowerAction::On { name } => name@,
        PowerAction::Off { name, .. } => name@,
        PowerAction::Reboot { name } => name@,
        PowerAction::Snapshot { name } => name@,
    }
}

/// Whether a power subcommand asks the user before acting: powering off without `--snapshot`
/// asks whether to snapshot first.
pub fn asks_for_snapshot(action: &PowerAction) -> (r: bool)
    ensures
        r == (*action matches PowerAction::Off { snapshot, .. } && !snapshot),
{
    match action {
        PowerAction::Off { snapshot, .. } => !*snapshot,
        _ => false,
    }
}

/// Whether an answer to the snapshot question says yes: trimmed and lowercased, it begins
/// with `y`.
pub open spec fn says_yes(answer: Seq<char>) -> bool {
    let a = lowercased(trimmed(answer));
    a.len() > 0 && a[0] == 'y'
}

/// Whether `answer` says yes to the snapshot question (see `says_yes`).
pub fn confirms_snapshot(answer: &str) -> (r: bool)
    ensures
        r == says_yes(answer@),
{
    let a = lowercase(trim(answer));
    starts_with_char(a.as_str(), 'y')
}

/// The name of a snapshot of droplet `name` taken at `stamp`: `<name>-<stamp>`.
pub open spec fn snapshot_label(name: Seq<char>, stamp: Seq<char>) -> Seq<char> {
    name + "-"@ + stamp
}

/// Names a snapshot (see `snapshot_label`).
pub fn snapshot_name(name: &str, stamp: &str) -> (r: String)
    ensures
        r@ == snapshot_label(name@, stamp@),
{
    let mut r = owned(name);
    r.append("-");
    r.append(stamp);
    r
}

/// The steps of a power subcommand on the droplet with id `id`: one action, except that
/// powering off takes a snapshot first where `--snapshot` was given or the answer says yes.
pub open spec fn planned_steps(action: PowerAction, id: u64, answer: Seq<char>, stamp: Seq<char>) -> Seq<PowerStepView> {
    match action {
        PowerAction::On { .. } => seq![PowerStepView::PowerOn(id)],
        PowerAction::Reboot { .. } => seq![PowerStepView::Reboot(id)],
        PowerAction::Snapshot { name } => seq![PowerStepView::Snapshot(id, snapshot_label(name@, stamp))],
        PowerAction::Off { name, snapshot } => if snapshot || says_yes(answer) {
            seq![PowerStepView::Snapshot(id, snapshot_label(name@, stamp)), PowerStepView::PowerOff(id)]
        } else {
            seq![PowerStepView::PowerOff(id)]
        },
    }
}

/// The views of a list of steps.
pub open spec fn step_views(s: Seq<PowerStep>) -> Seq<PowerStepView> {
    s.map_values(|p: PowerStep| p@)
}

/// The steps of a power subcommand, given the user's answer to the snapshot question (not
/// read where it is not asked) and the time stamp that names a snapshot; refused where no
/// droplet is configured under the name.
pub fn plan(config: &Config, action: &PowerAction, answer: &str, stamp: &str) -> (r: Result<Vec<PowerStep>, PowerError>)
    ensures
        match r {
            Ok(steps) => config.droplets@.contains_key(lowercased(action_name(*action)))
                && step_views(steps@) == planned_steps(*action, config.droplets@[lowercased(action_name(*action))].id, answer@, stamp@),
            Err(PowerError::DropletNotFound(n)) => n@ == action_name(*action)
                && !config.droplets@.contains_key(lowercased(action_name(*action))),
        },
{
    let name = match action {
        PowerAction::On { name } => name,
        PowerAction::Off { name, .. } => name,
        PowerAction::Reboot { name } => name,
        PowerAction::Snapshot { name } => name,
    };
    let id = match config.get_droplet(name.as_str()) {
        Some(d) => d.id,
        None => return Err(PowerError::DropletNotFound(name.clone())),
    };
    let mut steps: Vec<PowerStep> = Vec::new();
    match action {
        PowerAction::On { .. } => steps.push(PowerStep::PowerOn { droplet_id: id }),
        PowerAction::Reboot { .. } => steps.push(PowerStep::Reboot { droplet_id: id }),
        PowerAction::Snapshot { name } => {
            steps.push(PowerStep::Snapshot { droplet_id: id, name: snapshot_name(name.as_str(), stamp) })
        },
        PowerAction::Off { name, snapshot } => {
            if *snapshot || confirms_snapshot(answer) {
                steps.push(PowerStep::Snapshot { droplet_id: id, name: snapshot_name(name.as_str(), stamp) });
            }
            steps.push(PowerStep::PowerOff { droplet_id: id });
        },
    }
    assert(step_views(steps@) =~= planned_steps(*action, id, answer@, stamp@));
    Ok(steps)
}

/// Powering off always ends with the power-off action, and takes a snapshot first exactly
/// when `--snapshot` was given or the user said yes; the snapshot is named after the droplet
/// and the time stamp.
pub proof fn law_power_off_snapshots_first(name: String, snapshot: bool, id: u64, answer: Seq<char>, stamp: Seq<char>)
    ensures
        ({
            let steps = planned_steps(PowerAction::Off { name, snapshot }, id, answer, stamp);
            &&& steps.len() > 0
            &&& steps.last() == PowerStepView::PowerOff(id)
            &&& (snapshot || says_yes(answer)) ==> steps.len() == 2 && steps[0] == PowerStepView::Snapshot(id, snapshot_label(name@, stamp))
            &&& !(snapshot || says_yes(answer)) ==> steps.len() == 1
        }),
{
}

/// Every other power subcommand takes exactly one action on the droplet.
pub proof fn law_single_action(action: PowerAction, id: u64, answer: Seq<char>, stamp: Seq<char>)
    requires
        !(action is Off),
    ensures
        planned_steps(action, id, answer, stamp).len() == 1,
{
}

} // verus!
