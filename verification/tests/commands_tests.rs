use tdops::commands::power::{asks_for_snapshot, confirms_snapshot, plan, snapshot_name, PowerAction, PowerError, PowerStep};
use tdops::commands::serve::{has_serve_config, target_label};
use tdops::commands::status::{droplet_row, rows, StatusStyle};
use tdops::config::{Config, DropletConfig};
use tdops::digitalocean::{Droplet, NetworkV4, Networks};
use tdops::text::owned;

fn config() -> Config {
    let mut c = Config::default();
    c.droplets.insert(owned("my-droplet"), DropletConfig { id: 123456789, public_ip: owned("1.2.3.4"), tailscale_ip: None });
    c
}

fn ids(steps: &[PowerStep]) -> Vec<String> {
    steps
        .iter()
        .map(|s| match s {
            PowerStep::PowerOn { droplet_id } => format!("on {}", droplet_id),
            PowerStep::PowerOff { droplet_id } => format!("off {}", droplet_id),
            PowerStep::Reboot { droplet_id } => format!("reboot {}", droplet_id),
            PowerStep::Snapshot { droplet_id, name } => format!("snapshot {} {}", droplet_id, name),
        })
        .collect()
}

#[test]
fn plans_single_actions() {
    let c = config();
    let p = plan(&c, &PowerAction::On { name: owned("my-droplet") }, "", "20240101-120000").ok().unwrap();
    assert_eq!(ids(&p), vec!["on 123456789"]);
    let p = plan(&c, &PowerAction::Reboot { name: owned("My-Droplet") }, "", "20240101-120000").ok().unwrap();
    assert_eq!(ids(&p), vec!["reboot 123456789"]);
    let p = plan(&c, &PowerAction::Snapshot { name: owned("my-droplet") }, "", "20240101-120000").ok().unwrap();
    assert_eq!(ids(&p), vec!["snapshot 123456789 my-droplet-20240101-120000"]);
}

#[test]
fn power_off_snapshots_first_when_asked() {
    let c = config();
    let p = plan(&c, &PowerAction::Off { name: owned("my-droplet"), snapshot: true }, "", "S").ok().unwrap();
    assert_eq!(ids(&p), vec!["snapshot 123456789 my-droplet-S", "off 123456789"]);
    let p = plan(&c, &PowerAction::Off { name: owned("my-droplet"), snapshot: false }, " Yes\n", "S").ok().unwrap();
    assert_eq!(ids(&p), vec!["snapshot 123456789 my-droplet-S", "off 123456789"]);
    let p = plan(&c, &PowerAction::Off { name: owned("my-droplet"), snapshot: false }, "n\n", "S").ok().unwrap();
    assert_eq!(ids(&p), vec!["off 123456789"]);
    let p = plan(&c, &PowerAction::Off { name: owned("my-droplet"), snapshot: false }, "\n", "S").ok().unwrap();
    assert_eq!(ids(&p), vec!["off 123456789"]);
}

#[test]
fn unknown_droplet_is_refused() {
    let c = config();
    match plan(&c, &PowerAction::On { name: owned("nope") }, "", "S") {
        Err(e) => {
            assert!(matches!(&e, PowerError::DropletNotFound(n) if n == "nope"));
            assert_eq!(e.message(), "Droplet 'nope' not found in config");
        }
        Ok(_) => panic!("expected an error"),
    }
}

#[test]
fn snapshot_question() {
    assert!(asks_for_snapshot(&PowerAction::Off { name: owned("a"), snapshot: false }));
    assert!(!asks_for_snapshot(&PowerAction::Off { name: owned("a"), snapshot: true }));
    assert!(!asks_for_snapshot(&PowerAction::On { name: owned("a") }));
    assert!(confirms_snapshot("y"));
    assert!(confirms_snapshot("  YES \n"));
    assert!(!confirms_snapshot("n"));
    assert!(!confirms_snapshot(""));
    assert!(!confirms_snapshot(" no y"));
    assert_eq!(snapshot_name("web", "20240102-030405"), "web-20240102-030405");
}

#[test]
fn serve_helpers() {
    assert_eq!(target_label(None), "local");
    assert_eq!(target_label(Some("box")), "box");
    assert!(!has_serve_config(""));
    assert!(!has_serve_config("  \n"));
    assert!(!has_serve_config("No serve config\n"));
    assert!(has_serve_config("https://box.ts.net (tailnet only)\n|-- / proxy http://127.0.0.1:3000\n"));
}

fn do_droplet(name: &str, status: &str, nets: Vec<(&str, &str)>) -> Droplet {
    Droplet {
        id: 1,
        name: owned(name),
        status: owned(status),
        networks: Networks { v4: nets.into_iter().map(|(t, ip)| NetworkV4 { ip_address: owned(ip), net_type: owned(t) }).collect() },
    }
}

#[test]
fn status_rows() {
    let r = droplet_row(&do_droplet("web", "active", vec![("public", "1.2.3.4")]));
    assert_eq!((r.name.as_str(), r.status.as_str(), r.style, r.public_ip.as_str()), ("web", "active", StatusStyle::Active, "1.2.3.4"));
    let r = droplet_row(&do_droplet("db", "off", vec![("private", "10.0.0.1")]));
    assert_eq!((r.style, r.public_ip.as_str()), (StatusStyle::Off, "-"));
    let r = droplet_row(&do_droplet("new", "new", vec![]));
    assert_eq!(r.style, StatusStyle::Other);
    let all = rows(&vec![do_droplet("a", "active", vec![]), do_droplet("b", "off", vec![])]);
    assert_eq!(all.len(), 2);
    assert_eq!(all[1].name, "b");
}
