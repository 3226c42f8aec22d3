use tdops::init::{collect_droplets, init, read_token, scan_droplet, DropletRecord, InitError, NetworkRecord};
use tdops::text::owned;

fn net(t: Option<&str>, ip: Option<&str>) -> NetworkRecord {
    NetworkRecord { net_type: t.map(owned), ip_address: ip.map(owned) }
}

fn rec(name: Option<&str>, id: Option<u64>, nets: Option<Vec<NetworkRecord>>) -> DropletRecord {
    DropletRecord { name: name.map(owned), id, networks: nets }
}

#[test]
fn token_is_trimmed() {
    assert_eq!(read_token("  dop_v1_xxx \n").ok(), Some(owned("dop_v1_xxx")));
    assert_eq!(read_token("tok").ok(), Some(owned("tok")));
}

#[test]
fn empty_token_is_refused() {
    assert_eq!(read_token("").err(), Some(InitError::EmptyToken));
    assert_eq!(read_token(" \n").err(), Some(InitError::EmptyToken));
    assert_eq!(InitError::EmptyToken.message(), "Token cannot be empty");
}

#[test]
fn scan_takes_first_public_address() {
    let r = rec(
        Some("Web-1"),
        Some(11),
        Some(vec![net(Some("private"), Some("10.0.0.2")), net(Some("public"), Some("1.2.3.4")), net(Some("public"), Some("5.6.7.8"))]),
    );
    let (name, cfg) = scan_droplet(&r).unwrap();
    assert_eq!(name, "web-1");
    assert_eq!(cfg.id, 11);
    assert_eq!(cfg.public_ip, "1.2.3.4");
    assert!(cfg.tailscale_ip.is_none());
}

#[test]
fn scan_without_public_address_gives_empty_address() {
    let (_, cfg) = scan_droplet(&rec(Some("a"), Some(1), Some(vec![net(Some("private"), Some("10.0.0.2"))]))).unwrap();
    assert_eq!(cfg.public_ip, "");
    let (_, cfg) = scan_droplet(&rec(Some("a"), Some(1), None)).unwrap();
    assert_eq!(cfg.public_ip, "");
    // the first public network has no string address: the search stops there
    let (_, cfg) = scan_droplet(&rec(Some("a"), Some(1), Some(vec![net(Some("public"), None), net(Some("public"), Some("1.1.1.1"))]))).unwrap();
    assert_eq!(cfg.public_ip, "");
    // a type that is not a string is not public
    let (_, cfg) = scan_droplet(&rec(Some("a"), Some(1), Some(vec![net(None, Some("2.2.2.2")), net(Some("public"), Some("3.3.3.3"))]))).unwrap();
    assert_eq!(cfg.public_ip, "3.3.3.3");
}

#[test]
fn scan_skips_unnamed_and_zero_ids() {
    assert!(scan_droplet(&rec(None, Some(5), None)).is_none());
    assert!(scan_droplet(&rec(Some(""), Some(5), None)).is_none());
    assert!(scan_droplet(&rec(Some("a"), Some(0), None)).is_none());
    assert!(scan_droplet(&rec(Some("a"), None, None)).is_none());
}

#[test]
fn collect_keeps_later_duplicates_and_lowercases() {
    let records = vec![
        rec(Some("Alpha"), Some(1), None),
        rec(Some("beta"), Some(0), None),
        rec(Some("ALPHA"), Some(2), Some(vec![net(Some("public"), Some("9.9.9.9"))])),
        rec(Some("gamma"), Some(3), None),
    ];
    let t = collect_droplets(&records);
    assert_eq!(t.len(), 2);
    assert_eq!(t.get("alpha").map(|d| d.id), Some(2));
    assert_eq!(t.get("alpha").map(|d| d.public_ip.clone()), Some(owned("9.9.9.9")));
    assert!(t.get("beta").is_none());
    assert_eq!(t.get("gamma").map(|d| d.id), Some(3));
    let c = init(owned("tok"), &records);
    assert_eq!(c.do_token, Some(owned("tok")));
    assert_eq!(c.get_droplet("Gamma").map(|d| d.id), Some(3));
}
