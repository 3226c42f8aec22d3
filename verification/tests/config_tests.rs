use tdops::config::{Config, DropletConfig, DropletTable};
use tdops::text::owned;

fn droplet(id: u64, ip: &str) -> DropletConfig {
    DropletConfig { id, public_ip: owned(ip), tailscale_ip: None }
}

#[test]
fn table_insert_get_and_overwrite() {
    let mut t = DropletTable::new();
    assert!(t.is_empty());
    assert_eq!(t.len(), 0);
    t.insert(owned("my-droplet"), droplet(123456789, "1.2.3.4"));
    t.insert(owned("another-droplet"), droplet(987654321, "5.6.7.8"));
    assert_eq!(t.len(), 2);
    assert!(!t.is_empty());
    assert_eq!(t.get("my-droplet").map(|d| d.id), Some(123456789));
    assert_eq!(t.get("another-droplet").map(|d| d.public_ip.clone()), Some(owned("5.6.7.8")));
    assert!(t.get("missing").is_none());
    t.insert(owned("my-droplet"), droplet(42, "9.9.9.9"));
    assert_eq!(t.len(), 2);
    assert_eq!(t.get("my-droplet").map(|d| d.id), Some(42));
    assert_eq!(t.entries().len(), 2);
}

#[test]
fn default_config_is_empty() {
    let c = Config::default();
    assert!(c.do_token.is_none());
    assert!(c.droplets.is_empty());
    assert!(c.get_droplet("anything").is_none());
}

#[test]
fn get_droplet_ignores_case() {
    let mut c = Config::default();
    c.droplets.insert(owned("my-droplet"), droplet(123456789, "1.2.3.4"));
    assert_eq!(c.get_droplet("my-droplet").map(|d| d.id), Some(123456789));
    assert_eq!(c.get_droplet("My-Droplet").map(|d| d.id), Some(123456789));
    assert_eq!(c.get_droplet("MY-DROPLET").map(|d| d.id), Some(123456789));
    assert!(c.get_droplet("other").is_none());
}

#[test]
fn get_droplet_lowercases_beyond_ascii() {
    let mut c = Config::default();
    c.droplets.insert(owned("école"), droplet(7, ""));
    assert_eq!(c.get_droplet("ÉCOLE").map(|d| d.id), Some(7));
}

#[test]
fn keys_stored_in_upper_case_are_not_found() {
    let mut c = Config::default();
    c.droplets.insert(owned("Upper"), droplet(3, ""));
    assert!(c.get_droplet("Upper").is_none());
    assert!(c.get_droplet("upper").is_none());
}
