use tdops::config::Config;
use tdops::digitalocean::{ApiError, DoClient, Droplet, HttpMethod, NetworkV4, Networks, WaitStep};
use tdops::text::owned;

fn droplet(nets: Vec<(&str, &str)>) -> Droplet {
    Droplet {
        id: 1,
        name: owned("web"),
        status: owned("active"),
        networks: Networks {
            v4: nets.into_iter().map(|(t, ip)| NetworkV4 { ip_address: owned(ip), net_type: owned(t) }).collect(),
        },
    }
}

#[test]
fn public_ip_is_first_public_network() {
    assert_eq!(droplet(vec![("private", "10.0.0.1"), ("public", "1.2.3.4"), ("public", "5.5.5.5")]).public_ip(), Some("1.2.3.4"));
    assert_eq!(droplet(vec![("private", "10.0.0.1")]).public_ip(), None);
    assert_eq!(droplet(vec![]).public_ip(), None);
}

#[test]
fn client_from_config_needs_token() {
    let mut c = Config::default();
    assert_eq!(DoClient::from_config(&c).err(), Some(ApiError::NoToken));
    assert_eq!(ApiError::NoToken.message(), "No DO token configured. Run `tdops init` first.");
    c.do_token = Some(owned("dop_v1_xxx"));
    assert_eq!(DoClient::from_config(&c).ok().map(|cl| cl.token), Some(owned("dop_v1_xxx")));
}

#[test]
fn list_request() {
    let cl = DoClient::new(owned("t"));
    let r = cl.list_droplets();
    assert_eq!(r.method, HttpMethod::Get);
    assert_eq!(r.url, "https://api.digitalocean.com/v2/droplets");
    assert_eq!(r.token, "t");
    assert!(r.body.is_none());
}

#[test]
fn action_requests() {
    let cl = DoClient::new(owned("t"));
    for (r, kind) in [(cl.power_on(123456789), "power_on"), (cl.power_off(123456789), "power_off"), (cl.reboot(123456789), "reboot")] {
        assert_eq!(r.method, HttpMethod::Post);
        assert_eq!(r.url, "https://api.digitalocean.com/v2/droplets/123456789/actions");
        assert_eq!(r.token, "t");
        let b = r.body.unwrap();
        assert_eq!(b.action_type, kind);
        assert!(b.name.is_none());
    }
    let r = cl.snapshot(5, "web-20240101-120000");
    assert_eq!(r.url, "https://api.digitalocean.com/v2/droplets/5/actions");
    let b = r.body.unwrap();
    assert_eq!(b.action_type, "snapshot");
    assert_eq!(b.name, Some(owned("web-20240101-120000")));
}

#[test]
fn waiting_polls_until_done() {
    let cl = DoClient::new(owned("t"));
    match cl.wait_for_action(7, 99, None) {
        WaitStep::Poll { request, delay_secs } => {
            assert_eq!(delay_secs, 0);
            assert_eq!(request.method, HttpMethod::Get);
            assert_eq!(request.url, "https://api.digitalocean.com/v2/droplets/7/actions/99");
        }
        _ => panic!("expected a poll"),
    }
    match cl.wait_for_action(7, 99, Some("in-progress")) {
        WaitStep::Poll { request, delay_secs } => {
            assert_eq!(delay_secs, 2);
            assert_eq!(request.url, "https://api.digitalocean.com/v2/droplets/7/actions/99");
        }
        _ => panic!("expected a poll"),
    }
    assert!(matches!(cl.wait_for_action(7, 99, Some("completed")), WaitStep::Completed));
    assert!(matches!(cl.wait_for_action(7, 99, Some("errored")), WaitStep::Failed));
    assert_eq!(ApiError::ActionFailed.message(), "Action failed");
}

#[test]
fn listing_is_paged() {
    let cl = DoClient::new(owned("t"));
    let r = cl.list_droplets_page(1);
    assert_eq!(r.method, HttpMethod::Get);
    assert_eq!(r.url, "https://api.digitalocean.com/v2/droplets?page=1&per_page=200");
    assert_eq!(r.token, "t");
    assert!(r.body.is_none());
    match cl.next_listing_page(1, 200, true) {
        Some((next, req)) => {
            assert_eq!(next, 2);
            assert_eq!(req.url, "https://api.digitalocean.com/v2/droplets?page=2&per_page=200");
        }
        None => panic!("expected a next page"),
    }
    assert!(cl.next_listing_page(2, 13, false).is_none());
    assert!(cl.next_listing_page(3, 0, true).is_none());
    assert!(cl.next_listing_page(u64::MAX, 5, true).is_none());
}
