//! The DigitalOcean droplet API: the droplets it lists and the requests the tool sends it.
use vstd::prelude::*;
use crate::config::Config;
use crate::text::{decimal, digits_value, is_numeral, law_decimal_reads_back, law_numeral_unique, owned, text_eq, u64_to_decimal};

verus! {

/// One IPv4 network of a droplet.
pub struct NetworkV4 {
    pub ip_address: String,
    pub net_type: String,
}

/// The networks of a droplet.
pub struct Networks {
    pub v4: Vec<NetworkV4>,
}

/// A droplet as the API lists it.
pub struct Droplet {
    pub id: u64,
    pub name: String,
    pub status: String,
    pub networks: Networks,
}

/// An action the API started on a droplet.
pub struct Action {
    pub id: u64,
    pub status: String,
}

/// The address of the first network whose type is `public`.
pub open spec fn first_public_ip(v: Seq<NetworkV4>) -> Option<Seq<char>>
    decreases v.len(),
{
    if v.len() == 0 {
        None
    } else if v[0].net_type@ == "public"@ {
        Some(v[0].ip_address@)
    } else {
        first_public_ip(v.drop_first())
    }
}

/// Whether a network's type is `public`.
pub open spec fn is_public_network(n: NetworkV4) -> bool {
    n.net_type@ == "public"@
}

proof fn lemma_first_public_witness(v: Seq<NetworkV4>) -> (i: int)
    requires
        first_public_ip(v) is Some,
    ensures
        0 <= i < v.len(),
        is_public_network(v[i]),
        first_public_ip(v) == Some(v[i].ip_address@),
        forall|k: int| 0 <= k < i ==> !is_public_network(#[trigger] v[k]),
    decreases v.len(),
{
    if is_public_network(v[0]) {
        0
    } else {
        let t = v.drop_first();
        let j = lemma_first_public_witness(t);
        assert(v[j + 1] == t[j]);
        assert forall|k: int| 0 <= k < j + 1 implies !is_public_network(#[trigger] v[k]) by {
            if k > 0 {
                assert(v[k] == t[k - 1]);
            }
        }
        j + 1
    }
}

proof fn lemma_first_public_none(v: Seq<NetworkV4>)
    requires
        first_public_ip(v) is None,
    ensures
        forall|i: int| 0 <= i < v.len() ==> !is_public_network(#[trigger] v[i]),
    decreases v.len(),
{
    if v.len() > 0 {
        let t = v.drop_first();
        lemma_first_public_none(t);
        assert forall|i: int| 0 <= i < v.len() implies !is_public_network(#[trigger] v[i]) by {
            if i > 0 {
                assert(v[i] == t[i - 1]);
            }
        }
    }
}

/// The public address is found exactly when some network is public, and it is the address of
/// the public network that comes first.
pub proof fn law_first_public_ip(v: Seq<NetworkV4>)
    ensures
        first_public_ip(v) is Some <==> exists|i: int| 0 <= i < v.len() && is_public_network(#[trigger] v[i]),
        forall|i: int| 0 <= i < v.len() && is_public_network(#[trigger] v[i])
            && (forall|k: int| 0 <= k < i ==> !is_public_network(#[trigger] v[k]))
            ==> first_public_ip(v) == Some(v[i].ip_address@),
{
    if first_public_ip(v) is Some {
        let j = lemma_first_public_witness(v);
        assert forall|i: int| 0 <= i < v.len() && is_public_network(#[trigger] v[i])
            && (forall|k: int| 0 <= k < i ==> !is_public_network(#[trigger] v[k]))
            implies first_public_ip(v) == Some(v[i].ip_address@) by {
            if i < j {
                assert(!is_public_network(v[i]));
            } else if j < i {
                assert(!is_public_network(v[j]));
            }
        }
    } else {
        lemma_first_public_none(v);
    }
}

impl Droplet {
    /// The address of the droplet's first public IPv4 network, if it has one.
    pub fn public_ip(&self) -> (r: Option<&str>)
        ensures
            match r {
                Some(ip) => first_public_ip(self.networks.v4@) == Some(ip@),
                None => first_public_ip(self.networks.v4@) is None,
            },
            match r {
                Some(ip) => exists|i: int| 0 <= i < self.networks.v4@.len()
                    && is_public_network(#[trigger] self.networks.v4@[i])
                    && self.networks.v4@[i].ip_address@ == ip@
                    && forall|k: int| 0 <= k < i ==> !is_public_network(#[trigger] self.networks.v4@[k]),
                None => forall|i: int| 0 <= i < self.networks.v4@.len() ==> !is_public_network(#[trigger] self.networks.v4@[i]),
            },
    {
        let v = &self.networks.v4;
        let n = v.len();
        let mut i: usize = 0;
        assert(v@.skip(0) =~= v@);
        while i < n
            invariant
                v@ == self.networks.v4@,
                n == v@.len(),
                i <= n,
                first_public_ip(v@.skip(i as int)) == first_public_ip(v@),
            decreases n - i,
        {
            assert(v@.skip(i as int)[0] == v@[i as int]);
            assert(v@.skip(i as int).drop_first() =~= v@.skip(i + 1));
            if text_eq(v[i].net_type.as_str(), "public") {
                proof {
                    let j = lemma_first_public_witness(self.networks.v4@);
                    assert(v@[j].ip_address@ == v@[i as int].ip_address@);
                }
                return Some(v[i].ip_address.as_str());
            }
            i = i + 1;
        }
        assert(v@.skip(n as int).len() == 0);
        proof {
            lemma_first_public_none(self.networks.v4@);
        }
        None
    }
}

/// The HTTP method of a request.
#[derive(Debug, Clone, Copy, PartialEq, Eq, Structural)]
pub enum HttpMethod {
    Get,
    Post,
}

/// The JSON body of an action request: `{"type": action_type}`, with `"name": name` added
/// where a name is given.
pub struct ActionBody {
    pub action_type: String,
    pub name: Option<String>,
}

/// A request to the API, authorised by a bearer token.
pub struct ApiRequest {
    pub method: HttpMethod,
    pub url: String,
    pub token: String,
    pub body: Option<ActionBody>,
}

/// The address of the droplet collection.
pub open spec fn droplets_url() -> Seq<char> {
    "https://api.digitalocean.com/v2/droplets"@
}

/// The address of page `page` of the droplet listing, 200 droplets to a page.
pub open spec fn listing_url(page: u64) -> Seq<char> {
    droplets_url() + "?page="@ + decimal(page as nat) + "&per_page=200"@
}

/// The address of a droplet's actions.
pub open spec fn actions_url(droplet_id: u64) -> Seq<char> {
    droplets_url() + "/"@ + decimal(droplet_id as nat) + "/actions"@
}

/// The address of one action of a droplet.
pub open spec fn action_url(droplet_id: u64, action_id: u64) -> Seq<char> {
    actions_url(droplet_id) + "/"@ + decimal(action_id as nat)
}

/// A droplet's action address is the droplet collection's address, `/`, a numeral that reads
/// back as the droplet id, and `/actions`.
pub proof fn law_actions_url_reads_back(droplet_id: u64)
    ensures
        ({
            let u = actions_url(droplet_id);
            let p: int = (droplets_url().len() + 1) as int;
            let q: int = u.len() - "/actions"@.len();
            &&& p < q
            &&& u.subrange(0, p) == droplets_url() + "/"@
            &&& u.subrange(q, u.len() as int) == "/actions"@
            &&& is_numeral(u.subrange(p, q))
            &&& digits_value(u.subrange(p, q)) == droplet_id
        }),
{
    reveal_strlit("/");
    let u = actions_url(droplet_id);
    let a = droplets_url();
    let n = decimal(droplet_id as nat);
    let t = "/actions"@;
    law_decimal_reads_back(droplet_id as nat);
    let p: int = (a.len() + 1) as int;
    let q: int = u.len() - t.len();
    assert(u.subrange(0, p) =~= a + "/"@);
    assert(u.subrange(p, q) =~= n);
    assert(u.subrange(q, u.len() as int) =~= t);
}

/// Different droplets have different action addresses.
pub proof fn law_actions_url_injective(a: u64, b: u64)
    requires
        actions_url(a) == actions_url(b),
    ensures
        a == b,
{
    law_actions_url_reads_back(a);
    law_actions_url_reads_back(b);
}

/// An action's address is its droplet's action address, `/`, and a numeral that reads back as
/// the action id.
pub proof fn law_action_url_reads_back(droplet_id: u64, action_id: u64)
    ensures
        ({
            let u = action_url(droplet_id, action_id);
            let p: int = (actions_url(droplet_id).len() + 1) as int;
            &&& p < u.len()
            &&& u.subrange(0, p) == actions_url(droplet_id) + "/"@
            &&& is_numeral(u.subrange(p, u.len() as int))
            &&& digits_value(u.subrange(p, u.len() as int)) == action_id
        }),
{
    reveal_strlit("/");
    let u = action_url(droplet_id, action_id);
    let p: int = (actions_url(droplet_id).len() + 1) as int;
    law_decimal_reads_back(action_id as nat);
    assert(u.subrange(0, p) =~= actions_url(droplet_id) + "/"@);
    assert(u.subrange(p, u.len() as int) =~= decimal(action_id as nat));
}

/// Different actions of a droplet have different addresses.
pub proof fn law_action_url_injective(droplet_id: u64, a: u64, b: u64)
    requires
        action_url(droplet_id, a) == action_url(droplet_id, b),
    ensures
        a == b,
{
    law_action_url_reads_back(droplet_id, a);
    law_action_url_reads_back(droplet_id, b);
}

/// A listing page's address is the droplet collection's address, `?page=`, a numeral that
/// reads back as the page, and `&per_page=200`.
pub proof fn law_listing_url_reads_back(page: u64)
    ensures
        ({
            let u = listing_url(page);
            let p: int = (droplets_url().len() + "?page="@.len()) as int;
            let q: int = u.len() - "&per_page=200"@.len();
            &&& p < q
            &&& u.subrange(0, p) == droplets_url() + "?page="@
            &&& u.subrange(q, u.len() as int) == "&per_page=200"@
            &&& is_numeral(u.subrange(p, q))
            &&& digits_value(u.subrange(p, q)) == page
        }),
{
    let u = listing_url(page);
    let p: int = (droplets_url().len() + "?page="@.len()) as int;
    let q: int = u.len() - "&per_page=200"@.len();
    law_decimal_reads_back(page as nat);
    assert(u.subrange(0, p) =~= droplets_url() + "?page="@);
    assert(u.subrange(p, q) =~= decimal(page as nat));
    assert(u.subrange(q, u.len() as int) =~= "&per_page=200"@);
}

/// Whether a request is a POST of an action of type `action_type` on a droplet.
pub open spec fn is_action_request(
    r: ApiRequest,
    token: Seq<char>,
    droplet_id: u64,
    action_type: Seq<char>,
    name: Option<Seq<char>>,
) -> bool {
    &&& r.method == HttpMethod::Post
    &&& r.url@ == actions_url(droplet_id)
    &&& r.token@ == token
    &&& r.body matches Some(b) && b.action_type@ == action_type && crate::config::opt_view(b.name) == name
}

fn actions_url_text(droplet_id: u64) -> (r: String)
    ensures
        r@ == actions_url(droplet_id),
{
    let mut r = owned("https://api.digitalocean.com/v2/droplets");
    r.append("/");
    let id = u64_to_decimal(droplet_id);
    r.append(id.as_str());
    r.append("/actions");
    r
}

/// Why a request to the API was not made or did not succeed.
#[derive(Debug, PartialEq, Eq, Structural)]
pub enum ApiError {
    /// The configuration holds no API token.
    NoToken,
    /// The API reported that an action errored.
    ActionFailed,
}

impl ApiError {
    /// The message shown for the error.
    pub fn message(&self) -> (r: String)
        ensures
            r@ == match self {
                ApiError::NoToken => "No DO token configured. Run `tdops init` first."@,
                ApiError::ActionFailed => "Action failed"@,
            },
    {
        match self {
            ApiError::NoToken => owned("No DO token configured. Run `tdops init` first."),
            ApiError::ActionFailed => owned("Action failed"),
        }
    }
}

/// What to do next while waiting for an action to finish.
pub enum WaitStep {
    /// Send `request` after `delay_secs` seconds, and report the status it answers.
    Poll { request: ApiRequest, delay_secs: u64 },
    /// The action completed.
    Completed,
    /// The action errored.
    Failed,
}

/// A client of the droplet API, holding the token that authorises its requests.
pub struct DoClient {
    pub token: String,
}

impl DoClient {
    /// A client that sends `token`.
    pub fn new(token: String) -> (r: Self)
        ensures
            r.token == token,
    {
        DoClient { token }
    }

    /// A client with the configuration's token; refused where no token is configured.
    pub fn from_config(config: &Config) -> (r: Result<Self, ApiError>)
        ensures
            match config.do_token {
                Some(t) => r matches Ok(c) && c.token@ == t@,
                None => r matches Err(e) && e == ApiError::NoToken,
            },
    {
        match &config.do_token {
            Some(t) => Ok(DoClient::new(t.clone())),
            None => Err(ApiError::NoToken),
        }
    }

    /// The request that lists the droplets without asking for a page: the API answers with
    /// its first page only. Setting up a configuration lists the droplets this way; the
    /// status table goes through `list_droplets_page` and `next_listing_page`.
    pub fn list_droplets(&self) -> (r: ApiRequest)
        ensures
            r.method == HttpMethod::Get,
            r.url@ == droplets_url(),
            r.token@ == self.token@,
            r.body is None,
    {
        ApiRequest {
            method: HttpMethod::Get,
            url: owned("https://api.digitalocean.com/v2/droplets"),
            token: self.token.clone(),
            body: None,
        }
    }

    /// The request for page `page` of the droplet listing, 200 droplets to a page.
    pub fn list_droplets_page(&self, page: u64) -> (r: ApiRequest)
        ensures
            r.method == HttpMethod::Get,
            r.url@ == listing_url(page),
            r.token@ == self.token@,
            r.body is None,
    {
        let mut url = owned("https://api.digitalocean.com/v2/droplets");
        url.append("?page=");
        let p = u64_to_decimal(page);
        url.append(p.as_str());
        url.append("&per_page=200");
        ApiRequest { method: HttpMethod::Get, url, token: self.token.clone(), body: None }
    }

    /// After page `page` of the listing brought `listed` droplets, the next page to ask for
    /// and its request: there is one while the answer links a next page and the page was
    /// not empty.
    pub fn next_listing_page(&self, page: u64, listed: usize, has_next: bool) -> (r: Option<(u64, ApiRequest)>)
        ensures
            r is Some <==> (has_next && listed > 0 && page < u64::MAX),
            r matches Some((next, request)) ==> next == page + 1 && request.method == HttpMethod::Get
                && request.url@ == listing_url(next) && request.token@ == self.token@ && request.body is None,
    {
        if has_next && listed > 0 && page < u64::MAX {
            Some((page + 1, self.list_droplets_page(page + 1)))
        } else {
            None
        }
    }

    fn droplet_action(&self, droplet_id: u64, action_type: &str) -> (r: ApiRequest)
        ensures
            is_action_request(r, self.token@, droplet_id, action_type@, None),
    {
        ApiRequest {
            method: HttpMethod::Post,
            url: actions_url_text(droplet_id),
            token: self.token.clone(),
            body: Some(ActionBody { action_type: owned(action_type), name: None }),
        }
    }

    /// The request that powers a droplet on.
    pub fn power_on(&self, droplet_id: u64) -> (r: ApiRequest)
        ensures
            is_action_request(r, self.token@, droplet_id, "power_on"@, None),
    {
        self.droplet_action(droplet_id, "power_on")
    }

    /// The request that powers a droplet off.
    pub fn power_off(&self, droplet_id: u64) -> (r: ApiRequest)
        ensures
            is_action_request(r, self.token@, droplet_id, "power_off"@, None),
    {
        self.droplet_action(droplet_id, "power_off")
    }

    /// The request that reboots a droplet.
    pub fn reboot(&self, droplet_id: u64) -> (r: ApiRequest)
        ensures
            is_action_request(r, self.token@, droplet_id, "reboot"@, None),
    {
        self.droplet_action(droplet_id, "reboot")
    }

    /// The request that snapshots a droplet under `name`.
    pub fn snapshot(&self, droplet_id: u64, name: &str) -> (r: ApiRequest)
        ensures
            is_action_request(r, self.token@, droplet_id, "snapshot"@, Some(name@)),
    {
        ApiRequest {
            method: HttpMethod::Post,
            url: actions_url_text(droplet_id),
            token: self.token.clone(),
            body: Some(ActionBody { action_type: owned("snapshot"), name: Some(owned(name)) }),
        }
    }

    /// The next step of waiting for an action, given the status the last poll reported
    /// (`None` before the first poll): poll at once at first, stop on `completed` or
    /// `errored`, and otherwise poll again after two seconds.
    pub fn wait_for_action(&self, droplet_id: u64, action_id: u64, last_status: Option<&str>) -> (r: WaitStep)
        ensures
            match last_status {
                None => r matches WaitStep::Poll { request, delay_secs } && delay_secs == 0
                    && request.method == HttpMethod::Get && request.url@ == action_url(droplet_id, action_id)
                    && request.token@ == self.token@ && request.body is None,
                Some(s) => if s@ == "completed"@ {
                    r is Completed
                } else if s@ == "errored"@ {
                    r is Failed
                } else {
                    r matches WaitStep::Poll { request, delay_secs } && delay_secs == 2
                        && request.method == HttpMethod::Get && request.url@ == action_url(droplet_id, action_id)
                        && request.token@ == self.token@ && request.body is None
                },
            },
    {
        let delay_secs: u64 = match last_status {
            None => 0,
            Some(s) => {
                if text_eq(s, "completed") {
                    return WaitStep::Completed;
                } else if text_eq(s, "errored") {
                    return WaitStep::Failed;
                }
                2
            },
        };
        let mut url = actions_url_text(droplet_id);
        url.append("/");
        let aid = u64_to_decimal(action_id);
        url.append(aid.as_str());
        WaitStep::Poll {
            request: ApiRequest { method: HttpMethod::Get, url, token: self.token.clone(), body: None },
            delay_secs,
        }
    }
}

} // verus!
