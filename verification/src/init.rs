//! Setting up a configuration: the token the user typed and the droplets the API listed.
use vstd::prelude::*;
use crate::config::{Config, DropletConfig, DropletConfigView, DropletTable, opt_view};
use crate::text::{ascii_lowered, is_ascii_text, lowercased, owned, lowercase, trim, trimmed};

verus! {

/// Why setting up a configuration was refused.
#[derive(Debug, PartialEq, Eq, Structural)]
pub enum InitError {
    /// The token was empty once surrounding white space was removed.
    EmptyToken,
}

impl InitError {
    /// The message shown for the error.
    pub fn message(&self) -> (r: String)
        ensures
            r@ == "Token cannot be empty"@,
    {
        owned("Token cannot be empty")
    }
}

/// The token the user typed, without surrounding white space; refused when nothing is left.
pub fn read_token(input: &str) -> (r: Result<String, InitError>)
    ensures
        match r {
            Ok(t) => t@ == trimmed(input@) && t@.len() > 0,
            Err(e) => e == InitError::EmptyToken && trimmed(input@).len() == 0,
        },
{
    let t = trim(input);
    if t.unicode_len() == 0 {
        Err(InitError::EmptyToken)
    } else {
        Ok(owned(t))
    }
}

/// What the droplet listing says of one network: its `type` and `ip_address`, each where
/// it is a string.
pub struct NetworkRecord {
    pub net_type: Option<String>,
    pub ip_address: Option<String>,
}

/// What the droplet listing says of one droplet: its `name` where that is a string, its `id`
/// where that is an unsigned integer, and its IPv4 networks where `networks.v4` is an array.
pub struct DropletRecord {
    pub name: Option<String>,
    pub id: Option<u64>,
    pub networks: Option<Vec<NetworkRecord>>,
}

/// Whether a network's type is the string `public`.
pub open spec fn record_is_public(n: NetworkRecord) -> bool {
    match n.net_type {
        Some(t) => t@ == "public"@,
        None => false,
    }
}

/// The address of the first public network, where that address is a string.
pub open spec fn record_public_ip(s: Seq<NetworkRecord>) -> Option<Seq<char>>
    decreases s.len(),
{
    if s.len() == 0 {
        None
    } else if record_is_public(s[0]) {
        opt_view(s[0].ip_address)
    } else {
        record_public_ip(s.drop_first())
    }
}

/// The public address recorded for a droplet: empty where there is none.
pub open spec fn record_address(r: DropletRecord) -> Seq<char> {
    match r.networks {
        Some(v) => match record_public_ip(v@) {
            Some(ip) => ip,
            None => Seq::empty(),
        },
        None => Seq::empty(),
    }
}

/// The lowercased name of a droplet record; a missing name counts as empty.
pub open spec fn record_name(r: DropletRecord) -> Seq<char> {
    lowercased(match r.name {
        Some(n) => n@,
        None => Seq::empty(),
    })
}

/// The id of a droplet record; a missing id counts as 0.
pub open spec fn record_id(r: DropletRecord) -> u64 {
    match r.id {
        Some(i) => i,
        None => 0,
    }
}

/// Whether a droplet record is kept: its lowercased name is not empty and its id is not 0.
pub open spec fn record_kept(r: DropletRecord) -> bool {
    record_name(r).len() > 0 && record_id(r) > 0
}

/// The configuration a kept droplet record gives.
pub open spec fn record_config(r: DropletRecord) -> DropletConfigView {
    DropletConfigView { id: record_id(r), public_ip: record_address(r), tailscale_ip: None }
}

/// The droplets that a listing gives, a later record winning over an earlier one of the same name.
pub open spec fn collected(rs: Seq<DropletRecord>) -> Map<Seq<char>, DropletConfigView>
    decreases rs.len(),
{
    if rs.len() == 0 {
        Map::empty()
    } else if record_kept(rs.last()) {
        collected(rs.drop_last()).insert(record_name(rs.last()), record_config(rs.last()))
    } else {
        collected(rs.drop_last())
    }
}

proof fn lemma_record_public_first(s: Seq<NetworkRecord>, i: int)
    requires
        0 <= i < s.len(),
        record_is_public(s[i]),
        forall|k: int| 0 <= k < i ==> !record_is_public(#[trigger] s[k]),
    ensures
        record_public_ip(s) == opt_view(s[i].ip_address),
    decreases s.len(),
{
    if i > 0 {
        let t = s.drop_first();
        assert(!record_is_public(s[0]));
        assert(t[i - 1] == s[i]);
        assert forall|k: int| 0 <= k < i - 1 implies !record_is_public(#[trigger] t[k]) by {
            assert(t[k] == s[k + 1]);
        }
        lemma_record_public_first(t, i - 1);
    }
}

proof fn lemma_record_public_none(s: Seq<NetworkRecord>)
    requires
        forall|k: int| 0 <= k < s.len() ==> !record_is_public(#[trigger] s[k]),
    ensures
        record_public_ip(s) is None,
    decreases s.len(),
{
    if s.len() > 0 {
        let t = s.drop_first();
        assert(!record_is_public(s[0]));
        assert forall|k: int| 0 <= k < t.len() implies !record_is_public(#[trigger] t[k]) by {
            assert(t[k] == s[k + 1]);
        }
        lemma_record_public_none(t);
    }
}

/// The address a listed droplet gives is that of its first public network, where that
/// address is a string; where no network is public there is none.
pub proof fn law_record_public_ip(s: Seq<NetworkRecord>)
    ensures
        forall|i: int| 0 <= i < s.len() && record_is_public(#[trigger] s[i])
            && (forall|k: int| 0 <= k < i ==> !record_is_public(#[trigger] s[k]))
            ==> record_public_ip(s) == opt_view(s[i].ip_address),
        (forall|k: int| 0 <= k < s.len() ==> !record_is_public(#[trigger] s[k])) ==> record_public_ip(s) is None,
{
    assert forall|i: int| 0 <= i < s.len() && record_is_public(#[trigger] s[i])
        && (forall|k: int| 0 <= k < i ==> !record_is_public(#[trigger] s[k]))
        implies record_public_ip(s) == opt_view(s[i].ip_address) by {
        lemma_record_public_first(s, i);
    }
    if forall|k: int| 0 <= k < s.len() ==> !record_is_public(#[trigger] s[k]) {
        lemma_record_public_none(s);
    }
}

fn first_public_address(nets: &Vec<NetworkRecord>) -> (r: Option<&String>)
    ensures
        match r {
            Some(ip) => record_public_ip(nets@) == Some(ip@),
            None => record_public_ip(nets@) is None,
        },
{
    proof {
        reveal_strlit("public");
    }
    let n = nets.len();
    let mut i: usize = 0;
    assert(nets@.skip(0) =~= nets@);
    while i < n
        invariant
            n == nets@.len(),
            i <= n,
            record_public_ip(nets@.skip(i as int)) == record_public_ip(nets@),
        decreases n - i,
    {
        assert(nets@.skip(i as int)[0] == nets@[i as int]);
        assert(nets@.skip(i as int).drop_first() =~= nets@.skip(i + 1));
        let public = match &nets[i].net_type {
            Some(t) => crate::text::text_eq(t.as_str(), "public"),
            None => false,
        };
        if public {
            return match &nets[i].ip_address {
                Some(ip) => Some(ip),
                None => None,
            };
        }
        i = i + 1;
    }
    assert(nets@.skip(n as int).len() == 0);
    None
}

/// The name and configuration that one listed droplet gives: its name lowercased, its id,
/// and the address of its first public network, or nothing where the name is empty or the id is 0.
pub fn scan_droplet(r: &DropletRecord) -> (out: Option<(String, DropletConfig)>)
    ensures
        match out {
            Some((name, cfg)) => record_kept(*r) && name@ == record_name(*r) && cfg@ == record_config(*r),
            None => !record_kept(*r),
        },
        match (out, r.name) {
            (Some((name, _)), Some(n)) => is_ascii_text(n@) ==> name@ == ascii_lowered(n@),
            _ => true,
        },
{
    proof {
        reveal_strlit("");
    }
    let name = match &r.name {
        Some(n) => lowercase(n.as_str()),
        None => {
            assert(""@ =~= Seq::<char>::empty());
            lowercase("")
        },
    };
    let id = match r.id {
        Some(i) => i,
        None => 0,
    };
    let public_ip = match &r.networks {
        Some(v) => match first_public_address(v) {
            Some(ip) => ip.clone(),
            None => owned(""),
        },
        None => owned(""),
    };
    assert(public_ip@ == record_address(*r));
    if name.as_str().unicode_len() > 0 && id > 0 {
        Some((name, DropletConfig { id, public_ip, tailscale_ip: None }))
    } else {
        None
    }
}

/// The droplets of a listing, each under its lowercased name.
pub fn collect_droplets(records: &Vec<DropletRecord>) -> (t: DropletTable)
    ensures
        t@ == collected(records@),
        forall|i: int| 0 <= i < records@.len() && record_kept(#[trigger] records@[i])
            ==> t@.contains_key(record_name(records@[i])),
{
    let mut t = DropletTable::new();
    let n = records.len();
    let mut i: usize = 0;
    while i < n
        invariant
            n == records@.len(),
            i <= n,
            t@ == collected(records@.take(i as int)),
        decreases n - i,
    {
        assert(records@.take(i + 1).drop_last() =~= records@.take(i as int));
        assert(records@.take(i + 1).last() == records@[i as int]);
        match scan_droplet(&records[i]) {
            Some((name, cfg)) => t.insert(name, cfg),
            None => {},
        }
        i = i + 1;
    }
    assert(records@.take(n as int) =~= records@);
    proof {
        assert forall|i: int| 0 <= i < records@.len() && record_kept(#[trigger] records@[i])
            implies t@.contains_key(record_name(records@[i])) by {
            law_collected_keeps_every_record(records@, i);
        }
    }
    t
}

/// The configuration set up from a token and a droplet listing.
pub fn init(token: String, records: &Vec<DropletRecord>) -> (c: Config)
    ensures
        c.do_token == Some(token),
        c.droplets@ == collected(records@),
{
    Config { do_token: Some(token), droplets: collect_droplets(records) }
}

/// Every kept record of a listing is in what it gives, under its lowercased name; where no
/// later kept record carries the same name, with its own id and address.
pub proof fn law_collected_keeps_every_record(rs: Seq<DropletRecord>, i: int)
    requires
        0 <= i < rs.len(),
        record_kept(rs[i]),
    ensures
        collected(rs).contains_key(record_name(rs[i])),
        (forall|j: int| i < j < rs.len() && record_kept(#[trigger] rs[j]) ==> record_name(rs[j]) != record_name(rs[i]))
            ==> collected(rs)[record_name(rs[i])] == record_config(rs[i]),
    decreases rs.len(),
{
    let d = rs.drop_last();
    let last = rs.len() - 1;
    if i < last {
        assert(d[i] == rs[i]);
        law_collected_keeps_every_record(d, i);
        if (forall|j: int| i < j < rs.len() && record_kept(#[trigger] rs[j]) ==> record_name(rs[j]) != record_name(rs[i])) {
            assert forall|j: int| i < j < d.len() && record_kept(#[trigger] d[j]) implies record_name(d[j]) != record_name(d[i]) by {
                assert(d[j] == rs[j]);
            }
            if record_kept(rs.last()) {
                assert(rs[last] == rs.last());
                assert(record_name(rs.last()) != record_name(rs[i]));
            }
        }
    } else {
        assert(rs[i] == rs.last());
    }
}

/// Every droplet that a listing gives has a non-empty name, an id that is not 0, and no
/// tailnet address.
pub proof fn lemma_collected_entries(rs: Seq<DropletRecord>, k: Seq<char>)
    requires
        collected(rs).contains_key(k),
    ensures
        k.len() > 0,
        collected(rs)[k].id > 0,
        collected(rs)[k].tailscale_ip is None,
        exists|i: int| 0 <= i < rs.len() && record_kept(#[trigger] rs[i]) && record_name(rs[i]) == k,
    decreases rs.len(),
{
    let d = rs.drop_last();
    if record_kept(rs.last()) && record_name(rs.last()) == k {
        assert(rs[rs.len() - 1] == rs.last());
    } else {
        lemma_collected_entries(d, k);
        let i = choose|i: int| 0 <= i < d.len() && record_kept(#[trigger] d[i]) && record_name(d[i]) == k;
        assert(rs[i] == d[i]);
    }
}

} // verus!
