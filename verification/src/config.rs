//! The configuration: the API token and the droplets known by name.
use vstd::prelude::*;
use crate::text::{ascii_lowered, is_ascii_text, lowercased, lowercase, text_eq};

verus! {

/// What the configuration records of one droplet.
pub struct DropletConfig {
    pub id: u64,
    pub public_ip: String,
    pub tailscale_ip: Option<String>,
}

/// A droplet's configuration as plain values.
pub struct DropletConfigView {
    pub id: u64,
    pub public_ip: Seq<char>,
    pub tailscale_ip: Option<Seq<char>>,
}

/// The characters of an optional string.
pub open spec fn opt_view(s: Option<String>) -> Option<Seq<char>> {
    match s {
        Some(t) => Some(t@),
        None => None,
    }
}

impl View for DropletConfig {
    type V = DropletConfigView;

    open spec fn view(&self) -> DropletConfigView {
        DropletConfigView { id: self.id, public_ip: self.public_ip@, tailscale_ip: opt_view(self.tailscale_ip) }
    }
}

/// No two entries carry the same name.
pub open spec fn distinct_names(s: Seq<(String, DropletConfig)>) -> bool {
    forall|i: int, j: int| 0 <= i < s.len() && 0 <= j < s.len() && i != j ==> #[trigger] s[i].0@ != #[trigger] s[j].0@
}

/// The map that a list of entries stands for, a later entry winning over an earlier one.
pub open spec fn entries_map(s: Seq<(String, DropletConfig)>) -> Map<Seq<char>, DropletConfigView>
    decreases s.len(),
{
    if s.len() == 0 {
        Map::empty()
    } else {
        entries_map(s.drop_last()).insert(s.last().0@, s.last().1@)
    }
}

/// A name is in the map exactly when some entry carries it.
pub proof fn lemma_entries_map_dom(s: Seq<(String, DropletConfig)>, k: Seq<char>)
    ensures
        entries_map(s).contains_key(k) <==> exists|i: int| 0 <= i < s.len() && #[trigger] s[i].0@ == k,
    decreases s.len(),
{
    if s.len() > 0 {
        let d = s.drop_last();
        lemma_entries_map_dom(d, k);
        if entries_map(s).contains_key(k) {
            if k == s.last().0@ {
                assert(s[s.len() - 1].0@ == k);
            } else {
                let i = choose|i: int| 0 <= i < d.len() && #[trigger] d[i].0@ == k;
                assert(s[i].0@ == k);
            }
        }
        if exists|i: int| 0 <= i < s.len() && #[trigger] s[i].0@ == k {
            let i = choose|i: int| 0 <= i < s.len() && #[trigger] s[i].0@ == k;
            if i < s.len() - 1 {
                assert(d[i].0@ == k);
            }
        }
    }
}

/// With distinct names, an entry's name maps to that entry's configuration.
pub proof fn lemma_entries_map_value(s: Seq<(String, DropletConfig)>, i: int)
    requires
        distinct_names(s),
        0 <= i < s.len(),
    ensures
        entries_map(s).contains_key(s[i].0@),
        entries_map(s)[s[i].0@] == s[i].1@,
    decreases s.len(),
{
    let d = s.drop_last();
    if i < s.len() - 1 {
        assert(d[i] == s[i]);
        assert(s[i].0@ != s[s.len() - 1].0@);
        lemma_entries_map_value(d, i);
    }
}

/// Replacing the entry that carries a name changes only that name's configuration.
pub proof fn lemma_entries_map_update(s: Seq<(String, DropletConfig)>, i: int, e: (String, DropletConfig))
    requires
        distinct_names(s),
        0 <= i < s.len(),
        s[i].0@ == e.0@,
    ensures
        entries_map(s.update(i, e)) == entries_map(s).insert(e.0@, e.1@),
        distinct_names(s.update(i, e)),
    decreases s.len(),
{
    let u = s.update(i, e);
    let d = s.drop_last();
    assert(distinct_names(u)) by {
        assert forall|a: int, b: int| 0 <= a < u.len() && 0 <= b < u.len() && a != b implies #[trigger] u[a].0@ != #[trigger] u[b].0@ by {
            assert(s[a].0@ != s[b].0@);
        }
    }
    if i == s.len() - 1 {
        assert(u.drop_last() =~= d);
        assert(entries_map(u) =~= entries_map(s).insert(e.0@, e.1@));
    } else {
        assert(u.drop_last() =~= d.update(i, e));
        assert(d[i] == s[i]);
        lemma_entries_map_update(d, i, e);
        assert(s[i].0@ != s[s.len() - 1].0@);
        assert(entries_map(u) =~= entries_map(s).insert(e.0@, e.1@));
    }
}

/// The droplets of a configuration, each under its own name.
pub struct DropletTable {
    entries: Vec<(String, DropletConfig)>,
}

impl View for DropletTable {
    type V = Map<Seq<char>, DropletConfigView>;

    open spec fn view(&self) -> Map<Seq<char>, DropletConfigView> {
        entries_map(self.spec_entries())
    }
}

impl DropletTable {
    /// The entries, in the order they are kept.
    pub closed spec fn spec_entries(&self) -> Seq<(String, DropletConfig)> {
        self.entries@
    }

    #[verifier::type_invariant]
    spec fn names_distinct(&self) -> bool {
        distinct_names(self.entries@)
    }

    /// An empty table.
    pub fn new() -> (r: Self)
        ensures
            r@ == Map::<Seq<char>, DropletConfigView>::empty(),
            r.spec_entries().len() == 0,
    {
        DropletTable { entries: Vec::new() }
    }

    /// The number of droplets.
    pub fn len(&self) -> (r: usize)
        ensures
            r == self.spec_entries().len(),
            r == self@.len(),
    {
        proof {
            use_type_invariant(self);
            lemma_distinct_len(self.entries@);
        }
        self.entries.len()
    }

    /// Whether no droplet is recorded.
    pub fn is_empty(&self) -> (r: bool)
        ensures
            r == (self@ == Map::<Seq<char>, DropletConfigView>::empty()),
    {
        proof {
            use_type_invariant(self);
            lemma_distinct_len(self.entries@);
            if self.entries@.len() > 0 {
                lemma_entries_map_value(self.entries@, 0);
                assert(self@.contains_key(self.entries@[0].0@));
            }
        }
        self.entries.len() == 0
    }

    /// The entries, each name once; together they make up the table.
    pub fn entries(&self) -> (r: &Vec<(String, DropletConfig)>)
        ensures
            r@ == self.spec_entries(),
            entries_map(r@) == self@,
            distinct_names(r@),
    {
        proof {
            use_type_invariant(self);
        }
        &self.entries
    }

    /// The configuration recorded under exactly `name`, if any.
    pub fn get(&self, name: &str) -> (r: Option<&DropletConfig>)
        ensures
            match r {
                Some(c) => self@.contains_key(name@) && c@ == self@[name@],
                None => !self@.contains_key(name@),
            },
    {
        proof {
            use_type_invariant(self);
        }
        let n = self.entries.len();
        let mut i: usize = 0;
        while i < n
            invariant
                n == self.entries@.len(),
                distinct_names(self.entries@),
                i <= n,
                forall|k: int| 0 <= k < i ==> #[trigger] self.entries@[k].0@ != name@,
            decreases n - i,
        {
            if text_eq(self.entries[i].0.as_str(), name) {
                proof {
                    lemma_entries_map_value(self.entries@, i as int);
                }
                return Some(&self.entries[i].1);
            }
            i = i + 1;
        }
        proof {
            lemma_entries_map_dom(self.entries@, name@);
        }
        None
    }

    /// Records `cfg` under `name`, replacing what was recorded under it before.
    pub fn insert(&mut self, name: String, cfg: DropletConfig)
        ensures
            final(self)@ == old(self)@.insert(name@, cfg@),
    {
        proof {
            use_type_invariant(&*self);
        }
        let mut entries: Vec<(String, DropletConfig)> = Vec::new();
        std::mem::swap(&mut entries, &mut self.entries);
        let ghost before = entries@;
        let n = entries.len();
        let mut i: usize = 0;
        while i < n
            invariant
                n == entries@.len(),
                entries@ == before,
                distinct_names(before),
                i <= n,
                forall|k: int| 0 <= k < i ==> #[trigger] entries@[k].0@ != name@,
            ensures
                n == entries@.len(),
                entries@ == before,
                i <= n,
                forall|k: int| 0 <= k < i ==> #[trigger] entries@[k].0@ != name@,
                i < n ==> entries@[i as int].0@ == name@,
            decreases n - i,
        {
            if text_eq(entries[i].0.as_str(), name.as_str()) {
                break;
            }
            i = i + 1;
        }
        let ghost key = name@;
        let ghost val = cfg@;
        if i < n {
            proof {
                assert(entries@[i as int].0@ == name@);
                lemma_entries_map_update(before, i as int, (name, cfg));
            }
            entries.set(i, (name, cfg));
        } else {
            proof {
                let e = (name, cfg);
                assert(before.push(e).drop_last() =~= before);
                assert forall|a: int, b: int| 0 <= a < before.push(e).len() && 0 <= b < before.push(e).len() && a != b
                    implies #[trigger] before.push(e)[a].0@ != #[trigger] before.push(e)[b].0@ by {
                    if a < before.len() && b < before.len() {
                        assert(before[a].0@ != before[b].0@);
                    } else if a < before.len() {
                        assert(before[a].0@ != name@);
                    } else {
                        assert(before[b].0@ != name@);
                    }
                }
            }
            entries.push((name, cfg));
        }
        self.entries = entries;
    }
}

/// Distinct names make as many map keys as entries.
pub proof fn lemma_distinct_len(s: Seq<(String, DropletConfig)>)
    requires
        distinct_names(s),
    ensures
        entries_map(s).len() == s.len(),
        entries_map(s).dom().finite(),
    decreases s.len(),
{
    if s.len() > 0 {
        let d = s.drop_last();
        assert(distinct_names(d)) by {
            assert forall|a: int, b: int| 0 <= a < d.len() && 0 <= b < d.len() && a != b implies #[trigger] d[a].0@ != #[trigger] d[b].0@ by {
                assert(s[a].0@ != s[b].0@);
            }
        }
        lemma_distinct_len(d);
        lemma_entries_map_dom(d, s.last().0@);
        if entries_map(d).contains_key(s.last().0@) {
            let i = choose|i: int| 0 <= i < d.len() && #[trigger] d[i].0@ == s.last().0@;
            assert(s[i].0@ == s[s.len() - 1].0@);
        }
    }
}

/// The configuration: the DigitalOcean API token, if one was set up, and the known droplets.
pub struct Config {
    pub do_token: Option<String>,
    pub droplets: DropletTable,
}

impl Default for Config {
    /// No token and no droplets: what a missing configuration file stands for.
    fn default() -> (r: Config)
        ensures
            r.do_token is None,
            r.droplets@ == Map::<Seq<char>, DropletConfigView>::empty(),
    {
        Config { do_token: None, droplets: DropletTable::new() }
    }
}

impl Config {
    /// The droplet configured under `name`, matched without regard to case: the name is
    /// lowercased before the lookup.
    pub fn get_droplet(&self, name: &str) -> (r: Option<&DropletConfig>)
        ensures
            match r {
                Some(c) => self.droplets@.contains_key(lowercased(name@)) && c@ == self.droplets@[lowercased(name@)],
                None => !self.droplets@.contains_key(lowercased(name@)),
            },
            is_ascii_text(name@) ==> match r {
                Some(c) => self.droplets@.contains_key(ascii_lowered(name@)) && c@ == self.droplets@[ascii_lowered(name@)],
                None => !self.droplets@.contains_key(ascii_lowered(name@)),
            },
    {
        let name_lower = lowercase(name);
        self.droplets.get(name_lower.as_str())
    }
}

} // verus!
