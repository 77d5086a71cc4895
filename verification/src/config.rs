use vstd::prelude::*;
use crate::strutil::str_eq;

verus! {

/// One learned association from a key to a value.
#[derive(Debug, PartialEq, Eq)]
pub struct MapEntry {
    pub key: String,
    pub value: String,
}

/// A small string-to-string map with unique keys, held as plain entries so
/// the lookup and the learning step carry full contracts. The config's
/// maps only ever learn a key once, so inserting demands an unseen key.
#[derive(Debug, PartialEq, Eq)]
pub struct StrMap {
    entries: Vec<MapEntry>,
}

impl View for StrMap {
    type V = Map<Seq<char>, Seq<char>>;

    closed spec fn view(&self) -> Map<Seq<char>, Seq<char>> {
        Map::new(
            |k: Seq<char>|
                exists|i: int|
                    0 <= i < self.entries@.len() && (#[trigger] self.entries@[i]).key@ == k,
            |k: Seq<char>|
                {
                    let i = choose|i: int|
                        0 <= i < self.entries@.len() && (#[trigger] self.entries@[i]).key@ == k;
                    self.entries@[i].value@
                },
        )
    }
}

impl StrMap {
    /// No two entries share a key.
    pub closed spec fn wf(self) -> bool {
        forall|i: int, j: int|
            0 <= i < j < self.entries@.len() ==> (#[trigger] self.entries@[i]).key@ != (
            #[trigger] self.entries@[j]).key@
    }

    /// An empty map.
    pub fn new() -> (r: StrMap)
        ensures
            r.wf(),
            r@ == Map::<Seq<char>, Seq<char>>::empty(),
    {
        let r = StrMap { entries: Vec::new() };
        proof {
            assert(r@ =~= Map::<Seq<char>, Seq<char>>::empty());
        }
        r
    }

    /// The value learned for `key`, if one was.
    pub fn get(&self, key: &str) -> (r: Option<&String>)
        requires
            self.wf(),
        ensures
            r is Some <==> self@.contains_key(key@),
            r is Some ==> r->0@ == self@[key@],
    {
        let len = self.entries.len();
        let mut i: usize = 0;
        while i < len
            invariant
                0 <= i <= len,
                len == self.entries@.len(),
                self.wf(),
                forall|j: int| 0 <= j < i ==> (#[trigger] self.entries@[j]).key@ != key@,
            decreases len - i,
        {
            if str_eq(self.entries[i].key.as_str(), key) {
                proof {
                    assert(self.entries@[i as int].key@ == key@);
                    assert(self@.contains_key(key@));
                    let w = choose|w: int|
                        0 <= w < self.entries@.len() && (#[trigger] self.entries@[w]).key@
                            == key@;
                    assert(w == i as int);
                }
                return Some(&self.entries[i].value);
            }
            i += 1;
        }
        proof {
            assert(!self@.contains_key(key@));
        }
        None
    }

    /// Learns a value for a key not seen before.
    pub fn insert(&mut self, key: String, value: String)
        requires
            old(self).wf(),
            !old(self)@.contains_key(key@),
        ensures
            final(self).wf(),
            final(self)@ == old(self)@.insert(key@, value@),
    {
        let ghost k = key@;
        let ghost v = value@;
        let ghost prev = *old(self);
        self.entries.push(MapEntry { key, value });
        proof {
            let n = prev.entries@.len() as int;
            assert forall|i: int, j: int| 0 <= i < j < self.entries@.len() implies (
            #[trigger] self.entries@[i]).key@ != (#[trigger] self.entries@[j]).key@ by {
                if j == n {
                    if self.entries@[i].key@ == k {
                        assert(prev@.contains_key(k));
                    }
                }
            }
            assert forall|q: Seq<char>| #[trigger]
                self@.contains_key(q) == prev@.insert(k, v).contains_key(q) && (
            self@.contains_key(q) ==> self@[q] == prev@.insert(k, v)[q]) by {
                if q == k {
                    assert(self.entries@[n].key@ == k);
                    assert(self@.contains_key(k));
                    let w = choose|w: int|
                        0 <= w < self.entries@.len() && (#[trigger] self.entries@[w]).key@ == k;
                    if w != n {
                        assert(prev.entries@[w].key@ == k);
                        assert(prev@.contains_key(k));
                    }
                    assert(self@[k] == v);
                } else {
                    if self@.contains_key(q) {
                        let w = choose|w: int|
                            0 <= w < self.entries@.len() && (#[trigger] self.entries@[w]).key@
                                == q;
                        assert(w != n);
                        assert(prev.entries@[w].key@ == q);
                        assert(prev@.contains_key(q));
                        let w2 = choose|w2: int|
                            0 <= w2 < prev.entries@.len() && (#[trigger] prev.entries@[w2]).key@
                                == q;
                        assert(self.entries@[w2].key@ == q);
                        assert(w2 == w);
                        assert(self@[q] == prev@[q]);
                    }
                    if prev@.contains_key(q) {
                        let w = choose|w: int|
                            0 <= w < prev.entries@.len() && (#[trigger] prev.entries@[w]).key@
                                == q;
                        assert(self.entries@[w].key@ == q);
                        assert(self@.contains_key(q));
                    }
                }
            }
            assert(self@ =~= prev@.insert(k, v));
        }
    }

    /// The learned entries, in learning order: one per key of the map,
    /// each carrying its key's value.
    pub fn entries(&self) -> (r: &Vec<MapEntry>)
        requires
            self.wf(),
        ensures
            r@.len() == self@.dom().len(),
            forall|i: int|
                0 <= i < r@.len() ==> self@.contains_key((#[trigger] r@[i]).key@) && self@[r@[i].key@]
                    == r@[i].value@,
    {
        proof {
            lemma_entry_count(*self, self.entries@.len() as int);
            assert forall|i: int|
                0 <= i < self.entries@.len() implies self@.contains_key(
                (#[trigger] self.entries@[i]).key@,
            ) && self@[self.entries@[i].key@] == self.entries@[i].value@ by {
                let k = self.entries@[i].key@;
                assert(self@.contains_key(k));
                let w = choose|w: int|
                    0 <= w < self.entries@.len() && (#[trigger] self.entries@[w]).key@ == k;
                assert(w == i);
            }
        }
        &self.entries
    }

    /// How many keys were learned.
    pub fn len(&self) -> (r: usize)
        requires
            self.wf(),
        ensures
            r == self@.dom().len(),
    {
        proof {
            lemma_entry_count(*self, self.entries@.len() as int);
        }
        self.entries.len()
    }
}

/// With unique keys, the first `n` entries name exactly `n` distinct keys.
proof fn lemma_entry_count(m: StrMap, n: int)
    requires
        m.wf(),
        0 <= n <= m.entries@.len(),
        n == m.entries@.len(),
    ensures
        m@.dom().finite(),
        m@.dom().len() == n,
{
    lemma_entry_prefix_count(m, n);
    assert(m@.dom() =~= entry_key_set(m, n));
}

/// The set of keys among the first `n` entries.
spec fn entry_key_set(m: StrMap, n: int) -> Set<Seq<char>> {
    Set::new(
        |k: Seq<char>| exists|i: int| 0 <= i < n && (#[trigger] m.entries@[i]).key@ == k,
    )
}

proof fn lemma_entry_prefix_count(m: StrMap, n: int)
    requires
        m.wf(),
        0 <= n <= m.entries@.len(),
    ensures
        entry_key_set(m, n).finite(),
        entry_key_set(m, n).len() == n,
    decreases n,
{
    if n == 0 {
        assert(entry_key_set(m, 0) =~= Set::<Seq<char>>::empty());
    } else {
        lemma_entry_prefix_count(m, n - 1);
        let k = m.entries@[n - 1].key@;
        assert(!entry_key_set(m, n - 1).contains(k));
        assert(entry_key_set(m, n) =~= entry_key_set(m, n - 1).insert(k));
    }
}

/// The import service's connection settings and the learned
/// symbol-to-account associations.
#[derive(Debug)]
pub struct GhostfolioConfig {
    pub token: String,
    pub base_url: String,
    pub account_mapping: StrMap,
}

impl GhostfolioConfig {
    pub open spec fn wf(self) -> bool {
        self.account_mapping.wf()
    }

    /// Fresh settings with nothing learned yet.
    pub fn new(token: String, base_url: String) -> (r: GhostfolioConfig)
        ensures
            r.wf(),
            r.token@ == token@,
            r.base_url@ == base_url@,
            r.account_mapping@ == Map::<Seq<char>, Seq<char>>::empty(),
    {
        GhostfolioConfig { token, base_url, account_mapping: StrMap::new() }
    }

    /// The account already learned for a symbol, if any: when this is
    /// absent the operator is prompted once and the answer learned.
    pub fn account_for_symbol(&self, symbol: &str) -> (r: Option<&String>)
        requires
            self.wf(),
        ensures
            r is Some <==> self.account_mapping@.contains_key(symbol@),
            r is Some ==> r->0@ == self.account_mapping@[symbol@],
    {
        self.account_mapping.get(symbol)
    }

    /// Learns the account for a symbol seen for the first time.
    pub fn learn_account_mapping(&mut self, symbol: String, account: String)
        requires
            old(self).wf(),
            !old(self).account_mapping@.contains_key(symbol@),
        ensures
            final(self).wf(),
            final(self).account_mapping@ == old(self).account_mapping@.insert(symbol@, account@),
            final(self).token == old(self).token,
            final(self).base_url == old(self).base_url,
    {
        self.account_mapping.insert(symbol, account);
    }
}

/// The whole persisted configuration: the import-service settings, if
/// initialized, and the learned symbol-to-ticker associations.
#[derive(Debug)]
pub struct Config {
    pub ghostfolio: Option<GhostfolioConfig>,
    pub avanza_to_ghostfolio_ticker: StrMap,
}

impl Config {
    pub open spec fn wf(self) -> bool {
        &&& self.avanza_to_ghostfolio_ticker.wf()
        &&& match self.ghostfolio {
            Some(g) => g.wf(),
            None => true,
        }
    }

    /// The defaults a first run starts from: no service settings, nothing
    /// learned.
    pub fn new() -> (r: Config)
        ensures
            r.wf(),
            r.ghostfolio is None,
            r.avanza_to_ghostfolio_ticker@ == Map::<Seq<char>, Seq<char>>::empty(),
    {
        Config { ghostfolio: None, avanza_to_ghostfolio_ticker: StrMap::new() }
    }
}

} // verus!
