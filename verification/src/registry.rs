//! The benchmarks by name, and the choice among them that a run makes.

use crate::text::{
    compare, contains, lemma_precedes_total, lemma_precedes_transitive, occurs_in, precedes,
    texts_of, Order,
};
use vstd::prelude::*;
use vstd::string::*;

verus! {

/// The name of a benchmark: the topology, and the channel that is measured in it.
#[derive(Clone, Debug, PartialEq, Eq)]
pub struct BenchName {
    pub group: String,
    pub item: String,
}

/// A name as plain values.
pub type Key = (Seq<char>, Seq<char>);

impl View for BenchName {
    type V = Key;

    open spec fn view(&self) -> Key {
        (self.group@, self.item@)
    }
}

/// The names of a list of benchmarks.
pub open spec fn keys_of(names: Seq<BenchName>) -> Seq<Key> {
    names.map_values(|name: BenchName| name@)
}

/// The benchmarks that exist, in the order in which they are listed.
pub open spec fn listed() -> Seq<Key> {
    seq![
        ("funnel"@, "async_channel"@),
        ("funnel"@, "flume"@),
        ("funnel"@, "futures_mpsc"@),
        ("funnel"@, "tachyonix"@),
        ("funnel"@, "thingbuf"@),
        ("funnel"@, "postage_mpsc"@),
        ("funnel"@, "tokio_mpsc"@),
        ("pinball"@, "async_channel"@),
        ("pinball"@, "flume"@),
        ("pinball"@, "futures_mpsc"@),
        ("pinball"@, "tachyonix"@),
        ("pinball"@, "thingbuf"@),
        ("pinball"@, "postage_mpsc"@),
        ("pinball"@, "tokio_mpsc"@),
    ]
}

fn named(group: &str, item: &str) -> (name: BenchName)
    ensures
        name@ == (group@, item@),
{
    BenchName { group: group.to_owned(), item: item.to_owned() }
}

/// The benchmarks that exist, in the order in which they are listed.
pub fn benches() -> (names: Vec<BenchName>)
    ensures
        keys_of(names@) == listed(),
{
    let mut names: Vec<BenchName> = Vec::new();
    names.push(named("funnel", "async_channel"));
    names.push(named("funnel", "flume"));
    names.push(named("funnel", "futures_mpsc"));
    names.push(named("funnel", "tachyonix"));
    names.push(named("funnel", "thingbuf"));
    names.push(named("funnel", "postage_mpsc"));
    names.push(named("funnel", "tokio_mpsc"));
    names.push(named("pinball", "async_channel"));
    names.push(named("pinball", "flume"));
    names.push(named("pinball", "futures_mpsc"));
    names.push(named("pinball", "tachyonix"));
    names.push(named("pinball", "thingbuf"));
    names.push(named("pinball", "postage_mpsc"));
    names.push(named("pinball", "tokio_mpsc"));
    assert(keys_of(names@) =~= listed());
    names
}

/// A name as it is written: the group, a hyphen, the item.
pub open spec fn written(key: Key) -> Seq<char> {
    key.0 + seq!['-'] + key.1
}

impl BenchName {
    /// The name as it is written.
    pub fn full(&self) -> (text: String)
        ensures
            text@ == written(self@),
    {
        let mut text = self.group.clone();
        text.append("-");
        text.append(self.item.as_str());
        proof {
            reveal_strlit("-");
            assert("-"@ =~= seq!['-']);
        }
        text
    }
}

/// Whether a run with these filters takes a benchmark of this name: it does if there is
/// no filter, or if one of the filters stands somewhere in the name.
pub open spec fn wanted(filters: Seq<Seq<char>>, name: Seq<char>) -> bool {
    filters.len() == 0 || exists|i: int| 0 <= i < filters.len() && occurs_in(filters[i], name)
}

/// Computes `wanted`.
pub fn is_wanted(filters: &Vec<String>, name: &str) -> (taken: bool)
    ensures
        taken == wanted(texts_of(filters@), name@),
{
    if filters.len() == 0 {
        return true;
    }
    let mut i: usize = 0;
    while i < filters.len()
        invariant
            i <= filters@.len(),
            forall|k: int| 0 <= k < i ==> !occurs_in(#[trigger] texts_of(filters@)[k], name@),
        decreases filters@.len() - i,
    {
        if contains(name, filters[i].as_str()) {
            assert(occurs_in(texts_of(filters@)[i as int], name@));
            return true;
        }
        i = i + 1;
    }
    false
}

/// Whether a name comes before another: by the group, and by the item within a group.
pub open spec fn key_precedes(a: Key, b: Key) -> bool {
    precedes(a.0, b.0) || (a.0 == b.0 && precedes(a.1, b.1))
}

/// Whether every name of a list comes before all that follow it.
pub open spec fn ascending(keys: Seq<Key>) -> bool {
    forall|i: int, j: int| 0 <= i < j < keys.len() ==> key_precedes(keys[i], keys[j])
}

proof fn lemma_key_precedes_total(a: Key, b: Key)
    ensures
        key_precedes(a, b) || key_precedes(b, a) || a == b,
        !(key_precedes(a, b) && key_precedes(b, a)),
        !(key_precedes(a, b) && a == b),
{
    lemma_precedes_total(a.0, b.0);
    lemma_precedes_total(a.1, b.1);
}

proof fn lemma_key_precedes_transitive(a: Key, b: Key, c: Key)
    requires
        key_precedes(a, b),
        key_precedes(b, c),
    ensures
        key_precedes(a, c),
{
    lemma_precedes_total(a.0, b.0);
    lemma_precedes_total(b.0, c.0);
    if precedes(a.0, b.0) && precedes(b.0, c.0) {
        lemma_precedes_transitive(a.0, b.0, c.0);
    } else if a.0 == b.0 && b.0 == c.0 {
        lemma_precedes_transitive(a.1, b.1, c.1);
    }
}

/// How two names stand to each other.
fn compare_names(a: &BenchName, b: &BenchName) -> (order: Order)
    ensures
        match order {
            Order::Before => key_precedes(a@, b@),
            Order::Same => a@ == b@,
            Order::After => key_precedes(b@, a@),
        },
{
    match compare(a.group.as_str(), b.group.as_str()) {
        Order::Before => Order::Before,
        Order::After => Order::After,
        Order::Same => compare(a.item.as_str(), b.item.as_str()),
    }
}

/// The benchmarks that a run takes: each once, the groups in the order of a dictionary
/// and the items of a group likewise.
pub struct Selection {
    entries: Vec<BenchName>,
}

impl View for Selection {
    type V = Seq<Key>;

    closed spec fn view(&self) -> Seq<Key> {
        keys_of(self.entries@)
    }
}

impl Selection {
    /// The names ascend.
    pub open spec fn wf(&self) -> bool {
        ascending(self@)
    }

    /// A selection of nothing.
    pub fn new() -> (selection: Selection)
        ensures
            selection@ == Seq::<Key>::empty(),
            selection.wf(),
    {
        let selection = Selection { entries: Vec::new() };
        assert(selection@ =~= Seq::<Key>::empty());
        selection
    }

    /// How many benchmarks are taken.
    pub fn len(&self) -> (len: usize)
        ensures
            len == self@.len(),
    {
        self.entries.len()
    }

    /// Whether no benchmark is taken.
    pub fn is_empty(&self) -> (empty: bool)
        ensures
            empty == (self@.len() == 0),
    {
        self.entries.len() == 0
    }

    /// The benchmark at a position.
    pub fn get(&self, at: usize) -> (name: &BenchName)
        requires
            at < self@.len(),
        ensures
            name@ == self@[at as int],
    {
        &self.entries[at]
    }

    /// Whether a group begins at a position: the benchmark there is the first of all, or
    /// of another group than the one before it.
    pub fn starts_group(&self, at: usize) -> (first: bool)
        requires
            at < self@.len(),
        ensures
            first == (at == 0 || self@[at - 1].0 != self@[at as int].0),
    {
        if at == 0 {
            true
        } else {
            match compare(self.entries[at - 1].group.as_str(), self.entries[at].group.as_str()) {
                Order::Same => false,
                Order::Before => {
                    proof {
                        lemma_precedes_total(self@[at - 1].0, self@[at as int].0);
                    }
                    true
                },
                Order::After => {
                    proof {
                        lemma_precedes_total(self@[at - 1].0, self@[at as int].0);
                    }
                    true
                },
            }
        }
    }

    /// Whether a group ends at a position: the benchmark there is the last of all, or of
    /// another group than the one after it.
    pub fn ends_group(&self, at: usize) -> (last: bool)
        requires
            at < self@.len(),
        ensures
            last == (at + 1 == self@.len() || self@[at + 1].0 != self@[at as int].0),
    {
        if at == self.entries.len() - 1 {
            true
        } else {
            match compare(self.entries[at].group.as_str(), self.entries[at + 1].group.as_str()) {
                Order::Same => false,
                Order::Before => {
                    proof {
                        lemma_precedes_total(self@[at as int].0, self@[at + 1].0);
                    }
                    true
                },
                Order::After => {
                    proof {
                        lemma_precedes_total(self@[at as int].0, self@[at + 1].0);
                    }
                    true
                },
            }
        }
    }

    /// Takes one more benchmark. A benchmark that is taken already stays as it is.
    pub fn insert(&mut self, name: BenchName)
        requires
            old(self).wf(),
        ensures
            final(self).wf(),
            forall|key: Key|
                final(self)@.contains(key) <==> (old(self)@.contains(key) || key == name@),
            old(self)@.contains(name@) ==> final(self)@ == old(self)@,
    {
        let mut at: usize = 0;
        let n = self.entries.len();
        let mut searching: bool = true;
        while searching && at < n
            invariant
                n == self.entries@.len(),
                at <= n,
                self.entries == old(self).entries,
                ascending(self@),
                forall|k: int| 0 <= k < at ==> key_precedes(#[trigger] self@[k], name@),
                !searching ==> at < n && key_precedes(name@, self@[at as int]),
            decreases n - at + (if searching { 1int } else { 0int }),
        {
            match compare_names(&self.entries[at], &name) {
                Order::Before => {
                    at = at + 1;
                },
                Order::Same => {
                    assert(self@[at as int] == name@);
                    assert(self@.contains(name@));
                    return ;
                },
                Order::After => {
                    searching = false;
                },
            }
        }
        let ghost before = self@;
        proof {
            assert forall|k: int| at <= k < before.len() implies key_precedes(
                name@,
                #[trigger] before[k],
            ) by {
                if k > at {
                    lemma_key_precedes_transitive(name@, before[at as int], before[k]);
                }
            }
            assert(!before.contains(name@)) by {
                if before.contains(name@) {
                    let k = choose|k: int| 0 <= k < before.len() && before[k] == name@;
                    lemma_key_precedes_total(before[k], name@);
                }
            }
        }
        self.entries.insert(at, name);
        proof {
            let after = self@;
            assert(after =~= before.insert(at as int, name@));
            assert forall|i: int, j: int| 0 <= i < j < after.len() implies key_precedes(
                after[i],
                after[j],
            ) by {
                if j < at {
                    assert(after[i] == before[i] && after[j] == before[j]);
                } else if j == at {
                    assert(after[i] == before[i]);
                } else if i < at {
                    assert(after[i] == before[i] && after[j] == before[j - 1]);
                } else if i == at {
                    assert(after[j] == before[j - 1]);
                } else {
                    assert(after[i] == before[i - 1] && after[j] == before[j - 1]);
                }
            }
            assert forall|key: Key| after.contains(key) <==> (before.contains(key) || key
                == name@) by {
                if after.contains(key) {
                    let k = choose|k: int| 0 <= k < after.len() && after[k] == key;
                    if k < at {
                        assert(before[k] == key);
                    } else if k > at {
                        assert(before[k - 1] == key);
                    }
                }
                if before.contains(key) {
                    let k = choose|k: int| 0 <= k < before.len() && before[k] == key;
                    if k < at {
                        assert(after[k] == key);
                    } else {
                        assert(after[k + 1] == key);
                    }
                }
                if key == name@ {
                    assert(after[at as int] == key);
                }
            }
        }
    }
}

/// Chooses among the benchmarks that exist: those whose written name a filter stands in,
/// or all of them where there is no filter.
pub fn select(filters: &Vec<String>, registry: &Vec<BenchName>) -> (selection: Selection)
    ensures
        selection.wf(),
        forall|key: Key|
            selection@.contains(key) <==> (keys_of(registry@).contains(key) && wanted(
                texts_of(filters@),
                written(key),
            )),
{
    let mut selection = Selection::new();
    let mut i: usize = 0;
    while i < registry.len()
        invariant
            i <= registry@.len(),
            selection.wf(),
            forall|key: Key|
                selection@.contains(key) <==> (keys_of(registry@).subrange(0, i as int).contains(
                    key,
                ) && wanted(texts_of(filters@), written(key))),
        decreases registry@.len() - i,
    {
        let ghost seen = keys_of(registry@).subrange(0, i as int);
        let ghost seen_after = keys_of(registry@).subrange(0, i + 1);
        let ghost here = registry@[i as int]@;
        proof {
            assert(seen_after =~= seen.push(here));
            assert forall|key: Key| seen_after.contains(key) <==> (seen.contains(key) || key
                == here) by {
                if seen.contains(key) {
                    let k = choose|k: int| 0 <= k < seen.len() && seen[k] == key;
                    assert(seen_after[k] == key);
                }
                if key == here {
                    assert(seen_after[i as int] == key);
                }
            }
        }
        let text = registry[i].full();
        if is_wanted(filters, text.as_str()) {
            selection.insert(named(registry[i].group.as_str(), registry[i].item.as_str()));
        }
        i = i + 1;
    }
    assert(keys_of(registry@).subrange(0, registry@.len() as int) =~= keys_of(registry@));
    selection
}

} // verus!
