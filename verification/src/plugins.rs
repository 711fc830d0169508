//! The plugin platform: plugin metadata and results, the registry of
//! loaded plugins, and the choice of loader by file extension.

use vstd::prelude::*;
use crate::text::{push_str, str_eq};

verus! {

// ---------------------------------------------------------------------
// String maps
// ---------------------------------------------------------------------

/// A map from strings to strings, kept in insertion order.
#[derive(Debug)]
pub struct StringMap {
    entries: Vec<(String, String)>,
}

/// The map a list of pairs denotes (a later pair wins over an earlier one
/// with the same key).
pub open spec fn pairs_map(v: Seq<(String, String)>) -> Map<Seq<char>, Seq<char>>
    decreases v.len(),
{
    if v.len() == 0 {
        Map::empty()
    } else {
        pairs_map(v.drop_last()).insert(v.last().0@, v.last().1@)
    }
}

/// Whether no key occurs twice.
pub open spec fn unique_keys(v: Seq<(String, String)>) -> bool {
    forall|i: int, j: int| 0 <= i < j < v.len() ==> v[i].0@ != v[j].0@
}

/// The keys of a list of pairs are the map's domain.
proof fn lemma_pairs_dom(v: Seq<(String, String)>, k: Seq<char>)
    ensures
        pairs_map(v).dom().contains(k) <==> exists|i: int| 0 <= i < v.len() && v[i].0@ == k,
    decreases v.len(),
{
    if v.len() > 0 {
        lemma_pairs_dom(v.drop_last(), k);
        if pairs_map(v).dom().contains(k) && v.last().0@ != k {
            let i = choose|i: int| 0 <= i < v.drop_last().len() && v.drop_last()[i].0@ == k;
            assert(v[i].0@ == k);
        }
        if exists|i: int| 0 <= i < v.len() && v[i].0@ == k {
            let i = choose|i: int| 0 <= i < v.len() && v[i].0@ == k;
            if i < v.len() - 1 {
                assert(v.drop_last()[i].0@ == k);
            }
        }
    }
}

/// With unique keys, the map is finite and holds one key per pair.
proof fn lemma_pairs_len(v: Seq<(String, String)>)
    requires
        unique_keys(v),
    ensures
        pairs_map(v).dom().finite(),
        pairs_map(v).len() == v.len(),
    decreases v.len(),
{
    if v.len() > 0 {
        let w = v.drop_last();
        lemma_pairs_len(w);
        lemma_pairs_dom(w, v.last().0@);
        if pairs_map(w).dom().contains(v.last().0@) {
            let i = choose|i: int| 0 <= i < w.len() && w[i].0@ == v.last().0@;
            assert(v[i].0@ == v[v.len() - 1].0@);
        }
    }
}

/// With unique keys, the value of the key at position `j` is the value
/// stored there.
proof fn lemma_pairs_at(v: Seq<(String, String)>, j: int)
    requires
        unique_keys(v),
        0 <= j < v.len(),
    ensures
        pairs_map(v).dom().contains(v[j].0@),
        pairs_map(v)[v[j].0@] == v[j].1@,
    decreases v.len(),
{
    if j < v.len() - 1 {
        lemma_pairs_at(v.drop_last(), j);
    }
}

/// With unique keys, replacing the value at position `j` updates the map
/// at that key.
proof fn lemma_pairs_update(v: Seq<(String, String)>, j: int, p: (String, String))
    requires
        unique_keys(v),
        0 <= j < v.len(),
        p.0@ == v[j].0@,
    ensures
        pairs_map(v.update(j, p)) == pairs_map(v).insert(p.0@, p.1@),
    decreases v.len(),
{
    let w = v.update(j, p);
    if j == v.len() - 1 {
        assert(w.drop_last() =~= v.drop_last());
        assert(pairs_map(w) =~= pairs_map(v).insert(p.0@, p.1@));
    } else {
        lemma_pairs_update(v.drop_last(), j, p);
        assert(w.drop_last() =~= v.drop_last().update(j, p));
        assert(v.last().0@ != p.0@);
        assert(pairs_map(w) =~= pairs_map(v).insert(p.0@, p.1@));
    }
}

impl StringMap {
    /// The map's contents.
    pub closed spec fn view(&self) -> Map<Seq<char>, Seq<char>> {
        pairs_map(self.entries@)
    }

    /// The pairs, in insertion order.
    pub closed spec fn pairs(&self) -> Seq<(String, String)> {
        self.entries@
    }

    /// No key occurs twice.
    pub closed spec fn wf(&self) -> bool {
        unique_keys(self.entries@)
    }

    /// An empty map.
    pub fn new() -> (m: Self)
        ensures
            m.wf(),
            m.view() == Map::<Seq<char>, Seq<char>>::empty(),
            m.pairs().len() == 0,
    {
        StringMap { entries: Vec::new() }
    }

    /// Position of `key`, if present.
    fn position(&self, key: &str) -> (r: Option<usize>)
        ensures
            r matches Some(j) ==> j < self.entries@.len() && self.entries@[j as int].0@ == key@,
            r is None ==> forall|i: int| 0 <= i < self.entries@.len() ==> self.entries@[i].0@ != key@,
    {
        let mut i: usize = 0;
        while i < self.entries.len()
            invariant
                i <= self.entries@.len(),
                forall|k: int| 0 <= k < i ==> self.entries@[k].0@ != key@,
            decreases self.entries@.len() - i,
        {
            if str_eq(self.entries[i].0.as_str(), key) {
                return Some(i);
            }
            i += 1;
        }
        None
    }

    /// Stores `value` under `key`, replacing an earlier value.
    pub fn insert(&mut self, key: String, value: String)
        requires
            old(self).wf(),
        ensures
            final(self).wf(),
            final(self)@ == old(self)@.insert(key@, value@),
            final(self)@.dom().finite(),
            final(self)@.len() == old(self)@.len() + if old(self)@.dom().contains(key@) {
                0int
            } else {
                1int
            },
    {
        proof {
            lemma_pairs_len(self.entries@);
        }
        match self.position(key.as_str()) {
            Some(j) => {
                proof {
                    lemma_pairs_update(self.entries@, j as int, (key, value));
                }
                self.entries.set(j, (key, value));
                proof {
                    assert forall|a: int, b: int| 0 <= a < b < self.entries@.len() implies self.entries@[a].0@
                        != self.entries@[b].0@ by {
                        assert(old(self).entries@[a].0@ == self.entries@[a].0@);
                        assert(old(self).entries@[b].0@ == self.entries@[b].0@);
                    }
                }
            },
            None => {
                let ghost k = key@;
                let ghost v = value@;
                self.entries.push((key, value));
                proof {
                    assert(self.entries@.drop_last() =~= old(self).entries@);
                }
            },
        }
        proof {
            lemma_pairs_len(self.entries@);
            lemma_pairs_dom(old(self).entries@, key@);
        }
    }

    /// The value stored under `key`.
    pub fn get(&self, key: &str) -> (r: Option<&String>)
        requires
            self.wf(),
        ensures
            match r {
                Some(v) => self@.dom().contains(key@) && self@[key@] == v@,
                None => !self@.dom().contains(key@),
            },
    {
        proof {
            lemma_pairs_dom(self.entries@, key@);
        }
        match self.position(key) {
            Some(j) => {
                proof {
                    lemma_pairs_at(self.entries@, j as int);
                }
                Some(&self.entries[j].1)
            },
            None => None,
        }
    }

    /// Number of keys.
    pub fn len(&self) -> (n: usize)
        requires
            self.wf(),
        ensures
            n == self.pairs().len(),
            self@.dom().finite(),
            n == self@.len(),
    {
        proof {
            lemma_pairs_len(self.entries@);
        }
        self.entries.len()
    }

    /// Whether the map is empty.
    pub fn is_empty(&self) -> (b: bool)
        requires
            self.wf(),
        ensures
            b <==> self.pairs().len() == 0,
            b ==> self@ == Map::<Seq<char>, Seq<char>>::empty(),
    {
        self.entries.len() == 0
    }

    /// The pairs, in insertion order.
    pub fn entries(&self) -> (v: Vec<(String, String)>)
        ensures
            v@.len() == self.pairs().len(),
            forall|i: int|
                0 <= i < v@.len() ==> (#[trigger] v@[i]).0@ == self.pairs()[i].0@ && v@[i].1@
                    == self.pairs()[i].1@,
    {
        let mut v: Vec<(String, String)> = Vec::new();
        let mut i: usize = 0;
        while i < self.entries.len()
            invariant
                i <= self.entries@.len(),
                v@.len() == i,
                forall|k: int|
                    0 <= k < i ==> (#[trigger] v@[k]).0@ == self.entries@[k].0@ && v@[k].1@
                        == self.entries@[k].1@,
            decreases self.entries@.len() - i,
        {
            let (k, x) = &self.entries[i];
            v.push((k.clone(), x.clone()));
            i += 1;
        }
        v
    }
}


// ---------------------------------------------------------------------
// Plugin metadata and results
// ---------------------------------------------------------------------

/// What a plugin does.
#[derive(Clone, Copy, Debug, PartialEq, Eq, Hash, Structural)]
pub enum PluginType {
    Hasher,
    Exporter,
    AcquisitionModule,
    Analyzer,
    General,
}

/// The name of a plugin type.
pub open spec fn plugin_type_name(t: PluginType) -> Seq<char> {
    match t {
        PluginType::Hasher => "Hasher"@,
        PluginType::Exporter => "Exporter"@,
        PluginType::AcquisitionModule => "AcquisitionModule"@,
        PluginType::Analyzer => "Analyzer"@,
        PluginType::General => "General"@,
    }
}

impl PluginType {
    /// The type's name, as it is displayed.
    pub fn name(&self) -> (s: String)
        ensures
            s@ == plugin_type_name(*self),
    {
        let mut s = String::new();
        match self {
            PluginType::Hasher => push_str(&mut s, "Hasher"),
            PluginType::Exporter => push_str(&mut s, "Exporter"),
            PluginType::AcquisitionModule => push_str(&mut s, "AcquisitionModule"),
            PluginType::Analyzer => push_str(&mut s, "Analyzer"),
            PluginType::General => push_str(&mut s, "General"),
        }
        s
    }
}

/// What a plugin is told before acquisition starts.
#[derive(Clone, Debug)]
pub struct PluginContext {
    pub case_number: String,
    pub examiner: String,
    pub evidence_id: String,
    pub notes: String,
    pub total_size: u64,
    pub block_size: usize,
    pub imaging_mode: String,
    pub format: String,
}

/// What a plugin returns after acquisition: named results.
#[derive(Debug)]
pub struct PluginOutput {
    pub results: StringMap,
}

impl PluginOutput {
    /// No results.
    pub fn new() -> (o: Self)
        ensures
            o.results.wf(),
            o.results@ == Map::<Seq<char>, Seq<char>>::empty(),
    {
        PluginOutput { results: StringMap::new() }
    }

    /// Records result `val` under `key`, replacing an earlier one.
    pub fn insert(&mut self, key: String, val: String)
        requires
            old(self).results.wf(),
        ensures
            final(self).results.wf(),
            final(self).results@ == old(self).results@.insert(key@, val@),
            final(self).results@.dom().finite(),
            final(self).results@.len() == old(self).results@.len() + if old(self).results@.dom().contains(
                key@,
            ) {
                0int
            } else {
                1int
            },
    {
        self.results.insert(key, val);
    }
}

/// A loaded plugin as listed.
#[derive(Clone, Debug)]
pub struct PluginInfo {
    pub name: String,
    pub version: String,
    pub plugin_type: PluginType,
    pub source_path: String,
    /// "Native" or "WebAssembly".
    pub loader: String,
}

/// A copy of a plugin's metadata.
fn copy_info(i: &PluginInfo) -> (c: PluginInfo)
    ensures
        c.name@ == i.name@,
        c.version@ == i.version@,
        c.plugin_type == i.plugin_type,
        c.source_path@ == i.source_path@,
        c.loader@ == i.loader@,
{
    PluginInfo {
        name: i.name.clone(),
        version: i.version.clone(),
        plugin_type: i.plugin_type,
        source_path: i.source_path.clone(),
        loader: i.loader.clone(),
    }
}

/// Key under which a plugin's result is reported: "<plugin>.<key>".
pub open spec fn result_key(plugin: Seq<char>, key: Seq<char>) -> Seq<char> {
    plugin + "."@ + key
}

/// The reported results after merging the pairs of one plugin, in order.
pub open spec fn merged_results(
    m: Map<Seq<char>, Seq<char>>,
    plugin: Seq<char>,
    pairs: Seq<(String, String)>,
) -> Map<Seq<char>, Seq<char>>
    decreases pairs.len(),
{
    if pairs.len() == 0 {
        m
    } else {
        merged_results(m, plugin, pairs.drop_last()).insert(result_key(plugin, pairs.last().0@), pairs.last().1@)
    }
}

/// Adds the results of plugin `plugin_name` to the reported results, each
/// under "<plugin>.<key>".
pub fn merge_plugin_results(target: &mut StringMap, plugin_name: &str, output: &PluginOutput)
    requires
        old(target).wf(),
    ensures
        final(target).wf(),
        final(target)@ == merged_results(old(target)@, plugin_name@, output.results.pairs()),
{
    let pairs = output.results.entries();
    let ghost start = target@;
    let mut i: usize = 0;
    while i < pairs.len()
        invariant
            i <= pairs@.len(),
            target.wf(),
            pairs@.len() == output.results.pairs().len(),
            forall|k: int|
                0 <= k < pairs@.len() ==> (#[trigger] pairs@[k]).0@ == output.results.pairs()[k].0@ && pairs@[k].1@
                    == output.results.pairs()[k].1@,
            target@ == merged_results(start, plugin_name@, output.results.pairs().take(i as int)),
        decreases pairs@.len() - i,
    {
        let (k, v) = &pairs[i];
        let mut key = String::new();
        push_str(&mut key, plugin_name);
        push_str(&mut key, ".");
        push_str(&mut key, k.as_str());
        target.insert(key, v.clone());
        proof {
            let t = output.results.pairs().take(i + 1);
            assert(t.drop_last() =~= output.results.pairs().take(i as int));
            assert(t.last() == output.results.pairs()[i as int]);
        }
        i += 1;
    }
    proof {
        assert(output.results.pairs().take(pairs@.len() as int) =~= output.results.pairs());
    }
}


// ---------------------------------------------------------------------
// The registry
// ---------------------------------------------------------------------

/// The loaded plugins, each with its metadata; at most one per name.
pub struct PluginManager<P> {
    plugins: Vec<(PluginInfo, P)>,
}

/// The entries of `v` whose plugin is not named `name`, in order.
pub open spec fn without_name<P>(v: Seq<(PluginInfo, P)>, name: Seq<char>) -> Seq<(PluginInfo, P)> {
    v.filter(named_otherwise::<P>(name))
}

/// Whether an entry's plugin is not named `name`.
pub open spec fn named_otherwise<P>(name: Seq<char>) -> spec_fn((PluginInfo, P)) -> bool {
    |e: (PluginInfo, P)| e.0.name@ != name
}

/// Whether some entry of `v` is a plugin named `name`.
pub open spec fn has_name<P>(v: Seq<(PluginInfo, P)>, name: Seq<char>) -> bool {
    exists|i: int| 0 <= i < v.len() && v[i].0.name@ == name
}

/// Whether no two entries share a name.
pub open spec fn names_unique<P>(v: Seq<(PluginInfo, P)>) -> bool {
    forall|i: int, j: int| 0 <= i < j < v.len() ==> v[i].0.name@ != v[j].0.name@
}

impl<P> PluginManager<P> {
    /// The registered entries, in registration order.
    pub closed spec fn entries(&self) -> Seq<(PluginInfo, P)> {
        self.plugins@
    }

    /// No registry.
    pub fn new() -> (m: Self)
        ensures
            m.entries().len() == 0,
    {
        PluginManager { plugins: Vec::new() }
    }

    /// The metadata of every registered plugin, in registration order.
    pub fn list_plugins(&self) -> (v: Vec<PluginInfo>)
        ensures
            v@.len() == self.entries().len(),
            forall|i: int|
                0 <= i < v@.len() ==> {
                    let e = self.entries()[i].0;
                    &&& (#[trigger] v@[i]).name@ == e.name@
                    &&& v@[i].version@ == e.version@
                    &&& v@[i].plugin_type == e.plugin_type
                    &&& v@[i].source_path@ == e.source_path@
                    &&& v@[i].loader@ == e.loader@
                },
    {
        let mut v: Vec<PluginInfo> = Vec::new();
        let mut i: usize = 0;
        while i < self.plugins.len()
            invariant
                i <= self.plugins@.len(),
                v@.len() == i,
                forall|k: int|
                    0 <= k < i ==> {
                        let e = self.plugins@[k].0;
                        &&& (#[trigger] v@[k]).name@ == e.name@
                        &&& v@[k].version@ == e.version@
                        &&& v@[k].plugin_type == e.plugin_type
                        &&& v@[k].source_path@ == e.source_path@
                        &&& v@[k].loader@ == e.loader@
                    },
            decreases self.plugins@.len() - i,
        {
            v.push(copy_info(&self.plugins[i].0));
            i += 1;
        }
        v
    }

    /// Every registered entry, each plugin handle cloned, in registration
    /// order.
    pub fn get_active_plugins(&self) -> (v: Vec<(PluginInfo, P)>) where P: Clone
        ensures
            v@.len() == self.entries().len(),
            forall|i: int|
                0 <= i < v@.len() ==> {
                    let e = self.entries()[i];
                    &&& (#[trigger] v@[i]).0.name@ == e.0.name@
                    &&& v@[i].0.version@ == e.0.version@
                    &&& v@[i].0.plugin_type == e.0.plugin_type
                    &&& v@[i].0.source_path@ == e.0.source_path@
                    &&& v@[i].0.loader@ == e.0.loader@
                    &&& cloned::<P>(e.1, v@[i].1)
                },
    {
        let mut v: Vec<(PluginInfo, P)> = Vec::new();
        let mut i: usize = 0;
        while i < self.plugins.len()
            invariant
                i <= self.plugins@.len(),
                v@.len() == i,
                forall|k: int|
                    0 <= k < i ==> {
                        let e = self.plugins@[k];
                        &&& (#[trigger] v@[k]).0.name@ == e.0.name@
                        &&& v@[k].0.version@ == e.0.version@
                        &&& v@[k].0.plugin_type == e.0.plugin_type
                        &&& v@[k].0.source_path@ == e.0.source_path@
                        &&& v@[k].0.loader@ == e.0.loader@
                        &&& cloned::<P>(e.1, v@[k].1)
                    },
            decreases self.plugins@.len() - i,
        {
            let info = copy_info(&self.plugins[i].0);
            let handle = self.plugins[i].1.clone();
            v.push((info, handle));
            i += 1;
        }
        v
    }

    /// Number of registered plugins.
    pub fn len(&self) -> (n: usize)
        ensures
            n == self.entries().len(),
    {
        self.plugins.len()
    }

    /// Removes the plugins named `name`.
    fn retain_other_names(&mut self, name: &str)
        ensures
            final(self).entries() == without_name(old(self).entries(), name@),
    {
        let mut kept: Vec<(PluginInfo, P)> = Vec::new();
        let mut rest: Vec<(PluginInfo, P)> = Vec::new();
        std::mem::swap(&mut rest, &mut self.plugins);
        let ghost all = rest@;
        let ghost pred = named_otherwise::<P>(name@);
        proof {
            assert(all.subrange(0, 0) =~= Seq::<(PluginInfo, P)>::empty());
            reveal(Seq::filter);
            assert(Seq::<(PluginInfo, P)>::empty().filter(pred) =~= Seq::<(PluginInfo, P)>::empty());
        }
        while rest.len() > 0
            invariant
                rest@.len() <= all.len(),
                rest@ == all.subrange(all.len() - rest@.len(), all.len() as int),
                kept@ == all.subrange(0, all.len() - rest@.len()).filter(pred),
                pred == named_otherwise::<P>(name@),
            decreases rest@.len(),
        {
            let e = rest.remove(0);
            let ghost idx = all.len() - rest@.len() - 1;
            proof {
                assert(e == all[idx]);
                let t = all.subrange(0, idx + 1);
                assert(t =~= all.subrange(0, idx).push(e));
                all.subrange(0, idx).lemma_filter_push(e, pred);
                assert(rest@ =~= all.subrange(idx + 1, all.len() as int));
            }
            if !str_eq(e.0.name.as_str(), name) {
                kept.push(e);
            }
        }
        proof {
            assert(all.subrange(0, all.len() as int) =~= all);
        }
        self.plugins = kept;
    }

    /// Unregisters the plugin named `name`; an error names it when no
    /// plugin of that name is registered.
    pub fn unload_plugin(&mut self, name: &str) -> (r: Result<(), String>)
        ensures
            final(self).entries() == without_name(old(self).entries(), name@),
            r is Ok <==> has_name(old(self).entries(), name@),
            r matches Err(msg) ==> msg@ == "Plugin '"@ + name@ + "' not found"@,
    {
        let before = self.plugins.len();
        self.retain_other_names(name);
        proof {
            lemma_filter_len(old(self).entries(), name@);
        }
        if self.plugins.len() < before {
            Ok(())
        } else {
            let mut msg = String::new();
            push_str(&mut msg, "Plugin '");
            push_str(&mut msg, name);
            push_str(&mut msg, "' not found");
            Err(msg)
        }
    }

    /// Registers a loaded plugin, replacing any plugin of the same name.
    pub fn register(&mut self, info: PluginInfo, plugin: P)
        ensures
            final(self).entries() == without_name(old(self).entries(), info.name@).push((info, plugin)),
    {
        let ghost name = info.name@;
        self.retain_other_names(info.name.as_str());
        self.plugins.push((info, plugin));
    }
}

/// Filtering out a name shortens the list exactly when the name occurs.
proof fn lemma_filter_len<P>(v: Seq<(PluginInfo, P)>, name: Seq<char>)
    ensures
        without_name(v, name).len() <= v.len(),
        without_name(v, name).len() < v.len() <==> has_name(v, name),
    decreases v.len(),
{
    let f = named_otherwise::<P>(name);
    if v.len() > 0 {
        let d = v.drop_last();
        lemma_filter_len(d, name);
        d.lemma_filter_push(v.last(), f);
        assert(d.push(v.last()) =~= v);
        if has_name(v, name) && v.last().0.name@ != name {
            let i = choose|i: int| 0 <= i < v.len() && v[i].0.name@ == name;
            assert(i != v.len() - 1);
            assert(d[i].0.name@ == name);
            assert(has_name(d, name));
        }
        if v.last().0.name@ == name {
            assert(has_name(v, name));
            assert(without_name(v, name) == without_name(d, name));
        } else {
            assert(without_name(v, name) == without_name(d, name).push(v.last()));
        }
        if has_name(d, name) {
            let i = choose|i: int| 0 <= i < d.len() && d[i].0.name@ == name;
            assert(v[i].0.name@ == name);
        }
    } else {
        reveal(Seq::filter);
        assert(without_name(v, name) =~= v);
    }
}


/// Filtering keeps names unique, keeps only other names, and keeps only
/// entries of the list.
proof fn lemma_without_name<P>(v: Seq<(PluginInfo, P)>, name: Seq<char>)
    requires
        names_unique(v),
    ensures
        names_unique(without_name(v, name)),
        !has_name(without_name(v, name), name),
        forall|n: Seq<char>| #[trigger] has_name(without_name(v, name), n) ==> has_name(v, n),
    decreases v.len(),
{
    let f = named_otherwise::<P>(name);
    let w = without_name(v, name);
    if v.len() == 0 {
        reveal(Seq::filter);
        assert(w =~= v);
    } else {
        let d = v.drop_last();
        assert(names_unique(d)) by {
            assert forall|i: int, j: int| 0 <= i < j < d.len() implies d[i].0.name@ != d[j].0.name@ by {
                assert(d[i] == v[i] && d[j] == v[j]);
            }
        }
        lemma_without_name(d, name);
        d.lemma_filter_push(v.last(), f);
        assert(d.push(v.last()) =~= v);
        let wd = without_name(d, name);
        if v.last().0.name@ != name {
            assert(w == wd.push(v.last()));
            assert(!has_name(d, v.last().0.name@)) by {
                if has_name(d, v.last().0.name@) {
                    let i = choose|i: int| 0 <= i < d.len() && d[i].0.name@ == v.last().0.name@;
                    assert(v[i].0.name@ == v[v.len() - 1].0.name@);
                }
            }
            assert(!has_name(wd, v.last().0.name@));
            assert forall|i: int, j: int| 0 <= i < j < w.len() implies w[i].0.name@ != w[j].0.name@ by {
                if j == w.len() - 1 {
                    assert(w[i] == wd[i]);
                    if w[i].0.name@ == w[j].0.name@ {
                        assert(has_name(wd, v.last().0.name@));
                    }
                } else {
                    assert(w[i] == wd[i] && w[j] == wd[j]);
                }
            }
            assert forall|n: Seq<char>| #[trigger] has_name(w, n) implies has_name(v, n) by {
                let i = choose|i: int| 0 <= i < w.len() && w[i].0.name@ == n;
                if i == w.len() - 1 {
                    assert(v[v.len() - 1].0.name@ == n);
                } else {
                    assert(w[i] == wd[i]);
                    assert(has_name(wd, n));
                    assert(has_name(d, n));
                    let k = choose|k: int| 0 <= k < d.len() && d[k].0.name@ == n;
                    assert(v[k] == d[k]);
                }
            }
            assert(!has_name(w, name)) by {
                if has_name(w, name) {
                    let i = choose|i: int| 0 <= i < w.len() && w[i].0.name@ == name;
                    if i < w.len() - 1 {
                        assert(w[i] == wd[i]);
                        assert(has_name(wd, name));
                    }
                }
            }
        } else {
            assert(w == wd);
            assert forall|n: Seq<char>| #[trigger] has_name(w, n) implies has_name(v, n) by {
                assert(has_name(d, n));
                let k = choose|k: int| 0 <= k < d.len() && d[k].0.name@ == n;
                assert(v[k] == d[k]);
            }
        }
    }
}

/// Registering a plugin keeps the names in the registry unique, and the
/// new plugin is registered under its name.
pub proof fn lemma_register_keeps_names_unique<P>(v: Seq<(PluginInfo, P)>, info: PluginInfo, plugin: P)
    requires
        names_unique(v),
    ensures
        names_unique(without_name(v, info.name@).push((info, plugin))),
        has_name(without_name(v, info.name@).push((info, plugin)), info.name@),
{
    lemma_without_name(v, info.name@);
    let w = without_name(v, info.name@);
    let r = w.push((info, plugin));
    assert forall|i: int, j: int| 0 <= i < j < r.len() implies r[i].0.name@ != r[j].0.name@ by {
        if j == r.len() - 1 {
            assert(r[i] == w[i]);
            if r[i].0.name@ == info.name@ {
                assert(has_name(w, info.name@));
            }
        } else {
            assert(r[i] == w[i] && r[j] == w[j]);
        }
    }
    assert(r[r.len() - 1].0.name@ == info.name@);
}

/// After a plugin is unloaded by name, no plugin of that name is
/// registered, and no plugin is registered that was not before.
pub proof fn lemma_unload_removes_name<P>(v: Seq<(PluginInfo, P)>, name: Seq<char>)
    requires
        names_unique(v),
    ensures
        !has_name(without_name(v, name), name),
        names_unique(without_name(v, name)),
        forall|n: Seq<char>| #[trigger] has_name(without_name(v, name), n) ==> has_name(v, n),
{
    lemma_without_name(v, name);
}


// ---------------------------------------------------------------------
// Loaders
// ---------------------------------------------------------------------

/// How a plugin file is loaded.
#[derive(Clone, Copy, Debug, PartialEq, Eq, Structural)]
pub enum PluginLoader {
    /// A shared library (.dll, .so, .dylib).
    Native,
    /// A WebAssembly module (.wasm).
    WebAssembly,
}

/// What `str::to_lowercase` gives (Unicode lower case).
pub uninterp spec fn lowercased(s: Seq<char>) -> Seq<char>;

/// `str::to_lowercase`: the string in Unicode lower case.
#[verifier::external_body]
fn to_lowercase(s: &str) -> (r: String)
    ensures
        r@ == lowercased(s@),
{
    s.to_lowercase()
}

/// The loader of a lower-case file extension.
pub open spec fn loader_of(ext: Seq<char>) -> Option<PluginLoader> {
    if ext == "dll"@ || ext == "so"@ || ext == "dylib"@ {
        Some(PluginLoader::Native)
    } else if ext == "wasm"@ {
        Some(PluginLoader::WebAssembly)
    } else {
        None
    }
}

/// The name of a loader as listed.
pub open spec fn loader_name(l: PluginLoader) -> Seq<char> {
    match l {
        PluginLoader::Native => "Native"@,
        PluginLoader::WebAssembly => "WebAssembly"@,
    }
}

impl PluginLoader {
    /// The loader's name ("Native" or "WebAssembly").
    pub fn name(&self) -> (s: String)
        ensures
            s@ == loader_name(*self),
    {
        let mut s = String::new();
        match self {
            PluginLoader::Native => push_str(&mut s, "Native"),
            PluginLoader::WebAssembly => push_str(&mut s, "WebAssembly"),
        }
        s
    }
}

/// The loader of an extension already in lower case.
pub fn loader_of_lowercase(ext: &str) -> (r: Option<PluginLoader>)
    ensures
        r == loader_of(ext@),
{
    if str_eq(ext, "dll") || str_eq(ext, "so") || str_eq(ext, "dylib") {
        Some(PluginLoader::Native)
    } else if str_eq(ext, "wasm") {
        Some(PluginLoader::WebAssembly)
    } else {
        None
    }
}

/// The loader of a plugin file with extension `ext` (compared in lower
/// case); `None` for an unsupported extension.
pub fn loader_for_extension(ext: &str) -> (r: Option<PluginLoader>)
    ensures
        r == loader_of(lowercased(ext@)),
{
    let lower = to_lowercase(ext);
    loader_of_lowercase(lower.as_str())
}

/// The error for a file whose extension no loader takes.
pub fn unsupported_extension_message(ext: &str, path: &str) -> (s: String)
    ensures
        s@ == "Unsupported plugin file extension '."@ + lowercased(ext@) + "' for file "@ + path@,
{
    let lower = to_lowercase(ext);
    let mut s = String::new();
    push_str(&mut s, "Unsupported plugin file extension '.");
    push_str(&mut s, lower.as_str());
    push_str(&mut s, "' for file ");
    push_str(&mut s, path);
    s
}

} // verus!
