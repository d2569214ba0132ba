//! What loading plugins records: the sites of each scraper, the plugins that
//! answer each callback, the custom callbacks each plugin offers, and the
//! tag rules. Scrapers and callbacks are told apart by all their fields.

use crate::deepeq::{
    callback_eq, callback_view, copy_callback, copy_scraper, scraper_eq, scraper_view, strings_view,
    CallbackView, ScraperView,
};
use crate::inmemdbnew::{MemDbView, NewinMemDB};
use crate::sharedtypes::{GlobalCallbacks, GlobalPluginScraper, ScraperOrPlugin, SearchType};
use crate::tagrules::{keyed_push, ns_ids, regex_valid, rules_view, search_key, TagRuleSet};
use vstd::prelude::*;

verus! {

/// No key occurs twice.
pub open spec fn keys_unique<K, V>(s: Seq<(K, V)>) -> bool {
    forall|i: int, j: int| 0 <= i < s.len() && 0 <= j < s.len() && i != j ==> (#[trigger] s[i]).0 != (#[trigger] s[j]).0
}

/// A list of keys, each with a value, once `k` is given the value `x`: in
/// the entry with that key, or in a new entry at the end.
pub open spec fn keyed_set<K, V>(s: Seq<(K, V)>, k: K, x: V) -> Seq<(K, V)> {
    if exists|i: int| 0 <= i < s.len() && (#[trigger] s[i]).0 == k {
        let i = choose|i: int| 0 <= i < s.len() && (#[trigger] s[i]).0 == k;
        s.update(i, (k, x))
    } else {
        s.push((k, x))
    }
}

proof fn lemma_key_at<K, V>(s: Seq<(K, V)>, k: K, i: int)
    requires
        keys_unique(s),
        0 <= i < s.len(),
        s[i].0 == k,
    ensures
        (choose|j: int| 0 <= j < s.len() && (#[trigger] s[j]).0 == k) == i,
{
    let j = choose|j: int| 0 <= j < s.len() && (#[trigger] s[j]).0 == k;
    assert(0 <= j < s.len() && s[j].0 == k);
}

/// The value under `k`, if an entry has that key.
pub open spec fn keyed_get<K, V>(s: Seq<(K, V)>, k: K) -> Option<V> {
    if exists|i: int| 0 <= i < s.len() && (#[trigger] s[i]).0 == k {
        let i = choose|i: int| 0 <= i < s.len() && (#[trigger] s[i]).0 == k;
        Some(s[i].1)
    } else {
        None
    }
}

/// The registry as plain values.
pub struct RegistryView {
    /// Each scraper with its sites.
    pub sites: Seq<(ScraperView, Seq<Seq<char>>)>,
    /// Each plugin with the custom callbacks it offers.
    pub cross: Seq<(ScraperView, Seq<CallbackView>)>,
    /// Each callback with the plugins that answer it, in the order they came.
    pub callbacks: Seq<(CallbackView, Seq<ScraperView>)>,
    /// The tag rules.
    pub rules: Seq<(((bool, Seq<char>), Seq<usize>, Seq<usize>), Seq<Seq<char>>)>,
}

/// What plugins have registered.
pub struct PluginRegistry {
    sites: Vec<(GlobalPluginScraper, Vec<String>)>,
    callback_cross: Vec<(GlobalPluginScraper, Vec<GlobalCallbacks>)>,
    callback: Vec<(GlobalCallbacks, Vec<GlobalPluginScraper>)>,
    tag_rules: TagRuleSet,
}

pub open spec fn sites_view(v: Seq<(GlobalPluginScraper, Vec<String>)>) -> Seq<(ScraperView, Seq<Seq<char>>)> {
    v.map_values(|e: (GlobalPluginScraper, Vec<String>)| (scraper_view(e.0), strings_view(e.1@)))
}

pub open spec fn cross_view(v: Seq<(GlobalPluginScraper, Vec<GlobalCallbacks>)>) -> Seq<(ScraperView, Seq<CallbackView>)> {
    v.map_values(
        |e: (GlobalPluginScraper, Vec<GlobalCallbacks>)|
            (scraper_view(e.0), e.1@.map_values(|c: GlobalCallbacks| callback_view(c))),
    )
}

pub open spec fn cbs_view(v: Seq<(GlobalCallbacks, Vec<GlobalPluginScraper>)>) -> Seq<(CallbackView, Seq<ScraperView>)> {
    v.map_values(
        |e: (GlobalCallbacks, Vec<GlobalPluginScraper>)|
            (callback_view(e.0), e.1@.map_values(|g: GlobalPluginScraper| scraper_view(g))),
    )
}

impl View for PluginRegistry {
    type V = RegistryView;

    closed spec fn view(&self) -> RegistryView {
        RegistryView {
            sites: sites_view(self.sites@),
            cross: cross_view(self.callback_cross@),
            callbacks: cbs_view(self.callback@),
            rules: rules_view(self.tag_rules.rules()),
        }
    }
}

/// Whether a tag search can be registered: a pattern must compile.
pub open spec fn search_ok(search: SearchType) -> bool {
    match search {
        SearchType::Regex(p) => regex_valid(p@),
        SearchType::String(_) => true,
    }
}

/// The registry once the plugin `g` offers the callback `c`: a custom
/// callback is recorded for the plugin, any other records the plugin for
/// the callback; a tag callback whose search can be registered also adds
/// the plugin's name to the tag rule of its search and namespaces.
pub open spec fn callback_step(r: RegistryView, g: GlobalPluginScraper, c: GlobalCallbacks, db: MemDbView) -> RegistryView {
    let k = scraper_view(g);
    let r1 = match c {
        GlobalCallbacks::Callback(_) => RegistryView { cross: keyed_push(r.cross, k, callback_view(c)), ..r },
        _ => RegistryView { callbacks: keyed_push(r.callbacks, callback_view(c), k), ..r },
    };
    match c {
        GlobalCallbacks::Tag((Some(search), ns, not_ns)) => if search_ok(search) {
            RegistryView {
                rules: keyed_push(
                    r1.rules,
                    (
                        search_key(search),
                        ns_ids(db, ns@.map_values(|s: String| s@)),
                        ns_ids(db, not_ns@.map_values(|s: String| s@)),
                    ),
                    g.name@,
                ),
                ..r1
            }
        } else {
            r1
        },
        _ => r1,
    }
}

/// The registry once the callbacks `cbs` of `g` are taken in order.
pub open spec fn callbacks_fold(r: RegistryView, g: GlobalPluginScraper, cbs: Seq<GlobalCallbacks>, db: MemDbView) -> RegistryView
    decreases cbs.len(),
{
    if cbs.len() == 0 {
        r
    } else {
        callback_step(callbacks_fold(r, g, cbs.drop_last(), db), g, cbs.last(), db)
    }
}

/// The registry once `g` is registered: one without a storage type is
/// skipped; a scraper's sites replace those it had; then its callbacks.
pub open spec fn global_step(r: RegistryView, g: GlobalPluginScraper, db: MemDbView) -> RegistryView {
    match g.storage_type {
        None => r,
        Some(t) => {
            let r1 = match t {
                ScraperOrPlugin::Scraper(info) => RegistryView {
                    sites: keyed_set(r.sites, scraper_view(g), strings_view(info.sites@)),
                    ..r
                },
                ScraperOrPlugin::Plugin(_) => r,
            };
            callbacks_fold(r1, g, g.callbacks@, db)
        },
    }
}

/// The registry once `items` are registered in order.
pub open spec fn registry_fold(r: RegistryView, items: Seq<GlobalPluginScraper>, db: MemDbView) -> RegistryView
    decreases items.len(),
{
    if items.len() == 0 {
        r
    } else {
        global_step(registry_fold(r, items.drop_last(), db), items.last(), db)
    }
}

/// Every tag callback of a scraper or plugin that is registered has a search.
pub open spec fn tag_searches_given(items: Seq<GlobalPluginScraper>) -> bool {
    forall|i: int, j: int|
        0 <= i < items.len() && 0 <= j < items[i].callbacks@.len() && items[i].storage_type is Some
            ==> !((#[trigger] items[i].callbacks@[j]) matches GlobalCallbacks::Tag((None, _, _)))
}

fn sites_set(v: &mut Vec<(GlobalPluginScraper, Vec<String>)>, g: &GlobalPluginScraper, sites: Vec<String>)
    requires
        keys_unique(sites_view(old(v)@)),
    ensures
        keys_unique(sites_view(final(v)@)),
        sites_view(final(v)@) == keyed_set(sites_view(old(v)@), scraper_view(*g), strings_view(sites@)),
{
    let ghost s0 = sites_view(v@);
    let ghost k = scraper_view(*g);
    let mut i: usize = 0;
    while i < v.len()
        invariant
            v@ == old(v)@,
            s0 == sites_view(v@),
            keys_unique(s0),
            k == scraper_view(*g),
            i <= v.len(),
            forall|j: int| 0 <= j < i ==> (#[trigger] s0[j]).0 != k,
        decreases v.len() - i,
    {
        if scraper_eq(&v[i].0, g) {
            proof {
                assert(s0[i as int].0 == k);
                lemma_key_at(s0, k, i as int);
            }
            let e = v.remove(i);
            v.insert(i, (e.0, sites));
            proof {
                assert(sites_view(v@) =~= keyed_set(s0, k, strings_view(sites@)));
            }
            return;
        }
        i = i + 1;
    }
    v.push((copy_scraper(g), sites));
    proof {
        assert(!exists|j: int| 0 <= j < s0.len() && (#[trigger] s0[j]).0 == k);
        assert(sites_view(v@) =~= s0.push((k, strings_view(sites@))));
    }
}

fn cross_push(v: &mut Vec<(GlobalPluginScraper, Vec<GlobalCallbacks>)>, g: &GlobalPluginScraper, cb: GlobalCallbacks)
    requires
        keys_unique(cross_view(old(v)@)),
    ensures
        keys_unique(cross_view(final(v)@)),
        cross_view(final(v)@) == keyed_push(cross_view(old(v)@), scraper_view(*g), callback_view(cb)),
{
    let ghost s0 = cross_view(v@);
    let ghost k = scraper_view(*g);
    let ghost x = callback_view(cb);
    let mut i: usize = 0;
    while i < v.len()
        invariant
            v@ == old(v)@,
            s0 == cross_view(v@),
            keys_unique(s0),
            k == scraper_view(*g),
            x == callback_view(cb),
            i <= v.len(),
            forall|j: int| 0 <= j < i ==> (#[trigger] s0[j]).0 != k,
        decreases v.len() - i,
    {
        if scraper_eq(&v[i].0, g) {
            proof {
                assert(s0[i as int].0 == k);
                lemma_key_at(s0, k, i as int);
            }
            let mut e = v.remove(i);
            let ghost old_list = e.1@;
            e.1.push(cb);
            v.insert(i, e);
            proof {
                assert(e.1@.map_values(|c: GlobalCallbacks| callback_view(c)) =~= old_list.map_values(
                    |c: GlobalCallbacks| callback_view(c),
                ).push(x));
                assert(cross_view(v@) =~= keyed_push(s0, k, x));
            }
            return;
        }
        i = i + 1;
    }
    let mut l: Vec<GlobalCallbacks> = Vec::new();
    l.push(cb);
    v.push((copy_scraper(g), l));
    proof {
        assert(!exists|j: int| 0 <= j < s0.len() && (#[trigger] s0[j]).0 == k);
        assert(l@.map_values(|c: GlobalCallbacks| callback_view(c)) =~= seq![x]);
        assert(cross_view(v@) =~= s0.push((k, seq![x])));
    }
}

fn callbacks_push(v: &mut Vec<(GlobalCallbacks, Vec<GlobalPluginScraper>)>, cb: &GlobalCallbacks, g: &GlobalPluginScraper)
    requires
        keys_unique(cbs_view(old(v)@)),
    ensures
        keys_unique(cbs_view(final(v)@)),
        cbs_view(final(v)@) == keyed_push(cbs_view(old(v)@), callback_view(*cb), scraper_view(*g)),
{
    let ghost s0 = cbs_view(v@);
    let ghost k = callback_view(*cb);
    let ghost x = scraper_view(*g);
    let mut i: usize = 0;
    while i < v.len()
        invariant
            v@ == old(v)@,
            s0 == cbs_view(v@),
            keys_unique(s0),
            k == callback_view(*cb),
            x == scraper_view(*g),
            i <= v.len(),
            forall|j: int| 0 <= j < i ==> (#[trigger] s0[j]).0 != k,
        decreases v.len() - i,
    {
        if callback_eq(&v[i].0, cb) {
            proof {
                assert(s0[i as int].0 == k);
                lemma_key_at(s0, k, i as int);
            }
            let mut e = v.remove(i);
            let ghost old_list = e.1@;
            e.1.push(copy_scraper(g));
            v.insert(i, e);
            proof {
                assert(e.1@.map_values(|g: GlobalPluginScraper| scraper_view(g)) =~= old_list.map_values(
                    |g: GlobalPluginScraper| scraper_view(g),
                ).push(x));
                assert(cbs_view(v@) =~= keyed_push(s0, k, x));
            }
            return;
        }
        i = i + 1;
    }
    let mut l: Vec<GlobalPluginScraper> = Vec::new();
    l.push(copy_scraper(g));
    v.push((copy_callback(cb), l));
    proof {
        assert(!exists|j: int| 0 <= j < s0.len() && (#[trigger] s0[j]).0 == k);
        assert(l@.map_values(|g: GlobalPluginScraper| scraper_view(g)) =~= seq![x]);
        assert(cbs_view(v@) =~= s0.push((k, seq![x])));
    }
}

impl PluginRegistry {
    /// Whether no scraper or callback is recorded twice.
    pub closed spec fn wf(&self) -> bool {
        &&& keys_unique(sites_view(self.sites@))
        &&& keys_unique(cross_view(self.callback_cross@))
        &&& keys_unique(cbs_view(self.callback@))
    }

    /// An empty registry.
    pub fn new() -> (res: PluginRegistry)
        ensures
            res.wf(),
            res@ == (RegistryView {
                sites: Seq::empty(),
                cross: Seq::empty(),
                callbacks: Seq::empty(),
                rules: Seq::empty(),
            }),
    {
        let res = PluginRegistry {
            sites: Vec::new(),
            callback_cross: Vec::new(),
            callback: Vec::new(),
            tag_rules: TagRuleSet::new(),
        };
        proof {
            assert(res@.sites =~= Seq::<(ScraperView, Seq<Seq<char>>)>::empty());
            assert(res@.cross =~= Seq::<(ScraperView, Seq<CallbackView>)>::empty());
            assert(res@.callbacks =~= Seq::<(CallbackView, Seq<ScraperView>)>::empty());
            assert(res@.rules =~= Seq::<(((bool, Seq<char>), Seq<usize>, Seq<usize>), Seq<Seq<char>>)>::empty());
        }
        res
    }

    /// The sites of a scraper; none for one that is not recorded.
    pub fn sites_get(&self, global: &GlobalPluginScraper) -> (res: Vec<String>)
        requires
            self.wf(),
        ensures
            strings_view(res@) == match keyed_get(self@.sites, scraper_view(*global)) {
                Some(v) => v,
                None => Seq::<Seq<char>>::empty(),
            },
    {
        let ghost s0 = self@.sites;
        let ghost k = scraper_view(*global);
        let mut i: usize = 0;
        while i < self.sites.len()
            invariant
                s0 == sites_view(self.sites@),
                keys_unique(s0),
                k == scraper_view(*global),
                i <= self.sites.len(),
                forall|j: int| 0 <= j < i ==> (#[trigger] s0[j]).0 != k,
            decreases self.sites.len() - i,
        {
            if scraper_eq(&self.sites[i].0, global) {
                proof {
                    assert(s0[i as int].0 == k);
                    lemma_key_at(s0, k, i as int);
                }
                return crate::deepeq::copy_strings(&self.sites[i].1);
            }
            i = i + 1;
        }
        proof {
            assert(!exists|j: int| 0 <= j < s0.len() && (#[trigger] s0[j]).0 == k);
        }
        let res: Vec<String> = Vec::new();
        assert(strings_view(res@) =~= Seq::<Seq<char>>::empty());
        res
    }

    /// The tag rules.
    pub fn tag_rules(&self) -> (res: &TagRuleSet)
        ensures
            rules_view(res.rules()) == self@.rules,
    {
        &self.tag_rules
    }

    /// Records the callback `c` that the plugin `g` offers.
    fn register_callback(&mut self, db: &NewinMemDB, g: &GlobalPluginScraper, c: &GlobalCallbacks)
        requires
            old(self).wf(),
            !(*c matches GlobalCallbacks::Tag((None, _, _))),
        ensures
            final(self).wf(),
            final(self)@ == callback_step(old(self)@, *g, *c, db@),
    {
        let ghost r0 = self@;
        match c {
            GlobalCallbacks::Callback(_) => {
                cross_push(&mut self.callback_cross, g, copy_callback(c));
            },
            _ => {
                callbacks_push(&mut self.callback, c, g);
            },
        }
        let ghost r1 = self@;
        assert(r1 == match *c {
            GlobalCallbacks::Callback(_) => RegistryView { cross: keyed_push(r0.cross, scraper_view(*g), callback_view(*c)), ..r0 },
            _ => RegistryView { callbacks: keyed_push(r0.callbacks, callback_view(*c), scraper_view(*g)), ..r0 },
        });
        match c {
            GlobalCallbacks::Tag((Some(search), ns, not_ns)) => {
                let _ = self.tag_rules.register(db, g.name.clone(), search, ns, not_ns);
            },
            _ => {},
        }
    }

    /// Records what a plugin file describes, item by item: the sites of each
    /// scraper, and every callback each offers. An item without a storage
    /// type is skipped.
    pub fn plugins_register(&mut self, db: &NewinMemDB, items: Vec<GlobalPluginScraper>)
        requires
            old(self).wf(),
            tag_searches_given(items@),
        ensures
            final(self).wf(),
            final(self)@ == registry_fold(old(self)@, items@, db@),
    {
        let mut n: usize = 0;
        while n < items.len()
            invariant
                n <= items.len(),
                self.wf(),
                tag_searches_given(items@),
                self@ == registry_fold(old(self)@, items@.take(n as int), db@),
            decreases items.len() - n,
        {
            let g = &items[n];
            proof {
                assert(items@.take(n + 1).drop_last() =~= items@.take(n as int));
                assert(items@.take(n + 1).last() == items@[n as int]);
            }
            let ghost r0 = self@;
            match &g.storage_type {
                None => {},
                Some(t) => {
                    match t {
                        ScraperOrPlugin::Scraper(info) => {
                            let sites = crate::deepeq::copy_strings(&info.sites);
                            sites_set(&mut self.sites, g, sites);
                        },
                        ScraperOrPlugin::Plugin(_) => {},
                    }
                    let ghost r1 = self@;
                    let mut j: usize = 0;
                    while j < g.callbacks.len()
                        invariant
                            j <= g.callbacks.len(),
                            self.wf(),
                            g == items@[n as int],
                            g.storage_type is Some,
                            tag_searches_given(items@),
                            n < items.len(),
                            self@ == callbacks_fold(r1, *g, g.callbacks@.take(j as int), db@),
                        decreases g.callbacks.len() - j,
                    {
                        proof {
                            assert(g.callbacks@.take(j + 1).drop_last() =~= g.callbacks@.take(j as int));
                            assert(g.callbacks@.take(j + 1).last() == g.callbacks@[j as int]);
                            assert(!(items@[n as int].callbacks@[j as int] matches GlobalCallbacks::Tag((None, _, _))));
                        }
                        self.register_callback(db, g, &g.callbacks[j]);
                        j = j + 1;
                    }
                    proof {
                        assert(g.callbacks@.take(g.callbacks.len() as int) =~= g.callbacks@);
                    }
                },
            }
            n = n + 1;
        }
        assert(items@.take(items.len() as int) =~= items@);
    }
}


proof fn lemma_callbacks_keep_sites(r: RegistryView, g: GlobalPluginScraper, cbs: Seq<GlobalCallbacks>, db: MemDbView)
    ensures
        callbacks_fold(r, g, cbs, db).sites == r.sites,
    decreases cbs.len(),
{
    if cbs.len() > 0 {
        lemma_callbacks_keep_sites(r, g, cbs.drop_last(), db);
    }
}

/// Setting a key keeps keys unique, and the key then leads to the value set.
pub proof fn lemma_keyed_set_get<K, V>(s: Seq<(K, V)>, k: K, x: V)
    requires
        keys_unique(s),
    ensures
        keys_unique(keyed_set(s, k, x)),
        keyed_get(keyed_set(s, k, x), k) == Some(x),
{
    let t = keyed_set(s, k, x);
    if exists|i: int| 0 <= i < s.len() && (#[trigger] s[i]).0 == k {
        let i = choose|i: int| 0 <= i < s.len() && (#[trigger] s[i]).0 == k;
        assert(t[i].0 == k);
        assert forall|a: int, b: int| 0 <= a < t.len() && 0 <= b < t.len() && a != b implies (#[trigger] t[a]).0
            != (#[trigger] t[b]).0 by {
            assert(t[a].0 == s[a].0);
            assert(t[b].0 == s[b].0);
        }
        lemma_key_at(t, k, i);
    } else {
        let n = s.len() as int;
        assert(t[n].0 == k);
        assert forall|a: int, b: int| 0 <= a < t.len() && 0 <= b < t.len() && a != b implies (#[trigger] t[a]).0
            != (#[trigger] t[b]).0 by {
            if a < n {
                assert(t[a] == s[a]);
            }
            if b < n {
                assert(t[b] == s[b]);
            }
        }
        lemma_key_at(t, k, n);
    }
}

/// Once a scraper is registered, its sites are those it described, whatever
/// it had before, and its callbacks leave them so.
pub proof fn law_registered_sites(r: RegistryView, g: GlobalPluginScraper, db: MemDbView)
    requires
        keys_unique(r.sites),
        g.storage_type matches Some(ScraperOrPlugin::Scraper(_)),
    ensures
        ({
            let info = g.storage_type->0->Scraper_0;
            keyed_get(global_step(r, g, db).sites, scraper_view(g)) == Some(strings_view(info.sites@))
        }),
{
    let info = g.storage_type->0->Scraper_0;
    let r1 = RegistryView { sites: keyed_set(r.sites, scraper_view(g), strings_view(info.sites@)), ..r };
    lemma_keyed_set_get(r.sites, scraper_view(g), strings_view(info.sites@));
    lemma_callbacks_keep_sites(r1, g, g.callbacks@, db);
}

} // verus!
