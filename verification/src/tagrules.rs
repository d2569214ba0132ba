//! Tag callbacks of plugins: the rules that plugins register for tags, and
//! which plugins a new tag is handed to, with what part of it.
//!
//! A plugin is named by its name. A rule holds a regular expression by its
//! source; it is compiled when it is registered and again when it is used.

use crate::inmemdbnew::NewinMemDB;
use crate::sharedtypes::SearchType;
use vstd::prelude::*;

verus! {

/// Whether `regex::Regex::new` accepts the pattern.
pub uninterp spec fn regex_valid(pattern: Seq<char>) -> bool;

/// The successive non-overlapping matches of a valid pattern in a text, as
/// `regex::Regex::find_iter` yields them.
pub uninterp spec fn regex_matches(pattern: Seq<char>, text: Seq<char>) -> Seq<Seq<char>>;

/// `regex::Regex::new`, asked whether it compiles the pattern. Trusted: the
/// answer is `regex_valid` of the pattern.
#[verifier::external_body]
fn regex_compiles(pattern: &str) -> (res: bool)
    ensures
        res == regex_valid(pattern@),
{
    regex::Regex::new(pattern).is_ok()
}

/// `regex::Regex::find_iter` on the compiled pattern. Trusted: the matches,
/// as strings, are `regex_matches` of the pattern and the text.
#[verifier::external_body]
fn regex_find_all(pattern: &str, text: &str) -> (res: Vec<String>)
    requires
        regex_valid(pattern@),
    ensures
        res@.map_values(|s: String| s@) == regex_matches(pattern@, text@),
{
    match regex::Regex::new(pattern) {
        Ok(re) => re.find_iter(text).map(|m| m.as_str().to_owned()).collect(),
        Err(_) => Vec::new(),
    }
}

/// How a rule searches a tag.
#[derive(Debug, Clone, PartialEq, Eq)]
pub enum RuleSearch {
    /// Plain text.
    Text(String),
    /// A regular expression that compiles, by its source.
    Pattern(String),
}

/// A tag callback: how it searches, the namespaces a tag must be in (all of
/// them) and must not be in, and the plugins it calls, in the order they
/// registered.
#[derive(Debug, Clone)]
pub struct TagRule {
    pub search: RuleSearch,
    pub ns: Vec<usize>,
    pub not_ns: Vec<usize>,
    pub plugins: Vec<String>,
}

/// A rule's search as plain characters: the text, or the pattern.
pub open spec fn search_view(s: RuleSearch) -> (bool, Seq<char>) {
    match s {
        RuleSearch::Text(t) => (true, t@),
        RuleSearch::Pattern(p) => (false, p@),
    }
}

/// What tells two rules apart: their search and their namespace lists.
pub open spec fn rule_key(r: TagRule) -> ((bool, Seq<char>), Seq<usize>, Seq<usize>) {
    (search_view(r.search), r.ns@, r.not_ns@)
}

/// Whether a tag in the namespace `nsid` passes a rule's namespace filters:
/// every namespace the rule asks for is `nsid`, and none it excludes is.
pub open spec fn ns_passes(ns: Seq<usize>, not_ns: Seq<usize>, nsid: usize) -> bool {
    &&& forall|i: int| 0 <= i < ns.len() ==> ns[i] == nsid
    &&& forall|i: int| 0 <= i < not_ns.len() ==> not_ns[i] != nsid
}

/// What one rule hands out for a tag: for a pattern, each match with each
/// plugin, match by match; a plain-text search hands out nothing.
pub open spec fn rule_targets(r: TagRule, tag: Seq<char>, nsid: usize) -> Seq<(Seq<char>, Seq<char>)>
{
    if !ns_passes(r.ns@, r.not_ns@, nsid) {
        Seq::empty()
    } else {
        match r.search {
            RuleSearch::Text(_) => Seq::empty(),
            RuleSearch::Pattern(p) => pairs_of(regex_matches(p@, tag), r.plugins@.map_values(|s: String| s@)),
        }
    }
}

/// Each match paired with each plugin, match by match.
pub open spec fn pairs_of(ms: Seq<Seq<char>>, ps: Seq<Seq<char>>) -> Seq<(Seq<char>, Seq<char>)>
    decreases ms.len(),
{
    if ms.len() == 0 {
        Seq::empty()
    } else {
        pairs_of(ms.drop_last(), ps) + ps.map_values(|p: Seq<char>| (p, ms.last()))
    }
}

/// What all rules hand out for a tag, rule by rule.
pub open spec fn all_targets(rules: Seq<TagRule>, tag: Seq<char>, nsid: usize) -> Seq<(Seq<char>, Seq<char>)>
    decreases rules.len(),
{
    if rules.len() == 0 {
        Seq::empty()
    } else {
        all_targets(rules.drop_last(), tag, nsid) + rule_targets(rules.last(), tag, nsid)
    }
}

/// Whether every rule holds a pattern that compiles.
pub open spec fn rules_valid(rules: Seq<TagRule>) -> bool {
    forall|i: int|
        0 <= i < rules.len() ==> ((#[trigger] rules[i]).search matches RuleSearch::Pattern(p)
            ==> regex_valid(p@))
}

fn ns_passes_exec(ns: &Vec<usize>, not_ns: &Vec<usize>, nsid: usize) -> (res: bool)
    ensures
        res == ns_passes(ns@, not_ns@, nsid),
{
    let mut i: usize = 0;
    while i < ns.len()
        invariant
            i <= ns.len(),
            forall|k: int| 0 <= k < i ==> ns@[k] == nsid,
        decreases ns.len() - i,
    {
        if ns[i] != nsid {
            return false;
        }
        i = i + 1;
    }
    let mut j: usize = 0;
    while j < not_ns.len()
        invariant
            forall|k: int| 0 <= k < ns@.len() ==> ns@[k] == nsid,
            j <= not_ns.len(),
            forall|k: int| 0 <= k < j ==> not_ns@[k] != nsid,
        decreases not_ns.len() - j,
    {
        if not_ns[j] == nsid {
            return false;
        }
        j = j + 1;
    }
    true
}

/// Which plugins a tag in the namespace `tag_nsid` is handed to, and with
/// what: for each rule whose namespace filters it passes and that searches by
/// a pattern, each match of the pattern in the tag, with each plugin of the
/// rule, together with the search that matched. A rule that searches by
/// plain text hands out nothing.
pub fn plugin_on_tag_targets(rules: &Vec<TagRule>, tag: &String, tag_nsid: usize) -> (res: Vec<
    (String, String, Option<SearchType>),
>)
    requires
        rules_valid(rules@),
    ensures
        res@.map_values(|t: (String, String, Option<SearchType>)| (t.0@, t.1@)) == all_targets(
            rules@,
            tag@,
            tag_nsid,
        ),
        forall|i: int|
            0 <= i < res@.len() ==> (#[trigger] res@[i]).2 matches Some(SearchType::Regex(_)),
{
    let mut out: Vec<(String, String, Option<SearchType>)> = Vec::new();
    let mut r: usize = 0;
    while r < rules.len()
        invariant
            rules_valid(rules@),
            r <= rules.len(),
            out@.map_values(|t: (String, String, Option<SearchType>)| (t.0@, t.1@)) == all_targets(
                rules@.take(r as int),
                tag@,
                tag_nsid,
            ),
            forall|i: int| 0 <= i < out@.len() ==> (#[trigger] out@[i]).2 matches Some(SearchType::Regex(_)),
        decreases rules.len() - r,
    {
        let rule = &rules[r];
        assert(rules@.take(r + 1).drop_last() =~= rules@.take(r as int));
        assert(rules@.take(r + 1).last() == rules@[r as int]);
        if ns_passes_exec(&rule.ns, &rule.not_ns, tag_nsid) {
            match &rule.search {
                RuleSearch::Text(_) => {
                    assert(rule_targets(*rule, tag@, tag_nsid) =~= Seq::empty());
                },
                RuleSearch::Pattern(p) => {
                    assert(regex_valid(p@));
                    let matches = regex_find_all(p.as_str(), tag.as_str());
                    let ghost ps = rule.plugins@.map_values(|s: String| s@);
                    let ghost ms = matches@.map_values(|s: String| s@);
                    let ghost base = out@.map_values(
                        |t: (String, String, Option<SearchType>)| (t.0@, t.1@),
                    );
                    let mut k: usize = 0;
                    while k < matches.len()
                        invariant
                            ps == rule.plugins@.map_values(|s: String| s@),
                            ms == matches@.map_values(|s: String| s@),
                            k <= matches.len(),
                            out@.map_values(|t: (String, String, Option<SearchType>)| (t.0@, t.1@))
                                == base + pairs_of(ms.take(k as int), ps),
                            forall|i: int|
                                0 <= i < out@.len() ==> (#[trigger] out@[i]).2 matches Some(
                                    SearchType::Regex(_),
                                ),
                        decreases matches.len() - k,
                    {
                        let mut q: usize = 0;
                        let ghost before = out@.map_values(
                            |t: (String, String, Option<SearchType>)| (t.0@, t.1@),
                        );
                        while q < rule.plugins.len()
                            invariant
                                ps == rule.plugins@.map_values(|s: String| s@),
                                ms == matches@.map_values(|s: String| s@),
                                k < matches.len(),
                                q <= rule.plugins.len(),
                                out@.map_values(
                                    |t: (String, String, Option<SearchType>)| (t.0@, t.1@),
                                ) == before + ps.take(q as int).map_values(
                                    |pl: Seq<char>| (pl, ms[k as int]),
                                ),
                                forall|i: int|
                                    0 <= i < out@.len() ==> (#[trigger] out@[i]).2 matches Some(
                                        SearchType::Regex(_),
                                    ),
                            decreases rule.plugins.len() - q,
                        {
                            let entry = (
                                rule.plugins[q].clone(),
                                matches[k].clone(),
                                Some(SearchType::Regex(p.clone())),
                            );
                            assert(entry.0@ == ps[q as int]);
                            assert(entry.1@ == ms[k as int]);
                            let ghost prev = out@.map_values(
                                |t: (String, String, Option<SearchType>)| (t.0@, t.1@),
                            );
                            out.push(entry);
                            assert(out@.map_values(
                                |t: (String, String, Option<SearchType>)| (t.0@, t.1@),
                            ) =~= prev.push((ps[q as int], ms[k as int])));
                            assert(ps.take(q + 1).map_values(|pl: Seq<char>| (pl, ms[k as int]))
                                =~= ps.take(q as int).map_values(|pl: Seq<char>| (pl, ms[k as int])).push(
                                (ps[q as int], ms[k as int]),
                            ));
                            assert(out@.map_values(
                                |t: (String, String, Option<SearchType>)| (t.0@, t.1@),
                            ) =~= before + ps.take(q + 1).map_values(
                                |pl: Seq<char>| (pl, ms[k as int]),
                            ));
                            q = q + 1;
                        }
                        assert(ps.take(ps.len() as int) =~= ps);
                        assert(ms.take(k + 1).drop_last() =~= ms.take(k as int));
                        assert(ms.take(k + 1).last() == ms[k as int]);
                        assert(pairs_of(ms.take(k + 1), ps) == pairs_of(ms.take(k as int), ps)
                            + ps.map_values(|pl: Seq<char>| (pl, ms[k as int])));
                        assert(out@.map_values(
                            |t: (String, String, Option<SearchType>)| (t.0@, t.1@),
                        ) =~= base + pairs_of(ms.take(k + 1), ps));
                        k = k + 1;
                    }
                    assert(ms.take(matches.len() as int) =~= ms);
                },
            }
        } else {
            assert(rule_targets(*rule, tag@, tag_nsid) =~= Seq::empty());
        }
        r = r + 1;
    }
    assert(rules@.take(rules.len() as int) =~= rules@);
    out
}


/// The ids of the namespaces named in `names` that `db` knows, in order;
/// unknown names are dropped.
pub open spec fn ns_ids(db: crate::inmemdbnew::MemDbView, names: Seq<Seq<char>>) -> Seq<usize>
    decreases names.len(),
{
    if names.len() == 0 {
        Seq::empty()
    } else {
        let prev = ns_ids(db, names.drop_last());
        if db.namespace_ids.contains_key(names.last()) {
            prev.push(db.namespace_ids[names.last()])
        } else {
            prev
        }
    }
}

/// A rule as plain values: its key and the names of its plugins.
pub open spec fn rule_view(r: TagRule) -> (((bool, Seq<char>), Seq<usize>, Seq<usize>), Seq<Seq<char>>) {
    (rule_key(r), r.plugins@.map_values(|s: String| s@))
}

/// The rules as plain values.
pub open spec fn rules_view(rules: Seq<TagRule>) -> Seq<(((bool, Seq<char>), Seq<usize>, Seq<usize>), Seq<Seq<char>>)> {
    rules.map_values(|r: TagRule| rule_view(r))
}

/// No two rules have the same key.
pub open spec fn keys_distinct(rules: Seq<TagRule>) -> bool {
    forall|i: int, j: int|
        0 <= i < rules.len() && 0 <= j < rules.len() && i != j ==> rule_key(#[trigger] rules[i])
            != rule_key(#[trigger] rules[j])
}

/// The rules, as plain values, once `plugin` is registered under `key`: it
/// joins the rule with that key, or a new rule is made for it.
pub open spec fn rules_with(
    rules: Seq<TagRule>,
    key: ((bool, Seq<char>), Seq<usize>, Seq<usize>),
    plugin: Seq<char>,
) -> Seq<(((bool, Seq<char>), Seq<usize>, Seq<usize>), Seq<Seq<char>>)> {
    let v = rules_view(rules);
    if exists|i: int| 0 <= i < rules.len() && rule_key(#[trigger] rules[i]) == key {
        let i = choose|i: int| 0 <= i < rules.len() && rule_key(#[trigger] rules[i]) == key;
        v.update(i, (key, v[i].1.push(plugin)))
    } else {
        v.push((key, seq![plugin]))
    }
}

/// A list of keys, each with its values, once `x` is added under `k`: to
/// the entry with that key, or to a new entry at the end.
pub open spec fn keyed_push<K, V>(s: Seq<(K, Seq<V>)>, k: K, x: V) -> Seq<(K, Seq<V>)> {
    if exists|i: int| 0 <= i < s.len() && (#[trigger] s[i]).0 == k {
        let i = choose|i: int| 0 <= i < s.len() && (#[trigger] s[i]).0 == k;
        s.update(i, (k, s[i].1.push(x)))
    } else {
        s.push((k, seq![x]))
    }
}

/// With distinct keys, registering under a key is adding to the keyed list.
pub proof fn lemma_rules_with_keyed(
    rules: Seq<TagRule>,
    key: ((bool, Seq<char>), Seq<usize>, Seq<usize>),
    plugin: Seq<char>,
)
    requires
        keys_distinct(rules),
    ensures
        rules_with(rules, key, plugin) == keyed_push(rules_view(rules), key, plugin),
{
    let v = rules_view(rules);
    assert forall|i: int| 0 <= i < rules.len() implies (#[trigger] v[i]).0 == rule_key(rules[i]) by {}
    if exists|i: int| 0 <= i < rules.len() && rule_key(#[trigger] rules[i]) == key {
        let i1 = choose|i: int| 0 <= i < rules.len() && rule_key(#[trigger] rules[i]) == key;
        assert(v[i1].0 == key);
        let i2 = choose|i: int| 0 <= i < v.len() && (#[trigger] v[i]).0 == key;
        assert(rule_key(rules[i2]) == key);
        assert(i1 == i2);
    } else {
        assert forall|i: int| 0 <= i < v.len() implies (#[trigger] v[i]).0 != key by {
            assert(v[i].0 == rule_key(rules[i]));
        }
    }
}

/// The key a tag callback registers under.
pub open spec fn search_key(search: SearchType) -> (bool, Seq<char>) {
    match search {
        SearchType::String(t) => (true, t@),
        SearchType::Regex(p) => (false, p@),
    }
}

fn usizes_eq(a: &Vec<usize>, b: &Vec<usize>) -> (r: bool)
    ensures
        r == (a@ == b@),
{
    if a.len() != b.len() {
        return false;
    }
    let mut i: usize = 0;
    while i < a.len()
        invariant
            a.len() == b.len(),
            i <= a.len(),
            forall|k: int| 0 <= k < i ==> a@[k] == b@[k],
        decreases a.len() - i,
    {
        if a[i] != b[i] {
            return false;
        }
        i = i + 1;
    }
    assert(a@ =~= b@);
    true
}

fn search_eq(a: &RuleSearch, b: &RuleSearch) -> (r: bool)
    ensures
        r == (search_view(*a) == search_view(*b)),
{
    match (a, b) {
        (RuleSearch::Text(x), RuleSearch::Text(y)) => *x == *y,
        (RuleSearch::Pattern(x), RuleSearch::Pattern(y)) => *x == *y,
        (RuleSearch::Text(_), RuleSearch::Pattern(_)) => false,
        (RuleSearch::Pattern(_), RuleSearch::Text(_)) => false,
    }
}

fn lookup_namespaces(db: &NewinMemDB, names: &Vec<String>) -> (res: Vec<usize>)
    ensures
        res@ == ns_ids(db@, names@.map_values(|s: String| s@)),
{
    let ghost ns = names@.map_values(|s: String| s@);
    let mut out: Vec<usize> = Vec::new();
    let mut i: usize = 0;
    while i < names.len()
        invariant
            ns == names@.map_values(|s: String| s@),
            i <= names.len(),
            out@ == ns_ids(db@, ns.take(i as int)),
        decreases names.len() - i,
    {
        assert(ns.take(i + 1).drop_last() =~= ns.take(i as int));
        assert(ns.take(i + 1).last() == names@[i as int]@);
        match db.namespace_get(&names[i]) {
            Some(id) => {
                out.push(*id);
            },
            None => {},
        }
        i = i + 1;
    }
    assert(ns.take(names.len() as int) =~= ns);
    out
}

/// Registers the tag callback of `plugin`, which searches by `search` and
/// filters by the namespaces named in `ns` and `not_ns`; names `db` does
/// not know are dropped. A regular expression that does not compile
/// registers nothing, and `false` is returned. Otherwise the plugin joins
/// the rule with the same search and namespaces, or a new rule is made.
pub fn tag_rule_register(
    rules: &mut Vec<TagRule>,
    db: &NewinMemDB,
    plugin: String,
    search: &SearchType,
    ns: &Vec<String>,
    not_ns: &Vec<String>,
) -> (registered: bool)
    requires
        rules_valid(old(rules)@),
        keys_distinct(old(rules)@),
    ensures
        rules_valid(final(rules)@),
        keys_distinct(final(rules)@),
        registered == match search {
            SearchType::Regex(p) => regex_valid(p@),
            SearchType::String(_) => true,
        },
        !registered ==> final(rules)@ == old(rules)@,
        registered ==> rules_view(final(rules)@) == rules_with(
            old(rules)@,
            (
                search_key(*search),
                ns_ids(db@, ns@.map_values(|s: String| s@)),
                ns_ids(db@, not_ns@.map_values(|s: String| s@)),
            ),
            plugin@,
        ),
{
    let rule_search = match search {
        SearchType::String(t) => RuleSearch::Text(t.clone()),
        SearchType::Regex(p) => {
            if !regex_compiles(p.as_str()) {
                return false;
            }
            RuleSearch::Pattern(p.clone())
        },
    };
    let ns_u = lookup_namespaces(db, ns);
    let ns_not_u = lookup_namespaces(db, not_ns);
    let ghost key = (search_key(*search), ns_u@, ns_not_u@);
    assert(search_view(rule_search) == search_key(*search));
    let ghost old_rules = rules@;
    let mut i: usize = 0;
    while i < rules.len()
        invariant
            rules@ == old_rules,
            old_rules == old(rules)@,
            ns_u@ == ns_ids(db@, ns@.map_values(|s: String| s@)),
            ns_not_u@ == ns_ids(db@, not_ns@.map_values(|s: String| s@)),
            keys_distinct(old_rules),
            rules_valid(old_rules),
            i <= rules.len(),
            forall|k: int| 0 <= k < i ==> rule_key(#[trigger] old_rules[k]) != key,
            search_view(rule_search) == key.0,
            key == (search_key(*search), ns_u@, ns_not_u@),
        decreases rules.len() - i,
    {
        if search_eq(&rules[i].search, &rule_search) && usizes_eq(&rules[i].ns, &ns_u) && usizes_eq(
            &rules[i].not_ns,
            &ns_not_u,
        ) {
            assert(rule_key(old_rules[i as int]) == key);
            let ghost old_plugins = rules@[i as int].plugins@;
            rules[i].plugins.push(plugin);
            proof {
                let j = choose|j: int| 0 <= j < old_rules.len() && rule_key(#[trigger] old_rules[j]) == key;
                assert(j == i as int);
                assert(rules@[i as int].plugins@ == old_plugins.push(plugin));
                assert(rules@[i as int].plugins@.map_values(|s: String| s@) =~= old_plugins.map_values(
                    |s: String| s@,
                ).push(plugin@));
                assert(rules_view(rules@) =~= rules_with(old_rules, key, plugin@));
                assert forall|a: int, b: int|
                    0 <= a < rules@.len() && 0 <= b < rules@.len() && a != b implies rule_key(
                    #[trigger] rules@[a],
                ) != rule_key(#[trigger] rules@[b]) by {
                    assert(rule_key(rules@[a]) == rule_key(old_rules[a]));
                    assert(rule_key(rules@[b]) == rule_key(old_rules[b]));
                }
                assert forall|a: int| 0 <= a < rules@.len() implies ((#[trigger] rules@[a]).search matches RuleSearch::Pattern(p)
                    ==> regex_valid(p@)) by {
                    assert(rules@[a].search == old_rules[a].search);
                }
            }
            return true;
        }
        i = i + 1;
    }
    let mut plugins: Vec<String> = Vec::new();
    plugins.push(plugin);
    let ghost plugin_view = plugins@[0]@;
    let rule = TagRule { search: rule_search, ns: ns_u, not_ns: ns_not_u, plugins };
    rules.push(rule);
    proof {
        assert(rule_view(rule) == (key, seq![plugin_view]));
        assert(rules_view(rules@) =~= rules_with(old_rules, key, plugin_view));
        assert forall|a: int, b: int|
            0 <= a < rules@.len() && 0 <= b < rules@.len() && a != b implies rule_key(
            #[trigger] rules@[a],
        ) != rule_key(#[trigger] rules@[b]) by {
            if a < old_rules.len() {
                assert(rules@[a] == old_rules[a]);
            }
            if b < old_rules.len() {
                assert(rules@[b] == old_rules[b]);
            }
        }
        assert forall|a: int| 0 <= a < rules@.len() implies ((#[trigger] rules@[a]).search matches RuleSearch::Pattern(p)
            ==> regex_valid(p@)) by {
            if a < old_rules.len() {
                assert(rules@[a] == old_rules[a]);
            }
        }
    }
    true
}


/// The tag callbacks that plugins have registered. Every rule it holds has a
/// pattern that compiles, and no two rules share a search and namespace
/// lists.
pub struct TagRuleSet {
    rules: Vec<TagRule>,
}

impl TagRuleSet {
    #[verifier::type_invariant]
    spec fn inv(self) -> bool {
        &&& rules_valid(self.rules@)
        &&& keys_distinct(self.rules@)
    }

    /// The rules, in the order they were made.
    pub closed spec fn rules(self) -> Seq<TagRule> {
        self.rules@
    }

    /// A set without rules.
    pub fn new() -> (res: TagRuleSet)
        ensures
            res.rules() == Seq::<TagRule>::empty(),
    {
        TagRuleSet { rules: Vec::new() }
    }

    /// Registers a plugin for tags that a search finds, as
    /// `tag_rule_register` does.
    pub fn register(
        &mut self,
        db: &NewinMemDB,
        plugin: String,
        search: &SearchType,
        ns: &Vec<String>,
        not_ns: &Vec<String>,
    ) -> (registered: bool)
        ensures
            registered == match search {
                SearchType::Regex(p) => regex_valid(p@),
                SearchType::String(_) => true,
            },
            !registered ==> final(self).rules() == old(self).rules(),
            registered ==> rules_view(final(self).rules()) == rules_with(
                old(self).rules(),
                (
                    search_key(*search),
                    ns_ids(db@, ns@.map_values(|s: String| s@)),
                    ns_ids(db@, not_ns@.map_values(|s: String| s@)),
                ),
                plugin@,
            ),
            registered ==> rules_view(final(self).rules()) == keyed_push(
                rules_view(old(self).rules()),
                (
                    search_key(*search),
                    ns_ids(db@, ns@.map_values(|s: String| s@)),
                    ns_ids(db@, not_ns@.map_values(|s: String| s@)),
                ),
                plugin@,
            ),
    {
        proof {
            use_type_invariant(&*self);
            lemma_rules_with_keyed(
                self.rules@,
                (
                    search_key(*search),
                    ns_ids(db@, ns@.map_values(|s: String| s@)),
                    ns_ids(db@, not_ns@.map_values(|s: String| s@)),
                ),
                plugin@,
            );
        }
        let mut rules: Vec<TagRule> = Vec::new();
        std::mem::swap(&mut rules, &mut self.rules);
        let registered = tag_rule_register(&mut rules, db, plugin, search, ns, not_ns);
        self.rules = rules;
        registered
    }

    /// Which plugins a tag in the namespace `tag_nsid` is handed to, and with
    /// what, as `plugin_on_tag_targets` says of these rules.
    pub fn targets(&self, tag: &String, tag_nsid: usize) -> (res: Vec<(String, String, Option<SearchType>)>)
        ensures
            res@.map_values(|t: (String, String, Option<SearchType>)| (t.0@, t.1@)) == all_targets(
                self.rules(),
                tag@,
                tag_nsid,
            ),
            forall|i: int|
                0 <= i < res@.len() ==> (#[trigger] res@[i]).2 matches Some(SearchType::Regex(_)),
    {
        proof {
            use_type_invariant(self);
        }
        plugin_on_tag_targets(&self.rules, tag, tag_nsid)
    }
}

proof fn lemma_concat_contains<T>(a: Seq<T>, b: Seq<T>, x: T)
    ensures
        (a + b).contains(x) == (a.contains(x) || b.contains(x)),
{
    if (a + b).contains(x) {
        let k = choose|k: int| 0 <= k < (a + b).len() && (a + b)[k] == x;
        if k >= a.len() {
            assert(b[k - a.len()] == x);
        }
    }
    if a.contains(x) {
        let k = choose|k: int| 0 <= k < a.len() && a[k] == x;
        assert((a + b)[k] == x);
    }
    if b.contains(x) {
        let k = choose|k: int| 0 <= k < b.len() && b[k] == x;
        assert((a + b)[k + a.len()] == x);
    }
}

proof fn lemma_pairs_of_contains(ms: Seq<Seq<char>>, ps: Seq<Seq<char>>, p: Seq<char>, m: Seq<char>)
    ensures
        pairs_of(ms, ps).contains((p, m)) == (ms.contains(m) && ps.contains(p)),
    decreases ms.len(),
{
    if ms.len() > 0 {
        let pre = ms.drop_last();
        lemma_pairs_of_contains(pre, ps, p, m);
        let tail = ps.map_values(|q: Seq<char>| (q, ms.last()));
        lemma_concat_contains(pairs_of(pre, ps), tail, (p, m));
        if tail.contains((p, m)) {
            let k = choose|k: int| 0 <= k < tail.len() && tail[k] == (p, m);
            assert(ps[k] == p);
            assert(ms[ms.len() - 1] == m);
        }
        if ms.contains(m) && ps.contains(p) {
            let j = choose|j: int| 0 <= j < ms.len() && ms[j] == m;
            let k = choose|k: int| 0 <= k < ps.len() && ps[k] == p;
            if j < ms.len() - 1 {
                assert(pre[j] == m);
            } else {
                assert(tail[k] == (p, m));
            }
        }
        if pre.contains(m) {
            let j = choose|j: int| 0 <= j < pre.len() && pre[j] == m;
            assert(ms[j] == m);
        }
    }
}

/// Whether the rule `r` hands the match `m` of a tag in the namespace
/// `nsid` to the plugin `p`: the tag passes its namespace filters, it
/// searches by a pattern, `m` is a match of the pattern in the tag, and `p`
/// is one of its plugins.
pub open spec fn rule_hands(r: TagRule, tag: Seq<char>, nsid: usize, p: Seq<char>, m: Seq<char>) -> bool {
    &&& ns_passes(r.ns@, r.not_ns@, nsid)
    &&& r.search matches RuleSearch::Pattern(pat)
    &&& regex_matches(pat@, tag).contains(m)
    &&& exists|k: int| 0 <= k < r.plugins@.len() && (#[trigger] r.plugins@[k])@ == p
}

/// A tag is handed, as the match `m`, to the plugin `p` exactly when some
/// rule hands that match to that plugin.
pub proof fn law_targets_are_rule_matches(rules: Seq<TagRule>, tag: Seq<char>, nsid: usize, p: Seq<char>, m: Seq<char>)
    ensures
        all_targets(rules, tag, nsid).contains((p, m)) == exists|r: int|
            0 <= r < rules.len() && rule_hands(#[trigger] rules[r], tag, nsid, p, m),
    decreases rules.len(),
{
    if rules.len() > 0 {
        let pre = rules.drop_last();
        let last = rules.last();
        law_targets_are_rule_matches(pre, tag, nsid, p, m);
        lemma_concat_contains(all_targets(pre, tag, nsid), rule_targets(last, tag, nsid), (p, m));
        let names = last.plugins@.map_values(|s: String| s@);
        if ns_passes(last.ns@, last.not_ns@, nsid) {
            if let RuleSearch::Pattern(pat) = last.search {
                lemma_pairs_of_contains(regex_matches(pat@, tag), names, p, m);
                if names.contains(p) {
                    let k = choose|k: int| 0 <= k < names.len() && names[k] == p;
                    assert(last.plugins@[k]@ == p);
                }
                if exists|k: int| 0 <= k < last.plugins@.len() && (#[trigger] last.plugins@[k])@ == p {
                    let k = choose|k: int| 0 <= k < last.plugins@.len() && (#[trigger] last.plugins@[k])@ == p;
                    assert(names[k] == p);
                }
            }
        }
        if rule_hands(last, tag, nsid, p, m) {
            assert(rules[rules.len() - 1] == last);
        }
        if exists|r: int| 0 <= r < pre.len() && rule_hands(#[trigger] pre[r], tag, nsid, p, m) {
            let r = choose|r: int| 0 <= r < pre.len() && rule_hands(#[trigger] pre[r], tag, nsid, p, m);
            assert(rules[r] == pre[r]);
        }
        if exists|r: int| 0 <= r < rules.len() && rule_hands(#[trigger] rules[r], tag, nsid, p, m) {
            let r = choose|r: int| 0 <= r < rules.len() && rule_hands(#[trigger] rules[r], tag, nsid, p, m);
            if r < rules.len() - 1 {
                assert(pre[r] == rules[r]);
            }
        }
    }
}

} // verus!
