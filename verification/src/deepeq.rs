//! Scrapers and jobs as plain values, and exact comparisons of them field by
//! field: two scrapers, or two jobs, are the same when all their fields hold
//! the same values.

use crate::jobs::{opt_str_view, params_eq, params_view, LoginView, ParamView};
use crate::sharedtypes::{
    CallbackCustomData, CallbackInfo, DbJobRecreation, DbJobType, DbJobsObj, GlobalCallbacks,
    GlobalPluginScraper, JobCacheType, LoginNeed, LoginType, PluginInfo2, ScraperInfo,
    ScraperModifiers, ScraperOrPlugin, SearchType, StartupThreadType, StoredInfo,
};
use std::collections::BTreeMap;
use std::time::Duration;
use vstd::prelude::*;

verus! {

/// A list of strings as characters.
pub open spec fn strings_view(v: Seq<String>) -> Seq<Seq<char>> {
    v.map_values(|s: String| s@)
}

/// A search of a tag callback as plain values.
pub enum SearchView {
    String(Seq<char>),
    Regex(Seq<char>),
}

/// A callback as plain values.
pub enum CallbackView {
    Download,
    Import,
    Start(StartupThreadType),
    LoginNeeded,
    Callback(Seq<char>, usize, Seq<Seq<char>>, Seq<CallbackCustomData>),
    Tag(Option<SearchView>, Seq<Seq<char>>, Seq<Seq<char>>),
}

/// A scraper modifier as plain values.
pub enum ModifierView {
    TextUseragent(Seq<char>),
    MediaUseragent(Seq<char>),
    MediaHeader(Seq<char>, Seq<char>),
}

/// The storage type of a scraper or plugin as plain values.
pub enum StorageView {
    Scraper(u64, Duration, Seq<Seq<char>>, usize, Option<usize>, Seq<ModifierView>),
    Plugin(bool, Option<Seq<char>>),
}

/// A scraper or plugin description as plain values, field by field.
pub struct ScraperView {
    pub name: Seq<char>,
    pub version: usize,
    pub should_handle_file_download: bool,
    pub should_handle_text_scraping: bool,
    pub should_send_files_on_scrape: bool,
    pub login_type: Seq<(Seq<char>, LoginView, LoginNeed, Option<Seq<char>>, bool)>,
    pub stored_info: Option<Seq<(Seq<char>, Seq<char>)>>,
    pub callbacks: Seq<CallbackView>,
    pub storage_type: Option<StorageView>,
}

pub open spec fn search_view(s: SearchType) -> SearchView {
    match s {
        SearchType::String(t) => SearchView::String(t@),
        SearchType::Regex(t) => SearchView::Regex(t@),
    }
}

pub open spec fn callback_view(c: GlobalCallbacks) -> CallbackView {
    match c {
        GlobalCallbacks::Download => CallbackView::Download,
        GlobalCallbacks::Import => CallbackView::Import,
        GlobalCallbacks::Start(t) => CallbackView::Start(t),
        GlobalCallbacks::LoginNeeded => CallbackView::LoginNeeded,
        GlobalCallbacks::Callback(info) => CallbackView::Callback(
            info.func@,
            info.vers,
            strings_view(info.data_name@),
            info.data@,
        ),
        GlobalCallbacks::Tag(t) => CallbackView::Tag(
            match t.0 {
                Some(s) => Some(search_view(s)),
                None => None,
            },
            strings_view(t.1@),
            strings_view(t.2@),
        ),
    }
}

pub open spec fn modifier_view(m: ScraperModifiers) -> ModifierView {
    match m {
        ScraperModifiers::TextUseragent(s) => ModifierView::TextUseragent(s@),
        ScraperModifiers::MediaUseragent(s) => ModifierView::MediaUseragent(s@),
        ScraperModifiers::MediaHeader(p) => ModifierView::MediaHeader(p.0@, p.1@),
    }
}

pub open spec fn storage_view(s: ScraperOrPlugin) -> StorageView {
    match s {
        ScraperOrPlugin::Scraper(i) => StorageView::Scraper(
            i.ratelimit.0,
            i.ratelimit.1,
            strings_view(i.sites@),
            i.priority,
            i.num_threads,
            i.modifiers@.map_values(|m: ScraperModifiers| modifier_view(m)),
        ),
        ScraperOrPlugin::Plugin(p) => StorageView::Plugin(p.com_channel, opt_str_view(p.redirect)),
    }
}

pub open spec fn login_entry_view(e: (String, LoginType, LoginNeed, Option<String>, bool)) -> (
    Seq<char>,
    LoginView,
    LoginNeed,
    Option<Seq<char>>,
    bool,
) {
    (e.0@, e.1@, e.2, opt_str_view(e.3), e.4)
}

pub open spec fn pairs_view(v: Seq<(String, String)>) -> Seq<(Seq<char>, Seq<char>)> {
    v.map_values(|p: (String, String)| (p.0@, p.1@))
}

/// A scraper or plugin description as plain values.
pub open spec fn scraper_view(s: GlobalPluginScraper) -> ScraperView {
    ScraperView {
        name: s.name@,
        version: s.version,
        should_handle_file_download: s.should_handle_file_download,
        should_handle_text_scraping: s.should_handle_text_scraping,
        should_send_files_on_scrape: s.should_send_files_on_scrape,
        login_type: s.login_type@.map_values(
            |e: (String, LoginType, LoginNeed, Option<String>, bool)| login_entry_view(e),
        ),
        stored_info: match s.stored_info {
            Some(StoredInfo::Storage(v)) => Some(pairs_view(v@)),
            None => None,
        },
        callbacks: s.callbacks@.map_values(|c: GlobalCallbacks| callback_view(c)),
        storage_type: match s.storage_type {
            Some(t) => Some(storage_view(t)),
            None => None,
        },
    }
}

/// How a job is recreated, as plain values.
pub enum RecreationView {
    OnTagId(usize, Option<usize>),
    OnTag(Seq<char>, usize, Option<usize>),
    AlwaysTime(usize, Option<usize>),
}

/// A job as plain values, field by field.
pub struct JobView {
    pub id: Option<usize>,
    pub time: usize,
    pub reptime: Option<usize>,
    pub priority: usize,
    pub cachetime: Option<usize>,
    pub cachechecktype: JobCacheType,
    pub site: Seq<char>,
    pub param: Seq<ParamView>,
    pub jobtype: DbJobType,
    pub recreation: Option<RecreationView>,
    pub isrunning: bool,
    pub system_data: Map<Seq<char>, Seq<char>>,
    pub user_data: Map<Seq<char>, Seq<char>>,
}

pub open spec fn recreation_view(r: DbJobRecreation) -> RecreationView {
    match r {
        DbJobRecreation::OnTagId(a, b) => RecreationView::OnTagId(a, b),
        DbJobRecreation::OnTag(a, b, c) => RecreationView::OnTag(a@, b, c),
        DbJobRecreation::AlwaysTime(a, b) => RecreationView::AlwaysTime(a, b),
    }
}

/// A job as plain values.
pub open spec fn job_view(j: DbJobsObj) -> JobView {
    JobView {
        id: j.id,
        time: j.time,
        reptime: j.reptime,
        priority: j.priority,
        cachetime: j.cachetime,
        cachechecktype: j.cachechecktype,
        site: j.site@,
        param: params_view(j.param@),
        jobtype: j.jobmanager.jobtype,
        recreation: match j.jobmanager.recreation {
            Some(r) => Some(recreation_view(r)),
            None => None,
        },
        isrunning: j.isrunning,
        system_data: j.system_data.deep_view(),
        user_data: j.user_data.deep_view(),
    }
}

/// `Duration`'s `==`. Trusted: it is equality of the two durations.
#[verifier::external_body]
fn duration_eq(a: &Duration, b: &Duration) -> (r: bool)
    ensures
        r == (*a == *b),
{
    *a == *b
}

/// `BTreeMap`'s `==` on maps of strings. Trusted: two maps are equal when
/// they map the same keys to equal values, strings compared by contents.
#[verifier::external_body]
fn str_map_eq(a: &BTreeMap<String, String>, b: &BTreeMap<String, String>) -> (r: bool)
    ensures
        r == (a.deep_view() == b.deep_view()),
{
    *a == *b
}

fn opt_eq_str(a: &Option<String>, b: &Option<String>) -> (r: bool)
    ensures
        r == (opt_str_view(*a) == opt_str_view(*b)),
{
    match (a, b) {
        (Some(x), Some(y)) => *x == *y,
        (None, None) => true,
        (Some(_), None) => false,
        (None, Some(_)) => false,
    }
}

/// Whether two lists of strings hold the same strings in order.
pub fn strings_eq(a: &Vec<String>, b: &Vec<String>) -> (r: bool)
    ensures
        r == (strings_view(a@) == strings_view(b@)),
{
    if a.len() != b.len() {
        assert(strings_view(a@).len() != strings_view(b@).len());
        return false;
    }
    let mut i: usize = 0;
    while i < a.len()
        invariant
            a.len() == b.len(),
            i <= a.len(),
            forall|k: int| 0 <= k < i ==> a@[k]@ == b@[k]@,
        decreases a.len() - i,
    {
        if a[i] != b[i] {
            assert(strings_view(a@)[i as int] != strings_view(b@)[i as int]);
            return false;
        }
        i = i + 1;
    }
    assert(strings_view(a@) =~= strings_view(b@));
    true
}

fn pairs_eq(a: &Vec<(String, String)>, b: &Vec<(String, String)>) -> (r: bool)
    ensures
        r == (pairs_view(a@) == pairs_view(b@)),
{
    if a.len() != b.len() {
        assert(pairs_view(a@).len() != pairs_view(b@).len());
        return false;
    }
    let mut i: usize = 0;
    while i < a.len()
        invariant
            a.len() == b.len(),
            i <= a.len(),
            forall|k: int| 0 <= k < i ==> a@[k].0@ == b@[k].0@ && a@[k].1@ == b@[k].1@,
        decreases a.len() - i,
    {
        if a[i].0 != b[i].0 || a[i].1 != b[i].1 {
            assert(pairs_view(a@)[i as int] != pairs_view(b@)[i as int]);
            return false;
        }
        i = i + 1;
    }
    assert(pairs_view(a@) =~= pairs_view(b@));
    true
}

fn login_type_eq(a: &LoginType, b: &LoginType) -> (r: bool)
    ensures
        r == (a@ == b@),
{
    match (a, b) {
        (LoginType::Cookie(a1, a2), LoginType::Cookie(b1, b2)) => *a1 == *b1 && opt_eq_str(a2, b2),
        (LoginType::Api(a1, a2), LoginType::Api(b1, b2)) => *a1 == *b1 && opt_eq_str(a2, b2),
        (LoginType::ApiNamespaced(a1, a2, a3), LoginType::ApiNamespaced(b1, b2, b3)) => *a1 == *b1
            && opt_eq_str(a2, b2) && opt_eq_str(a3, b3),
        (LoginType::Login(a1, a2), LoginType::Login(b1, b2)) => {
            let same_pair = match (a2, b2) {
                (Some(x), Some(y)) => x.0 == y.0 && x.1 == y.1,
                (None, None) => true,
                (Some(_), None) => false,
                (None, Some(_)) => false,
            };
            *a1 == *b1 && same_pair
        },
        (LoginType::Other(a1, a2), LoginType::Other(b1, b2)) => *a1 == *b1 && opt_eq_str(a2, b2),
        _ => false,
    }
}

fn logins_eq(
    a: &Vec<(String, LoginType, LoginNeed, Option<String>, bool)>,
    b: &Vec<(String, LoginType, LoginNeed, Option<String>, bool)>,
) -> (r: bool)
    ensures
        r == (a@.map_values(
            |e: (String, LoginType, LoginNeed, Option<String>, bool)| login_entry_view(e),
        ) == b@.map_values(
            |e: (String, LoginType, LoginNeed, Option<String>, bool)| login_entry_view(e),
        )),
{
    let ghost va = a@.map_values(
        |e: (String, LoginType, LoginNeed, Option<String>, bool)| login_entry_view(e),
    );
    let ghost vb = b@.map_values(
        |e: (String, LoginType, LoginNeed, Option<String>, bool)| login_entry_view(e),
    );
    if a.len() != b.len() {
        assert(va.len() != vb.len());
        return false;
    }
    let mut i: usize = 0;
    while i < a.len()
        invariant
            a.len() == b.len(),
            i <= a.len(),
            va == a@.map_values(
                |e: (String, LoginType, LoginNeed, Option<String>, bool)| login_entry_view(e),
            ),
            vb == b@.map_values(
                |e: (String, LoginType, LoginNeed, Option<String>, bool)| login_entry_view(e),
            ),
            forall|k: int| 0 <= k < i ==> va[k] == vb[k],
        decreases a.len() - i,
    {
        let x = &a[i];
        let y = &b[i];
        let same = x.0 == y.0 && login_type_eq(&x.1, &y.1) && x.2 == y.2 && opt_eq_str(&x.3, &y.3)
            && x.4 == y.4;
        if !same {
            assert(va[i as int] != vb[i as int]);
            return false;
        }
        i = i + 1;
    }
    assert(va =~= vb);
    true
}

fn search_type_eq(a: &SearchType, b: &SearchType) -> (r: bool)
    ensures
        r == (search_view(*a) == search_view(*b)),
{
    match (a, b) {
        (SearchType::String(x), SearchType::String(y)) => *x == *y,
        (SearchType::Regex(x), SearchType::Regex(y)) => *x == *y,
        (SearchType::String(_), SearchType::Regex(_)) => false,
        (SearchType::Regex(_), SearchType::String(_)) => false,
    }
}

fn custom_data_eq(a: &Vec<CallbackCustomData>, b: &Vec<CallbackCustomData>) -> (r: bool)
    ensures
        r == (a@ == b@),
{
    if a.len() != b.len() {
        return false;
    }
    let mut i: usize = 0;
    while i < a.len()
        invariant
            a.len() == b.len(),
            i <= a.len(),
            forall|k: int| 0 <= k < i ==> a@[k] == b@[k],
        decreases a.len() - i,
    {
        if a[i] != b[i] {
            return false;
        }
        i = i + 1;
    }
    assert(a@ =~= b@);
    true
}

pub(crate) fn callback_eq(a: &GlobalCallbacks, b: &GlobalCallbacks) -> (r: bool)
    ensures
        r == (callback_view(*a) == callback_view(*b)),
{
    match (a, b) {
        (GlobalCallbacks::Download, GlobalCallbacks::Download) => true,
        (GlobalCallbacks::Import, GlobalCallbacks::Import) => true,
        (GlobalCallbacks::Start(x), GlobalCallbacks::Start(y)) => *x == *y,
        (GlobalCallbacks::LoginNeeded, GlobalCallbacks::LoginNeeded) => true,
        (GlobalCallbacks::Callback(x), GlobalCallbacks::Callback(y)) => x.func == y.func && x.vers
            == y.vers && strings_eq(&x.data_name, &y.data_name) && custom_data_eq(&x.data, &y.data),
        (GlobalCallbacks::Tag(x), GlobalCallbacks::Tag(y)) => {
            let same_search = match (&x.0, &y.0) {
                (Some(s), Some(t)) => search_type_eq(s, t),
                (None, None) => true,
                (Some(_), None) => false,
                (None, Some(_)) => false,
            };
            same_search && strings_eq(&x.1, &y.1) && strings_eq(&x.2, &y.2)
        },
        _ => false,
    }
}

fn callbacks_eq(a: &Vec<GlobalCallbacks>, b: &Vec<GlobalCallbacks>) -> (r: bool)
    ensures
        r == (a@.map_values(|c: GlobalCallbacks| callback_view(c)) == b@.map_values(
            |c: GlobalCallbacks| callback_view(c),
        )),
{
    let ghost va = a@.map_values(|c: GlobalCallbacks| callback_view(c));
    let ghost vb = b@.map_values(|c: GlobalCallbacks| callback_view(c));
    if a.len() != b.len() {
        assert(va.len() != vb.len());
        return false;
    }
    let mut i: usize = 0;
    while i < a.len()
        invariant
            a.len() == b.len(),
            i <= a.len(),
            va == a@.map_values(|c: GlobalCallbacks| callback_view(c)),
            vb == b@.map_values(|c: GlobalCallbacks| callback_view(c)),
            forall|k: int| 0 <= k < i ==> va[k] == vb[k],
        decreases a.len() - i,
    {
        if !callback_eq(&a[i], &b[i]) {
            assert(va[i as int] != vb[i as int]);
            return false;
        }
        i = i + 1;
    }
    assert(va =~= vb);
    true
}

fn modifier_eq(a: &ScraperModifiers, b: &ScraperModifiers) -> (r: bool)
    ensures
        r == (modifier_view(*a) == modifier_view(*b)),
{
    match (a, b) {
        (ScraperModifiers::TextUseragent(x), ScraperModifiers::TextUseragent(y)) => *x == *y,
        (ScraperModifiers::MediaUseragent(x), ScraperModifiers::MediaUseragent(y)) => *x == *y,
        (ScraperModifiers::MediaHeader(x), ScraperModifiers::MediaHeader(y)) => x.0 == y.0 && x.1
            == y.1,
        _ => false,
    }
}

fn modifiers_eq(a: &Vec<ScraperModifiers>, b: &Vec<ScraperModifiers>) -> (r: bool)
    ensures
        r == (a@.map_values(|m: ScraperModifiers| modifier_view(m)) == b@.map_values(
            |m: ScraperModifiers| modifier_view(m),
        )),
{
    let ghost va = a@.map_values(|m: ScraperModifiers| modifier_view(m));
    let ghost vb = b@.map_values(|m: ScraperModifiers| modifier_view(m));
    if a.len() != b.len() {
        assert(va.len() != vb.len());
        return false;
    }
    let mut i: usize = 0;
    while i < a.len()
        invariant
            a.len() == b.len(),
            i <= a.len(),
            va == a@.map_values(|m: ScraperModifiers| modifier_view(m)),
            vb == b@.map_values(|m: ScraperModifiers| modifier_view(m)),
            forall|k: int| 0 <= k < i ==> va[k] == vb[k],
        decreases a.len() - i,
    {
        if !modifier_eq(&a[i], &b[i]) {
            assert(va[i as int] != vb[i as int]);
            return false;
        }
        i = i + 1;
    }
    assert(va =~= vb);
    true
}

fn storage_eq(a: &ScraperOrPlugin, b: &ScraperOrPlugin) -> (r: bool)
    ensures
        r == (storage_view(*a) == storage_view(*b)),
{
    match (a, b) {
        (ScraperOrPlugin::Scraper(x), ScraperOrPlugin::Scraper(y)) => x.ratelimit.0 == y.ratelimit.0
            && duration_eq(&x.ratelimit.1, &y.ratelimit.1) && strings_eq(&x.sites, &y.sites)
            && x.priority == y.priority && x.num_threads == y.num_threads && modifiers_eq(
            &x.modifiers,
            &y.modifiers,
        ),
        (ScraperOrPlugin::Plugin(x), ScraperOrPlugin::Plugin(y)) => x.com_channel == y.com_channel
            && opt_eq_str(&x.redirect, &y.redirect),
        _ => false,
    }
}

/// Whether two scraper or plugin descriptions hold the same values in all
/// their fields.
pub fn scraper_eq(a: &GlobalPluginScraper, b: &GlobalPluginScraper) -> (r: bool)
    ensures
        r == (scraper_view(*a) == scraper_view(*b)),
{
    let same_stored = match (&a.stored_info, &b.stored_info) {
        (Some(StoredInfo::Storage(x)), Some(StoredInfo::Storage(y))) => pairs_eq(x, y),
        (None, None) => true,
        (Some(_), None) => false,
        (None, Some(_)) => false,
    };
    let same_storage = match (&a.storage_type, &b.storage_type) {
        (Some(x), Some(y)) => storage_eq(x, y),
        (None, None) => true,
        (Some(_), None) => false,
        (None, Some(_)) => false,
    };
    a.name == b.name && a.version == b.version && a.should_handle_file_download
        == b.should_handle_file_download && a.should_handle_text_scraping
        == b.should_handle_text_scraping && a.should_send_files_on_scrape
        == b.should_send_files_on_scrape && logins_eq(&a.login_type, &b.login_type) && same_stored
        && callbacks_eq(&a.callbacks, &b.callbacks) && same_storage
}

fn recreation_eq(a: &Option<DbJobRecreation>, b: &Option<DbJobRecreation>) -> (r: bool)
    ensures
        r == (match *a {
            Some(x) => Some(recreation_view(x)),
            None => None,
        } == match *b {
            Some(x) => Some(recreation_view(x)),
            None => None,
        }),
{
    match (a, b) {
        (None, None) => true,
        (Some(DbJobRecreation::OnTagId(a1, a2)), Some(DbJobRecreation::OnTagId(b1, b2))) => *a1
            == *b1 && *a2 == *b2,
        (Some(DbJobRecreation::OnTag(a1, a2, a3)), Some(DbJobRecreation::OnTag(b1, b2, b3))) => *a1
            == *b1 && *a2 == *b2 && *a3 == *b3,
        (Some(DbJobRecreation::AlwaysTime(a1, a2)), Some(DbJobRecreation::AlwaysTime(b1, b2))) => *a1
            == *b1 && *a2 == *b2,
        _ => false,
    }
}

/// Whether two jobs hold the same values in all their fields.
pub fn job_eq(a: &DbJobsObj, b: &DbJobsObj) -> (r: bool)
    ensures
        r == (job_view(*a) == job_view(*b)),
{
    a.id == b.id && a.time == b.time && a.reptime == b.reptime && a.priority == b.priority
        && a.cachetime == b.cachetime && a.cachechecktype == b.cachechecktype && a.site == b.site
        && params_eq(&a.param, &b.param) && a.jobmanager.jobtype == b.jobmanager.jobtype
        && recreation_eq(&a.jobmanager.recreation, &b.jobmanager.recreation) && a.isrunning
        == b.isrunning && str_map_eq(&a.system_data, &b.system_data) && str_map_eq(
        &a.user_data,
        &b.user_data,
    )
}


fn copy_opt_str(s: &Option<String>) -> (r: Option<String>)
    ensures
        r == *s,
{
    match s {
        Some(x) => Some(x.clone()),
        None => None,
    }
}

/// A copy of a list of strings.
pub fn copy_strings(v: &Vec<String>) -> (r: Vec<String>)
    ensures
        r@ == v@,
{
    let mut r: Vec<String> = Vec::new();
    let mut i: usize = 0;
    while i < v.len()
        invariant
            i <= v.len(),
            r@ == v@.take(i as int),
        decreases v.len() - i,
    {
        r.push(v[i].clone());
        assert(v@.take(i + 1) =~= v@.take(i as int).push(v@[i as int]));
        i = i + 1;
    }
    assert(v@.take(v.len() as int) =~= v@);
    r
}

fn copy_login(l: &LoginType) -> (r: LoginType)
    ensures
        r == *l,
{
    match l {
        LoginType::Cookie(a, b) => LoginType::Cookie(a.clone(), copy_opt_str(b)),
        LoginType::Api(a, b) => LoginType::Api(a.clone(), copy_opt_str(b)),
        LoginType::ApiNamespaced(a, b, c) => LoginType::ApiNamespaced(a.clone(), copy_opt_str(b), copy_opt_str(c)),
        LoginType::Login(a, b) => LoginType::Login(
            a.clone(),
            match b {
                Some(p) => Some((p.0.clone(), p.1.clone())),
                None => None,
            },
        ),
        LoginType::Other(a, b) => LoginType::Other(a.clone(), copy_opt_str(b)),
    }
}

fn copy_logins(v: &Vec<(String, LoginType, LoginNeed, Option<String>, bool)>) -> (r: Vec<
    (String, LoginType, LoginNeed, Option<String>, bool),
>)
    ensures
        r@ == v@,
{
    let mut r: Vec<(String, LoginType, LoginNeed, Option<String>, bool)> = Vec::new();
    let mut i: usize = 0;
    while i < v.len()
        invariant
            i <= v.len(),
            r@ == v@.take(i as int),
        decreases v.len() - i,
    {
        let e = &v[i];
        r.push((e.0.clone(), copy_login(&e.1), e.2, copy_opt_str(&e.3), e.4));
        assert(v@.take(i + 1) =~= v@.take(i as int).push(v@[i as int]));
        i = i + 1;
    }
    assert(v@.take(v.len() as int) =~= v@);
    r
}

fn copy_pairs(v: &Vec<(String, String)>) -> (r: Vec<(String, String)>)
    ensures
        r@ == v@,
{
    let mut r: Vec<(String, String)> = Vec::new();
    let mut i: usize = 0;
    while i < v.len()
        invariant
            i <= v.len(),
            r@ == v@.take(i as int),
        decreases v.len() - i,
    {
        r.push((v[i].0.clone(), v[i].1.clone()));
        assert(v@.take(i + 1) =~= v@.take(i as int).push(v@[i as int]));
        i = i + 1;
    }
    assert(v@.take(v.len() as int) =~= v@);
    r
}

fn copy_custom(v: &Vec<CallbackCustomData>) -> (r: Vec<CallbackCustomData>)
    ensures
        r@ == v@,
{
    let mut r: Vec<CallbackCustomData> = Vec::new();
    let mut i: usize = 0;
    while i < v.len()
        invariant
            i <= v.len(),
            r@ == v@.take(i as int),
        decreases v.len() - i,
    {
        r.push(v[i]);
        assert(v@.take(i + 1) =~= v@.take(i as int).push(v@[i as int]));
        i = i + 1;
    }
    assert(v@.take(v.len() as int) =~= v@);
    r
}

fn copy_search(s: &SearchType) -> (r: SearchType)
    ensures
        r == *s,
{
    match s {
        SearchType::String(t) => SearchType::String(t.clone()),
        SearchType::Regex(t) => SearchType::Regex(t.clone()),
    }
}

/// A copy of a callback.
pub fn copy_callback(c: &GlobalCallbacks) -> (r: GlobalCallbacks)
    ensures
        callback_view(r) == callback_view(*c),
{
    match c {
        GlobalCallbacks::Download => GlobalCallbacks::Download,
        GlobalCallbacks::Import => GlobalCallbacks::Import,
        GlobalCallbacks::Start(t) => GlobalCallbacks::Start(*t),
        GlobalCallbacks::LoginNeeded => GlobalCallbacks::LoginNeeded,
        GlobalCallbacks::Callback(info) => GlobalCallbacks::Callback(
            CallbackInfo {
                func: info.func.clone(),
                vers: info.vers,
                data_name: copy_strings(&info.data_name),
                data: copy_custom(&info.data),
            },
        ),
        GlobalCallbacks::Tag(t) => GlobalCallbacks::Tag(
            (
                match &t.0 {
                    Some(s) => Some(copy_search(s)),
                    None => None,
                },
                copy_strings(&t.1),
                copy_strings(&t.2),
            ),
        ),
    }
}

fn copy_callbacks(v: &Vec<GlobalCallbacks>) -> (r: Vec<GlobalCallbacks>)
    ensures
        r@.map_values(|c: GlobalCallbacks| callback_view(c)) == v@.map_values(
            |c: GlobalCallbacks| callback_view(c),
        ),
{
    let mut r: Vec<GlobalCallbacks> = Vec::new();
    let mut i: usize = 0;
    while i < v.len()
        invariant
            i <= v.len(),
            r@.len() == i,
            forall|j: int| 0 <= j < i ==> callback_view(#[trigger] r@[j]) == callback_view(v@[j]),
        decreases v.len() - i,
    {
        r.push(copy_callback(&v[i]));
        i = i + 1;
    }
    assert(r@.map_values(|c: GlobalCallbacks| callback_view(c)) =~= v@.map_values(
        |c: GlobalCallbacks| callback_view(c),
    ));
    r
}

fn copy_modifiers(v: &Vec<ScraperModifiers>) -> (r: Vec<ScraperModifiers>)
    ensures
        r@ == v@,
{
    let mut r: Vec<ScraperModifiers> = Vec::new();
    let mut i: usize = 0;
    while i < v.len()
        invariant
            i <= v.len(),
            r@ == v@.take(i as int),
        decreases v.len() - i,
    {
        let m = match &v[i] {
            ScraperModifiers::TextUseragent(s) => ScraperModifiers::TextUseragent(s.clone()),
            ScraperModifiers::MediaUseragent(s) => ScraperModifiers::MediaUseragent(s.clone()),
            ScraperModifiers::MediaHeader(p) => ScraperModifiers::MediaHeader((p.0.clone(), p.1.clone())),
        };
        r.push(m);
        assert(v@.take(i + 1) =~= v@.take(i as int).push(v@[i as int]));
        i = i + 1;
    }
    assert(v@.take(v.len() as int) =~= v@);
    r
}

fn copy_storage(s: &ScraperOrPlugin) -> (r: ScraperOrPlugin)
    ensures
        storage_view(r) == storage_view(*s),
{
    match s {
        ScraperOrPlugin::Scraper(i) => ScraperOrPlugin::Scraper(
            ScraperInfo {
                ratelimit: i.ratelimit,
                sites: copy_strings(&i.sites),
                priority: i.priority,
                num_threads: i.num_threads,
                modifiers: copy_modifiers(&i.modifiers),
            },
        ),
        ScraperOrPlugin::Plugin(p) => ScraperOrPlugin::Plugin(
            PluginInfo2 { com_channel: p.com_channel, redirect: copy_opt_str(&p.redirect) },
        ),
    }
}

/// A copy of a scraper or plugin description, the same in every field.
pub fn copy_scraper(s: &GlobalPluginScraper) -> (r: GlobalPluginScraper)
    ensures
        scraper_view(r) == scraper_view(*s),
{
    let r = GlobalPluginScraper {
        name: s.name.clone(),
        version: s.version,
        should_handle_file_download: s.should_handle_file_download,
        should_handle_text_scraping: s.should_handle_text_scraping,
        should_send_files_on_scrape: s.should_send_files_on_scrape,
        login_type: copy_logins(&s.login_type),
        stored_info: match &s.stored_info {
            Some(StoredInfo::Storage(v)) => Some(StoredInfo::Storage(copy_pairs(v))),
            None => None,
        },
        callbacks: copy_callbacks(&s.callbacks),
        storage_type: match &s.storage_type {
            Some(t) => Some(copy_storage(t)),
            None => None,
        },
    };
    r
}

} // verus!
