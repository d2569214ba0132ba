//! Jobs waiting to run, grouped by the scraper that runs them, with a cache
//! of what was already seen so that a job is not queued twice.
//!
//! A scraper is found again by the values of all its fields, and so is a
//! queued job: the queue of a scraper is a set of jobs.

use crate::deepeq::{copy_scraper, job_eq, job_view, scraper_eq, scraper_view, JobView, RecreationView, ScraperView};
use crate::inmemdbnew::{job_added, MemDbView, NewinMemDB};
use crate::sharedtypes::{
    DbJobRecreation, DbJobsObj, GlobalPluginScraper, JobCacheType, LoginType, ScraperOrPlugin,
    ScraperParam,
};
use vstd::prelude::*;

verus! {

/// An optional string as plain characters.
pub open spec fn opt_str_view(o: Option<String>) -> Option<Seq<char>> {
    match o {
        Some(s) => Some(s@),
        None => None,
    }
}

/// A login as plain values.
pub enum LoginView {
    Cookie(Seq<char>, Option<Seq<char>>),
    Api(Seq<char>, Option<Seq<char>>),
    ApiNamespaced(Seq<char>, Option<Seq<char>>, Option<Seq<char>>),
    Login(Seq<char>, Option<(Seq<char>, Seq<char>)>),
    Other(Seq<char>, Option<Seq<char>>),
}

impl View for LoginType {
    type V = LoginView;

    open spec fn view(&self) -> LoginView {
        match self {
            LoginType::Cookie(a, b) => LoginView::Cookie(a@, opt_str_view(*b)),
            LoginType::Api(a, b) => LoginView::Api(a@, opt_str_view(*b)),
            LoginType::ApiNamespaced(a, b, c) => LoginView::ApiNamespaced(
                a@,
                opt_str_view(*b),
                opt_str_view(*c),
            ),
            LoginType::Login(a, b) => LoginView::Login(
                a@,
                match b {
                    Some(pair) => Some((pair.0@, pair.1@)),
                    None => None,
                },
            ),
            LoginType::Other(a, b) => LoginView::Other(a@, opt_str_view(*b)),
        }
    }
}

/// A job param as plain values.
pub enum ParamView {
    Normal(Seq<char>),
    Url(Seq<char>),
    Login(LoginView),
    Database(Seq<char>),
}

impl View for ScraperParam {
    type V = ParamView;

    open spec fn view(&self) -> ParamView {
        match self {
            ScraperParam::Normal(s) => ParamView::Normal(s@),
            ScraperParam::Url(s) => ParamView::Url(s@),
            ScraperParam::Login(l) => ParamView::Login(l@),
            ScraperParam::Database(s) => ParamView::Database(s@),
        }
    }
}

/// A list of params as plain values.
pub open spec fn params_view(ps: Seq<ScraperParam>) -> Seq<ParamView> {
    ps.map_values(|p: ScraperParam| p@)
}

fn opt_str_eq(a: &Option<String>, b: &Option<String>) -> (r: bool)
    ensures
        r == (opt_str_view(*a) == opt_str_view(*b)),
{
    match (a, b) {
        (Some(x), Some(y)) => *x == *y,
        (None, None) => true,
        (Some(_), None) => false,
        (None, Some(_)) => false,
    }
}

fn login_eq(a: &LoginType, b: &LoginType) -> (r: bool)
    ensures
        r == (a@ == b@),
{
    match (a, b) {
        (LoginType::Cookie(a1, a2), LoginType::Cookie(b1, b2)) => *a1 == *b1 && opt_str_eq(a2, b2),
        (LoginType::Api(a1, a2), LoginType::Api(b1, b2)) => *a1 == *b1 && opt_str_eq(a2, b2),
        (LoginType::ApiNamespaced(a1, a2, a3), LoginType::ApiNamespaced(b1, b2, b3)) => *a1 == *b1
            && opt_str_eq(a2, b2) && opt_str_eq(a3, b3),
        (LoginType::Login(a1, a2), LoginType::Login(b1, b2)) => {
            let same_pair = match (a2, b2) {
                (Some(x), Some(y)) => x.0 == y.0 && x.1 == y.1,
                (None, None) => true,
                (Some(_), None) => false,
                (None, Some(_)) => false,
            };
            *a1 == *b1 && same_pair
        },
        (LoginType::Other(a1, a2), LoginType::Other(b1, b2)) => *a1 == *b1 && opt_str_eq(a2, b2),
        _ => false,
    }
}

fn param_eq(a: &ScraperParam, b: &ScraperParam) -> (r: bool)
    ensures
        r == (a@ == b@),
{
    match (a, b) {
        (ScraperParam::Normal(x), ScraperParam::Normal(y)) => *x == *y,
        (ScraperParam::Url(x), ScraperParam::Url(y)) => *x == *y,
        (ScraperParam::Login(x), ScraperParam::Login(y)) => login_eq(x, y),
        (ScraperParam::Database(x), ScraperParam::Database(y)) => *x == *y,
        _ => false,
    }
}

/// Whether two lists of params are the same, param by param.
pub fn params_eq(a: &Vec<ScraperParam>, b: &Vec<ScraperParam>) -> (r: bool)
    ensures
        r == (params_view(a@) == params_view(b@)),
{
    if a.len() != b.len() {
        assert(params_view(a@).len() != params_view(b@).len());
        return false;
    }
    let mut i: usize = 0;
    while i < a.len()
        invariant
            a.len() == b.len(),
            i <= a.len(),
            forall|k: int| 0 <= k < i ==> a@[k]@ == b@[k]@,
        decreases a.len() - i,
    {
        if !param_eq(&a[i], &b[i]) {
            assert(params_view(a@)[i as int] != params_view(b@)[i as int]);
            return false;
        }
        i = i + 1;
    }
    assert(params_view(a@) =~= params_view(b@));
    true
}


fn clone_opt_str(o: &Option<String>) -> (r: Option<String>)
    ensures
        r == *o,
{
    match o {
        Some(s) => Some(s.clone()),
        None => None,
    }
}

fn clone_login(l: &LoginType) -> (r: LoginType)
    ensures
        r == *l,
{
    match l {
        LoginType::Cookie(a, b) => LoginType::Cookie(a.clone(), clone_opt_str(b)),
        LoginType::Api(a, b) => LoginType::Api(a.clone(), clone_opt_str(b)),
        LoginType::ApiNamespaced(a, b, c) => LoginType::ApiNamespaced(
            a.clone(),
            clone_opt_str(b),
            clone_opt_str(c),
        ),
        LoginType::Login(a, b) => LoginType::Login(
            a.clone(),
            match b {
                Some(pair) => Some((pair.0.clone(), pair.1.clone())),
                None => None,
            },
        ),
        LoginType::Other(a, b) => LoginType::Other(a.clone(), clone_opt_str(b)),
    }
}

fn clone_param(p: &ScraperParam) -> (r: ScraperParam)
    ensures
        r == *p,
{
    match p {
        ScraperParam::Normal(s) => ScraperParam::Normal(s.clone()),
        ScraperParam::Url(s) => ScraperParam::Url(s.clone()),
        ScraperParam::Login(l) => ScraperParam::Login(clone_login(l)),
        ScraperParam::Database(s) => ScraperParam::Database(s.clone()),
    }
}

pub(crate) fn clone_params(v: &Vec<ScraperParam>) -> (r: Vec<ScraperParam>)
    ensures
        r@ == v@,
{
    let mut r: Vec<ScraperParam> = Vec::new();
    let mut i: usize = 0;
    while i < v.len()
        invariant
            i <= v.len(),
            r@ == v@.take(i as int),
        decreases v.len() - i,
    {
        r.push(clone_param(&v[i]));
        i = i + 1;
        assert(r@ =~= v@.take(i as int));
    }
    assert(v@.take(v.len() as int) =~= v@);
    r
}

fn clone_recreation(r: &Option<DbJobRecreation>) -> (res: Option<DbJobRecreation>)
    ensures
        res == *r,
{
    match r {
        None => None,
        Some(DbJobRecreation::OnTagId(a, b)) => Some(DbJobRecreation::OnTagId(*a, *b)),
        Some(DbJobRecreation::OnTag(a, b, c)) => Some(DbJobRecreation::OnTag(a.clone(), *b, *c)),
        Some(DbJobRecreation::AlwaysTime(a, b)) => Some(DbJobRecreation::AlwaysTime(*a, *b)),
    }
}

/// Whether `a` is a copy of `b`: the same fields, the lists and maps in them
/// holding the same items.
pub open spec fn job_copy(a: DbJobsObj, b: DbJobsObj) -> bool {
    &&& a.id == b.id
    &&& a.time == b.time
    &&& a.reptime == b.reptime
    &&& a.priority == b.priority
    &&& a.cachetime == b.cachetime
    &&& a.cachechecktype == b.cachechecktype
    &&& a.site == b.site
    &&& a.param@ == b.param@
    &&& a.jobmanager == b.jobmanager
    &&& a.isrunning == b.isrunning
    &&& a.system_data@ == b.system_data@
    &&& a.user_data@ == b.user_data@
}

/// A copy of `j` that carries the id `id`.
fn copy_job_with_id(j: &DbJobsObj, id: Option<usize>) -> (r: DbJobsObj)
    ensures
        job_copy(r, DbJobsObj { id: id, ..*j }),
{
    DbJobsObj {
        id: id,
        time: j.time,
        reptime: j.reptime,
        priority: j.priority,
        cachetime: j.cachetime,
        cachechecktype: j.cachechecktype,
        site: j.site.clone(),
        param: clone_params(&j.param),
        jobmanager: crate::sharedtypes::DbJobsManager {
            jobtype: j.jobmanager.jobtype,
            recreation: clone_recreation(&j.jobmanager.recreation),
        },
        isrunning: j.isrunning,
        system_data: j.system_data.clone(),
        user_data: j.user_data.clone(),
    }
}

/// What is remembered of a job that was queued: its site, params, time and
/// repeat time.
pub struct PreviouslySeenObj {
    site: String,
    params: Vec<ScraperParam>,
    time: usize,
    reptime: Option<usize>,
}

/// A remembered job as plain values.
pub struct SeenView {
    pub site: Seq<char>,
    pub params: Seq<ParamView>,
    pub time: usize,
    pub reptime: Option<usize>,
}

impl View for PreviouslySeenObj {
    type V = SeenView;

    closed spec fn view(&self) -> SeenView {
        SeenView {
            site: self.site@,
            params: params_view(self.params@),
            time: self.time,
            reptime: self.reptime,
        }
    }
}

/// What is remembered of `job`.
pub open spec fn seen_of(job: DbJobsObj) -> SeenView {
    SeenView { site: job.site@, params: params_view(job.param@), time: job.time, reptime: job.reptime }
}

fn seen_eq(a: &PreviouslySeenObj, b: &PreviouslySeenObj) -> (r: bool)
    ensures
        r == (a@ == b@),
{
    a.site == b.site && params_eq(&a.params, &b.params) && a.time == b.time && a.reptime == b.reptime
}



/// An entry of the queue: a scraper, its queued jobs, and what is remembered
/// of the jobs queued for it (`None` when nothing is).
pub type EntryView = (ScraperView, Seq<JobView>, Option<Seq<SeenView>>);

/// Whether an entry of `s` belongs to the scraper `k`.
pub open spec fn has_scraper(s: Seq<EntryView>, k: ScraperView) -> bool {
    exists|i: int| 0 <= i < s.len() && (#[trigger] s[i]).0 == k
}

/// The position of the entry of the scraper `k`.
pub open spec fn scraper_at(s: Seq<EntryView>, k: ScraperView) -> int {
    choose|i: int| 0 <= i < s.len() && (#[trigger] s[i]).0 == k
}

/// No two entries belong to the same scraper.
pub open spec fn scrapers_distinct(s: Seq<EntryView>) -> bool {
    forall|i: int, j: int|
        0 <= i < s.len() && 0 <= j < s.len() && i != j ==> (#[trigger] s[i]).0 != (#[trigger] s[j]).0
}

/// Whether `x` stays when removing by id `id` (`by_id`) or the job `t`.
pub open spec fn stays(x: JobView, t: JobView, id: Option<usize>, by_id: bool) -> bool {
    if by_id {
        x.id != id
    } else {
        x != t
    }
}

/// The jobs of `js` that stay, in order.
pub open spec fn keep(js: Seq<JobView>, t: JobView, id: Option<usize>, by_id: bool) -> Seq<JobView>
    decreases js.len(),
{
    if js.len() == 0 {
        Seq::empty()
    } else {
        let r = keep(js.drop_last(), t, id, by_id);
        if stays(js.last(), t, id, by_id) {
            r.push(js.last())
        } else {
            r
        }
    }
}

/// `js` without the job `j`.
pub open spec fn without_job(js: Seq<JobView>, j: JobView) -> Seq<JobView> {
    keep(js, j, None, false)
}

/// `js` without the jobs whose id is `id`.
pub open spec fn without_id(js: Seq<JobView>, id: Option<usize>) -> Seq<JobView> {
    keep(js, arbitrary(), id, true)
}

/// `js` with the job `j` added, as to a set: unchanged when it is there.
pub open spec fn set_add(js: Seq<JobView>, j: JobView) -> Seq<JobView> {
    if js.contains(j) {
        js
    } else {
        js.push(j)
    }
}

/// The queued jobs and what is remembered of them, with the job table.
pub struct JobsView {
    /// The job table.
    pub db: MemDbView,
    /// For each scraper, its queued jobs and what is remembered for it.
    pub entries: Seq<EntryView>,
}

impl JobsView {
    pub open spec fn wf(self) -> bool {
        scrapers_distinct(self.entries)
    }

    /// The jobs queued for the scraper `k`; `None` when it has no entry.
    pub open spec fn jobs_of(self, k: ScraperView) -> Option<Seq<JobView>> {
        if has_scraper(self.entries, k) {
            Some(self.entries[scraper_at(self.entries, k)].1)
        } else {
            None
        }
    }

    /// What is remembered for the scraper `k`; `None` when nothing is.
    pub open spec fn seen_of(self, k: ScraperView) -> Option<Seq<SeenView>> {
        if has_scraper(self.entries, k) {
            self.entries[scraper_at(self.entries, k)].2
        } else {
            None
        }
    }

    /// The entries with the jobs of the scraper `k` replaced by `js`.
    pub open spec fn with_jobs(self, k: ScraperView, js: Seq<JobView>) -> Seq<EntryView> {
        if has_scraper(self.entries, k) {
            let i = scraper_at(self.entries, k);
            self.entries.update(i, (self.entries[i].0, js, self.entries[i].2))
        } else {
            self.entries
        }
    }

    /// The view after the jobs with the id `id` leave the queue of the
    /// scraper `k`, and that id leaves the job table when one did.
    pub open spec fn dbjob_removed(self, k: ScraperView, id: Option<usize>) -> JobsView {
        match self.jobs_of(k) {
            Some(js) => JobsView {
                db: if id is Some && exists|m: int| 0 <= m < js.len() && (#[trigger] js[m]).id == id {
                    MemDbView { jobs: self.db.jobs.remove(id->0), ..self.db }
                } else {
                    self.db
                },
                entries: self.with_jobs(k, without_id(js, id)),
            },
            None => self,
        }
    }
}

/// Whether `scraper` is a scraper rather than a plugin.
pub open spec fn is_scraper(scraper: GlobalPluginScraper) -> bool {
    scraper.storage_type matches Some(ScraperOrPlugin::Scraper(_))
}

/// Whether what is remembered keeps `job` out of the queue: the same job
/// was seen, or the job is told apart by its params alone and a job with the
/// same params was seen.
pub open spec fn seen_blocks(seen: Seq<SeenView>, job: DbJobsObj) -> bool {
    ||| seen.contains(seen_of(job))
    ||| (job.cachechecktype == JobCacheType::Param && exists|k: int|
        0 <= k < seen.len() && (#[trigger] seen[k]).params == params_view(job.param@))
}

/// Whether `job` gets past the checks made before its time is looked at.
pub open spec fn add_checks_pass(v: JobsView, scraper: GlobalPluginScraper, job: DbJobsObj) -> bool {
    &&& is_scraper(scraper)
    &&& match v.seen_of(scraper_view(scraper)) {
        Some(seen) => !seen_blocks(seen, job),
        None => true,
    }
}

/// Whether `job` is due at the time `now`.
pub open spec fn job_due(job: DbJobsObj, now: usize) -> bool {
    now >= job.time + job.reptime->0
}

/// Whether two jobs have the same time, repeat time, site and params.
pub open spec fn same_entry(a: DbJobsObj, b: DbJobsObj) -> bool {
    &&& a.time == b.time
    &&& a.reptime == b.reptime
    &&& a.site@ == b.site@
    &&& params_view(a.param@) == params_view(b.param@)
}

/// Whether the job table holds a job with the same time, repeat time, site
/// and params as `job`.
pub open spec fn table_has_same(db: MemDbView, job: DbJobsObj) -> bool {
    exists|k: usize| db.jobs.contains_key(k) && same_entry(#[trigger] db.jobs[k], job)
}

/// `job` with the id `id`.
pub open spec fn with_id(job: DbJobsObj, id: usize) -> DbJobsObj {
    DbJobsObj { id: Some(id), ..job }
}

/// The id `job` is queued with: its own, or else the next id of the table.
pub open spec fn queue_id(db: MemDbView, job: DbJobsObj) -> usize {
    match job.id {
        Some(id) => id,
        None => db.jobs_max,
    }
}

/// Whether `new_db` is the job table `db` once `job` is queued: a job with
/// no id is written to the table under the next id, unless the table holds
/// the same job already; the table is left as it is otherwise.
pub open spec fn table_after_add(db: MemDbView, new_db: MemDbView, job: DbJobsObj) -> bool {
    if job.id is None && !table_has_same(db, job) {
        exists|c: DbJobsObj|
            job_copy(c, with_id(job, db.jobs_max)) && new_db == #[trigger] job_added(db, c)
    } else {
        new_db == db
    }
}

/// The entries once the job `j` is queued for `scraper` and `s` is
/// remembered for it: into its entry, or a new one.
pub open spec fn put_entry(e: Seq<EntryView>, scraper: GlobalPluginScraper, j: JobView, s: SeenView) -> Seq<
    EntryView,
> {
    let k = scraper_view(scraper);
    if has_scraper(e, k) {
        let i = scraper_at(e, k);
        e.update(
            i,
            (
                e[i].0,
                set_add(e[i].1, j),
                match e[i].2 {
                    Some(seen) => Some(seen.push(s)),
                    None => Some(seq![s]),
                },
            ),
        )
    } else {
        e.push((k, seq![j], Some(seq![s])))
    }
}

/// Whether `new` is `old` once `job` was offered to the queue of `scraper`
/// at the time `now`. A plugin's job, a job kept out by what is remembered,
/// and a job not yet due change nothing. Otherwise a job without an id gets
/// one from the job table, the job is added to the scraper's set of jobs,
/// and it is remembered.
pub open spec fn add_outcome(
    old: JobsView,
    new: JobsView,
    scraper: GlobalPluginScraper,
    job: DbJobsObj,
    now: usize,
) -> bool {
    if add_checks_pass(old, scraper, job) && job_due(job, now) {
        &&& table_after_add(old.db, new.db, job)
        &&& new.entries == put_entry(
            old.entries,
            scraper,
            job_view(with_id(job, queue_id(old.db, job))),
            seen_of(job),
        )
    } else {
        new == old
    }
}

/// What a caller must ensure before offering `job`: the repeat time that is
/// read is there and the due time fits, and the table has an id to hand out.
pub open spec fn add_allowed(v: JobsView, scraper: GlobalPluginScraper, job: DbJobsObj) -> bool {
    add_checks_pass(v, scraper, job) ==> {
        &&& job.reptime is Some
        &&& job.time + job.reptime->0 <= usize::MAX
        &&& job.id is None ==> v.db.jobs_max < usize::MAX
    }
}

/// The job `data` once counted down: a timer job with `c` runs left has
/// `c - 1` left.
pub open spec fn counted_down(data: DbJobsObj, w: usize, c: usize) -> JobView {
    JobView {
        recreation: Some(RecreationView::AlwaysTime(w, Some((c - 1) as usize))),
        ..job_view(data)
    }
}

/// The view once the queued job `data` of the scraper `k` is counted down.
/// A job that recurs on a timer with a count has it lowered by one; at zero
/// it is removed, from the table too. Any other job, and a job that is not
/// queued, change nothing.
pub open spec fn decremented(v: JobsView, k: ScraperView, data: DbJobsObj) -> JobsView {
    match v.jobs_of(k) {
        Some(js) => if js.contains(job_view(data)) {
            match data.jobmanager.recreation {
                Some(DbJobRecreation::AlwaysTime(w, Some(c))) => if c == 0 {
                    v.dbjob_removed(k, data.id)
                } else {
                    JobsView {
                        entries: v.with_jobs(
                            k,
                            set_add(without_job(js, job_view(data)), counted_down(data, w, c)),
                        ),
                        ..v
                    }
                },
                _ => v,
            }
        } else {
            v
        },
        None => v,
    }
}

/// The position `i` is the entry of the scraper `k`.
proof fn lemma_scraper_at(s: Seq<EntryView>, k: ScraperView, i: int)
    requires
        scrapers_distinct(s),
        0 <= i < s.len(),
        s[i].0 == k,
    ensures
        has_scraper(s, k),
        scraper_at(s, k) == i,
{
    assert(has_scraper(s, k));
    let j = scraper_at(s, k);
    assert(s[j].0 == k);
}

/// Keeping never keeps a job that does not stay.
pub proof fn lemma_keep_refuses(js: Seq<JobView>, t: JobView, id: Option<usize>, by_id: bool, j: JobView)
    requires
        !stays(j, t, id, by_id),
    ensures
        !keep(js, t, id, by_id).contains(j),
    decreases js.len(),
{
    if js.len() > 0 {
        lemma_keep_refuses(js.drop_last(), t, id, by_id, j);
        let r = keep(js.drop_last(), t, id, by_id);
        if stays(js.last(), t, id, by_id) {
            assert(!r.contains(j));
            if r.push(js.last()).contains(j) {
                let m = choose|m: int| 0 <= m < r.push(js.last()).len() && r.push(js.last())[m] == j;
                if m < r.len() {
                    assert(r[m] == j);
                }
            }
        }
    }
}

proof fn lemma_keep_len(js: Seq<JobView>, t: JobView, id: Option<usize>, by_id: bool)
    ensures
        keep(js, t, id, by_id).len() <= js.len(),
    decreases js.len(),
{
    if js.len() > 0 {
        lemma_keep_len(js.drop_last(), t, id, by_id);
    }
}

/// The view of a list of jobs.
pub open spec fn jobs_view(v: Seq<DbJobsObj>) -> Seq<JobView> {
    v.map_values(|j: DbJobsObj| job_view(j))
}

/// Removes, in place, the jobs equal to `jv` (when `by_id` is false) or
/// those whose id is `id` (when it is true).
fn remove_where(list: &mut Vec<DbJobsObj>, target: &DbJobsObj, by_id: bool) -> (removed: bool)
    ensures
        by_id ==> jobs_view(final(list)@) == without_id(jobs_view(old(list)@), target.id),
        !by_id ==> jobs_view(final(list)@) == without_job(jobs_view(old(list)@), job_view(*target)),
        by_id ==> removed == exists|m: int|
            0 <= m < old(list)@.len() && (#[trigger] jobs_view(old(list)@)[m]).id == target.id,
        !by_id ==> removed == jobs_view(old(list)@).contains(job_view(*target)),
{
    let ghost o = jobs_view(list@);
    let ghost t = if by_id {
        arbitrary()
    } else {
        job_view(*target)
    };
    let ghost tid = if by_id {
        target.id
    } else {
        None
    };
    let ghost ol = list@;
    let mut i: usize = 0;
    let mut j: usize = 0;
    let mut removed = false;
    let n = list.len();
    while i < n
        invariant
            n == o.len(),
            o == jobs_view(ol),
            ol.len() == n,
            i <= n,
            j == keep(o.take(i as int), t, tid, by_id).len(),
            jobs_view(list@) == keep(o.take(i as int), t, tid, by_id) + o.skip(i as int),
            t == (if by_id {
                arbitrary()
            } else {
                job_view(*target)
            }),
            tid == (if by_id {
                target.id
            } else {
                None
            }),
            by_id ==> removed == exists|m: int| 0 <= m < i && (#[trigger] o[m]).id == target.id,
            !by_id ==> removed == exists|m: int| 0 <= m < i && (#[trigger] o[m]) == job_view(*target),
        decreases n - i,
    {
        let ghost before = jobs_view(list@);
        assert(o.take(i + 1).drop_last() =~= o.take(i as int));
        assert(o.take(i + 1).last() == o[i as int]);
        assert(keep(o.take(i as int), t, tid, by_id).len() == j);
        assert(before.len() == j + (n - i));
        assert(o.skip(i as int)[0] == o[i as int]);
        assert(before[j as int] == o[i as int]);
        assert(job_view(list@[j as int]) == o[i as int]);
        let hit = if by_id {
            list[j].id == target.id
        } else {
            job_eq(&list[j], target)
        };
        proof {
            lemma_keep_len(o.take(i as int), t, tid, by_id);
        }
        if hit {
            assert(!stays(o[i as int], t, tid, by_id));
            let ghost lbefore = list@;
            list.remove(j);
            removed = true;
            assert(list@ =~= lbefore.remove(j as int));
            assert(jobs_view(list@) =~= before.remove(j as int));
            assert(keep(o.take(i + 1), t, tid, by_id) == keep(o.take(i as int), t, tid, by_id));
            assert(jobs_view(list@) =~= keep(o.take(i + 1), t, tid, by_id) + o.skip(i + 1));
        } else {
            assert(stays(o[i as int], t, tid, by_id));
            assert(keep(o.take(i + 1), t, tid, by_id) == keep(o.take(i as int), t, tid, by_id).push(o[i as int]));
            j = j + 1;
            assert(jobs_view(list@) =~= keep(o.take(i + 1), t, tid, by_id) + o.skip(i + 1));
        }
        i = i + 1;
    }
    assert(o.take(n as int) =~= o);
    assert(o.skip(n as int) =~= Seq::<JobView>::empty());
    assert(jobs_view(list@) =~= keep(o, t, tid, by_id));
    proof {
        if !by_id {
            assert(removed == o.contains(job_view(*target)));
        }
    }
    removed
}

/// The queued jobs, per scraper, with the job table they come from.
pub struct Jobs {
    db: NewinMemDB,
    site_job: Vec<(GlobalPluginScraper, Vec<DbJobsObj>, Option<Vec<PreviouslySeenObj>>)>,
}

/// The view of one entry.
pub open spec fn entry_view(e: (GlobalPluginScraper, Vec<DbJobsObj>, Option<Vec<PreviouslySeenObj>>)) -> EntryView {
    (
        scraper_view(e.0),
        jobs_view(e.1@),
        match e.2 {
            Some(v) => Some(v@.map_values(|o: PreviouslySeenObj| o@)),
            None => None,
        },
    )
}

impl View for Jobs {
    type V = JobsView;

    closed spec fn view(&self) -> JobsView {
        JobsView {
            db: self.db@,
            entries: self.site_job@.map_values(
                |e: (GlobalPluginScraper, Vec<DbJobsObj>, Option<Vec<PreviouslySeenObj>>)|
                    entry_view(e),
            ),
        }
    }
}

/// Writes `job`, which has no id, to the job table under the next id unless
/// the table holds the same job already, and returns that id.
fn job_table_add(db: &mut NewinMemDB, job: &DbJobsObj) -> (id: usize)
    requires
        old(db).wf(),
        job.id is None,
        old(db)@.jobs_max < usize::MAX,
    ensures
        final(db).wf(),
        id == old(db)@.jobs_max,
        table_after_add(old(db)@, final(db)@, *job),
{
    table_put(db, job)
}

/// Whether the job table holds a job with the same time, repeat time, site
/// and params as `job`.
fn table_has_same_exec(db: &NewinMemDB, job: &DbJobsObj) -> (found: bool)
    ensures
        found == table_has_same(db@, *job),
{
    let mut found = false;
    {
        let all = db.jobs_get_all();
        let ghost d = all@.dom();
        for k in it: all.keys()
            invariant
                d == all@.dom(),
                all@ == db@.jobs,
                it.seq().unref().to_set() == d,
                found ==> table_has_same(db@, *job),
                !found ==> forall|j: int|
                    0 <= j < it.index() ==> !same_entry(all@[*(#[trigger] it.seq()[j])], *job),
            ensures
                found ==> table_has_same(db@, *job),
                !found ==> forall|key: usize| #[trigger] d.contains(key) ==> !same_entry(all@[key], *job),
        {
            proof {
                assert(it.seq().unref()[it.index()] == *k);
                assert(it.seq().unref().contains(*k));
                assert(d.contains(*k));
            }
            match all.get(k) {
                Some(other) => {
                    if same_entry_exec(other, job) {
                        found = true;
                    }
                },
                None => {},
            }
        }
    }
    proof {
        if !found && table_has_same(db@, *job) {
            let k = choose|k: usize| db@.jobs.contains_key(k) && same_entry(#[trigger] db@.jobs[k], *job);
            assert(db@.jobs.dom().contains(k));
        }
    }
    found
}

/// `v` once `job` is put in its job table, as `table_after_put` says, with
/// the job itself stored.
pub open spec fn job_put(v: MemDbView, job: DbJobsObj) -> MemDbView {
    if table_has_same(v, job) {
        v
    } else {
        job_added(v, with_id(job, queue_id(v, job)))
    }
}

/// Puts `job` itself in the job table as `job_put` says, and returns the
/// job's id: its own, or else the next id of the table.
pub(crate) fn table_put_owned(db: &mut NewinMemDB, job: DbJobsObj) -> (id: usize)
    requires
        old(db).wf(),
        old(db)@.jobs_max < usize::MAX,
    ensures
        final(db).wf(),
        id == queue_id(old(db)@, job),
        final(db)@ == job_put(old(db)@, job),
{
    let id = match job.id {
        Some(i) => i,
        None => *db.jobs_get_max(),
    };
    if table_has_same_exec(db, &job) {
        return id;
    }
    db.jobref_new(DbJobsObj { id: Some(id), ..job });
    id
}

/// Whether `new_db` is the job table `db` once `job` is put in it: unless
/// the table holds the same job already, a copy with its id (its own, or
/// else the next id of the table) is written under the next id.
pub open spec fn table_after_put(db: MemDbView, new_db: MemDbView, job: DbJobsObj) -> bool {
    if !table_has_same(db, job) {
        exists|c: DbJobsObj|
            job_copy(c, with_id(job, queue_id(db, job))) && new_db == #[trigger] job_added(db, c)
    } else {
        new_db == db
    }
}

/// Puts `job` in the job table as `table_after_put` says, and returns the
/// job's id: its own, or else the next id of the table.
pub(crate) fn table_put(db: &mut NewinMemDB, job: &DbJobsObj) -> (id: usize)
    requires
        old(db).wf(),
        old(db)@.jobs_max < usize::MAX,
    ensures
        final(db).wf(),
        id == queue_id(old(db)@, *job),
        table_after_put(old(db)@, final(db)@, *job),
{
    let id = match job.id {
        Some(i) => i,
        None => *db.jobs_get_max(),
    };
    let found = table_has_same_exec(db, job);
    if found {
        return id;
    }
    let stored = copy_job_with_id(job, Some(id));
    let ghost old_db = db@;
    db.jobref_new(stored);
    assert(job_copy(stored, with_id(*job, queue_id(old_db, *job))));
    id
}

fn same_entry_exec(a: &DbJobsObj, b: &DbJobsObj) -> (r: bool)
    ensures
        r == same_entry(*a, *b),
{
    a.time == b.time && a.reptime == b.reptime && a.site == b.site && params_eq(&a.param, &b.param)
}

/// Maps with the same entries have the same entries as plain values.
proof fn lemma_same_map_deep(
    a: std::collections::BTreeMap<String, String>,
    b: std::collections::BTreeMap<String, String>,
)
    requires
        a@ == b@,
    ensures
        a.deep_view() == b.deep_view(),
{
    reveal(vstd::std_specs::btree::btree_map_deep_view_impl);
    assert(vstd::std_specs::btree::btree_map_deep_view_impl(a) =~= vstd::std_specs::btree::btree_map_deep_view_impl(b));
}

/// A copy of a job is the same job as plain values.
proof fn lemma_copy_view(a: DbJobsObj, b: DbJobsObj)
    requires
        job_copy(a, b),
    ensures
        job_view(a) == job_view(b),
{
    lemma_same_map_deep(a.system_data, b.system_data);
    lemma_same_map_deep(a.user_data, b.user_data);
}

/// A copy of `j`.
pub(crate) fn copy_job(j: &DbJobsObj) -> (r: DbJobsObj)
    ensures
        job_view(r) == job_view(*j),
{
    let c = copy_job_with_id(j, j.id);
    proof {
        lemma_copy_view(c, *j);
    }
    c
}

/// A copy of `j` whose recreation is `rec`.
fn copy_job_with_recreation(j: &DbJobsObj, rec: Option<DbJobRecreation>) -> (r: DbJobsObj)
    ensures
        job_view(r) == job_view(
            DbJobsObj {
                jobmanager: crate::sharedtypes::DbJobsManager {
                    jobtype: j.jobmanager.jobtype,
                    recreation: rec,
                },
                ..*j
            },
        ),
{
    let c = copy_job_with_id(j, j.id);
    proof {
        lemma_same_map_deep(c.system_data, j.system_data);
        lemma_same_map_deep(c.user_data, j.user_data);
    }
    DbJobsObj {
        jobmanager: crate::sharedtypes::DbJobsManager { jobtype: j.jobmanager.jobtype, recreation: rec },
        ..c
    }
}

fn contains_job(list: &Vec<DbJobsObj>, target: &DbJobsObj) -> (r: bool)
    ensures
        r == jobs_view(list@).contains(job_view(*target)),
{
    let mut i: usize = 0;
    while i < list.len()
        invariant
            i <= list.len(),
            forall|k: int| 0 <= k < i ==> job_view(#[trigger] list@[k]) != job_view(*target),
        decreases list.len() - i,
    {
        if job_eq(&list[i], target) {
            assert(jobs_view(list@)[i as int] == job_view(*target));
            return true;
        }
        i = i + 1;
    }
    proof {
        if jobs_view(list@).contains(job_view(*target)) {
            let m = choose|m: int| 0 <= m < jobs_view(list@).len() && jobs_view(list@)[m] == job_view(*target);
            assert(job_view(list@[m]) == job_view(*target));
        }
    }
    false
}

impl Jobs {
    pub closed spec fn wf(&self) -> bool {
        &&& self.db.wf()
        &&& self@.wf()
    }

    /// Jobs over the job table `db`, with nothing queued or remembered.
    pub fn new(db: NewinMemDB) -> (res: Jobs)
        requires
            db.wf(),
        ensures
            res.wf(),
            res@ == (JobsView { db: db@, entries: Seq::empty() }),
    {
        let res = Jobs { db, site_job: Vec::new() };
        assert(res@.entries =~= Seq::empty());
        res
    }

    /// The job table.
    pub fn db(&self) -> (res: &NewinMemDB)
        ensures
            res@ == self@.db,
    {
        &self.db
    }

    proof fn lemma_len(&self)
        ensures
            self@.entries.len() == self.site_job@.len(),
    {
    }

    proof fn lemma_entry(&self, i: int)
        requires
            0 <= i < self.site_job@.len(),
        ensures
            self@.entries.len() == self.site_job@.len(),
            self@.entries[i] == entry_view(self.site_job@[i]),
    {
    }

    fn site_index(&self, scraper: &GlobalPluginScraper) -> (r: Option<usize>)
        requires
            self.wf(),
        ensures
            self@.entries.len() == self.site_job@.len(),
            match r {
                Some(i) => i < self@.entries.len() && has_scraper(self@.entries, scraper_view(*scraper))
                    && scraper_at(self@.entries, scraper_view(*scraper)) == i,
                None => !has_scraper(self@.entries, scraper_view(*scraper)),
            },
    {
        let mut i: usize = 0;
        while i < self.site_job.len()
            invariant
                self.wf(),
                i <= self.site_job.len(),
                self.site_job@.len() == self@.entries.len(),
                forall|k: int| 0 <= k < i ==> (#[trigger] self@.entries[k]).0 != scraper_view(*scraper),
                forall|k: int|
                    0 <= k < self.site_job@.len() ==> (#[trigger] self@.entries[k]) == entry_view(
                        self.site_job@[k],
                    ),
            decreases self.site_job.len() - i,
        {
            if scraper_eq(&self.site_job[i].0, scraper) {
                proof {
                    lemma_scraper_at(self@.entries, scraper_view(*scraper), i as int);
                }
                return Some(i);
            }
            i = i + 1;
        }
        None
    }

    /// How many jobs are queued for `scraper`; `None` when it has no entry.
    pub fn queued_count(&self, scraper: &GlobalPluginScraper) -> (res: Option<usize>)
        requires
            self.wf(),
        ensures
            match self@.jobs_of(scraper_view(*scraper)) {
                Some(js) => res == Some(js.len() as usize),
                None => res is None,
            },
    {
        match self.site_index(scraper) {
            None => None,
            Some(i) => {
                proof {
                    self.lemma_entry(i as int);
                }
                Some(self.site_job[i].1.len())
            },
        }
    }

    /// How many jobs are remembered for `scraper`; `None` when none are.
    pub fn seen_count(&self, scraper: &GlobalPluginScraper) -> (res: Option<usize>)
        requires
            self.wf(),
        ensures
            match self@.seen_of(scraper_view(*scraper)) {
                Some(seen) => res == Some(seen.len() as usize),
                None => res is None,
            },
    {
        match self.site_index(scraper) {
            None => None,
            Some(i) => {
                proof {
                    self.lemma_entry(i as int);
                }
                match &self.site_job[i].2 {
                    Some(v) => Some(v.len()),
                    None => None,
                }
            },
        }
    }

    /// The jobs queued for `scraper`; none when it has no entry.
    pub fn jobs_get(&self, scraper: &GlobalPluginScraper) -> (res: Vec<&DbJobsObj>)
        requires
            self.wf(),
        ensures
            match self@.jobs_of(scraper_view(*scraper)) {
                Some(js) => res@.len() == js.len() && forall|j: int|
                    0 <= j < js.len() ==> job_view(*(#[trigger] res@[j])) == js[j],
                None => res@.len() == 0,
            },
    {
        let mut res: Vec<&DbJobsObj> = Vec::new();
        match self.site_index(scraper) {
            None => {},
            Some(i) => {
                proof {
                    self.lemma_entry(i as int);
                }
                let list = &self.site_job[i].1;
                let mut k: usize = 0;
                while k < list.len()
                    invariant
                        k <= list.len(),
                        res@.len() == k,
                        forall|j: int| 0 <= j < k ==> *(#[trigger] res@[j]) == list@[j],
                    decreases list.len() - k,
                {
                    res.push(&list[k]);
                    k = k + 1;
                }
                assert forall|j: int| 0 <= j < list@.len() implies job_view(*(#[trigger] res@[j]))
                    == jobs_view(list@)[j] by {}
            },
        }
        res
    }

    /// The scrapers that have an entry of queued jobs, in the order their
    /// entries were made.
    pub fn job_scrapers_get(&self) -> (res: Vec<&GlobalPluginScraper>)
        ensures
            res@.len() == self@.entries.len(),
            forall|j: int|
                0 <= j < res@.len() ==> scraper_view(*(#[trigger] res@[j])) == self@.entries[j].0,
    {
        let mut res: Vec<&GlobalPluginScraper> = Vec::new();
        let mut k: usize = 0;
        while k < self.site_job.len()
            invariant
                k <= self.site_job.len(),
                self.site_job@.len() == self@.entries.len(),
                forall|j: int|
                    0 <= j < self.site_job@.len() ==> (#[trigger] self@.entries[j]) == entry_view(
                        self.site_job@[j],
                    ),
                res@.len() == k,
                forall|j: int| 0 <= j < k ==> *(#[trigger] res@[j]) == self.site_job@[j].0,
            decreases self.site_job.len() - k,
        {
            res.push(&self.site_job[k].0);
            k = k + 1;
        }
        res
    }

    /// Replaces the job list of entry `i` through `remove_where`.
    fn remove_in_entry(&mut self, i: usize, target: &DbJobsObj, by_id: bool) -> (removed: bool)
        requires
            old(self).wf(),
            i < old(self)@.entries.len(),
        ensures
            final(self).wf(),
            final(self)@.db == old(self)@.db,
            final(self)@.entries == old(self)@.entries.update(
                i as int,
                (
                    old(self)@.entries[i as int].0,
                    if by_id {
                        without_id(old(self)@.entries[i as int].1, target.id)
                    } else {
                        without_job(old(self)@.entries[i as int].1, job_view(*target))
                    },
                    old(self)@.entries[i as int].2,
                ),
            ),
            by_id ==> removed == exists|m: int|
                0 <= m < old(self)@.entries[i as int].1.len() && (#[trigger] old(
                    self,
                )@.entries[i as int].1[m]).id == target.id,
            !by_id ==> removed == old(self)@.entries[i as int].1.contains(job_view(*target)),
    {
        let ghost old_v = self@;
        proof {
            self.lemma_entry(i as int);
        }
        let ghost ol = self.site_job@[i as int].1@;
        let removed = remove_where(&mut self.site_job[i].1, target, by_id);
        proof {
            if by_id {
                if removed {
                    let m = choose|m: int| 0 <= m < ol.len() && (#[trigger] ol[m]).id == target.id;
                    assert(jobs_view(ol)[m].id == target.id);
                }
                if exists|m: int| 0 <= m < jobs_view(ol).len() && (#[trigger] jobs_view(ol)[m]).id == target.id {
                    let m = choose|m: int| 0 <= m < jobs_view(ol).len() && (#[trigger] jobs_view(ol)[m]).id == target.id;
                    assert(ol[m].id == target.id);
                }
            }
            assert(self@.entries =~= old_v.entries.update(
                i as int,
                (
                    old_v.entries[i as int].0,
                    if by_id {
                        without_id(old_v.entries[i as int].1, target.id)
                    } else {
                        without_job(old_v.entries[i as int].1, job_view(*target))
                    },
                    old_v.entries[i as int].2,
                ),
            ));
            assert forall|a: int, b: int|
                0 <= a < self@.entries.len() && 0 <= b < self@.entries.len() && a != b implies (
                #[trigger] self@.entries[a]).0 != (#[trigger] self@.entries[b]).0 by {
                assert(self@.entries[a].0 == old_v.entries[a].0);
                assert(self@.entries[b].0 == old_v.entries[b].0);
            }
        }
        removed
    }

    /// Takes the job equal to `data` out of the queue of `scraper`. The job
    /// table is left as it is.
    pub fn jobs_remove_job(&mut self, scraper: &GlobalPluginScraper, data: &DbJobsObj)
        requires
            old(self).wf(),
        ensures
            final(self).wf(),
            final(self)@ == (JobsView {
                entries: match old(self)@.jobs_of(scraper_view(*scraper)) {
                    Some(js) => old(self)@.with_jobs(scraper_view(*scraper), without_job(js, job_view(*data))),
                    None => old(self)@.entries,
                },
                ..old(self)@
            }),
    {
        match self.site_index(scraper) {
            None => {},
            Some(i) => {
                let _ = self.remove_in_entry(i, data, false);
            },
        }
    }

    /// Takes the jobs with `data`'s id out of the queue of `scraper` and,
    /// when one was there and the id is set, that id out of the job table.
    pub fn jobs_remove_dbjob(
        &mut self,
        scraper: &GlobalPluginScraper,
        data: &DbJobsObj,
        worker_id: &usize,
    )
        requires
            old(self).wf(),
        ensures
            final(self).wf(),
            final(self)@ == old(self)@.dbjob_removed(scraper_view(*scraper), data.id),
    {
        match self.site_index(scraper) {
            None => {},
            Some(i) => {
                let removed = self.remove_in_entry(i, data, true);
                if removed {
                    match data.id {
                        Some(id) => {
                            self.db.jobref_remove(&id);
                        },
                        None => {},
                    }
                }
            },
        }
    }

    /// Drops the entry of `scraper` from the queue; when there was one,
    /// everything remembered is forgotten, for every scraper.
    pub fn clear_previously_seen_cache(&mut self, scraper: &GlobalPluginScraper)
        requires
            old(self).wf(),
        ensures
            final(self).wf(),
            final(self)@ == if has_scraper(old(self)@.entries, scraper_view(*scraper)) {
                JobsView {
                    entries: old(self)@.entries.remove(
                        scraper_at(old(self)@.entries, scraper_view(*scraper)),
                    ).map_values(|e: EntryView| (e.0, e.1, None::<Seq<SeenView>>)),
                    ..old(self)@
                }
            } else {
                old(self)@
            },
    {
        match self.site_index(scraper) {
            None => {},
            Some(i) => {
                let ghost old_v = self@;
                let _ = self.site_job.remove(i);
                let ghost mid = old_v.entries.remove(i as int);
                assert(self@.entries =~= mid);
                let mut k: usize = 0;
                while k < self.site_job.len()
                    invariant
                        k <= self.site_job.len(),
                        self.site_job@.len() == mid.len(),
                        self@.db == old_v.db,
                        self.db.wf(),
                        forall|a: int|
                            0 <= a < mid.len() ==> (#[trigger] self@.entries[a]) == if a < k {
                                (mid[a].0, mid[a].1, None::<Seq<SeenView>>)
                            } else {
                                mid[a]
                            },
                    decreases self.site_job.len() - k,
                {
                    let ghost prev = self.site_job@;
                    let ghost pe = self@.entries;
                    self.site_job[k].2 = None;
                    proof {
                        assert(self.site_job@[k as int].0 == prev[k as int].0);
                        assert(self.site_job@[k as int].1 == prev[k as int].1);
                        assert(pe[k as int] == entry_view(prev[k as int]));
                        assert forall|a: int| 0 <= a < mid.len() && a != k implies self@.entries[a] == pe[a] by {
                            assert(self.site_job@[a] == prev[a]);
                        }
                        assert(self@.entries[k as int] == (mid[k as int].0, mid[k as int].1, None::<Seq<SeenView>>));
                        assert forall|a: int| 0 <= a < mid.len() implies (#[trigger] self@.entries[a]) == if a < k + 1 {
                            (mid[a].0, mid[a].1, None::<Seq<SeenView>>)
                        } else {
                            mid[a]
                        } by {
                            if a != k {
                                assert(pe[a] == if a < k {
                                    (mid[a].0, mid[a].1, None::<Seq<SeenView>>)
                                } else {
                                    mid[a]
                                });
                            }
                        }
                    }
                    k = k + 1;
                }
                proof {
                    assert(self@.entries =~= mid.map_values(
                        |e: EntryView| (e.0, e.1, None::<Seq<SeenView>>),
                    ));
                    assert forall|a: int, b: int|
                        0 <= a < self@.entries.len() && 0 <= b < self@.entries.len() && a != b implies (
                        #[trigger] self@.entries[a]).0 != (#[trigger] self@.entries[b]).0 by {
                        let aa = if a < i { a } else { a + 1 };
                        let bb = if b < i { b } else { b + 1 };
                        assert(mid[a] == old_v.entries[aa]);
                        assert(mid[b] == old_v.entries[bb]);
                    }
                }
            },
        }
    }

    /// For each scraper with an entry, its name and how many jobs it has
    /// queued, in the order the entries were made. An empty list means there
    /// is nothing to run; otherwise the tables must be loaded to run them.
    pub fn jobs_run_new(&self) -> (res: Vec<(String, usize)>)
        ensures
            res@.len() == self@.entries.len(),
            forall|j: int|
                0 <= j < res@.len() ==> (#[trigger] res@[j]).0@ == self@.entries[j].0.name
                    && res@[j].1 == self@.entries[j].1.len(),
    {
        let mut res: Vec<(String, usize)> = Vec::new();
        let mut k: usize = 0;
        while k < self.site_job.len()
            invariant
                k <= self.site_job.len(),
                self.site_job@.len() == self@.entries.len(),
                forall|j: int|
                    0 <= j < self.site_job@.len() ==> (#[trigger] self@.entries[j]) == entry_view(
                        self.site_job@[j],
                    ),
                res@.len() == k,
                forall|j: int|
                    0 <= j < k ==> (#[trigger] res@[j]).0@ == self@.entries[j].0.name && res@[j].1
                        == self@.entries[j].1.len(),
            decreases self.site_job.len() - k,
        {
            let entry = &self.site_job[k];
            res.push((entry.0.name.clone(), entry.1.len()));
            k = k + 1;
        }
        res
    }

    /// Whether what is remembered at entry `i` keeps `job` out.
    fn seen_blocks_at(&self, i: usize, obj: &PreviouslySeenObj, job: &DbJobsObj) -> (r: bool)
        requires
            self.wf(),
            i < self@.entries.len(),
            self@.entries[i as int].2 is Some,
            obj@ == seen_of(*job),
        ensures
            r == seen_blocks(self@.entries[i as int].2->0, *job),
    {
        proof {
            self.lemma_entry(i as int);
        }
        let list = match &self.site_job[i].2 {
            Some(l) => l,
            None => {
                assert(false);
                return false;
            },
        };
        let ghost seen = self@.entries[i as int].2->0;
        assert(seen == list@.map_values(|o: PreviouslySeenObj| o@));
        let mut k: usize = 0;
        while k < list.len()
            invariant
                seen == list@.map_values(|o: PreviouslySeenObj| o@),
                i < self@.entries.len(),
                seen == self@.entries[i as int].2->0,
                obj@ == seen_of(*job),
                k <= list.len(),
                forall|j: int| 0 <= j < k ==> (#[trigger] seen[j]) != seen_of(*job),
            decreases list.len() - k,
        {
            if seen_eq(&list[k], obj) {
                assert(seen[k as int] == seen_of(*job));
                assert(seen.contains(seen_of(*job)));
                return true;
            }
            k = k + 1;
        }
        assert(!seen.contains(seen_of(*job)));
        match job.cachechecktype {
            JobCacheType::TimeReptimeParam => false,
            JobCacheType::Param => {
                let mut k: usize = 0;
                while k < list.len()
                    invariant
                        seen == list@.map_values(|o: PreviouslySeenObj| o@),
                        i < self@.entries.len(),
                        seen == self@.entries[i as int].2->0,
                        job.cachechecktype == JobCacheType::Param,
                        k <= list.len(),
                        forall|j: int|
                            0 <= j < k ==> (#[trigger] seen[j]).params != params_view(job.param@),
                    decreases list.len() - k,
                {
                    if params_eq(&list[k].params, &job.param) {
                        assert(seen[k as int].params == params_view(job.param@));
                        return true;
                    }
                    k = k + 1;
                }
                false
            },
        }
    }

    /// Offers `dbjobsobj` to the queue of `scraper` at the time `now`: a
    /// plugin's job, a job kept out by what is remembered, and a job not yet
    /// due (at `time + reptime`) are dropped; otherwise a job without an id
    /// gets one from the job table, the job joins the scraper's set of jobs
    /// and is remembered.
    pub fn jobs_add_at_time(&mut self, scraper: GlobalPluginScraper, dbjobsobj: DbJobsObj, now: usize)
        requires
            old(self).wf(),
            add_allowed(old(self)@, scraper, dbjobsobj),
        ensures
            final(self).wf(),
            add_outcome(old(self)@, final(self)@, scraper, dbjobsobj, now),
    {
        let ghost old_v = self@;
        let ghost job0 = dbjobsobj;
        let ghost k = scraper_view(scraper);
        let mut dbjobsobj = dbjobsobj;
        let is_scr = match &scraper.storage_type {
            Some(ScraperOrPlugin::Scraper(_)) => true,
            _ => false,
        };
        if !is_scr {
            return ;
        }
        let obj = PreviouslySeenObj {
            site: dbjobsobj.site.clone(),
            params: clone_params(&dbjobsobj.param),
            time: dbjobsobj.time,
            reptime: dbjobsobj.reptime,
        };
        assert(obj@ == seen_of(dbjobsobj));
        let pos = self.site_index(&scraper);
        match pos {
            Some(i) => {
                proof {
                    self.lemma_entry(i as int);
                }
                let has_seen = match &self.site_job[i].2 {
                    Some(_) => true,
                    None => false,
                };
                if has_seen && self.seen_blocks_at(i, &obj, &dbjobsobj) {
                    return ;
                }
            },
            None => {},
        }
        assert(add_checks_pass(old_v, scraper, job0));
        let rep = dbjobsobj.reptime.unwrap();
        if now < dbjobsobj.time + rep {
            return ;
        }
        if dbjobsobj.id.is_none() {
            let id = job_table_add(&mut self.db, &dbjobsobj);
            dbjobsobj.id = Some(id);
        }
        assert(dbjobsobj == with_id(job0, queue_id(old_v.db, job0)));
        let ghost jv = job_view(dbjobsobj);
        let ghost sv = obj@;
        assert(self@.entries == old_v.entries);
        match pos {
            Some(i) => {
                proof {
                    self.lemma_entry(i as int);
                }
                let present = contains_job(&self.site_job[i].1, &dbjobsobj);
                let ghost e = old_v.entries[i as int];
                if !present {
                    self.site_job[i].1.push(dbjobsobj);
                }
                let ghost mid_jobs = self.site_job@[i as int].1@;
                proof {
                    assert(jobs_view(mid_jobs) =~= set_add(e.1, jv));
                }
                let had = match &self.site_job[i].2 {
                    Some(_) => true,
                    None => false,
                };
                if had {
                    match &mut self.site_job[i].2 {
                        Some(l) => {
                            l.push(obj);
                        },
                        None => {},
                    }
                } else {
                    let mut l: Vec<PreviouslySeenObj> = Vec::new();
                    l.push(obj);
                    self.site_job[i].2 = Some(l);
                }
                proof {
                    let ne = self.site_job@[i as int];
                    assert(jobs_view(ne.1@) == jobs_view(mid_jobs));
                    match e.2 {
                        Some(s) => {
                            assert(ne.2->0@.map_values(|o: PreviouslySeenObj| o@) =~= s.push(sv));
                        },
                        None => {
                            assert(ne.2->0@.map_values(|o: PreviouslySeenObj| o@) =~= seq![sv]);
                        },
                    }
                    assert(self@.entries =~= put_entry(old_v.entries, scraper, jv, sv));
                    assert forall|a: int, b: int|
                        0 <= a < self@.entries.len() && 0 <= b < self@.entries.len() && a != b implies (
                        #[trigger] self@.entries[a]).0 != (#[trigger] self@.entries[b]).0 by {
                        assert(self@.entries[a].0 == old_v.entries[a].0);
                        assert(self@.entries[b].0 == old_v.entries[b].0);
                    }
                }
            },
            None => {
                let mut list: Vec<DbJobsObj> = Vec::new();
                list.push(dbjobsobj);
                let mut l: Vec<PreviouslySeenObj> = Vec::new();
                l.push(obj);
                assert(jobs_view(list@) =~= seq![jv]);
                assert(l@.map_values(|o: PreviouslySeenObj| o@) =~= seq![sv]);
                self.site_job.push((scraper, list, Some(l)));
                proof {
                    assert(self@.entries =~= put_entry(old_v.entries, scraper, jv, sv));
                    assert forall|a: int, b: int|
                        0 <= a < self@.entries.len() && 0 <= b < self@.entries.len() && a != b implies (
                        #[trigger] self@.entries[a]).0 != (#[trigger] self@.entries[b]).0 by {
                        if a < old_v.entries.len() {
                            assert(self@.entries[a] == old_v.entries[a]);
                        }
                        if b < old_v.entries.len() {
                            assert(self@.entries[b] == old_v.entries[b]);
                        }
                    }
                }
            },
        }
    }

    /// Offers `dbjobsobj` to the queue of `scraper` at the time the machine's
    /// clock reads; see `jobs_add_at_time`.
    pub fn jobs_add(&mut self, scraper: GlobalPluginScraper, dbjobsobj: DbJobsObj)
        requires
            old(self).wf(),
            add_allowed(old(self)@, scraper, dbjobsobj),
        ensures
            final(self).wf(),
            exists|now: usize| add_outcome(old(self)@, final(self)@, scraper, dbjobsobj, now),
    {
        let now = crate::time_func::time_secs();
        self.jobs_add_at_time(scraper, dbjobsobj, now);
    }

    /// Counts down the queued job of `scraper` equal to `data`: a job that
    /// recurs on a timer with a count has it lowered by one, and at zero it
    /// is removed from the queue and the job table; nothing else changes.
    pub fn jobs_decrement_count(&mut self, data: &DbJobsObj, scraper: &GlobalPluginScraper, worker_id: &usize)
        requires
            old(self).wf(),
        ensures
            final(self).wf(),
            final(self)@ == decremented(old(self)@, scraper_view(*scraper), *data),
    {
        let ghost old_v = self@;
        let ghost k = scraper_view(*scraper);
        match self.site_index(scraper) {
            None => {},
            Some(i) => {
                proof {
                    self.lemma_entry(i as int);
                }
                if !contains_job(&self.site_job[i].1, data) {
                    return ;
                }
                match &data.jobmanager.recreation {
                    Some(DbJobRecreation::AlwaysTime(w, Some(c))) => {
                        if *c == 0 {
                            self.jobs_remove_dbjob(scraper, data, worker_id);
                        } else {
                            let newjob = copy_job_with_recreation(
                                data,
                                Some(DbJobRecreation::AlwaysTime(*w, Some(*c - 1))),
                            );
                            assert(job_view(newjob) == counted_down(*data, *w, *c));
                            let _ = self.remove_in_entry(i, data, false);
                            proof {
                                self.lemma_len();
                                self.lemma_entry(i as int);
                            }
                            let ghost js1 = self@.entries[i as int].1;
                            let ghost mid_e = self@.entries;
                            let ghost mid_sj = self.site_job@;
                            let ghost lst = self.site_job@[i as int].1@;
                            let ghost nj = newjob;
                            assert(js1 == jobs_view(lst));
                            let present = contains_job(&self.site_job[i].1, &newjob);
                            if !present {
                                self.site_job[i].1.push(newjob);
                                assert(self.site_job@[i as int].1@ == lst.push(nj));
                                assert(jobs_view(lst.push(nj)) =~= jobs_view(lst).push(job_view(nj)));
                            } else {
                                assert(self.site_job@[i as int].1@ == lst);
                            }
                            assert(job_view(nj) == counted_down(*data, *w, *c));
                            proof {
                                self.lemma_len();
                                self.lemma_entry(i as int);
                                assert(jobs_view(self.site_job@[i as int].1@) =~= set_add(
                                    js1,
                                    counted_down(*data, *w, *c),
                                ));
                                assert forall|a: int| 0 <= a < mid_e.len() && a != i implies self@.entries[a] == mid_e[a] by {
                                    assert(self.site_job@[a] == mid_sj[a]);
                                }
                                assert(self@.entries =~= mid_e.update(
                                    i as int,
                                    (mid_e[i as int].0, set_add(js1, counted_down(*data, *w, *c)), mid_e[i as int].2),
                                ));
                                assert(self@.entries =~= old_v.with_jobs(
                                    k,
                                    set_add(
                                        without_job(old_v.entries[i as int].1, job_view(*data)),
                                        counted_down(*data, *w, *c),
                                    ),
                                ));
                                assert forall|a: int, b: int|
                                    0 <= a < self@.entries.len() && 0 <= b < self@.entries.len() && a
                                        != b implies (#[trigger] self@.entries[a]).0 != (
                                #[trigger] self@.entries[b]).0 by {
                                    assert(self@.entries[a].0 == old_v.entries[a].0);
                                    assert(self@.entries[b].0 == old_v.entries[b].0);
                                }
                            }
                        }
                    },
                    _ => {},
                }
            },
        }
    }
}

} // verus!

verus! {

/// A job once queued for a scraper is remembered: offering the same job to
/// that scraper again, at any time, changes nothing.
pub proof fn law_requeue_is_noop(
    v0: JobsView,
    v1: JobsView,
    v2: JobsView,
    scraper: GlobalPluginScraper,
    job: DbJobsObj,
    now1: usize,
    now2: usize,
)
    requires
        v0.wf(),
        v1.wf(),
        add_checks_pass(v0, scraper, job),
        job_due(job, now1),
        add_outcome(v0, v1, scraper, job, now1),
        add_outcome(v1, v2, scraper, job, now2),
    ensures
        v2 == v1,
{
    let k = scraper_view(scraper);
    let obj = seen_of(job);
    if has_scraper(v0.entries, k) {
        let i = scraper_at(v0.entries, k);
        assert(v1.entries[i].0 == k);
        lemma_scraper_at(v1.entries, k, i);
        let s = v1.entries[i].2->0;
        match v0.entries[i].2 {
            Some(old_s) => {
                assert(s == old_s.push(obj));
                assert(s[old_s.len() as int] == obj);
            },
            None => {
                assert(s == seq![obj]);
                assert(s[0] == obj);
            },
        }
        assert(s.contains(obj));
    } else {
        let i = v0.entries.len() as int;
        assert(v1.entries[i] == (k, seq![job_view(with_id(job, queue_id(v0.db, job)))], Some(seq![obj])));
        lemma_scraper_at(v1.entries, k, i);
        assert(v1.entries[i].2->0[0] == obj);
        assert(v1.entries[i].2->0.contains(obj));
    }
    assert(seen_blocks(v1.seen_of(k)->0, job));
    assert(!add_checks_pass(v1, scraper, job));
}

/// A plugin's job is never queued, remembered or written to the job table.
pub proof fn law_plugin_jobs_ignored(
    v0: JobsView,
    v1: JobsView,
    scraper: GlobalPluginScraper,
    job: DbJobsObj,
    now: usize,
)
    requires
        !is_scraper(scraper),
        add_outcome(v0, v1, scraper, job, now),
    ensures
        v1 == v0,
{
}

/// After a job is queued for a scraper, that scraper's set of jobs holds it,
/// with the id it came with or the one the table gave it.
pub proof fn law_queued_job_found(
    v0: JobsView,
    v1: JobsView,
    scraper: GlobalPluginScraper,
    job: DbJobsObj,
    now: usize,
)
    requires
        v0.wf(),
        v1.wf(),
        add_checks_pass(v0, scraper, job),
        job_due(job, now),
        add_outcome(v0, v1, scraper, job, now),
    ensures
        v1.jobs_of(scraper_view(scraper)) is Some,
        v1.jobs_of(scraper_view(scraper))->0.contains(job_view(with_id(job, queue_id(v0.db, job)))),
{
    let k = scraper_view(scraper);
    let q = job_view(with_id(job, queue_id(v0.db, job)));
    if has_scraper(v0.entries, k) {
        let i = scraper_at(v0.entries, k);
        assert(v1.entries[i].0 == k);
        lemma_scraper_at(v1.entries, k, i);
        if !v0.entries[i].1.contains(q) {
            let n = v0.entries[i].1.len() as int;
            assert(v1.entries[i].1[n] == q);
        }
    } else {
        let i = v0.entries.len() as int;
        assert(v1.entries[i].0 == k);
        lemma_scraper_at(v1.entries, k, i);
        assert(v1.entries[i].1[0] == q);
    }
}

/// Once a job is taken out of a scraper's queue, it is not in the queue.
pub proof fn law_removed_job_gone(js: Seq<JobView>, j: JobView)
    ensures
        !without_job(js, j).contains(j),
{
    lemma_keep_refuses(js, j, None, false, j);
}

/// Once the jobs with an id leave a queue, no job with that id is left.
pub proof fn law_removed_id_gone(js: Seq<JobView>, id: Option<usize>, j: JobView)
    requires
        j.id == id,
    ensures
        !without_id(js, id).contains(j),
{
    lemma_keep_refuses(js, arbitrary(), id, true, j);
}


/// The stored jobs with ids below `n` whose site is `site`, each offered to
/// the scraper `s`, by ascending id.
pub open spec fn site_offers(s: GlobalPluginScraper, site: Seq<char>, table: Map<usize, DbJobsObj>, n: nat) -> Seq<
    (ScraperView, JobView),
>
    decreases n,
{
    if n == 0 {
        Seq::empty()
    } else {
        let id = (n - 1) as usize;
        site_offers(s, site, table, (n - 1) as nat) + if table.contains_key(id) && table[id].site@ == site {
            seq![(scraper_view(s), job_view(table[id]))]
        } else {
            Seq::empty()
        }
    }
}

/// The jobs to load for the scrapers and their sites in `pairs`: for each
/// pair in order whose scraper is a scraper (not a plugin), the stored jobs
/// of its site below `n`, by ascending id.
pub open spec fn load_offers(pairs: Seq<(GlobalPluginScraper, String)>, table: Map<usize, DbJobsObj>, n: nat) -> Seq<
    (ScraperView, JobView),
>
    decreases pairs.len(),
{
    if pairs.len() == 0 {
        Seq::empty()
    } else {
        let p = pairs.last();
        load_offers(pairs.drop_last(), table, n) + if p.0.storage_type matches Some(ScraperOrPlugin::Scraper(_)) {
            site_offers(p.0, p.1@, table, n)
        } else {
            Seq::empty()
        }
    }
}

/// The view of a list of offers.
pub open spec fn offers_view(v: Seq<(GlobalPluginScraper, DbJobsObj)>) -> Seq<(ScraperView, JobView)> {
    v.map_values(|o: (GlobalPluginScraper, DbJobsObj)| (scraper_view(o.0), job_view(o.1)))
}

impl Jobs {
    /// The stored jobs to queue when loading, each with the scraper that
    /// runs it: a job goes to every scraper (not plugin) whose site is the
    /// job's site. Pairs are taken in order, and the jobs of one pair by
    /// ascending id; `jobs_add` queues each.
    pub fn jobs_load_offers(&self, scraper_sites: &Vec<(GlobalPluginScraper, String)>) -> (res: Vec<
        (GlobalPluginScraper, DbJobsObj),
    >)
        requires
            self.wf(),
        ensures
            offers_view(res@) == load_offers(scraper_sites@, self@.db.jobs, self@.db.jobs_max as nat),
    {
        let ghost table = self@.db.jobs;
        let max = *self.db.jobs_get_max();
        let all = self.db.jobs_get_all();
        let mut out: Vec<(GlobalPluginScraper, DbJobsObj)> = Vec::new();
        let mut p: usize = 0;
        while p < scraper_sites.len()
            invariant
                p <= scraper_sites.len(),
                all@ == table,
                max == self@.db.jobs_max,
                table == self@.db.jobs,
                offers_view(out@) == load_offers(scraper_sites@.take(p as int), table, max as nat),
            decreases scraper_sites.len() - p,
        {
            let ghost before = out@;
            let pair = &scraper_sites[p];
            let is_scr = match &pair.0.storage_type {
                Some(ScraperOrPlugin::Scraper(_)) => true,
                _ => false,
            };
            proof {
                assert(scraper_sites@.take(p + 1).drop_last() =~= scraper_sites@.take(p as int));
                assert(scraper_sites@.take(p + 1).last() == scraper_sites@[p as int]);
            }
            if is_scr {
                let mut id: usize = 0;
                while id < max
                    invariant
                        id <= max,
                        all@ == table,
                        offers_view(out@) == offers_view(before) + site_offers(
                            pair.0,
                            pair.1@,
                            table,
                            id as nat,
                        ),
                    decreases max - id,
                {
                    let ghost mid = out@;
                    match all.get(&id) {
                        Some(job) => {
                            if job.site == pair.1 {
                                out.push((copy_scraper(&pair.0), copy_job(job)));
                                assert(offers_view(out@) =~= offers_view(mid).push(
                                    (scraper_view(pair.0), job_view(*job)),
                                ));
                            }
                        },
                        None => {},
                    }
                    id = id + 1;
                }
            }
            p = p + 1;
        }
        assert(scraper_sites@.take(scraper_sites.len() as int) =~= scraper_sites@);
        out
    }
}


proof fn lemma_site_offers_match(s: GlobalPluginScraper, site: Seq<char>, table: Map<usize, DbJobsObj>, n: nat, k: int)
    requires
        0 <= k < site_offers(s, site, table, n).len(),
    ensures
        site_offers(s, site, table, n)[k].0 == scraper_view(s),
        site_offers(s, site, table, n)[k].1.site == site,
        exists|id: usize| #[trigger] table.contains_key(id) && id < n && job_view(table[id]) == site_offers(
            s,
            site,
            table,
            n,
        )[k].1,
    decreases n,
{
    let prev = site_offers(s, site, table, (n - 1) as nat);
    if k < prev.len() {
        lemma_site_offers_match(s, site, table, (n - 1) as nat, k);
        assert(site_offers(s, site, table, n)[k] == prev[k]);
    } else {
        let id = (n - 1) as usize;
        assert(table.contains_key(id) && id < n);
    }
}

/// Every job offered when loading is a stored job, offered to a scraper (not
/// a plugin) of the pairs whose site is the job's site.
pub proof fn law_load_offers_match_sites(
    pairs: Seq<(GlobalPluginScraper, String)>,
    table: Map<usize, DbJobsObj>,
    n: nat,
    k: int,
)
    requires
        0 <= k < load_offers(pairs, table, n).len(),
    ensures
        exists|i: int|
            0 <= i < pairs.len() && is_scraper((#[trigger] pairs[i]).0)
                && scraper_view(pairs[i].0) == load_offers(pairs, table, n)[k].0
                && pairs[i].1@ == load_offers(pairs, table, n)[k].1.site,
        exists|id: usize| #[trigger] table.contains_key(id) && id < n && job_view(table[id]) == load_offers(
            pairs,
            table,
            n,
        )[k].1,
    decreases pairs.len(),
{
    let prev = load_offers(pairs.drop_last(), table, n);
    let o = load_offers(pairs, table, n);
    if k < prev.len() {
        law_load_offers_match_sites(pairs.drop_last(), table, n, k);
        assert(o[k] == prev[k]);
        let i = choose|i: int|
            0 <= i < pairs.drop_last().len() && is_scraper((#[trigger] pairs.drop_last()[i]).0) && scraper_view(pairs.drop_last()[i].0) == prev[k].0 && pairs.drop_last()[i].1@ == prev[k].1.site;
        assert(pairs[i] == pairs.drop_last()[i]);
    } else {
        let i = pairs.len() - 1;
        let p = pairs[i];
        lemma_site_offers_match(p.0, p.1@, table, n, k - prev.len());
        assert(o[k] == site_offers(p.0, p.1@, table, n)[k - prev.len()]);
    }
}

} // verus!
