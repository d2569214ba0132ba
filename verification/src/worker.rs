//! What a worker does with one queued job before it scrapes: whether the
//! job stays in the table, whether it is rescheduled, and which params it
//! scrapes. Downloads, plugin calls and the clock stay with the caller.

use crate::jobs::clone_params;
use crate::sharedtypes::{DbJobRecreation, DbJobType, DbJobsObj, Flags, ScraperParam};
use vstd::prelude::*;

verus! {

/// The params a job scrapes.
#[derive(Debug, PartialEq, Eq)]
pub enum JobWork {
    /// The params go to the scraper's plugin, which turns them into URLs.
    UrlDump,
    /// The job belongs to a plugin; the worker passes it by and leaves it
    /// queued.
    Skip,
    /// Each param is scraped as it is.
    Each(Vec<ScraperParam>),
    /// Nothing is scraped.
    Nothing,
}

/// What a worker does with a job.
#[derive(Debug, PartialEq, Eq)]
pub struct JobPlan {
    /// Whether the job stays in the job table once it has run: a job that is
    /// recreated stays.
    pub keep_in_table: bool,
    /// For a job recreated on a timer, its repeat time: it is counted down
    /// and stored again with that repeat time from now on.
    pub reschedule: Option<usize>,
    pub work: JobWork,
}

/// The params that `job` scrapes, by its type.
pub open spec fn work_of(job: DbJobsObj) -> Option<Seq<ScraperParam>> {
    match job.jobmanager.jobtype {
        DbJobType::NoScrape | DbJobType::Scraper => Some(job.param@),
        _ => None,
    }
}

/// Decides what a worker does with `job`.
pub fn job_plan(job: &DbJobsObj) -> (res: JobPlan)
    ensures
        res.keep_in_table == job.jobmanager.recreation is Some,
        res.reschedule == match job.jobmanager.recreation {
            Some(DbJobRecreation::AlwaysTime(t, _)) => Some(t),
            _ => None,
        },
        match job.jobmanager.jobtype {
            DbJobType::Params => res.work == JobWork::UrlDump,
            DbJobType::Plugin => res.work == JobWork::Skip,
            DbJobType::FileUrl => res.work == JobWork::Nothing,
            DbJobType::NoScrape | DbJobType::Scraper => res.work matches JobWork::Each(v) && v@ == job.param@,
        },
{
    let reschedule = match &job.jobmanager.recreation {
        Some(DbJobRecreation::AlwaysTime(t, _)) => Some(*t),
        _ => None,
    };
    let keep_in_table = match &job.jobmanager.recreation {
        Some(_) => true,
        None => false,
    };
    let work = match job.jobmanager.jobtype {
        DbJobType::Params => JobWork::UrlDump,
        DbJobType::Plugin => JobWork::Skip,
        DbJobType::FileUrl => JobWork::Nothing,
        DbJobType::NoScrape => JobWork::Each(clone_params(&job.param)),
        DbJobType::Scraper => JobWork::Each(clone_params(&job.param)),
    };
    JobPlan { keep_in_table, reschedule, work }
}


/// What a scraper handed back for one URL, item by item, as far as the
/// worker's decisions go.
#[derive(Debug, PartialEq, Eq)]
pub enum ReturnKind {
    /// Data, with its flags; its tags and files are processed.
    Data(Vec<Flags>),
    /// Nothing to search.
    Nothing,
    /// Stop the job.
    Stop,
    /// Wait this many seconds.
    Timeout(u64),
    /// Stop the program at once.
    Emergency,
}

/// One thing the worker does while it goes through the items.
#[derive(Debug, PartialEq, Eq, Clone, Copy, Structural)]
pub enum UrlAction {
    /// Process the tags and files of the data item at this index.
    Process(usize),
    /// Wait this many seconds.
    Sleep(u64),
}

/// Where the worker goes once it has gone through the items.
#[derive(Debug, PartialEq, Eq, Clone, Copy, Structural)]
pub enum UrlNext {
    /// On to the next URL of the job.
    NextUrl,
    /// The job's URLs are done.
    StopUrls,
    /// The same URL again.
    Retry,
    /// The program stops.
    Emergency,
}

/// What the worker does with what a scraper handed back for a URL.
#[derive(Debug, PartialEq, Eq)]
pub struct UrlPlan {
    pub actions: Vec<UrlAction>,
    pub next: UrlNext,
    /// Whether a data item asked for the job to be done again, so that it
    /// stays in the job table.
    pub redo: bool,
}

/// The plan once the items from `i` on are gone through, having done `acts`
/// and seen a redo flag when `redo`. Data is processed, and the last item
/// being data moves on to the next URL; nothing ends the URLs when it is the
/// last item and moves on to the next URL otherwise; a stop ends the URLs; a
/// timeout waits and goes on with the next item; running out of items tries
/// the URL again.
pub open spec fn plan_from(outs: Seq<ReturnKind>, i: int, acts: Seq<UrlAction>, redo: bool) -> (Seq<UrlAction>, UrlNext, bool)
    decreases outs.len() - i,
{
    if i < 0 || i >= outs.len() {
        (acts, UrlNext::Retry, redo)
    } else {
        let last = i == outs.len() - 1;
        match outs[i] {
            ReturnKind::Data(flags) => {
                let acts2 = acts.push(UrlAction::Process(i as usize));
                let redo2 = redo || flags@.len() > 0;
                if last {
                    (acts2, UrlNext::NextUrl, redo2)
                } else {
                    plan_from(outs, i + 1, acts2, redo2)
                }
            },
            ReturnKind::Nothing => (acts, if last {
                UrlNext::StopUrls
            } else {
                UrlNext::NextUrl
            }, redo),
            ReturnKind::Stop => (acts, UrlNext::StopUrls, redo),
            ReturnKind::Timeout(t) => plan_from(outs, i + 1, acts.push(UrlAction::Sleep(t)), redo),
            ReturnKind::Emergency => (acts, UrlNext::Emergency, redo),
        }
    }
}

/// The plan for what a scraper handed back: no items end the URLs.
pub open spec fn url_plan_spec(outs: Seq<ReturnKind>) -> (Seq<UrlAction>, UrlNext, bool) {
    if outs.len() == 0 {
        (Seq::empty(), UrlNext::StopUrls, false)
    } else {
        plan_from(outs, 0, Seq::empty(), false)
    }
}

/// Decides what the worker does with what a scraper handed back for a URL.
pub fn url_plan(outs: &Vec<ReturnKind>) -> (res: UrlPlan)
    ensures
        (res.actions@, res.next, res.redo) == url_plan_spec(outs@),
{
    if outs.len() == 0 {
        let actions: Vec<UrlAction> = Vec::new();
        assert(actions@ =~= Seq::<UrlAction>::empty());
        return UrlPlan { actions, next: UrlNext::StopUrls, redo: false };
    }
    let ghost goal = plan_from(outs@, 0, Seq::empty(), false);
    let mut actions: Vec<UrlAction> = Vec::new();
    let mut redo = false;
    let mut i: usize = 0;
    assert(actions@ =~= Seq::<UrlAction>::empty());
    while i < outs.len()
        invariant
            outs.len() > 0,
            i <= outs.len(),
            goal == plan_from(outs@, 0, Seq::empty(), false),
            goal == plan_from(outs@, i as int, actions@, redo),
        decreases outs.len() - i,
    {
        let last = i == outs.len() - 1;
        match &outs[i] {
            ReturnKind::Data(flags) => {
                actions.push(UrlAction::Process(i));
                redo = redo || flags.len() > 0;
                if last {
                    return UrlPlan { actions, next: UrlNext::NextUrl, redo };
                }
            },
            ReturnKind::Nothing => {
                let next = if last {
                    UrlNext::StopUrls
                } else {
                    UrlNext::NextUrl
                };
                return UrlPlan { actions, next, redo };
            },
            ReturnKind::Stop => {
                return UrlPlan { actions, next: UrlNext::StopUrls, redo };
            },
            ReturnKind::Timeout(t) => {
                actions.push(UrlAction::Sleep(*t));
            },
            ReturnKind::Emergency => {
                return UrlPlan { actions, next: UrlNext::Emergency, redo };
            },
        }
        i = i + 1;
    }
    UrlPlan { actions, next: UrlNext::Retry, redo }
}


/// Whether the action `a` processes a data item of `outs` that carries a flag.
pub open spec fn processes_flagged(outs: Seq<ReturnKind>, a: UrlAction) -> bool {
    match a {
        UrlAction::Process(i) => 0 <= i < outs.len() && (outs[i as int] matches ReturnKind::Data(f) && f@.len()
            > 0),
        UrlAction::Sleep(_) => false,
    }
}

/// The plan `p` extends the actions `acts`, and its redo is `redo` or a
/// flagged data item among the actions it added.
pub open spec fn plan_redo_ok(
    outs: Seq<ReturnKind>,
    acts: Seq<UrlAction>,
    redo: bool,
    p: (Seq<UrlAction>, UrlNext, bool),
) -> bool {
    &&& p.0.len() >= acts.len()
    &&& forall|k: int| 0 <= k < acts.len() ==> p.0[k] == acts[k]
    &&& (p.2 <==> redo || exists|k: int| acts.len() <= k < p.0.len() && #[trigger] processes_flagged(outs, p.0[k]))
}

proof fn lemma_redo_push(
    outs: Seq<ReturnKind>,
    acts: Seq<UrlAction>,
    redo: bool,
    x: UrlAction,
    redo2: bool,
    p: (Seq<UrlAction>, UrlNext, bool),
)
    requires
        plan_redo_ok(outs, acts.push(x), redo2, p),
        redo2 == (redo || processes_flagged(outs, x)),
    ensures
        plan_redo_ok(outs, acts, redo, p),
{
    let acts2 = acts.push(x);
    assert(p.0[acts.len() as int] == acts2[acts.len() as int]);
    assert forall|k: int| 0 <= k < acts.len() implies p.0[k] == acts[k] by {
        assert(p.0[k] == acts2[k]);
    }
    if p.2 && !redo && !processes_flagged(outs, x) {
        let k = choose|k: int| acts2.len() <= k < p.0.len() && #[trigger] processes_flagged(outs, p.0[k]);
        assert(acts.len() <= k);
    }
    if processes_flagged(outs, x) {
        assert(processes_flagged(outs, p.0[acts.len() as int]));
    }
    if !p.2 {
        assert forall|k: int| acts.len() <= k < p.0.len() implies !#[trigger] processes_flagged(outs, p.0[k]) by {
            if k == acts.len() {
            } else {
                assert(acts2.len() <= k);
            }
        }
    }
}

proof fn lemma_plan_from_redo(outs: Seq<ReturnKind>, i: int, acts: Seq<UrlAction>, redo: bool)
    requires
        0 <= i,
        outs.len() <= usize::MAX,
    ensures
        plan_redo_ok(outs, acts, redo, plan_from(outs, i, acts, redo)),
    decreases outs.len() - i,
{
    if i < outs.len() {
        let last = i == outs.len() - 1;
        match outs[i] {
            ReturnKind::Data(flags) => {
                let x = UrlAction::Process(i as usize);
                let acts2 = acts.push(x);
                let kept = (redo || flags@.len() > 0);
                assert(processes_flagged(outs, x) == (flags@.len() > 0));
                if !last {
                    lemma_plan_from_redo(outs, i + 1, acts2, kept);
                    assert(plan_from(outs, i, acts, redo) == plan_from(outs, i + 1, acts2, kept));
                    lemma_redo_push(outs, acts, redo, x, kept, plan_from(outs, i + 1, acts2, kept));
                } else {
                    let p = (acts2, UrlNext::NextUrl, kept);
                    assert(plan_from(outs, i, acts, redo) == p);
                    assert(plan_redo_ok(outs, acts2, kept, p));
                    lemma_redo_push(outs, acts, redo, x, kept, p);
                }
            },
            ReturnKind::Timeout(t) => {
                let x = UrlAction::Sleep(t);
                let acts2 = acts.push(x);
                lemma_plan_from_redo(outs, i + 1, acts2, redo);
                assert(plan_from(outs, i, acts, redo) == plan_from(outs, i + 1, acts2, redo));
                lemma_redo_push(outs, acts, redo, x, redo, plan_from(outs, i + 1, acts2, redo));
            },
            _ => {},
        }
    }
}

/// A job is kept for another run exactly when a data item that the worker
/// processes for the URL carries a flag: one flagged item is enough, and
/// items after the worker stops do not count.
pub proof fn law_url_plan_redo(outs: Seq<ReturnKind>)
    requires
        outs.len() <= usize::MAX,
    ensures
        ({
            let (a, _, r) = url_plan_spec(outs);
            r <==> exists|k: int| 0 <= k < a.len() && #[trigger] processes_flagged(outs, a[k])
        }),
{
    if outs.len() > 0 {
        lemma_plan_from_redo(outs, 0, Seq::empty(), false);
    }
}

/// Every data item up to the one where the worker stops is processed, in
/// order: the actions name each data item before the stop, and a flagged one
/// among them keeps the job.
pub proof fn law_url_plan_flagged_item_keeps_job(outs: Seq<ReturnKind>, j: int)
    requires
        outs.len() <= usize::MAX,
        0 <= j < outs.len(),
        outs[j] matches ReturnKind::Data(f) && f@.len() > 0,
        forall|m: int| 0 <= m < j ==> (#[trigger] outs[m] is Data || outs[m] is Timeout),
    ensures
        url_plan_spec(outs).2,
{
    lemma_plan_prefix_processed(outs, 0, Seq::empty(), false, j);
    law_url_plan_redo(outs);
    let (a, _, r) = url_plan_spec(outs);
    let k = choose|k: int| 0 <= k < a.len() && a[k] == UrlAction::Process(j as usize);
    assert(processes_flagged(outs, a[k]));
}

proof fn lemma_plan_prefix_processed(outs: Seq<ReturnKind>, i: int, acts: Seq<UrlAction>, redo: bool, j: int)
    requires
        outs.len() <= usize::MAX,
        0 <= i <= j < outs.len(),
        outs[j] is Data,
        forall|m: int| i <= m < j ==> (#[trigger] outs[m] is Data || outs[m] is Timeout),
    ensures
        exists|k: int|
            0 <= k < plan_from(outs, i, acts, redo).0.len() && plan_from(outs, i, acts, redo).0[k]
                == UrlAction::Process(j as usize),
    decreases outs.len() - i,
{
    lemma_plan_from_redo(outs, i, acts, redo);
    let last = i == outs.len() - 1;
    match outs[i] {
        ReturnKind::Data(flags) => {
            let acts2 = acts.push(UrlAction::Process(i as usize));
            let kept = (redo || flags@.len() > 0);
            if i == j {
                if last {
                    assert(acts2[acts.len() as int] == UrlAction::Process(j as usize));
                } else {
                    lemma_plan_from_redo(outs, i + 1, acts2, kept);
                    let a = plan_from(outs, i + 1, acts2, kept).0;
                    assert(a[acts.len() as int] == acts2[acts.len() as int]);
                }
            } else {
                lemma_plan_prefix_processed(outs, i + 1, acts2, kept, j);
            }
        },
        ReturnKind::Timeout(t) => {
            lemma_plan_prefix_processed(outs, i + 1, acts.push(UrlAction::Sleep(t)), redo, j);
        },
        _ => {},
    }
}


/// Whether the worker stops at the item `x`: nothing, a stop, or an
/// emergency.
pub open spec fn halts(x: ReturnKind) -> bool {
    x is Nothing || x is Stop || x is Emergency
}

/// What the worker does for the item `x` at position `i` before it stops:
/// waits for a timeout, processes anything else.
pub open spec fn item_action(x: ReturnKind, i: int) -> UrlAction {
    match x {
        ReturnKind::Timeout(t) => UrlAction::Sleep(t),
        _ => UrlAction::Process(i as usize),
    }
}

/// Where the worker goes when it stops at position `j` (`j` is the length
/// when no item halts it): no items end the URLs; a halting item ends them
/// for a stop, stops the program for an emergency, and for nothing ends
/// them when it is the last item and moves to the next URL otherwise; going
/// through all items moves on when the last is data and retries the URL
/// when it is a timeout.
pub open spec fn next_at(outs: Seq<ReturnKind>, j: int) -> UrlNext {
    if outs.len() == 0 {
        UrlNext::StopUrls
    } else if j < outs.len() {
        match outs[j] {
            ReturnKind::Stop => UrlNext::StopUrls,
            ReturnKind::Emergency => UrlNext::Emergency,
            _ => if j == outs.len() - 1 {
                UrlNext::StopUrls
            } else {
                UrlNext::NextUrl
            },
        }
    } else if outs.last() is Data {
        UrlNext::NextUrl
    } else {
        UrlNext::Retry
    }
}

proof fn lemma_plan_actions(outs: Seq<ReturnKind>, i: int, acts: Seq<UrlAction>, redo: bool, j: int)
    requires
        outs.len() <= usize::MAX,
        0 <= i <= j <= outs.len(),
        i < j || j < outs.len(),
        forall|m: int| 0 <= m < j ==> !halts(#[trigger] outs[m]),
        j < outs.len() ==> halts(outs[j]),
    ensures
        plan_from(outs, i, acts, redo).0 == acts + Seq::new(
            (j - i) as nat,
            |k: int| item_action(outs[i + k], i + k),
        ),
        plan_from(outs, i, acts, redo).1 == next_at(outs, j),
    decreases outs.len() - i,
{
    let tail = Seq::new((j - i) as nat, |k: int| item_action(outs[i + k], i + k));
    let p = plan_from(outs, i, acts, redo);
    if i == j {
        assert(acts + tail =~= acts);
        let x = outs[i];
        assert(halts(x));
        match x {
            ReturnKind::Nothing => {
                assert(p == (acts, if i == outs.len() - 1 { UrlNext::StopUrls } else { UrlNext::NextUrl }, redo));
            },
            ReturnKind::Stop => {
                assert(p == (acts, UrlNext::StopUrls, redo));
            },
            ReturnKind::Emergency => {
                assert(p == (acts, UrlNext::Emergency, redo));
            },
            _ => {},
        }
    } else {
        let x = outs[i];
        assert(!halts(x));
        let rest = Seq::new((j - (i + 1)) as nat, |k: int| item_action(outs[i + 1 + k], i + 1 + k));
        let y = item_action(x, i);
        assert(acts.push(y) + rest =~= acts + tail);
        match x {
            ReturnKind::Data(flags) => {
                let r2 = redo || flags@.len() > 0;
                assert(y == UrlAction::Process(i as usize));
                if i + 1 == outs.len() {
                    assert(j == outs.len());
                    assert(acts.push(y) =~= acts + tail);
                    assert(p == (acts.push(y), UrlNext::NextUrl, r2));
                    assert(outs.last() == x);
                } else {
                    assert(p == plan_from(outs, i + 1, acts.push(y), r2));
                    lemma_plan_actions(outs, i + 1, acts.push(y), r2, j);
                }
            },
            ReturnKind::Timeout(t) => {
                assert(y == UrlAction::Sleep(t));
                assert(p == plan_from(outs, i + 1, acts.push(y), redo));
                if i + 1 == outs.len() {
                    assert(j == outs.len());
                    assert(acts.push(y) =~= acts + tail);
                    assert(plan_from(outs, i + 1, acts.push(y), redo) == (acts.push(y), UrlNext::Retry, redo));
                    assert(outs.last() == x);
                } else {
                    lemma_plan_actions(outs, i + 1, acts.push(y), redo, j);
                }
            },
            _ => {},
        }
    }
}

/// The worker goes through the items up to the first one that halts it:
/// each data item before it is processed and each timeout waited for, in
/// order, and nothing after it is; where it then goes is `next_at`.
pub proof fn law_url_plan_actions(outs: Seq<ReturnKind>, j: int)
    requires
        outs.len() <= usize::MAX,
        0 <= j <= outs.len(),
        forall|m: int| 0 <= m < j ==> !halts(#[trigger] outs[m]),
        j < outs.len() ==> halts(outs[j]),
    ensures
        url_plan_spec(outs).0 == Seq::new(j as nat, |k: int| item_action(outs[k], k)),
        url_plan_spec(outs).1 == next_at(outs, j),
{
    if outs.len() > 0 {
        lemma_plan_actions(outs, 0, Seq::empty(), false, j);
        assert(Seq::<UrlAction>::empty() + Seq::new(j as nat, |k: int| item_action(outs[0 + k], 0 + k))
            =~= Seq::new(j as nat, |k: int| item_action(outs[k], k)));
    } else {
        assert(Seq::<UrlAction>::empty() =~= Seq::new(j as nat, |k: int| item_action(outs[k], k)));
    }
}

} // verus!
