//! The first in-memory database: every table is a map from a counter id to
//! its rows, beside a map from names to ids where a table is looked up by name.

use crate::sharedtypes;
use crate::sharedtypes::{DbJobsObj, DbSettingObj, PluginFileObj};
use std::collections::BTreeMap;
use std::collections::HashMap;
use std::collections::HashSet;
use vstd::hash_map::StringHashMap;
use vstd::prelude::*;

verus! {

broadcast use vstd::std_specs::hash::group_hash_axioms;

/// Whether a relationship lookup is keyed by a file or by a tag.
pub enum RelationshipFort {
    File(usize),
    Tag(usize),
}

/// The first in-memory database.
pub struct newinmemdb {
    _tag_id_data: HashMap<usize, sharedtypes::DbTagNNS>,
    _tag_name_id: StringHashMap<usize>,
    _settings_id_data: HashMap<usize, DbSettingObj>,
    _settings_name_id: StringHashMap<usize>,
    _parents_id_data: HashMap<usize, sharedtypes::DbParentsObj>,
    _parents_name_id: StringHashMap<usize>,
    _jobs_id_data: HashMap<usize, DbJobsObj>,
    _jobs_name_id: StringHashMap<usize>,
    _namespace_id_data: HashMap<usize, sharedtypes::DbNamespaceObj>,
    _namespace_name_id: StringHashMap<usize>,
    _file_id_data: HashMap<usize, PluginFileObj>,
    _file_name_id: StringHashMap<usize>,
    _relationship_file_tag: HashMap<usize, HashSet<usize>>,
    _relationship_tag_file: HashMap<usize, HashSet<usize>>,
    _tag_max: usize,
    _relationship_max: usize,
    _settings_max: usize,
    _parents_max: usize,
    _jobs_max: usize,
    _namespace_max: usize,
    _file_max: usize,
}

impl newinmemdb {
    /// Tags by id.
    pub closed spec fn tags(&self) -> Map<usize, sharedtypes::DbTagNNS> {
        self._tag_id_data@
    }

    /// Settings by id.
    pub closed spec fn settings(&self) -> Map<usize, DbSettingObj> {
        self._settings_id_data@
    }

    /// Setting ids by name.
    pub closed spec fn setting_ids(&self) -> Map<Seq<char>, usize> {
        self._settings_name_id@
    }

    /// Jobs by id.
    pub closed spec fn jobs(&self) -> Map<usize, DbJobsObj> {
        self._jobs_id_data@
    }

    /// Files by id.
    pub closed spec fn files(&self) -> Map<usize, PluginFileObj> {
        self._file_id_data@
    }

    /// For a file, the tags it relates to.
    pub closed spec fn rel_file_tag(&self) -> Map<usize, HashSet<usize>> {
        self._relationship_file_tag@
    }

    /// For a tag, the files it relates to.
    pub closed spec fn rel_tag_file(&self) -> Map<usize, HashSet<usize>> {
        self._relationship_tag_file@
    }

    pub closed spec fn file_max(&self) -> usize {
        self._file_max
    }

    pub closed spec fn settings_max(&self) -> usize {
        self._settings_max
    }

    pub closed spec fn jobs_max_spec(&self) -> usize {
        self._jobs_max
    }

    /// Every setting name leads to a stored setting, and setting and job ids
    /// are below their counters.
    pub closed spec fn wf(&self) -> bool {
        &&& forall|n: Seq<char>| #[trigger] self._settings_name_id@.contains_key(n)
            ==> self._settings_id_data@.contains_key(self._settings_name_id@[n])
        &&& forall|k: usize| #[trigger] self._settings_id_data@.contains_key(k) ==> k < self._settings_max
        &&& forall|k: usize| #[trigger] self._jobs_id_data@.contains_key(k) ==> k < self._jobs_max
    }

    /// An empty database.
    pub fn new() -> (res: newinmemdb)
        ensures
            res.wf(),
            res.tags() == Map::<usize, sharedtypes::DbTagNNS>::empty(),
            res.settings() == Map::<usize, DbSettingObj>::empty(),
            res.setting_ids() == Map::<Seq<char>, usize>::empty(),
            res.jobs() == Map::<usize, DbJobsObj>::empty(),
            res.files() == Map::<usize, PluginFileObj>::empty(),
            res.rel_file_tag() == Map::<usize, HashSet<usize>>::empty(),
            res.rel_tag_file() == Map::<usize, HashSet<usize>>::empty(),
            res.file_max() == 0,
            res.settings_max() == 0,
            res.jobs_max_spec() == 0,
            jobs_fresh(res),
    {
        newinmemdb {
            _tag_name_id: StringHashMap::new(),
            _tag_id_data: HashMap::new(),
            _jobs_id_data: HashMap::new(),
            _file_id_data: HashMap::new(),
            _jobs_name_id: StringHashMap::new(),
            _file_name_id: StringHashMap::new(),
            _parents_id_data: HashMap::new(),
            _parents_name_id: StringHashMap::new(),
            _settings_name_id: StringHashMap::new(),
            _settings_id_data: HashMap::new(),
            _namespace_name_id: StringHashMap::new(),
            _namespace_id_data: HashMap::new(),
            _relationship_tag_file: HashMap::new(),
            _relationship_file_tag: HashMap::new(),
            _tag_max: 0,
            _settings_max: 0,
            _parents_max: 0,
            _jobs_max: 0,
            _namespace_max: 0,
            _file_max: 0,
            _relationship_max: 0,
        }
    }

    /// Stores a file under the file counter, returns that id and moves the
    /// counter on.
    pub fn file_put(
        &mut self,
        id: Option<usize>,
        hash: Option<String>,
        extension: Option<String>,
        location: Option<String>,
    ) -> (res: usize)
        requires
            old(self).wf(),
            old(self).file_max() < usize::MAX,
        ensures
            final(self).wf(),
            res == old(self).file_max(),
            final(self).file_max() == old(self).file_max() + 1,
            final(self).files() == old(self).files().insert(
                res,
                PluginFileObj { id, hash, ext: extension, location },
            ),
            final(self).settings() == old(self).settings(),
            final(self).setting_ids() == old(self).setting_ids(),
            final(self).jobs() == old(self).jobs(),
    {
        let file = PluginFileObj { id: id, hash: hash, ext: extension, location: location };
        let temp_max = self._file_max;
        self._file_id_data.insert(temp_max, file);
        self._file_max = temp_max + 1;
        temp_max
    }

    /// Returns the setting stored under a name.
    pub fn settings_get_name(self, id: &String) -> (res: Option<DbSettingObj>)
        requires
            self.wf(),
        ensures
            match res {
                Some(s) => self.setting_ids().contains_key(id@) && s == self.settings()[self.setting_ids()[id@]],
                None => !self.setting_ids().contains_key(id@),
            },
    {
        let key = match self._settings_name_id.get(id.as_str()) {
            None => {
                return None;
            },
            Some(k) => *k,
        };
        let mut data = self._settings_id_data;
        data.remove(&key)
    }

    /// A well formed database gives each name a stored setting below the
    /// setting counter.
    pub proof fn lemma_setting_ids_below(&self)
        requires
            self.wf(),
        ensures
            forall|n: Seq<char>| #[trigger] self.setting_ids().contains_key(n) ==> self.settings().contains_key(
                self.setting_ids()[n],
            ) && self.setting_ids()[n] < self.settings_max(),
    {
    }

    /// Stores a setting under the setting counter, enters its name in the name
    /// lookup so that `settings_get_name` returns it, and moves the counter on.
    pub fn settings_add(&mut self, name: String, pretty: String, num: usize, param: String)
        requires
            old(self).wf(),
            old(self).settings_max() < usize::MAX,
        ensures
            final(self).wf(),
            final(self).settings() == old(self).settings().insert(
                old(self).settings_max(),
                DbSettingObj { name, pretty: Some(pretty), num: Some(num), param: Some(param) },
            ),
            final(self).settings_max() == old(self).settings_max() + 1,
            final(self).setting_ids() == old(self).setting_ids().insert(name@, old(self).settings_max()),
            settings_added(
                *old(self),
                *final(self),
                DbSettingObj { name, pretty: Some(pretty), num: Some(num), param: Some(param) },
            ),
            forall|m: Seq<char>|
                m != name@ && #[trigger] old(self).setting_ids().contains_key(m)
                    ==> final(self).settings()[final(self).setting_ids()[m]]
                    == old(self).settings()[old(self).setting_ids()[m]],
            final(self).tags() == old(self).tags(),
            final(self).files() == old(self).files(),
            final(self).file_max() == old(self).file_max(),
            final(self).jobs() == old(self).jobs(),
            final(self).jobs_max_spec() == old(self).jobs_max_spec(),
            final(self).rel_file_tag() == old(self).rel_file_tag(),
            final(self).rel_tag_file() == old(self).rel_tag_file(),
    {
        let id = self._settings_max;
        self._settings_name_id.insert(name.clone(), id);
        let setting = DbSettingObj { name: name, pretty: Some(pretty), num: Some(num), param: Some(param) };
        self._settings_id_data.insert(id, setting);
        self._settings_max = id + 1;
    }

    /// Returns the files related to a tag.
    pub fn relationship_get_tagid(self, id: &usize) -> (res: HashSet<usize>)
        requires
            self.rel_tag_file().contains_key(*id),
        ensures
            res == self.rel_tag_file()[*id],
    {
        let mut m = self._relationship_tag_file;
        match m.remove(id) {
            Some(s) => s,
            None => HashSet::new(),
        }
    }

    /// Returns the tags related to a file.
    pub fn relationship_get_fileid(self, id: &usize) -> (res: HashSet<usize>)
        requires
            self.rel_file_tag().contains_key(*id),
        ensures
            res == self.rel_file_tag()[*id],
    {
        let mut m = self._relationship_file_tag;
        match m.remove(id) {
            Some(s) => s,
            None => HashSet::new(),
        }
    }

    /// Returns the job counter.
    pub fn jobs_max(self) -> (res: usize)
        ensures
            res == self.jobs_max_spec(),
    {
        self._jobs_max
    }

    /// Returns the job stored under an id.
    pub fn jobs_get(self, id: &usize) -> (res: Option<DbJobsObj>)
        ensures
            match res {
                Some(j) => self.jobs().contains_key(*id) && j == self.jobs()[*id],
                None => !self.jobs().contains_key(*id),
            },
    {
        let mut m = self._jobs_id_data;
        m.remove(id)
    }

    /// Stores a job for a site, with one normal param, the time it was added
    /// and its repeat time, under the job counter, and moves the counter on.
    /// Its other fields are those of the default job.
    pub fn jobref_new(
        &mut self,
        sites: String,
        params: String,
        jobstime: usize,
        jobsref: usize,
    )
        requires
            old(self).wf(),
            old(self).jobs_max_spec() < usize::MAX,
        ensures
            final(self).wf(),
            final(self).jobs_max_spec() == old(self).jobs_max_spec() + 1,
            final(self).jobs().dom() == old(self).jobs().dom().insert(old(self).jobs_max_spec()),
            ({
                let j = final(self).jobs()[old(self).jobs_max_spec()];
                &&& j.site == sites
                &&& j.param@ == seq![sharedtypes::ScraperParam::Normal(params)]
                &&& j.time == jobstime
                &&& j.reptime == Some(jobsref)
                &&& j.id is None
                &&& j.priority == sharedtypes::DEFAULT_PRIORITY
                &&& j.cachetime is None
                &&& j.cachechecktype == sharedtypes::default_cachecheck()
                &&& j.jobmanager.jobtype == sharedtypes::DbJobType::NoScrape
                &&& j.jobmanager.recreation is None
                &&& !j.isrunning
                &&& j.system_data@ == Map::<String, String>::empty()
                &&& j.user_data@ == Map::<String, String>::empty()
            }),
            forall|k: usize| #[trigger] old(self).jobs().contains_key(k)
                ==> final(self).jobs()[k] == old(self).jobs()[k],
            jobref_step(*old(self), *final(self)),
            final(self).files() == old(self).files(),
            final(self).settings() == old(self).settings(),
            final(self).setting_ids() == old(self).setting_ids(),
            final(self).tags() == old(self).tags(),
    {
        let job = DbJobsObj {
            id: None,
            time: jobstime,
            reptime: Some(jobsref),
            priority: sharedtypes::DEFAULT_PRIORITY,
            cachetime: None,
            cachechecktype: sharedtypes::JobCacheType::TimeReptimeParam,
            site: sites,
            param: vec![sharedtypes::ScraperParam::Normal(params)],
            jobmanager: sharedtypes::DbJobsManager {
                jobtype: sharedtypes::DbJobType::NoScrape,
                recreation: None,
            },
            isrunning: false,
            system_data: BTreeMap::new(),
            user_data: BTreeMap::new(),
        };
        let id = self._jobs_max;
        self._jobs_id_data.insert(id, job);
        self._jobs_max = id + 1;
    }

    /// Returns the tag stored under an id.
    pub fn tag_id_get(&mut self, id: &usize) -> (res: Option<&sharedtypes::DbTagNNS>)
        ensures
            match res {
                Some(t) => old(self).tags().contains_key(*id) && *t == old(self).tags()[*id],
                None => !old(self).tags().contains_key(*id),
            },
    {
        self._tag_id_data.get(id)
    }
}


/// The state of a database that `new` returns, as far as jobs go.
pub open spec fn jobs_fresh(db: newinmemdb) -> bool {
    &&& db.wf()
    &&& db.jobs() == Map::<usize, DbJobsObj>::empty()
    &&& db.jobs_max_spec() == 0
}

/// One call of `jobref_new` took the database `a` to `b`, as far as jobs go:
/// a job is stored under the counter and the stored jobs stay.
pub open spec fn jobref_step(a: newinmemdb, b: newinmemdb) -> bool {
    &&& b.wf()
    &&& b.jobs_max_spec() == a.jobs_max_spec() + 1
    &&& b.jobs().dom() == a.jobs().dom().insert(a.jobs_max_spec())
    &&& forall|k: usize| #[trigger] a.jobs().contains_key(k) ==> b.jobs()[k] == a.jobs()[k]
}

/// One call of `settings_add` of the setting `obj` took `a` to `b`.
pub open spec fn settings_added(a: newinmemdb, b: newinmemdb, obj: DbSettingObj) -> bool {
    &&& b.wf()
    &&& b.settings_max() == a.settings_max() + 1
    &&& b.settings() == a.settings().insert(a.settings_max(), obj)
    &&& b.setting_ids() == a.setting_ids().insert(obj.name@, a.settings_max())
}

/// The last setting of `objs` with the name `n`, if any.
pub open spec fn last_setting(objs: Seq<DbSettingObj>, n: Seq<char>) -> Option<DbSettingObj>
    decreases objs.len(),
{
    if objs.len() == 0 {
        None
    } else if objs.last().name@ == n {
        Some(objs.last())
    } else {
        last_setting(objs.drop_last(), n)
    }
}

/// After `new` and calls of `settings_add` with the settings `objs`, a name
/// leads to the last setting added under it, and a name never added leads
/// to none.
pub proof fn law_settings_history(dbs: Seq<newinmemdb>, objs: Seq<DbSettingObj>, n: Seq<char>)
    requires
        dbs.len() == objs.len() + 1,
        dbs[0].wf(),
        dbs[0].setting_ids() == Map::<Seq<char>, usize>::empty(),
        forall|i: int| 0 <= i < objs.len() ==> #[trigger] settings_added(dbs[i], dbs[i + 1], objs[i]),
    ensures
        dbs.last().setting_ids().contains_key(n) <==> last_setting(objs, n) is Some,
        last_setting(objs, n) matches Some(o) ==> dbs.last().settings()[dbs.last().setting_ids()[n]] == o,
    decreases objs.len(),
{
    if objs.len() > 0 {
        let pre = dbs.drop_last();
        let po = objs.drop_last();
        assert forall|i: int| 0 <= i < po.len() implies #[trigger] settings_added(pre[i], pre[i + 1], po[i]) by {
            assert(settings_added(dbs[i], dbs[i + 1], objs[i]));
        }
        law_settings_history(pre, po, n);
        let i: int = objs.len() - 1;
        assert(settings_added(dbs[i], dbs[i + 1], objs[i]));
        assert(pre.last() == dbs[i]);
        assert(dbs.last() == dbs[i + 1]);
        if i > 0 {
            let j: int = i - 1;
            assert(settings_added(dbs[j], dbs[j + 1], objs[j]));
            assert(dbs[j + 1] == dbs[i]);
        }
        dbs[i].lemma_setting_ids_below();
    }
}

/// After `new` and n calls of `jobref_new`, the job counter is n, the
/// stored jobs are exactly those with ids 0 to n - 1, and the job with id
/// k is the one the call numbered k stored.
pub proof fn law_jobref_run(dbs: Seq<newinmemdb>)
    requires
        dbs.len() >= 1,
        jobs_fresh(dbs[0]),
        forall|i: int| 0 <= i < dbs.len() - 1 ==> #[trigger] jobref_step(dbs[i], dbs[i + 1]),
    ensures
        dbs.last().jobs_max_spec() == dbs.len() - 1,
        forall|id: usize| dbs.last().jobs().contains_key(id) <==> id < dbs.len() - 1,
        forall|id: usize| id < dbs.len() - 1 ==> #[trigger] dbs.last().jobs()[id] == dbs[id + 1].jobs()[id],
    decreases dbs.len(),
{
    if dbs.len() > 1 {
        let pre = dbs.drop_last();
        assert forall|i: int| 0 <= i < pre.len() - 1 implies #[trigger] jobref_step(pre[i], pre[i + 1]) by {
            assert(jobref_step(dbs[i], dbs[i + 1]));
        }
        law_jobref_run(pre);
        let i: int = dbs.len() - 2;
        assert(jobref_step(dbs[i], dbs[i + 1]));
        assert(pre.last() == dbs[i]);
        assert(dbs.last() == dbs[i + 1]);
        assert forall|id: usize| id < dbs.len() - 1 implies #[trigger] dbs.last().jobs()[id] == dbs[id + 1].jobs()[id] by {
            if id < dbs.len() - 2 {
                assert(pre.last().jobs()[id] == pre[id + 1].jobs()[id]);
                assert(pre.last().jobs().contains_key(id));
                assert(pre[id + 1] == dbs[id + 1]);
            }
        }
    }
}

} // verus!
