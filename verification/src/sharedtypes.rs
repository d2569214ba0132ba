//! Data types shared by the database, the job manager, the scrapers and the
//! plugins.

use std::collections::BTreeMap;
use std::collections::HashSet;
use vstd::prelude::*;

verus! {

/// Default priority of a scraper.
pub const DEFAULT_PRIORITY: usize = 5;

/// Default cache time of a job: `None` means the job is not cached.
pub const DEFAULT_CACHETIME: Option<usize> = None;

/// How a job is deduplicated when it is added.
///
/// A job that equals one already seen is always skipped.
#[derive(Debug, Hash, Eq, PartialEq, Clone, Copy, Structural)]
pub enum JobCacheType {
    /// Time, repeat time and params must all match for a job to be skipped.
    TimeReptimeParam,
    /// Matching params alone make a job be skipped.
    Param,
}

/// Default deduplication of a job.
pub open spec fn default_cachecheck() -> JobCacheType {
    JobCacheType::TimeReptimeParam
}

#[derive(Debug, Hash, Eq, PartialEq, Clone, Copy, Structural)]
pub enum GreqLeqOrEq {
    GreaterThan,
    LessThan,
    Equal,
}

#[derive(Debug, Clone, Copy, PartialEq, Eq, Structural)]
pub enum CheckSourceUrlsEnum {
    /// Just print the suspected urls
    Print,
    /// Delete the bad suspect urls
    Delete,
}

/// The conditions that decide which enclave triggers.
#[derive(Debug, PartialEq, Eq)]
pub enum EnclaveCondition {
    Any,
    NoCondition,
    FileSizeGreater(usize),
    FileSizeLessthan(usize),
    TagNameAndNamespace((String, String)),
}

/// The conditions at which an enclave stops processing.
#[derive(Debug, Clone, Copy, PartialEq, Eq, Structural)]
pub enum EnclaveStopCondition {
    /// A location to put the file was found.
    FileDownloadLocation,
}

#[derive(Debug, PartialEq, Eq)]
pub enum EnclaveAction {
    DownloadToLocation(usize),
    AddTagAndNamespace((String, GenericNamespaceObj, TagType, Option<SubTag>)),
    DownloadToDefault,
    /// Puts an item at the default location without downloading it.
    PutAtDefault,
}

/// A tag: its name and the id of its namespace.
#[derive(Debug, PartialEq, Eq, PartialOrd, Ord, Hash, Clone)]
pub struct DbTagNNS {
    pub name: String,
    pub namespace: usize,
}

/// A tag with its id.
#[derive(Debug, Clone, PartialEq, Eq)]
pub struct DbTagObjCompatability {
    pub id: usize,
    pub name: String,
    pub namespace: usize,
}

/// What a search can look for.
#[derive(Debug, Clone, PartialEq, Eq)]
pub enum Search {
    Fid(Vec<String>),
    Tid(Vec<String>),
    Tag(Vec<String>),
    Hash(Vec<String>),
}

#[derive(Debug)]
pub enum Tasks {
    /// CSV import: copy, move or hardlink.
    Csv(String, CsvCopyMvHard),
    Remove(TasksRemove),
}

#[derive(Debug, Clone, PartialEq, Eq)]
pub enum TasksRemove {
    RemoveNamespaceId(usize),
    RemoveNamespaceString(String),
    NoRemoval,
}

/// The login a site needs.
#[derive(Debug, Clone, Eq, Hash, PartialEq, Ord, PartialOrd)]
pub enum LoginType {
    Cookie(String, Option<String>),
    Api(String, Option<String>),
    ApiNamespaced(String, Option<String>, Option<String>),
    Login(String, Option<(String, String)>),
    Other(String, Option<String>),
}

/// Whether a login is needed to access a site or only nice to have.
#[derive(Debug, Clone, Copy, Eq, Hash, PartialEq, Ord, PartialOrd, Structural)]
pub enum LoginNeed {
    Required,
    Optional,
}

#[derive(Debug, Clone, Eq, Hash, PartialEq)]
pub enum StoredInfo {
    Storage(Vec<(String, String)>),
}

/// Scraper information in the merged plugin/scraper description.
#[derive(Debug, Eq, Hash, PartialEq)]
pub struct ScraperInfo {
    /// Rate limit of this site: a number of requests per duration.
    pub ratelimit: (u64, std::time::Duration),
    pub sites: Vec<String>,
    pub priority: usize,
    /// How many threads scrape a page; `None` uses as many as there are cores.
    pub num_threads: Option<usize>,
    pub modifiers: Vec<ScraperModifiers>,
}

/// Modifiers added to a scraper job.
#[derive(Debug, Eq, Hash, PartialEq)]
pub enum ScraperModifiers {
    /// A user agent for scraping text or pulling site info.
    TextUseragent(String),
    /// A user agent for downloading media.
    MediaUseragent(String),
    /// A header added to a media download.
    MediaHeader((String, String)),
}

/// Plugin information in the merged plugin/scraper description.
#[derive(Debug, Clone, Eq, Hash, PartialEq)]
pub struct PluginInfo2 {
    pub com_channel: bool,
    /// If this site exists, processed data goes to its scraper instead of the plugin.
    pub redirect: Option<String>,
}

/// Plugin or scraper data.
#[derive(Debug, Clone, Eq, Hash, PartialEq)]
pub enum ScraperOrPlugin {
    Scraper(ScraperInfo),
    Plugin(PluginInfo2),
}

/// The description of a scraper or a plugin.
#[derive(Debug, Clone, Eq, Hash, PartialEq)]
pub struct GlobalPluginScraper {
    /// Human readable name of the site.
    pub name: String,
    pub version: usize,
    pub should_handle_file_download: bool,
    pub should_handle_text_scraping: bool,
    pub should_send_files_on_scrape: bool,
    /// Data needed to access restricted content.
    pub login_type: Vec<(String, LoginType, LoginNeed, Option<String>, bool)>,
    pub stored_info: Option<StoredInfo>,
    pub callbacks: Vec<GlobalCallbacks>,
    /// Whether this is a plugin or a scraper, with its data.
    pub storage_type: Option<ScraperOrPlugin>,
}

/// The default description: empty name, version 0, no flags, no logins, no
/// stored info, no callbacks and no storage type.
pub fn return_default_globalpluginparser() -> (res: GlobalPluginScraper)
    ensures
        res.name@ == Seq::<char>::empty(),
        res.version == 0,
        !res.should_handle_file_download,
        !res.should_handle_text_scraping,
        !res.should_send_files_on_scrape,
        res.login_type@ == Seq::<(String, LoginType, LoginNeed, Option<String>, bool)>::empty(),
        res.stored_info is None,
        res.callbacks@ == Seq::<GlobalCallbacks>::empty(),
        res.storage_type is None,
{
    GlobalPluginScraper {
        name: String::new(),
        version: 0,
        should_handle_file_download: false,
        should_handle_text_scraping: false,
        should_send_files_on_scrape: false,
        login_type: Vec::new(),
        stored_info: None,
        callbacks: Vec::new(),
        storage_type: None,
    }
}

/// The default job: no id, time 0, repeat time 0, default priority, cache
/// time and deduplication, empty site and params, a `NoScrape` job manager
/// without recreation, not running, and no system or user data.
pub fn return_default_jobsobj() -> (res: DbJobsObj)
    ensures
        res.id is None,
        res.time == 0,
        res.reptime == Some(0usize),
        res.priority == DEFAULT_PRIORITY,
        res.cachetime == DEFAULT_CACHETIME,
        res.cachechecktype == default_cachecheck(),
        res.site@ == Seq::<char>::empty(),
        res.param@ == Seq::<ScraperParam>::empty(),
        res.jobmanager.jobtype == DbJobType::NoScrape,
        res.jobmanager.recreation is None,
        !res.isrunning,
        res.system_data@ == Map::<String, String>::empty(),
        res.user_data@ == Map::<String, String>::empty(),
{
    DbJobsObj {
        id: None,
        time: 0,
        reptime: Some(0),
        priority: DEFAULT_PRIORITY,
        cachetime: DEFAULT_CACHETIME,
        cachechecktype: JobCacheType::TimeReptimeParam,
        site: String::new(),
        param: Vec::new(),
        jobmanager: DbJobsManager { jobtype: DbJobType::NoScrape, recreation: None },
        isrunning: false,
        system_data: BTreeMap::new(),
        user_data: BTreeMap::new(),
    }
}

/// How a function is run.
#[derive(Debug, Clone, Copy, Eq, Hash, PartialEq, Structural)]
pub enum StartupThreadType {
    /// Runs the plugin and waits until it finishes.
    Inline,
    /// Spawns a new thread that runs beside the caller.
    Spawn,
    /// Waits for on_start to finish, beside the other on_start functions.
    SpawnInline,
}

/// What a CSV import does with the files.
#[derive(Debug, Clone, Copy, PartialEq, Eq, Structural)]
pub enum CsvCopyMvHard {
    Copy,
    Move,
    Hardlink,
}

/// Which table the database loads.
#[derive(PartialEq, Eq, Debug, Clone, Copy, Structural)]
pub enum LoadDBTable {
    Files,
    Jobs,
    Namespace,
    Parents,
    Relationship,
    Settings,
    Tags,
    DeadSourceUrls,
    /// All tables that are not loaded yet.
    All,
}

#[derive(Debug, Clone, PartialEq, Eq)]
pub enum SearchHolder {
    And(Vec<usize>),
    Or(Vec<usize>),
    Not(Vec<usize>),
}

/// A search in the database. `search_relate` relates the entries of
/// `searches` to one another by their positions.
#[derive(Debug, Clone, PartialEq, Eq)]
pub struct SearchObj {
    pub search_relate: Option<Vec<SearchHolder>>,
    pub searches: Vec<SearchHolder>,
}

#[derive(Debug, Clone, Copy, PartialEq, Hash, Eq, Structural)]
pub enum ScraperType {
    Manual,
    Automatic,
}

#[derive(Debug, Clone, PartialEq, Eq)]
pub enum ScraperReturn {
    /// Stop at once: an issue with the site.
    EMCStop(String),
    /// Nothing to search: move to the next job.
    Nothing,
    /// Stop the current job, record the issue, move on.
    Stop(String),
    /// Wait this many seconds before retrying.
    Timeout(u64),
}

#[derive(Debug, Clone, Copy, PartialEq, Eq, Structural)]
pub enum Flags {
    Redo,
}

/// What a scraper hands back to the internal scraper.
#[derive(Debug)]
pub struct ScraperObject {
    pub file: HashSet<FileObject>,
    pub tag: HashSet<TagObject>,
    pub flag: Vec<Flags>,
}

/// Data handed to a job.
#[derive(Debug, Clone, Eq, PartialEq, Hash, Ord, PartialOrd)]
pub struct ScraperData {
    pub job: JobScraper,
    pub system_data: BTreeMap<String, String>,
    pub user_data: BTreeMap<String, String>,
}

/// What is needed to reimport a file to derive a source URL.
#[derive(Debug, Clone, PartialEq, Eq)]
pub struct ScraperFileRegen {
    pub hash: HashesSupported,
}

/// What a scraper reads of a file in the system.
#[derive(Debug, Clone, PartialEq, Eq)]
pub struct ScraperFileInput {
    pub hash: Option<String>,
    pub ext: Option<String>,
}

/// What a scraper hands back for a file.
#[derive(Debug, Clone, PartialEq, Eq)]
pub struct ScraperFileReturn {
    pub tag: Option<GenericNamespaceObj>,
}

/// A file in the database.
#[derive(Debug, Clone, Eq, Hash, PartialEq)]
pub struct DbFileObj {
    pub id: usize,
    pub hash: String,
    pub ext_id: usize,
    pub storage_id: usize,
}

/// A file whose id is not known.
#[derive(Debug, Clone, Eq, Hash, PartialEq)]
pub struct DbFileObjNoId {
    pub hash: String,
    pub ext_id: usize,
    pub storage_id: usize,
}

/// How much of a file is known.
#[derive(Debug, Clone, Eq, Hash, PartialEq)]
pub enum DbFileStorage {
    /// The complete file.
    Exist(DbFileObj),
    /// The file without its id.
    NoIdExist(DbFileObjNoId),
    /// Only the id.
    NoExist(usize),
    /// Nothing is known.
    NoExistUnknown,
}

/// A file as a plugin reports it.
#[derive(Debug, Clone, PartialEq, Eq)]
pub struct PluginFileObj {
    pub id: Option<usize>,
    pub hash: Option<String>,
    pub ext: Option<String>,
    pub location: Option<String>,
}

/// A namespace.
#[derive(Debug, Clone, PartialEq, Eq)]
pub struct DbNamespaceObj {
    pub id: usize,
    pub name: String,
    pub description: Option<String>,
}

/// A job.
#[derive(Debug, Hash, Eq, PartialEq, Clone)]
pub struct DbJobsObj {
    /// Id of the job, once it has one.
    pub id: Option<usize>,
    /// Time the job was added.
    pub time: usize,
    /// Interval after which the job runs again.
    pub reptime: Option<usize>,
    /// Higher values run first.
    pub priority: usize,
    /// How long the job stays in the cache.
    pub cachetime: Option<usize>,
    /// How jobs are deduplicated.
    pub cachechecktype: JobCacheType,
    /// Site of the job.
    pub site: String,
    /// Params handed to the scraper or plugin.
    pub param: Vec<ScraperParam>,
    /// How the job is managed.
    pub jobmanager: DbJobsManager,
    /// Whether the job is running.
    pub isrunning: bool,
    /// Data for the system only.
    pub system_data: BTreeMap<String, String>,
    /// Data a scraper or plugin may edit; kept between runs.
    pub user_data: BTreeMap<String, String>,
}

/// Type of a job and when it is recreated.
#[derive(Debug, Hash, Eq, PartialEq, Clone, Ord, PartialOrd)]
pub struct DbJobsManager {
    pub jobtype: DbJobType,
    pub recreation: Option<DbJobRecreation>,
}

/// When a job is recreated.
#[derive(Debug, Hash, Eq, PartialEq, Clone, Ord, PartialOrd)]
pub enum DbJobRecreation {
    OnTagId(usize, Option<usize>),
    OnTag(String, usize, Option<usize>),
    /// The wait between runs and a count: with `None` the job is never
    /// removed; at zero it is removed.
    AlwaysTime(usize, Option<usize>),
}

/// Type of a job.
#[derive(Debug, Copy, Hash, Eq, PartialEq, Clone, Ord, PartialOrd, Structural)]
pub enum DbJobType {
    /// A param query.
    Params,
    /// Runs a plugin directly.
    Plugin,
    /// A url to a file that needs no scraper.
    FileUrl,
    /// Sent to a scraper.
    Scraper,
    /// Not scraped from the network.
    NoScrape,
}

/// A parent relation: `tag_id` relates to `relate_tag_id`, optionally only
/// as far as `limit_to` goes.
#[derive(Debug, PartialEq, Eq, PartialOrd, Ord, Hash, Clone, Copy, Structural)]
pub struct DbParentsObj {
    pub tag_id: usize,
    pub relate_tag_id: usize,
    pub limit_to: Option<usize>,
}

/// A relationship between a file and a tag.
#[derive(Debug, Clone, Copy, PartialEq, Eq, Structural)]
pub struct DbRelationshipObj {
    pub fileid: usize,
    pub tagid: usize,
}

/// A setting.
#[derive(Debug, Clone, PartialEq, Eq)]
pub struct DbSettingObj {
    pub name: String,
    pub pretty: Option<String>,
    pub num: Option<usize>,
    pub param: Option<String>,
}

/// A search term.
#[derive(Debug, Clone, PartialEq, Eq)]
pub struct DbSearchObject {
    pub tag: String,
    pub namespace: Option<String>,
    pub namespace_id: Option<usize>,
}

/// How two search terms combine.
#[derive(Debug, Clone, Copy, PartialEq, Eq, Structural)]
pub enum DbSearchTypeEnum {
    And,
    Or,
}

/// A search over two terms.
#[derive(Debug, Clone, PartialEq, Eq)]
pub struct DbSearchQuery {
    pub tag_one: DbSearchObject,
    pub tag_two: DbSearchObject,
    pub search_enum: DbSearchTypeEnum,
}

/// A relationship as a plugin reports it.
#[derive(Debug, Clone, PartialEq, Eq)]
pub struct DbPluginRelationshipObj {
    pub file_hash: String,
    pub tag_name: String,
    pub tag_namespace: String,
}

#[derive(Debug, Clone, PartialEq, Eq)]
pub enum DBPluginOutputEnum {
    Add(Vec<DBPluginOutput>),
    Del(Vec<DBPluginOutput>),
    NoOutput,
}

#[derive(PartialEq, Eq, Debug, Clone)]
pub struct DBPluginTagOut {
    pub name: String,
    pub parents: Option<Vec<DbPluginParentsObj>>,
    pub namespace: String,
}

/// A parent relation as a plugin reports it.
#[derive(Debug, PartialEq, Eq, Clone)]
pub struct DbPluginParentsObj {
    pub tag_namespace_string: String,
    pub relate_namespace_id: String,
    pub relate_tag_id: String,
}

/// What an import does with a file.
#[derive(Debug, Clone, Copy, PartialEq, Eq, Structural)]
pub enum FileAction {
    /// Copies the file.
    Copy,
    /// Moves the file into the database.
    Move,
    /// Hardlinks the file into the database.
    HardLink,
}

/// What a plugin hands back.
#[derive(Debug, Clone, PartialEq, Eq)]
pub struct DBPluginOutput {
    pub tag: Vec<TagObject>,
    pub setting: Vec<DbSettingObj>,
    pub relationship: Vec<DbPluginRelationshipObj>,
    pub jobs: Vec<DbJobsObj>,
    pub file: Vec<PluginFileObj>,
}

#[derive(Debug, Eq, Hash, PartialEq, Clone)]
pub enum FileSource {
    Url(String),
    Bytes(Vec<u8>),
}

/// One file.
#[derive(Debug, Eq, Hash, PartialEq, Clone)]
pub struct FileObject {
    pub source: Option<FileSource>,
    /// Hash of the file.
    pub hash: HashesSupported,
    pub tag_list: Vec<TagObject>,
    /// The download is skipped if one of these matches.
    pub skip_if: Vec<SkipIf>,
}

#[derive(Debug, Eq, Hash, PartialEq, Clone)]
pub enum SourceOrUrl {
    Url(String),
    File(Vec<u8>),
}

/// How a tag is searched: for a substring or by a regular expression.
#[derive(Clone, Debug, Hash, PartialEq, Eq)]
pub enum SearchType {
    String(String),
    Regex(String),
}

/// A tag with what it relates to.
#[derive(Debug, Eq, PartialEq, Hash, Clone)]
pub struct TagObject {
    pub namespace: GenericNamespaceObj,
    pub tag: String,
    pub tag_type: TagType,
    pub relates_to: Option<SubTag>,
}

#[derive(Debug, Eq, PartialEq, Hash, Clone)]
pub struct SubTag {
    pub namespace: GenericNamespaceObj,
    pub tag: String,
    pub limit_to: Option<Tag>,
    pub tag_type: TagType,
}

#[derive(Debug, Eq, PartialEq, Hash, Clone)]
pub struct GenericNamespaceObj {
    pub name: String,
    pub description: Option<String>,
}

/// What a tag is for the parser.
#[derive(Debug, Eq, Hash, PartialEq)]
pub enum TagType {
    /// A normal tag.
    Normal,
    /// A normal tag on which no regex runs.
    NormalNoRegex,
    /// A url for a scraper to download and parse.
    ParseUrl((ScraperData, Option<SkipIf>)),
    Special,
}

#[derive(Debug, Clone, PartialEq, Eq, Hash)]
pub struct Tag {
    pub tag: String,
    pub namespace: GenericNamespaceObj,
}

/// When a `ParseUrl` tag is skipped.
#[derive(Debug, PartialEq, Eq, Hash)]
pub enum SkipIf {
    /// A relationship between any file and the tag exists.
    FileTagRelationship(Tag),
    /// The tag is unique and its file has at least this many tags of the namespace.
    FileNamespaceNumber((Tag, GenericNamespaceObj, usize)),
    /// A file with this hash exists.
    FileHash(String),
}

#[derive(Debug, Clone, PartialEq, Eq, Hash, Ord, PartialOrd)]
pub struct JobScraper {
    pub site: String,
    pub param: Vec<ScraperParam>,
    pub job_type: DbJobType,
}

/// The hashes the system supports, each with its expected hex digest.
#[derive(Debug, Clone, Eq, Hash, PartialEq)]
pub enum HashesSupported {
    Md5(String),
    Sha1(String),
    Sha256(String),
    Sha512(String),
    NoHash,
}

#[derive(Debug, Clone, PartialEq, Eq)]
pub struct JobsAdd {
    pub site: String,
    pub query: String,
    pub time: String,
}

#[derive(Debug, Clone, PartialEq, Eq)]
pub struct JobsRemove {
    pub site: String,
    pub query: String,
    pub time: String,
}

#[derive(Debug)]
pub enum AllFields {
    JobsAdd(JobsAdd),
    JobsRemove(JobsRemove),
    Search(Search),
    Nothing,
    Tasks(Tasks),
}

/// Plugin actions for callbacks.
#[derive(Debug, PartialEq, Eq, Hash, Clone)]
pub enum PluginCallback {
    /// Runs when a file is downloaded.
    Download,
    /// Runs when the software starts.
    Start(StartupThreadType),
    /// Gets or registers a login.
    LoginNeeded,
    /// A custom callback between plugins.
    Callback(CallbackInfo),
    /// Runs when a tag exists.
    Tag(Vec<(Option<SearchType>, Option<String>, Option<String>)>),
}

#[derive(Debug, PartialEq, Eq, Hash)]
pub enum GlobalCallbacks {
    /// Runs when a file is downloaded.
    Download,
    /// Runs when a file is imported by hand.
    Import,
    /// Runs when the software starts.
    Start(StartupThreadType),
    /// Gets or registers a login.
    LoginNeeded,
    /// A custom callback between plugins.
    Callback(CallbackInfo),
    /// Runs when a tag exists.
    Tag((Option<SearchType>, Vec<String>, Vec<String>)),
}

/// What a live plugin receives in a callback.
#[derive(Debug, PartialEq, Eq, Hash)]
pub struct CallbackInfoInput {
    /// Version of the call; the plugin handles it.
    pub vers: usize,
    /// Names of the variables.
    pub data_name: Vec<String>,
    /// Values of the variables.
    pub data: Vec<CallbackCustomDataReturning>,
}

/// A callback of a live plugin.
#[derive(Debug, PartialEq, Clone, Eq, Hash)]
pub struct CallbackInfo {
    pub func: String,
    pub vers: usize,
    pub data_name: Vec<String>,
    pub data: Vec<CallbackCustomData>,
}

/// The kinds of data a plugin receives.
#[derive(Debug, PartialEq, Eq, Hash, Clone, Copy, Structural)]
pub enum CallbackCustomData {
    String,
    U8,
    Usize,
    VString,
    VU8,
    VUsize,
    VCallback,
}

/// The data sent to a plugin.
#[derive(Debug, PartialEq, Eq, Hash)]
pub enum CallbackCustomDataReturning {
    String(String),
    U8(Vec<u8>),
    Usize(usize),
    VString(Vec<String>),
    VU8(Vec<u8>),
    VUsize(Vec<usize>),
    VCallback(Vec<CallbackCustomDataReturning>),
}

#[derive(Debug, Clone, PartialEq, Eq)]
pub struct PluginSharedData {
    pub thread: StartupThreadType,
    pub com_channel: Option<PluginCommunicationChannel>,
}

#[derive(Debug, Clone, PartialEq, Eq)]
pub enum PluginCommunicationChannel {
    Pipe(String),
    NoChannel,
}

/// A param of a job.
#[derive(Debug, Clone, PartialEq, Eq, Hash, Ord, PartialOrd)]
pub enum ScraperParam {
    Normal(String),
    Url(String),
    Login(LoginType),
    Database(String),
}

impl Clone for EnclaveCondition {
    fn clone(&self) -> Self {
        match self {
            EnclaveCondition::Any => EnclaveCondition::Any,
            EnclaveCondition::NoCondition => EnclaveCondition::NoCondition,
            EnclaveCondition::FileSizeGreater(n) => EnclaveCondition::FileSizeGreater(*n),
            EnclaveCondition::FileSizeLessthan(n) => EnclaveCondition::FileSizeLessthan(*n),
            EnclaveCondition::TagNameAndNamespace(pair) => EnclaveCondition::TagNameAndNamespace(
                (pair.0.clone(), pair.1.clone()),
            ),
        }
    }
}

impl Clone for EnclaveAction {
    fn clone(&self) -> Self {
        match self {
            EnclaveAction::DownloadToLocation(n) => EnclaveAction::DownloadToLocation(*n),
            EnclaveAction::AddTagAndNamespace(t) => EnclaveAction::AddTagAndNamespace(
                (t.0.clone(), t.1.clone(), t.2.clone(), t.3.clone()),
            ),
            EnclaveAction::DownloadToDefault => EnclaveAction::DownloadToDefault,
            EnclaveAction::PutAtDefault => EnclaveAction::PutAtDefault,
        }
    }
}

impl Clone for ScraperInfo {
    fn clone(&self) -> Self {
        ScraperInfo {
            ratelimit: (self.ratelimit.0, self.ratelimit.1),
            sites: self.sites.clone(),
            priority: self.priority,
            num_threads: self.num_threads,
            modifiers: self.modifiers.clone(),
        }
    }
}

impl Clone for ScraperModifiers {
    fn clone(&self) -> Self {
        match self {
            ScraperModifiers::TextUseragent(s) => ScraperModifiers::TextUseragent(s.clone()),
            ScraperModifiers::MediaUseragent(s) => ScraperModifiers::MediaUseragent(s.clone()),
            ScraperModifiers::MediaHeader(h) => ScraperModifiers::MediaHeader(
                (h.0.clone(), h.1.clone()),
            ),
        }
    }
}

impl Clone for TagType {
    fn clone(&self) -> Self {
        match self {
            TagType::Normal => TagType::Normal,
            TagType::NormalNoRegex => TagType::NormalNoRegex,
            TagType::ParseUrl(p) => TagType::ParseUrl((p.0.clone(), p.1.clone())),
            TagType::Special => TagType::Special,
        }
    }
}

impl Clone for SkipIf {
    fn clone(&self) -> Self {
        match self {
            SkipIf::FileTagRelationship(t) => SkipIf::FileTagRelationship(t.clone()),
            SkipIf::FileNamespaceNumber(t) => SkipIf::FileNamespaceNumber(
                (t.0.clone(), t.1.clone(), t.2),
            ),
            SkipIf::FileHash(h) => SkipIf::FileHash(h.clone()),
        }
    }
}

impl Clone for GlobalCallbacks {
    fn clone(&self) -> Self {
        match self {
            GlobalCallbacks::Download => GlobalCallbacks::Download,
            GlobalCallbacks::Import => GlobalCallbacks::Import,
            GlobalCallbacks::Start(t) => GlobalCallbacks::Start(*t),
            GlobalCallbacks::LoginNeeded => GlobalCallbacks::LoginNeeded,
            GlobalCallbacks::Callback(c) => GlobalCallbacks::Callback(c.clone()),
            GlobalCallbacks::Tag(t) => GlobalCallbacks::Tag((t.0.clone(), t.1.clone(), t.2.clone())),
        }
    }
}

} // verus!
