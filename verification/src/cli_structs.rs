//! The values the command line hands over when a job is added: how the job
//! is recreated after it runs.

use crate::sharedtypes;
use vstd::prelude::*;

verus! {

/// A tag id with an optional time.
#[derive(Debug, Clone, PartialEq, Eq, Hash)]
pub struct IdTimestamp {
    pub id: usize,
    pub timestamp: Option<usize>,
}

/// A time in seconds before the job runs again, and how many times it runs.
#[derive(Debug, Clone, PartialEq, Eq, Hash)]
pub struct Timestamp {
    pub timestamp: usize,
    pub count: Option<usize>,
}

/// A tag by name and namespace id, with an optional time.
#[derive(Debug, Clone, PartialEq, Eq, Hash)]
pub struct TagClap {
    pub name: String,
    pub namespace: usize,
    pub timestamp: Option<usize>,
}

/// When a job added from the command line is recreated.
#[derive(Debug, Clone, PartialEq, Eq, Hash)]
pub enum DbJobRecreationClap {
    OnTagId(IdTimestamp),
    OnTagExist(TagClap),
    /// Spawns the job again after it ran.
    AlwaysTime(Timestamp),
}


/// The command line: one command, if any.
#[derive(Debug)]
pub struct MainWrapper {
    pub a: Option<Test>,
}

/// The commands.
#[derive(Debug)]
pub enum Test {
    /// Manages jobs in the database.
    Job(JobStruct),
    /// Searches the database.
    Search(SearchStruct),
    /// Tasks to perform.
    Tasks(TasksStruct),
}

/// The tasks.
#[derive(Debug)]
pub enum TasksStruct {
    /// Manages a CSV file.
    Csv(CsvStruct),
    /// Database tasks.
    Database(Database),
    /// Reimports a directory for a scraper.
    Reimport(Reimport),
    /// Scraper actions.
    Scraper(ScraperAction),
    /// Imports a file into the database.
    Import(Directory),
}

/// What the scraping of a job is.
#[derive(Debug, Clone, Copy, PartialEq, Eq, Hash, Structural)]
pub enum DbJobType {
    /// A param query.
    Params,
    /// Runs a plugin directly.
    Plugin,
    /// A url to a file.
    FileUrl,
    /// Sent to a scraper.
    Scraper,
}

/// Scraper actions.
#[derive(Debug)]
pub enum ScraperAction {
    /// Tests a scraper.
    Test(ScraperTest),
}

/// A scraper test: the scraper, the action and its input.
#[derive(Debug)]
pub struct ScraperTest {
    pub scraper: String,
    pub action_type: DbJobType,
    pub input: Option<String>,
}

/// A folder and the site it came from.
#[derive(Debug)]
pub struct DirectoryLocation {
    pub location: String,
    pub site: String,
}

/// A folder to import, and what to do with its files.
#[derive(Debug)]
pub struct Directory {
    pub location: String,
    pub file_action: sharedtypes::FileAction,
}

/// What to reimport.
#[derive(Debug)]
pub enum Reimport {
    DirectoryLocation(DirectoryLocation),
}

/// Database tasks.
#[derive(Debug)]
pub enum Database {
    Remove(NamespaceInfo),
    RemoveWhereNot(NamespaceInfo),
    /// Compresses the tags and relationships.
    CompressDatabase,
    /// Checks the in-memory database.
    CheckInMemdb,
    /// Checks the files on disk.
    CheckFiles,
    /// Backs the database up to the folder the settings name.
    BackupDB,
}

/// A namespace by name or by id.
#[derive(Debug)]
pub enum NamespaceInfo {
    NamespaceString(NamespaceString),
    NamespaceId(NamespaceId),
}

/// A namespace name.
#[derive(Debug)]
pub struct NamespaceString {
    pub namespace_string: String,
}

/// A namespace id.
#[derive(Debug)]
pub struct NamespaceId {
    pub namespace_id: usize,
}

/// CSV tasks.
#[derive(Debug)]
pub enum CsvStruct {
    Csv,
}

/// Job commands.
#[derive(Debug)]
pub enum JobStruct {
    /// Adds a job.
    Add(JobAddStruct),
    /// Adds jobs in bulk.
    AddBulk(JobBulkAddStruct),
    /// Removes a job.
    Remove(JobRemovalStruct),
}

/// Jobs added in bulk: each item is put into the query where `{inject}` is.
#[derive(Debug)]
pub struct JobBulkAddStruct {
    pub site: String,
    pub query: String,
    pub time: String,
    pub jobtype: Option<sharedtypes::DbJobType>,
    pub bulkadd: Vec<String>,
    pub recursion: Option<DbJobRecreationClap>,
    pub system_data: Option<Vec<String>>,
}

/// A job's type and recreation as the command line gives them.
#[derive(Debug, Clone, PartialEq, Eq, Hash)]
pub struct DbJobsManagerClap {
    pub jobtype: DbJobType,
    pub recreation: Option<DbJobRecreationClap>,
}

/// A job to add: site, query, time, type, system data and recreation.
#[derive(Debug, Clone)]
pub struct JobAddStruct {
    pub site: String,
    pub query: String,
    pub time: String,
    pub jobtype: Option<sharedtypes::DbJobType>,
    pub system_data: Vec<String>,
    pub recursion: Option<DbJobRecreationClap>,
}

/// A job to remove.
#[derive(Debug)]
pub struct JobRemovalStruct {
    pub site: String,
    pub query: String,
    pub time: String,
    pub loops: String,
}

/// Searches.
#[derive(Debug)]
pub enum SearchStruct {
    /// By file id.
    Fid(Id),
    /// By tag id.
    Tid(Id),
    /// By tag name and namespace.
    Tag(Tag),
    /// By hash.
    Hash(Hashy),
    /// Parent relations of a tag.
    Parent(Parent),
}

/// A tag by name and namespace id.
#[derive(Debug)]
pub struct Parent {
    pub tag: String,
    pub namespace: usize,
}

/// A tag by name and namespace name.
#[derive(Debug)]
pub struct Tag {
    pub tag: String,
    pub namespace: String,
}

/// An id.
#[derive(Debug, Clone, PartialEq, Eq, Hash)]
pub struct Id {
    pub id: usize,
}

/// A hash.
#[derive(Debug)]
pub struct Hashy {
    pub hash: String,
}

} // verus!
