//! The messages exchanged between a client and the database server.

use crate::sharedtypes;
use std::collections::HashSet;
use vstd::prelude::*;

verus! {

/// Name of the local socket the server listens on.
pub const SOCKET_NAME: &'static str = "RustHydrus.sock";

#[derive(Debug, Clone, Copy, PartialEq, Eq, Structural)]
pub enum EComType {
    SendOnly,
    RecieveOnly,
    BiDirectional,
    NoCom,
}

#[derive(Debug, Clone, Copy, PartialEq, Eq, Structural)]
pub enum EControlSigs {
    /// Sending data to and fro.
    Send,
    /// Come to a stop naturally.
    Halt,
    /// Stop now.
    Break,
}

/// The main communication block.
#[derive(Debug, Clone, Copy, PartialEq, Eq, Structural)]
pub struct Coms {
    pub com_type: EComType,
    pub control: EControlSigs,
}

/// The database operations a client can ask for.
#[derive(Debug, PartialEq, Eq)]
pub enum SupportedDBRequests {
    GetTagId(usize),
    PutTag(String, usize, bool, Option<usize>),
    PutTagRelationship(usize, String, usize, bool, Option<usize>),
    GetTagName((String, usize)),
    RelationshipAdd(usize, usize, bool),
    RelationshipRemove(usize, usize),
    RelationshipGetTagid(usize),
    RelationshipGetFileid(usize),
    GetFile(usize),
    GetFileExt(usize),
    GetFileHash(String),
    GetNamespace(String),
    CreateNamespace(String, Option<String>, bool),
    GetNamespaceTagIDs(usize),
    GetNamespaceString(usize),
    SettingsGetName(String),
    SettingsSet(String, Option<String>, Option<usize>, Option<String>, bool),
    LoadTable(sharedtypes::LoadDBTable),
    TestUsize(),
    GetFileListId(),
    GetFileListAll(),
    TransactionFlush(),
    GetDBLocation(),
    Logging(String),
    LoggingNoPrint(String),
    Search((sharedtypes::SearchObj, Option<usize>, Option<usize>)),
    GetFileByte(usize),
    GetFileLocation(usize),
    NamespaceContainsId(usize, usize),
    FilterNamespaceById((HashSet<usize>, usize)),
    PluginCallback(String, usize, sharedtypes::CallbackInfoInput),
    ReloadLoadedPlugins(),
    ParentsGet((ParentsType, usize)),
    ParentsDelete(sharedtypes::DbParentsObj),
    ParentsPut(sharedtypes::DbParentsObj),
    PutJob(sharedtypes::DbJobsObj),
    GetJob(usize),
    PutFile((sharedtypes::FileObject, (u64, std::time::Duration))),
    PutFileNoBlock((sharedtypes::FileObject, (u64, std::time::Duration))),
    ReloadRegex,
    GetNamespaceIDsAll,
}

/// Which side of a parent relation is asked for.
#[derive(Debug, Clone, Copy, PartialEq, Eq, Structural)]
pub enum ParentsType {
    Tag,
    Rel,
}

/// Everything the server can hand back.
#[derive(Debug)]
pub enum AllReturns {
    DB(DBReturns),
    Plugin(SupportedPluginRequests),
    /// Nothing needs to be sent.
    Nune,
}

/// What the database hands back.
#[derive(Debug)]
pub enum DBReturns {
    GetTagId(Option<sharedtypes::DbTagNNS>),
    GetTagName(Option<usize>),
    RelationshipGetTagid(Option<HashSet<usize>>),
    RelationshipGetFileid(Option<HashSet<usize>>),
    GetFile(Option<sharedtypes::DbFileObj>),
    GetFileHash(Option<usize>),
    GetNamespaceTagIDs(HashSet<usize>),
    GetNamespace(Option<usize>),
    GetNamespaceString(Option<sharedtypes::DbNamespaceObj>),
    SettingsGetName(Option<sharedtypes::DbSettingObj>),
    LoadTable(bool),
}

/// Data already serialised, or nothing.
#[derive(Debug, Clone, PartialEq, Eq)]
pub enum EfficientDataReturn {
    Data(Vec<u8>),
    Nothing,
}

/// Requests between plugins. No kind of plugin request is defined yet, so the
/// type carries no data.
#[derive(Debug)]
pub struct SupportedPluginRequests {}

/// A request sent to the server.
#[derive(Debug)]
pub enum SupportedRequests {
    Database(SupportedDBRequests),
    PluginCross(SupportedPluginRequests),
}

} // verus!
