//! The requests a plugin sends to the database server. Each function
//! builds the request for one operation; sending it and reading the answer
//! is the caller's part.

use crate::intcoms::types;
use crate::intcoms::types::{SupportedDBRequests, SupportedRequests};
use crate::sharedtypes;
use std::collections::HashSet;
use vstd::prelude::*;

verus! {

/// The request asking for a search of the files.
pub fn search_db_files(search: sharedtypes::SearchObj, limit: Option<usize>, offset: Option<usize>) -> (res: SupportedRequests)
    ensures
        res == SupportedRequests::Database(SupportedDBRequests::Search((search, limit, offset))),
{
    SupportedRequests::Database(SupportedDBRequests::Search((search, limit, offset)))
}

/// The request asking for that a file be added, downloading it if needed, answered when done.
pub fn add_file(file: sharedtypes::FileObject, ratelimit: (u64, std::time::Duration)) -> (res: SupportedRequests)
    ensures
        res == SupportedRequests::Database(SupportedDBRequests::PutFile((file, ratelimit))),
{
    SupportedRequests::Database(SupportedDBRequests::PutFile((file, ratelimit)))
}

/// The request asking for that a file be added, downloading it if needed, answered at once.
pub fn add_file_nonblocking(file: sharedtypes::FileObject, ratelimit: (u64, std::time::Duration)) -> (res: SupportedRequests)
    ensures
        res == SupportedRequests::Database(SupportedDBRequests::PutFileNoBlock((file, ratelimit))),
{
    SupportedRequests::Database(SupportedDBRequests::PutFileNoBlock((file, ratelimit)))
}

/// The request asking for that a table be loaded.
pub fn load_table(table: sharedtypes::LoadDBTable) -> (res: SupportedRequests)
    ensures
        res == SupportedRequests::Database(SupportedDBRequests::LoadTable(table)),
{
    SupportedRequests::Database(SupportedDBRequests::LoadTable(table))
}

/// The request asking for the location of a file.
pub fn get_file(fileid: usize) -> (res: SupportedRequests)
    ensures
        res == SupportedRequests::Database(SupportedDBRequests::GetFileLocation(fileid)),
{
    SupportedRequests::Database(SupportedDBRequests::GetFileLocation(fileid))
}

/// The request asking for the extension of a file.
pub fn get_file_ext(fileext: usize) -> (res: SupportedRequests)
    ensures
        res == SupportedRequests::Database(SupportedDBRequests::GetFileExt(fileext)),
{
    SupportedRequests::Database(SupportedDBRequests::GetFileExt(fileext))
}

/// The request asking for the bytes of a file.
pub fn get_file_bytes(fileid: usize) -> (res: SupportedRequests)
    ensures
        res == SupportedRequests::Database(SupportedDBRequests::GetFileByte(fileid)),
{
    SupportedRequests::Database(SupportedDBRequests::GetFileByte(fileid))
}

/// The request asking for that the loaded plugins be reloaded.
pub fn reload_loaded_plugins() -> (res: SupportedRequests)
    ensures
        res == SupportedRequests::Database(SupportedDBRequests::ReloadLoadedPlugins()),
{
    SupportedRequests::Database(SupportedDBRequests::ReloadLoadedPlugins())
}

/// The request asking for the namespace of an id.
pub fn namespace_get_string(id: usize) -> (res: SupportedRequests)
    ensures
        res == SupportedRequests::Database(SupportedDBRequests::GetNamespaceString(id)),
{
    SupportedRequests::Database(SupportedDBRequests::GetNamespaceString(id))
}

/// The request asking for whether a namespace holds a tag.
pub fn namespace_contains_id(namespaceid: usize, tagid: usize) -> (res: SupportedRequests)
    ensures
        res == SupportedRequests::Database(SupportedDBRequests::NamespaceContainsId(namespaceid, tagid)),
{
    SupportedRequests::Database(SupportedDBRequests::NamespaceContainsId(namespaceid, tagid))
}

/// The request asking for the tags of a set that lie in a namespace.
pub fn filter_namespaces_by_id(tags: HashSet<usize>, namespaceid: usize) -> (res: SupportedRequests)
    ensures
        res == SupportedRequests::Database(SupportedDBRequests::FilterNamespaceById((tags, namespaceid))),
{
    SupportedRequests::Database(SupportedDBRequests::FilterNamespaceById((tags, namespaceid)))
}

/// The request asking for that a line be logged and printed.
pub fn log(line: String) -> (res: SupportedRequests)
    ensures
        res == SupportedRequests::Database(SupportedDBRequests::Logging(line)),
{
    SupportedRequests::Database(SupportedDBRequests::Logging(line))
}

/// The request asking for that a line be logged without printing it.
pub fn log_no_print(line: String) -> (res: SupportedRequests)
    ensures
        res == SupportedRequests::Database(SupportedDBRequests::LoggingNoPrint(line)),
{
    SupportedRequests::Database(SupportedDBRequests::LoggingNoPrint(line))
}

/// The request asking for that a setting be added.
pub fn setting_add(name: String, pretty: Option<String>, num: Option<usize>, param: Option<String>, addtodb: bool) -> (res: SupportedRequests)
    ensures
        res == SupportedRequests::Database(SupportedDBRequests::SettingsSet(name, pretty, num, param, addtodb)),
{
    SupportedRequests::Database(SupportedDBRequests::SettingsSet(name, pretty, num, param, addtodb))
}

/// The request asking for the id of a namespace name.
pub fn namespace_get(name: String) -> (res: SupportedRequests)
    ensures
        res == SupportedRequests::Database(SupportedDBRequests::GetNamespace(name)),
{
    SupportedRequests::Database(SupportedDBRequests::GetNamespace(name))
}

/// The request asking for that a namespace be created, in the database too.
pub fn namespace_put(name: String, description: Option<String>) -> (res: SupportedRequests)
    ensures
        res == SupportedRequests::Database(SupportedDBRequests::CreateNamespace(name, description, true)),
{
    SupportedRequests::Database(SupportedDBRequests::CreateNamespace(name, description, true))
}

/// The request asking for a test number.
pub fn testusize() -> (res: SupportedRequests)
    ensures
        res == SupportedRequests::Database(SupportedDBRequests::TestUsize()),
{
    SupportedRequests::Database(SupportedDBRequests::TestUsize())
}

/// The request asking for that the open transaction be written.
pub fn transaction_flush() -> (res: SupportedRequests)
    ensures
        res == SupportedRequests::Database(SupportedDBRequests::TransactionFlush()),
{
    SupportedRequests::Database(SupportedDBRequests::TransactionFlush())
}

/// The request asking for that a file be related to a tag, in the database too.
pub fn relationship_add(file: usize, tag: usize) -> (res: SupportedRequests)
    ensures
        res == SupportedRequests::Database(SupportedDBRequests::RelationshipAdd(file, tag, true)),
{
    SupportedRequests::Database(SupportedDBRequests::RelationshipAdd(file, tag, true))
}

/// The request asking for that the relationship of a file and a tag be removed.
pub fn relationship_remove(file: usize, tag: usize) -> (res: SupportedRequests)
    ensures
        res == SupportedRequests::Database(SupportedDBRequests::RelationshipRemove(file, tag)),
{
    SupportedRequests::Database(SupportedDBRequests::RelationshipRemove(file, tag))
}

/// The request asking for the ids of all files.
pub fn file_get_list_id() -> (res: SupportedRequests)
    ensures
        res == SupportedRequests::Database(SupportedDBRequests::GetFileListId()),
{
    SupportedRequests::Database(SupportedDBRequests::GetFileListId())
}

/// The request asking for the files a tag relates to.
pub fn relationship_get_fileid(id: usize) -> (res: SupportedRequests)
    ensures
        res == SupportedRequests::Database(SupportedDBRequests::RelationshipGetFileid(id)),
{
    SupportedRequests::Database(SupportedDBRequests::RelationshipGetFileid(id))
}

/// The request asking for the file of an id.
pub fn file_get_id(fid: usize) -> (res: SupportedRequests)
    ensures
        res == SupportedRequests::Database(SupportedDBRequests::GetFile(fid)),
{
    SupportedRequests::Database(SupportedDBRequests::GetFile(fid))
}

/// The request asking for the tags a file relates to.
pub fn relationship_get_tagid(id: usize) -> (res: SupportedRequests)
    ensures
        res == SupportedRequests::Database(SupportedDBRequests::RelationshipGetTagid(id)),
{
    SupportedRequests::Database(SupportedDBRequests::RelationshipGetTagid(id))
}

/// The request asking for the id of a tag of a namespace.
pub fn tag_get_name(tag: String, namespaceid: usize) -> (res: SupportedRequests)
    ensures
        res == SupportedRequests::Database(SupportedDBRequests::GetTagName((tag, namespaceid))),
{
    SupportedRequests::Database(SupportedDBRequests::GetTagName((tag, namespaceid)))
}

/// The request asking for all files.
pub fn file_get_list_all() -> (res: SupportedRequests)
    ensures
        res == SupportedRequests::Database(SupportedDBRequests::GetFileListAll()),
{
    SupportedRequests::Database(SupportedDBRequests::GetFileListAll())
}

/// The request asking for the setting of a name.
pub fn settings_get_name(name: String) -> (res: SupportedRequests)
    ensures
        res == SupportedRequests::Database(SupportedDBRequests::SettingsGetName(name)),
{
    SupportedRequests::Database(SupportedDBRequests::SettingsGetName(name))
}

/// The request asking for the tag of an id.
pub fn tag_get_id(id: usize) -> (res: SupportedRequests)
    ensures
        res == SupportedRequests::Database(SupportedDBRequests::GetTagId(id)),
{
    SupportedRequests::Database(SupportedDBRequests::GetTagId(id))
}

/// The request asking for the tags of a namespace.
pub fn namespace_get_tagids(id: usize) -> (res: SupportedRequests)
    ensures
        res == SupportedRequests::Database(SupportedDBRequests::GetNamespaceTagIDs(id)),
{
    SupportedRequests::Database(SupportedDBRequests::GetNamespaceTagIDs(id))
}

/// The request asking for one side of the parent relations of a tag.
pub fn parents_get(parenttype: types::ParentsType, id: usize) -> (res: SupportedRequests)
    ensures
        res == SupportedRequests::Database(SupportedDBRequests::ParentsGet((parenttype, id))),
{
    SupportedRequests::Database(SupportedDBRequests::ParentsGet((parenttype, id)))
}

/// The request asking for that a parent relation be deleted.
pub fn parents_delete(parentobj: sharedtypes::DbParentsObj) -> (res: SupportedRequests)
    ensures
        res == SupportedRequests::Database(SupportedDBRequests::ParentsDelete(parentobj)),
{
    SupportedRequests::Database(SupportedDBRequests::ParentsDelete(parentobj))
}

/// The request asking for that a parent relation be stored.
pub fn parents_put(parentobj: sharedtypes::DbParentsObj) -> (res: SupportedRequests)
    ensures
        res == SupportedRequests::Database(SupportedDBRequests::ParentsPut(parentobj)),
{
    SupportedRequests::Database(SupportedDBRequests::ParentsPut(parentobj))
}

/// The request asking for the location of the database.
pub fn location_get() -> (res: SupportedRequests)
    ensures
        res == SupportedRequests::Database(SupportedDBRequests::GetDBLocation()),
{
    SupportedRequests::Database(SupportedDBRequests::GetDBLocation())
}

/// The request asking for that a tag be added.
pub fn tag_add(tag: String, namespace_id: usize, addtodb: bool, id: Option<usize>) -> (res: SupportedRequests)
    ensures
        res == SupportedRequests::Database(SupportedDBRequests::PutTag(tag, namespace_id, addtodb, id)),
{
    SupportedRequests::Database(SupportedDBRequests::PutTag(tag, namespace_id, addtodb, id))
}

/// The request asking for that the regular expressions be reloaded.
pub fn reload_regex() -> (res: SupportedRequests)
    ensures
        res == SupportedRequests::Database(SupportedDBRequests::ReloadRegex),
{
    SupportedRequests::Database(SupportedDBRequests::ReloadRegex)
}

/// The request asking for the ids of all namespaces.
pub fn namespace_get_tagids_all() -> (res: SupportedRequests)
    ensures
        res == SupportedRequests::Database(SupportedDBRequests::GetNamespaceIDsAll),
{
    SupportedRequests::Database(SupportedDBRequests::GetNamespaceIDsAll)
}

/// The request asking for that a job be added.
pub fn job_add(job: sharedtypes::DbJobsObj) -> (res: SupportedRequests)
    ensures
        res == SupportedRequests::Database(SupportedDBRequests::PutJob(job)),
{
    SupportedRequests::Database(SupportedDBRequests::PutJob(job))
}

/// The request asking for that a tag be added and related to a file.
pub fn relationship_file_tag_add(fileid: usize, tag: String, namespace_id: usize, addtodb: bool, id: Option<usize>) -> (res: SupportedRequests)
    ensures
        res == SupportedRequests::Database(SupportedDBRequests::PutTagRelationship(fileid, tag, namespace_id, addtodb, id)),
{
    SupportedRequests::Database(SupportedDBRequests::PutTagRelationship(fileid, tag, namespace_id, addtodb, id))
}

/// The request asking for that a function of another plugin be called.
pub fn external_plugin_call(func_name: String, vers: usize, input: sharedtypes::CallbackInfoInput) -> (res: SupportedRequests)
    ensures
        res == SupportedRequests::Database(SupportedDBRequests::PluginCallback(func_name, vers, input)),
{
    SupportedRequests::Database(SupportedDBRequests::PluginCallback(func_name, vers, input))
}

} // verus!
