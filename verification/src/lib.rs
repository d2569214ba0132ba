//! The core of a tag and file database: the in-memory database with its
//! parent relations and job table, the queue of scraper jobs, the rules that
//! hand tags to plugins, the requests sent to the database server, and the
//! pure parts of importing and downloading files: sidecar parsing, repeat
//! intervals, digest checks and the retry decisions of a download.

pub mod cantor;
pub mod sharedtypes;
pub mod fnvmaps;
pub mod inmemdbnew;
pub mod memdb_laws;
pub mod newinmemdb;
pub mod textparse;
pub mod timeconv;
pub mod time;
pub mod time_func;
pub mod intcoms;
pub mod deepeq;
pub mod jobs;
pub mod file;
pub mod download;
pub mod cli_structs;
pub mod cli;
pub mod helpers;
pub mod tagrules;
pub mod dbsearch;
pub mod dbserve;
pub mod fileplan;
pub mod pluginreg;
pub mod worker;
pub mod login;
pub mod migrate;
pub mod pluginout;
