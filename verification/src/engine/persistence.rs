//! Where the log and the state of a download are kept.

use vstd::prelude::*;
use crate::service::{DownloadTask, TaskView};
use crate::text::{begins, ends, ends_with, owned, starts_with};

verus! {

/// `name` below the directory `base`; an absolute name stands for itself.
pub open spec fn path_join(base: Seq<char>, name: Seq<char>) -> Seq<char> {
    if starts_with(name, "/"@) || base.len() == 0 {
        name
    } else if ends_with(base, "/"@) {
        base + name
    } else {
        base + "/"@ + name
    }
}

pub fn join_path(base: &str, name: &str) -> (r: String)
    ensures
        r@ == path_join(base@, name@),
{
    if begins(name, "/") || base.unicode_len() == 0 {
        return owned(name);
    }
    let mut r: String = owned(base);
    if !ends(base, "/") {
        r.append("/");
    }
    r.append(name);
    r
}

/// The directory of logs.
pub open spec fn log_root_of(t: TaskView) -> Seq<char> {
    match t.log_root {
        Some(root) => path_join(root, "tur"@),
        None => path_join(path_join(t.dir, ".tur"@), "logs"@),
    }
}

/// The directory of saved states.
pub open spec fn meta_root_of(t: TaskView) -> Seq<char> {
    match t.log_root {
        Some(root) => path_join(root, "tur-meta"@),
        None => path_join(path_join(t.dir, ".tur"@), "meta"@),
    }
}

pub open spec fn log_path_of(t: TaskView) -> Seq<char> {
    path_join(log_root_of(t), t.filename + ".log"@)
}

pub open spec fn metadata_path_of(t: TaskView) -> Seq<char> {
    path_join(meta_root_of(t), t.filename + ".tur.meta"@)
}

pub fn log_root(task: &DownloadTask) -> (r: String)
    ensures
        r@ == log_root_of(task@),
{
    match &task.log_root {
        Some(root) => join_path(root.as_str(), "tur"),
        None => {
            let own: String = join_path(task.dir.as_str(), ".tur");
            join_path(own.as_str(), "logs")
        },
    }
}

pub fn meta_root(task: &DownloadTask) -> (r: String)
    ensures
        r@ == meta_root_of(task@),
{
    match &task.log_root {
        Some(root) => join_path(root.as_str(), "tur-meta"),
        None => {
            let own: String = join_path(task.dir.as_str(), ".tur");
            join_path(own.as_str(), "meta")
        },
    }
}

/// The log file of a download.
pub fn log_path(task: &DownloadTask) -> (r: String)
    ensures
        r@ == log_path_of(task@),
{
    let mut name: String = owned(task.filename.as_str());
    name.append(".log");
    let root: String = log_root(task);
    join_path(root.as_str(), name.as_str())
}

/// The file that the state of a download is saved in.
pub fn metadata_path(task: &DownloadTask) -> (r: String)
    ensures
        r@ == metadata_path_of(task@),
{
    let mut name: String = owned(task.filename.as_str());
    name.append(".tur.meta");
    let root: String = meta_root(task);
    join_path(root.as_str(), name.as_str())
}

} // verus!
