//! Publishing a downloaded puzzle database: the names of the files that
//! stand beside it while it is replaced, and the order of the replacement.

use vstd::prelude::*;
use crate::text::{push_str, string_from_chars, text_result};

verus! {

/// `Path::file_name` on a path: its last component, unless the path ends in
/// `..` or is a root or prefix.
pub uninterp spec fn path_file_name(path: Seq<char>) -> Option<Seq<char>>;

/// `Path::with_file_name`: the path with its last component replaced.
pub uninterp spec fn path_with_file_name(path: Seq<char>, name: Seq<char>) -> Seq<char>;

/// Calls `Path::file_name` on a path given as UTF-8 text.
#[verifier::external_body]
fn file_name_of(path: &str) -> (res: Option<String>)
    ensures
        match res {
            Some(name) => path_file_name(path@) == Some(name@),
            None => path_file_name(path@) is None,
        },
{
    std::path::Path::new(path).file_name().map(|name| name.to_string_lossy().into_owned())
}

/// Calls `Path::with_file_name` on a path given as UTF-8 text.
#[verifier::external_body]
fn with_file_name(path: &str, name: &str) -> (res: String)
    ensures
        res@ == path_with_file_name(path@, name@),
{
    std::path::Path::new(path).with_file_name(name).to_string_lossy().into_owned()
}

/// A file beside the destination, named after it with a suffix.
pub open spec fn sibling_path(destination: Seq<char>, suffix: Seq<char>) -> Result<Seq<char>, Seq<char>> {
    match path_file_name(destination) {
        None => Err("Puzzle database destination has no file name: "@ + destination),
        Some(name) => Ok(path_with_file_name(destination, name + suffix)),
    }
}

fn sibling(destination: &str, suffix: &str) -> (res: Result<String, String>)
    ensures
        text_result(res) == sibling_path(destination@, suffix@),
{
    match file_name_of(destination) {
        None => {
            let mut out: Vec<char> = Vec::new();
            push_str(&mut out, "Puzzle database destination has no file name: ");
            push_str(&mut out, destination);
            Err(string_from_chars(&out))
        },
        Some(name) => {
            let mut out: Vec<char> = Vec::new();
            push_str(&mut out, name.as_str());
            push_str(&mut out, suffix);
            let new_name = string_from_chars(&out);
            Ok(with_file_name(destination, new_name.as_str()))
        },
    }
}

/// The file that a download is decompressed into before it replaces the
/// destination: the destination's name with `.tmp` added.
pub fn temporary_csv_path(destination: &str) -> (res: Result<String, String>)
    ensures
        text_result(res) == sibling_path(destination@, ".tmp"@),
{
    sibling(destination, ".tmp")
}

/// The file that keeps the previous database while the new one is put in
/// its place: the destination's name with `.backup` added.
pub fn backup_csv_path(destination: &str) -> (res: Result<String, String>)
    ensures
        text_result(res) == sibling_path(destination@, ".backup"@),
{
    sibling(destination, ".backup")
}

/// Where the replacement of the puzzle database by its freshly decompressed
/// copy stands. The backup's path is carried once it is known.
#[derive(Debug)]
pub enum PublishState {
    /// Nothing done yet: whether the destination exists is being checked.
    Start,
    /// No previous database: the copy is being renamed into place.
    Placing,
    /// A previous database exists: whether its backup name is free is being
    /// checked.
    CheckingBackup { backup: String },
    /// The previous database is being renamed to its backup.
    Preserving { backup: String },
    /// The copy is being renamed into place, the previous one kept aside.
    Publishing { backup: String },
    /// Placing the copy failed with `error`; the backup is being put back.
    Restoring { backup: String, error: String },
    /// The copy is in place; the backup is being removed.
    Cleaning,
    /// Nothing is left to do.
    Finished,
}

/// What the file system answered to the last action.
#[derive(Debug)]
pub enum PublishEvent {
    /// Whether the path that was asked about exists.
    Exists(bool),
    /// How a rename went.
    Renamed(Result<(), String>),
    /// The backup was removed, or its removal failed, which is ignored.
    Removed,
}

/// What to do next to the files.
#[derive(Debug)]
pub enum PublishAction {
    CheckBackup,
    RenameTemporaryToDestination,
    RenameDestinationToBackup,
    RenameBackupToDestination,
    RemoveBackup,
    Finish(Result<(), String>),
}

/// The error when the copy could not be put in place.
pub open spec fn publish_failed(destination: Seq<char>, error: Seq<char>) -> Seq<char> {
    "Failed to publish puzzle database "@ + destination + ": "@ + error
}

fn join_four(a: &str, b: &str, c: &str, d: &str) -> (res: String)
    ensures
        res@ == a@ + b@ + c@ + d@,
{
    let mut out: Vec<char> = Vec::new();
    push_str(&mut out, a);
    push_str(&mut out, b);
    push_str(&mut out, c);
    push_str(&mut out, d);
    string_from_chars(&out)
}

fn join_five(a: &str, b: &str, c: &str, d: &str, e: &str) -> (res: String)
    ensures
        res@ == a@ + b@ + c@ + d@ + e@,
{
    let mut out: Vec<char> = Vec::new();
    push_str(&mut out, a);
    push_str(&mut out, b);
    push_str(&mut out, c);
    push_str(&mut out, d);
    push_str(&mut out, e);
    string_from_chars(&out)
}

/// Decides the next step of putting a decompressed database in place: a
/// missing destination is simply renamed into; an existing one is first
/// renamed to its backup (which must not exist yet), restored if the copy
/// cannot be placed, and removed once it is.
pub fn publish_step(state: PublishState, event: PublishEvent, destination: &str) -> (res: (PublishState, PublishAction))
    ensures
        match (state, event) {
            (PublishState::Start, PublishEvent::Exists(false)) => res.0 is Placing && res.1 is RenameTemporaryToDestination,
            (PublishState::Start, PublishEvent::Exists(true)) => match sibling_path(destination@, ".backup"@) {
                Ok(b) => res.0 matches PublishState::CheckingBackup { backup } && backup@ == b && res.1 is CheckBackup,
                Err(e) => res.1 matches PublishAction::Finish(Err(m)) && res.0 is Finished && m@ == e,
            },
            (PublishState::Placing, PublishEvent::Renamed(Ok(()))) => res.1 matches PublishAction::Finish(Ok(())) && res.0 is Finished,
            (PublishState::Placing, PublishEvent::Renamed(Err(e))) => res.1 matches PublishAction::Finish(Err(m)) && res.0 is Finished && m@ == publish_failed(destination@, e@),
            (PublishState::CheckingBackup { backup }, PublishEvent::Exists(true)) => res.1 matches PublishAction::Finish(Err(m)) && res.0 is Finished
                && m@ == "Cannot replace puzzle database "@ + destination@ + " because backup "@ + backup@ + " already exists"@,
            (PublishState::CheckingBackup { backup }, PublishEvent::Exists(false)) => res.0 matches PublishState::Preserving { backup: b } && b@ == backup@ && res.1 is RenameDestinationToBackup,
            (PublishState::Preserving { backup }, PublishEvent::Renamed(Ok(()))) => res.0 matches PublishState::Publishing { backup: b } && b@ == backup@ && res.1 is RenameTemporaryToDestination,
            (PublishState::Preserving { backup }, PublishEvent::Renamed(Err(e))) => res.1 matches PublishAction::Finish(Err(m)) && res.0 is Finished
                && m@ == "Failed to preserve existing puzzle database "@ + destination@ + ": "@ + e@,
            (PublishState::Publishing { backup }, PublishEvent::Renamed(Ok(()))) => res.0 is Cleaning && res.1 is RemoveBackup,
            (PublishState::Publishing { backup }, PublishEvent::Renamed(Err(e))) => res.0 matches PublishState::Restoring { backup: b, error } && b@ == backup@ && error@ == e@ && res.1 is RenameBackupToDestination,
            (PublishState::Restoring { backup, error }, PublishEvent::Renamed(Ok(()))) => res.1 matches PublishAction::Finish(Err(m)) && res.0 is Finished
                && m@ == publish_failed(destination@, error@) + "; previous database restored"@,
            (PublishState::Restoring { backup, error }, PublishEvent::Renamed(Err(r))) => res.1 matches PublishAction::Finish(Err(m)) && res.0 is Finished
                && m@ == publish_failed(destination@, error@) + "; previous database remains at "@ + backup@ + " because restoration failed: "@ + r@,
            (PublishState::Cleaning, PublishEvent::Removed) => res.1 matches PublishAction::Finish(Ok(())) && res.0 is Finished,
            _ => res.1 matches PublishAction::Finish(Err(_)) && res.0 is Finished,
        },
{
    match (state, event) {
        (PublishState::Start, PublishEvent::Exists(false)) => (PublishState::Placing, PublishAction::RenameTemporaryToDestination),
        (PublishState::Start, PublishEvent::Exists(true)) => match backup_csv_path(destination) {
            Ok(backup) => (PublishState::CheckingBackup { backup }, PublishAction::CheckBackup),
            Err(e) => (PublishState::Finished, PublishAction::Finish(Err(e))),
        },
        (PublishState::Placing, PublishEvent::Renamed(Ok(()))) => (PublishState::Finished, PublishAction::Finish(Ok(()))),
        (PublishState::Placing, PublishEvent::Renamed(Err(e))) => (
            PublishState::Finished,
            PublishAction::Finish(Err(join_four("Failed to publish puzzle database ", destination, ": ", e.as_str()))),
        ),
        (PublishState::CheckingBackup { backup }, PublishEvent::Exists(true)) => (
            PublishState::Finished,
            PublishAction::Finish(Err(join_five("Cannot replace puzzle database ", destination, " because backup ", backup.as_str(), " already exists"))),
        ),
        (PublishState::CheckingBackup { backup }, PublishEvent::Exists(false)) => (PublishState::Preserving { backup }, PublishAction::RenameDestinationToBackup),
        (PublishState::Preserving { backup }, PublishEvent::Renamed(Ok(()))) => (PublishState::Publishing { backup }, PublishAction::RenameTemporaryToDestination),
        (PublishState::Preserving { backup }, PublishEvent::Renamed(Err(e))) => (
            PublishState::Finished,
            PublishAction::Finish(Err(join_four("Failed to preserve existing puzzle database ", destination, ": ", e.as_str()))),
        ),
        (PublishState::Publishing { backup }, PublishEvent::Renamed(Ok(()))) => (PublishState::Cleaning, PublishAction::RemoveBackup),
        (PublishState::Publishing { backup }, PublishEvent::Renamed(Err(e))) => (PublishState::Restoring { backup, error: e }, PublishAction::RenameBackupToDestination),
        (PublishState::Restoring { backup, error }, PublishEvent::Renamed(Ok(()))) => (
            PublishState::Finished,
            PublishAction::Finish(Err(join_five("Failed to publish puzzle database ", destination, ": ", error.as_str(), "; previous database restored"))),
        ),
        (PublishState::Restoring { backup, error }, PublishEvent::Renamed(Err(r))) => {
            let head = join_four("Failed to publish puzzle database ", destination, ": ", error.as_str());
            (
                PublishState::Finished,
                PublishAction::Finish(Err(join_five(head.as_str(), "; previous database remains at ", backup.as_str(), " because restoration failed: ", r.as_str()))),
            )
        },
        (PublishState::Cleaning, PublishEvent::Removed) => (PublishState::Finished, PublishAction::Finish(Ok(()))),
        _ => (PublishState::Finished, PublishAction::Finish(Err(String::from_str("puzzle database publication went out of order")))),
    }
}


/// Where the download of the puzzle database stands: whether it runs,
/// whether a database is there, and the progress or failure text shown.
#[derive(Debug)]
pub struct DownloadStatus {
    pub downloading: bool,
    pub has_db: bool,
    pub progress: String,
}

impl DownloadStatus {
    /// No download yet; whether a database is there is given.
    pub fn new(has_db: bool) -> (res: Self)
        ensures
            !res.downloading,
            res.has_db == has_db,
            res.progress@.len() == 0,
    {
        DownloadStatus { downloading: false, has_db, progress: String::new() }
    }

    /// The download button: the download starts, with no progress shown,
    /// unless the settings still search an SQLite corpus (after being asked
    /// to go back to the CSV), which leaves everything as it was.
    pub fn start(&mut self, still_using_sqlite: bool) -> (res: bool)
        ensures
            res == !still_using_sqlite,
            final(self).has_db == old(self).has_db,
            res ==> final(self).downloading && final(self).progress@.len() == 0,
            !res ==> final(self).downloading == old(self).downloading && final(self).progress@ == old(
                self,
            ).progress@,
    {
        if still_using_sqlite {
            return false;
        }
        self.downloading = true;
        self.progress = String::new();
        true
    }

    /// The download and its publication succeeded: a database is there.
    pub fn finished(&mut self)
        ensures
            !final(self).downloading,
            final(self).has_db,
            final(self).progress@ == old(self).progress@,
    {
        self.downloading = false;
        self.has_db = true;
    }

    /// The download failed: it can be started again, and the failure is
    /// shown after the given label.
    pub fn failed(&mut self, label: &str, error: &str)
        ensures
            !final(self).downloading,
            final(self).has_db == old(self).has_db,
            final(self).progress@ == label@ + ": "@ + error@,
    {
        self.downloading = false;
        let mut out: Vec<char> = Vec::new();
        push_str(&mut out, label);
        push_str(&mut out, ": ");
        push_str(&mut out, error);
        self.progress = string_from_chars(&out);
    }
}

} // verus!
