//! Moving a suspicious file into `$HOME/Desktop/AI_Security_Guardian/quarantine`.
//! The file is renamed, or copied and then removed when renaming fails
//! (across devices); it is never deleted without a copy.
//!
//! The move is a sequence of file-system steps. [`QuarantineStage`] says
//! which step the caller performs next; [`quarantine_step`] takes what that
//! step observed and gives the next stage.
use vstd::prelude::*;
use crate::text::{concat2, owned};
use crate::bindings::{file_name_of, path_file_name, path_join, path_joined};
use crate::guardian_core::quarantine::{
    first_free_index, free_destination, free_stamped_name, lemma_free_name_exists,
    lemma_some_first_free, stamped_name,
};

verus! {

/// The answer to a quarantine request.
#[derive(Debug, Clone)]
pub struct QuarantineResult {
    pub success: bool,
    pub original_path: String,
    pub quarantine_path: Option<String>,
    pub message: String,
}

/// The mathematical content of a [`QuarantineResult`].
pub struct QuarantineResultView {
    pub success: bool,
    pub original_path: Seq<char>,
    pub quarantine_path: Option<Seq<char>>,
    pub message: Seq<char>,
}

impl View for QuarantineResult {
    type V = QuarantineResultView;

    open spec fn view(&self) -> QuarantineResultView {
        QuarantineResultView {
            success: self.success,
            original_path: self.original_path@,
            quarantine_path: match self.quarantine_path {
                Some(p) => Some(p@),
                None => None,
            },
            message: self.message@,
        }
    }
}

/// The next step of a quarantine move.
#[derive(Debug)]
pub enum QuarantineStage {
    /// Check whether the source file exists.
    CheckSource,
    /// Read the `HOME` environment variable.
    ReadHome,
    /// Make sure directory `dir` exists (create it with its parents if not).
    EnsureDir { dir: String },
    /// Check whether `dir` joined with `name` exists, and read the clock.
    CheckDest { dir: String, name: String },
    /// `name` is taken: list the names in `dir`, to pick a free stamped name
    /// for the clock reading `now_secs`.
    ListDir { dir: String, name: String, now_secs: u64 },
    /// Rename the source to `dest`.
    Rename { dest: String },
    /// Copy the source to `dest` (renaming failed with `rename_error`).
    Copy { dest: String, rename_error: String },
    /// Remove the source, which was copied to `dest`.
    RemoveSource { dest: String, rename_error: String },
    /// The move is over.
    Done(QuarantineResult),
}

/// What a step observed.
#[derive(Debug)]
pub enum QuarantineEvent {
    SourceExists(bool),
    Home(Option<String>),
    DirEnsured(Result<(), String>),
    DestExists { exists: bool, now_secs: u64 },
    /// The names in the quarantine directory (none when it cannot be read).
    Listed(Vec<String>),
    Renamed(Result<(), String>),
    Copied(bool),
    SourceRemoved(bool),
}

/// The mathematical content of a [`QuarantineStage`].
pub enum StageView {
    CheckSource,
    ReadHome,
    EnsureDir { dir: Seq<char> },
    CheckDest { dir: Seq<char>, name: Seq<char> },
    ListDir { dir: Seq<char>, name: Seq<char>, now_secs: u64 },
    Rename { dest: Seq<char> },
    Copy { dest: Seq<char>, rename_error: Seq<char> },
    RemoveSource { dest: Seq<char>, rename_error: Seq<char> },
    Done(QuarantineResultView),
}

impl View for QuarantineStage {
    type V = StageView;

    open spec fn view(&self) -> StageView {
        match self {
            QuarantineStage::CheckSource => StageView::CheckSource,
            QuarantineStage::ReadHome => StageView::ReadHome,
            QuarantineStage::EnsureDir { dir } => StageView::EnsureDir { dir: dir@ },
            QuarantineStage::CheckDest { dir, name } => StageView::CheckDest {
                dir: dir@,
                name: name@,
            },
            QuarantineStage::ListDir { dir, name, now_secs } => StageView::ListDir {
                dir: dir@,
                name: name@,
                now_secs: *now_secs,
            },
            QuarantineStage::Rename { dest } => StageView::Rename { dest: dest@ },
            QuarantineStage::Copy { dest, rename_error } => StageView::Copy {
                dest: dest@,
                rename_error: rename_error@,
            },
            QuarantineStage::RemoveSource { dest, rename_error } => StageView::RemoveSource {
                dest: dest@,
                rename_error: rename_error@,
            },
            QuarantineStage::Done(r) => StageView::Done(r@),
        }
    }
}

/// Whether `event` is what `stage` asks the caller to observe.
pub open spec fn answers(stage: StageView, event: QuarantineEvent) -> bool {
    match stage {
        StageView::CheckSource => event is SourceExists,
        StageView::ReadHome => event is Home,
        StageView::EnsureDir { .. } => event is DirEnsured,
        StageView::CheckDest { .. } => event is DestExists,
        StageView::ListDir { .. } => event is Listed,
        StageView::Rename { .. } => event is Renamed,
        StageView::Copy { .. } => event is Copied,
        StageView::RemoveSource { .. } => event is SourceRemoved,
        StageView::Done(_) => false,
    }
}

/// A failed move of `path` with `message`.
pub open spec fn failure(path: Seq<char>, message: Seq<char>) -> StageView {
    StageView::Done(
        QuarantineResultView {
            success: false,
            original_path: path,
            quarantine_path: None,
            message,
        },
    )
}

/// A successful move of `path` to `dest` with `message`.
pub open spec fn moved(path: Seq<char>, dest: Seq<char>, message: Seq<char>) -> StageView {
    StageView::Done(
        QuarantineResultView {
            success: true,
            original_path: path,
            quarantine_path: Some(dest),
            message,
        },
    )
}

/// The quarantine directory under home directory `home`.
pub open spec fn quarantine_dir_in(home: Seq<char>) -> Seq<char> {
    path_joined(home, "Desktop/AI_Security_Guardian/quarantine"@)
}

/// The stage after `stage` observed `event`, for source `path`.
pub open spec fn next_stage(path: Seq<char>, stage: StageView, event: QuarantineEvent) -> StageView {
    match (stage, event) {
        (StageView::CheckSource, QuarantineEvent::SourceExists(exists)) => if exists {
            StageView::ReadHome
        } else {
            failure(path, "File does not exist."@)
        },
        (StageView::ReadHome, QuarantineEvent::Home(home)) => match home {
            Some(h) => StageView::EnsureDir { dir: quarantine_dir_in(h@) },
            None => failure(path, "Could not determine HOME directory."@),
        },
        (StageView::EnsureDir { dir }, QuarantineEvent::DirEnsured(r)) => match r {
            Err(e) => failure(path, "Failed to create quarantine directory: "@ + e@),
            Ok(_) => match path_file_name(path) {
                Some(name) => StageView::CheckDest { dir, name },
                None => failure(path, "Invalid file path (no filename)."@),
            },
        },
        (StageView::CheckDest { dir, name }, QuarantineEvent::DestExists { exists, now_secs }) => {
            if exists {
                StageView::ListDir { dir, name, now_secs }
            } else {
                StageView::Rename { dest: path_joined(dir, name) }
            }
        },
        (StageView::ListDir { dir, name, now_secs }, QuarantineEvent::Listed(names)) => {
            let taken = names@.map_values(|x: String| x@);
            StageView::Rename {
                dest: path_joined(dir, stamped_name(name, now_secs, first_free_index(name, now_secs, taken))),
            }
        },
        (StageView::Rename { dest }, QuarantineEvent::Renamed(r)) => match r {
            Ok(_) => moved(path, dest, "File successfully moved to quarantine."@),
            Err(e) => StageView::Copy { dest, rename_error: e@ },
        },
        (StageView::Copy { dest, rename_error }, QuarantineEvent::Copied(ok)) => if ok {
            StageView::RemoveSource { dest, rename_error }
        } else {
            failure(path, "Failed to move file to quarantine: "@ + rename_error)
        },
        (
            StageView::RemoveSource { dest, rename_error },
            QuarantineEvent::SourceRemoved(ok),
        ) => if ok {
            moved(path, dest, "File successfully moved (copy+delete fallback) to quarantine."@)
        } else {
            failure(path, "Failed to move file to quarantine: "@ + rename_error)
        },
        _ => stage,
    }
}

fn fail_with(path: &str, message: String) -> (s: QuarantineStage)
    ensures
        s@ == failure(path@, message@),
{
    QuarantineStage::Done(
        QuarantineResult {
            success: false,
            original_path: owned(path),
            quarantine_path: None,
            message,
        },
    )
}

fn moved_to(path: &str, dest: String, message: String) -> (s: QuarantineStage)
    ensures
        s@ == moved(path@, dest@, message@),
{
    QuarantineStage::Done(
        QuarantineResult {
            success: true,
            original_path: owned(path),
            quarantine_path: Some(dest),
            message,
        },
    )
}

/// The first stage of quarantining a file.
pub fn move_to_quarantine() -> (s: QuarantineStage)
    ensures
        s@ == StageView::CheckSource,
{
    QuarantineStage::CheckSource
}

/// The stage after `stage` observed `event`, for source `file_path`.
pub fn quarantine_step(file_path: &str, stage: QuarantineStage, event: QuarantineEvent) -> (s: QuarantineStage)
    requires
        answers(stage@, event),
    ensures
        s@ == next_stage(file_path@, stage@, event),
{
    match stage {
        QuarantineStage::CheckSource => match event {
            QuarantineEvent::SourceExists(true) => QuarantineStage::ReadHome,
            _ => fail_with(file_path, owned("File does not exist.")),
        },
        QuarantineStage::ReadHome => match event {
            QuarantineEvent::Home(Some(h)) => QuarantineStage::EnsureDir {
                dir: path_join(h.as_str(), "Desktop/AI_Security_Guardian/quarantine"),
            },
            _ => fail_with(file_path, owned("Could not determine HOME directory.")),
        },
        QuarantineStage::EnsureDir { dir } => match event {
            QuarantineEvent::DirEnsured(Err(e)) => fail_with(
                file_path,
                concat2("Failed to create quarantine directory: ", e.as_str()),
            ),
            _ => match file_name_of(file_path) {
                Some(name) => QuarantineStage::CheckDest { dir, name },
                None => fail_with(file_path, owned("Invalid file path (no filename).")),
            },
        },
        QuarantineStage::CheckDest { dir, name } => match event {
            QuarantineEvent::DestExists { exists: true, now_secs } => QuarantineStage::ListDir {
                dir,
                name,
                now_secs,
            },
            _ => QuarantineStage::Rename { dest: path_join(dir.as_str(), name.as_str()) },
        },
        QuarantineStage::ListDir { dir, name, now_secs } => match event {
            QuarantineEvent::Listed(names) => {
                let free = free_stamped_name(name.as_str(), now_secs, &names);
                QuarantineStage::Rename { dest: path_join(dir.as_str(), free.as_str()) }
            },
            _ => QuarantineStage::ListDir { dir, name, now_secs },
        },
        QuarantineStage::Rename { dest } => match event {
            QuarantineEvent::Renamed(Err(e)) => QuarantineStage::Copy { dest, rename_error: e },
            _ => moved_to(file_path, dest, owned("File successfully moved to quarantine.")),
        },
        QuarantineStage::Copy { dest, rename_error } => match event {
            QuarantineEvent::Copied(true) => QuarantineStage::RemoveSource { dest, rename_error },
            _ => fail_with(
                file_path,
                concat2("Failed to move file to quarantine: ", rename_error.as_str()),
            ),
        },
        QuarantineStage::RemoveSource { dest, rename_error } => match event {
            QuarantineEvent::SourceRemoved(true) => moved_to(
                file_path,
                dest,
                owned("File successfully moved (copy+delete fallback) to quarantine."),
            ),
            _ => fail_with(
                file_path,
                concat2("Failed to move file to quarantine: ", rename_error.as_str()),
            ),
        },
        QuarantineStage::Done(r) => QuarantineStage::Done(r),
    }
}

/// The source file is only ever removed right after it was copied: a
/// removal step follows nothing but a successful copy.
pub proof fn lemma_source_removed_only_after_copy(
    path: Seq<char>,
    stage: StageView,
    event: QuarantineEvent,
)
    requires
        answers(stage, event),
        next_stage(path, stage, event) is RemoveSource,
    ensures
        stage is Copy,
        event == QuarantineEvent::Copied(true),
{
}

/// A move reported as successful names the destination it moved the file
/// to, and happens only after a rename or a removal that succeeded.
pub proof fn lemma_success_only_after_move(path: Seq<char>, stage: StageView, event: QuarantineEvent)
    requires
        answers(stage, event),
        next_stage(path, stage, event) matches StageView::Done(r) && r.success,
    ensures
        (stage matches StageView::Rename { dest } && event matches QuarantineEvent::Renamed(Ok(_))
            && next_stage(path, stage, event) == moved(
            path,
            dest,
            "File successfully moved to quarantine."@,
        )) || (stage matches StageView::RemoveSource { dest, .. } && event
            == QuarantineEvent::SourceRemoved(true) && next_stage(path, stage, event) == moved(
            path,
            dest,
            "File successfully moved (copy+delete fallback) to quarantine."@,
        )),
{
}

/// A file is only ever renamed onto a path that was seen to be free: the
/// plain name after it was found absent, or else the first stamped name not
/// among the names listed in the quarantine directory. No quarantined file is
/// overwritten.
pub proof fn lemma_rename_target_was_free(path: Seq<char>, stage: StageView, event: QuarantineEvent)
    requires
        answers(stage, event),
        next_stage(path, stage, event) is Rename,
    ensures
        ({
            let dest = next_stage(path, stage, event)->Rename_dest;
            ||| (stage matches StageView::CheckDest { dir, name } && event
                matches QuarantineEvent::DestExists { exists, .. } && !exists && dest
                == path_joined(dir, name))
            ||| (stage matches StageView::ListDir { dir, name, now_secs } && event
                matches QuarantineEvent::Listed(names) && free_destination(
                dir,
                name,
                now_secs,
                names@.map_values(|x: String| x@),
                dest,
            ))
        }),
{
    if let StageView::ListDir { dir, name, now_secs } = stage {
        if let QuarantineEvent::Listed(names) = event {
            let taken = names@.map_values(|x: String| x@);
            lemma_free_name_exists(name, now_secs, taken);
            let k0 = choose|k: nat| k <= taken.len() && !taken.contains(#[trigger] stamped_name(name, now_secs, k));
            lemma_some_first_free(name, now_secs, taken, k0);
        }
    }
}

} // verus!
