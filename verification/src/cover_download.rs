//! Serving a manga's cover: from the local copy when there is one, otherwise by
//! downloading it first. The steps are a state machine that the caller drives by
//! doing each action and reporting back.
use vstd::prelude::*;

use crate::error::MangadexServiceError;
use crate::requests::{cover_dir, cover_file_path};

verus! {

/// Where the cover of a manga is kept.
pub open spec fn cover_file_path_of(manga_id: Seq<char>, filename: Seq<char>) -> Seq<char> {
    "cover/"@ + manga_id + "/"@ + filename
}

/// The folder of a manga's covers.
pub open spec fn cover_dir_of(manga_id: Seq<char>) -> Seq<char> {
    "cover/"@ + manga_id
}

/// Where the serving of a cover stands.
#[derive(Clone, Copy, Debug, PartialEq, Eq, Structural)]
pub enum CoverStage {
    /// Waiting to learn whether the cover is already kept.
    CheckingFile,
    /// Waiting for the manga's cover folder to be made.
    CreatingDir,
    /// Waiting for the download of the cover to start.
    Fetching,
    /// Waiting for the cover file to be opened for writing.
    Opening,
    /// Waiting for the next piece of the download.
    Receiving,
    /// Waiting for a piece to be written.
    Writing,
    /// Waiting for the cover folder to be removed after a failed write.
    RemovingDir,
    /// Done: the cover file is served.
    Serving,
    /// Done: the cover could not be had, for this reason.
    Failed(MangadexServiceError),
}

/// What the caller reports after doing an action.
#[derive(Clone, Copy, Debug, PartialEq, Eq, Structural)]
pub enum CoverEvent {
    /// The answer to a `CheckExists`.
    Exists(bool),
    /// The action succeeded (for `RemoveDir`: it ran, whatever came of it).
    Done,
    /// The action failed with this error.
    Failed(MangadexServiceError),
    /// A piece of the download arrived (the caller holds it).
    Chunk,
    /// The download has no more pieces.
    StreamEnded,
}

/// What the caller is to do next.
pub enum CoverAction {
    /// Find out whether this file exists, and report `Exists`.
    CheckExists(String),
    /// Make this folder (and its parents), and report `Done` or `Failed`.
    CreateDir(String),
    /// Start downloading the cover of this manga with this file name from
    /// MangaDex, and report `Done` or `Failed`.
    Fetch(String, String),
    /// Create or truncate this file for writing, and report `Done` or `Failed`.
    OpenForWrite(String),
    /// Wait for the next piece of the download, and report `Chunk`,
    /// `StreamEnded` or `Failed`.
    NextChunk,
    /// Write the piece just received, and report `Done` or `Failed`.
    WriteChunk,
    /// Remove this folder and all in it, and report `Done` (whatever came of it).
    RemoveDir(String),
    /// Serve this file (nothing more to report).
    Serve(String),
    /// Answer with this error (nothing more to report).
    Fail(MangadexServiceError),
}

/// An action, by the text of its strings.
pub enum PlannedCoverAction {
    CheckExists(Seq<char>),
    CreateDir(Seq<char>),
    Fetch(Seq<char>, Seq<char>),
    OpenForWrite(Seq<char>),
    NextChunk,
    WriteChunk,
    RemoveDir(Seq<char>),
    Serve(Seq<char>),
    Fail(MangadexServiceError),
}

impl View for CoverAction {
    type V = PlannedCoverAction;

    open spec fn view(&self) -> PlannedCoverAction {
        match self {
            CoverAction::CheckExists(p) => PlannedCoverAction::CheckExists(p@),
            CoverAction::CreateDir(p) => PlannedCoverAction::CreateDir(p@),
            CoverAction::Fetch(m, f) => PlannedCoverAction::Fetch(m@, f@),
            CoverAction::OpenForWrite(p) => PlannedCoverAction::OpenForWrite(p@),
            CoverAction::NextChunk => PlannedCoverAction::NextChunk,
            CoverAction::WriteChunk => PlannedCoverAction::WriteChunk,
            CoverAction::RemoveDir(p) => PlannedCoverAction::RemoveDir(p@),
            CoverAction::Serve(p) => PlannedCoverAction::Serve(p@),
            CoverAction::Fail(e) => PlannedCoverAction::Fail(*e),
        }
    }
}

/// Whether a stage waits for this event.
pub open spec fn cover_accepts(stage: CoverStage, event: CoverEvent) -> bool {
    match stage {
        CoverStage::CheckingFile => event is Exists,
        CoverStage::CreatingDir | CoverStage::Fetching | CoverStage::Opening | CoverStage::Writing
        | CoverStage::RemovingDir => event is Done || event is Failed,
        CoverStage::Receiving => event is Chunk || event is StreamEnded || event is Failed,
        CoverStage::Serving | CoverStage::Failed(_) => false,
    }
}

/// The stage after `event` (for an event the stage accepts). A failed write
/// removes the cover folder before failing with an I/O error; other failures end
/// the serving with the reported error.
pub open spec fn cover_next_stage(stage: CoverStage, event: CoverEvent) -> CoverStage {
    match (stage, event) {
        (CoverStage::CheckingFile, CoverEvent::Exists(true)) => CoverStage::Serving,
        (CoverStage::CheckingFile, _) => CoverStage::CreatingDir,
        (CoverStage::CreatingDir, CoverEvent::Done) => CoverStage::Fetching,
        (CoverStage::Fetching, CoverEvent::Done) => CoverStage::Opening,
        (CoverStage::Opening, CoverEvent::Done) => CoverStage::Receiving,
        (CoverStage::Receiving, CoverEvent::Chunk) => CoverStage::Writing,
        (CoverStage::Receiving, CoverEvent::StreamEnded) => CoverStage::Serving,
        (CoverStage::Writing, CoverEvent::Done) => CoverStage::Receiving,
        (CoverStage::Writing, _) => CoverStage::RemovingDir,
        (CoverStage::RemovingDir, _) => CoverStage::Failed(MangadexServiceError::IoError),
        (_, CoverEvent::Failed(e)) => CoverStage::Failed(e),
        (s, _) => s,
    }
}

/// The action that comes with entering `stage`.
pub open spec fn cover_action_on_entering(
    stage: CoverStage,
    manga_id: Seq<char>,
    filename: Seq<char>,
) -> PlannedCoverAction {
    match stage {
        CoverStage::CheckingFile => PlannedCoverAction::CheckExists(cover_file_path_of(manga_id, filename)),
        CoverStage::CreatingDir => PlannedCoverAction::CreateDir(cover_dir_of(manga_id)),
        CoverStage::Fetching => PlannedCoverAction::Fetch(manga_id, filename),
        CoverStage::Opening => PlannedCoverAction::OpenForWrite(cover_file_path_of(manga_id, filename)),
        CoverStage::Receiving => PlannedCoverAction::NextChunk,
        CoverStage::Writing => PlannedCoverAction::WriteChunk,
        CoverStage::RemovingDir => PlannedCoverAction::RemoveDir(cover_dir_of(manga_id)),
        CoverStage::Serving => PlannedCoverAction::Serve(cover_file_path_of(manga_id, filename)),
        CoverStage::Failed(e) => PlannedCoverAction::Fail(e),
    }
}

/// The cover file that is looked for, written and served is one and the same,
/// `cover/{manga id}/{file name}`, inside the folder `cover/{manga id}` that is made
/// before the download and removed after a failed write; the download asks for that
/// very manga and file.
pub proof fn lemma_cover_files_spelled_out(manga_id: Seq<char>, filename: Seq<char>)
    ensures
        cover_action_on_entering(CoverStage::CheckingFile, manga_id, filename)
            == PlannedCoverAction::CheckExists("cover/"@ + manga_id + "/"@ + filename),
        cover_action_on_entering(CoverStage::CreatingDir, manga_id, filename)
            == PlannedCoverAction::CreateDir("cover/"@ + manga_id),
        cover_action_on_entering(CoverStage::Fetching, manga_id, filename)
            == PlannedCoverAction::Fetch(manga_id, filename),
        cover_action_on_entering(CoverStage::Opening, manga_id, filename)
            == PlannedCoverAction::OpenForWrite("cover/"@ + manga_id + "/"@ + filename),
        cover_action_on_entering(CoverStage::RemovingDir, manga_id, filename)
            == PlannedCoverAction::RemoveDir("cover/"@ + manga_id),
        cover_action_on_entering(CoverStage::Serving, manga_id, filename)
            == PlannedCoverAction::Serve("cover/"@ + manga_id + "/"@ + filename),
{
}

/// The serving of one cover in progress.
pub struct CoverDownload {
    pub manga_id: String,
    pub filename: String,
    pub stage: CoverStage,
}

impl CoverDownload {
    /// The action that comes with entering `stage` for this cover.
    pub open spec fn planned(self, stage: CoverStage) -> PlannedCoverAction {
        cover_action_on_entering(stage, self.manga_id@, self.filename@)
    }

    fn action_for(&self, stage: CoverStage) -> (res: CoverAction)
        ensures
            res@ == self.planned(stage),
    {
        let id = self.manga_id.as_str();
        let file = self.filename.as_str();
        match stage {
            CoverStage::CheckingFile => CoverAction::CheckExists(cover_file_path(id, file)),
            CoverStage::CreatingDir => CoverAction::CreateDir(cover_dir(id)),
            CoverStage::Fetching => CoverAction::Fetch(self.manga_id.clone(), self.filename.clone()),
            CoverStage::Opening => CoverAction::OpenForWrite(cover_file_path(id, file)),
            CoverStage::Receiving => CoverAction::NextChunk,
            CoverStage::Writing => CoverAction::WriteChunk,
            CoverStage::RemovingDir => CoverAction::RemoveDir(cover_dir(id)),
            CoverStage::Serving => CoverAction::Serve(cover_file_path(id, file)),
            CoverStage::Failed(e) => CoverAction::Fail(e),
        }
    }

    /// Begins serving the cover `filename` of a manga: first, look for the kept copy.
    pub fn start(manga_id: String, filename: String) -> (res: (CoverDownload, CoverAction))
        ensures
            res.0.manga_id == manga_id,
            res.0.filename == filename,
            res.0.stage == CoverStage::CheckingFile,
            res.1@ == PlannedCoverAction::CheckExists(cover_file_path_of(manga_id@, filename@)),
    {
        let download = CoverDownload { manga_id, filename, stage: CoverStage::CheckingFile };
        let action = download.action_for(CoverStage::CheckingFile);
        (download, action)
    }

    /// Takes in what the last action gave and says what to do next. An event that
    /// the stage does not wait for (a caller's mistake) ends the serving with an
    /// internal error.
    pub fn next(&mut self, event: CoverEvent) -> (action: CoverAction)
        ensures
            final(self).manga_id == old(self).manga_id,
            final(self).filename == old(self).filename,
            cover_accepts(old(self).stage, event) ==> final(self).stage == cover_next_stage(
                old(self).stage,
                event,
            ) && action@ == old(self).planned(final(self).stage),
            !cover_accepts(old(self).stage, event) ==> final(self).stage == CoverStage::Failed(
                MangadexServiceError::InternalError,
            ) && action@ == PlannedCoverAction::Fail(MangadexServiceError::InternalError),
    {
        let stage = match (self.stage, event) {
            (CoverStage::CheckingFile, CoverEvent::Exists(true)) => CoverStage::Serving,
            (CoverStage::CheckingFile, CoverEvent::Exists(false)) => CoverStage::CreatingDir,
            (CoverStage::CreatingDir, CoverEvent::Done) => CoverStage::Fetching,
            (CoverStage::CreatingDir, CoverEvent::Failed(e)) => CoverStage::Failed(e),
            (CoverStage::Fetching, CoverEvent::Done) => CoverStage::Opening,
            (CoverStage::Fetching, CoverEvent::Failed(e)) => CoverStage::Failed(e),
            (CoverStage::Opening, CoverEvent::Done) => CoverStage::Receiving,
            (CoverStage::Opening, CoverEvent::Failed(e)) => CoverStage::Failed(e),
            (CoverStage::Receiving, CoverEvent::Chunk) => CoverStage::Writing,
            (CoverStage::Receiving, CoverEvent::StreamEnded) => CoverStage::Serving,
            (CoverStage::Receiving, CoverEvent::Failed(e)) => CoverStage::Failed(e),
            (CoverStage::Writing, CoverEvent::Done) => CoverStage::Receiving,
            (CoverStage::Writing, CoverEvent::Failed(_)) => CoverStage::RemovingDir,
            (CoverStage::RemovingDir, CoverEvent::Done) => CoverStage::Failed(MangadexServiceError::IoError),
            (CoverStage::RemovingDir, CoverEvent::Failed(_)) => CoverStage::Failed(
                MangadexServiceError::IoError,
            ),
            _ => CoverStage::Failed(MangadexServiceError::InternalError),
        };
        self.stage = stage;
        self.action_for(stage)
    }
}

/// The stage that `events`, reported one after another from the start, lead to;
/// `None` when some event is not one its stage waits for.
pub open spec fn cover_run(events: Seq<CoverEvent>) -> Option<CoverStage>
    decreases events.len(),
{
    if events.len() == 0 {
        Some(CoverStage::CheckingFile)
    } else {
        match cover_run(events.drop_last()) {
            Some(stage) => if cover_accepts(stage, events.last()) {
                Some(cover_next_stage(stage, events.last()))
            } else {
                None
            },
            None => None,
        }
    }
}

proof fn lemma_checking_file_only_at_start(events: Seq<CoverEvent>)
    requires
        cover_run(events) == Some(CoverStage::CheckingFile),
    ensures
        events.len() == 0,
{
    if events.len() > 0 {
        assert(cover_run(events.drop_last()) is Some);
    }
}

/// A kept cover is served at once; otherwise the cover is served only when its
/// download has ended.
pub proof fn lemma_cover_served_only_with_file(events: Seq<CoverEvent>)
    requires
        cover_run(events) == Some(CoverStage::Serving),
    ensures
        events =~= seq![CoverEvent::Exists(true)] || (events.len() > 0 && events.last()
            == CoverEvent::StreamEnded),
{
    let before = events.drop_last();
    if cover_run(before) == Some(CoverStage::CheckingFile) {
        lemma_checking_file_only_at_start(before);
        assert(events =~= before.push(events.last()));
    }
}

/// The cover is fetched only when it was not kept, and only after its folder was made.
pub proof fn lemma_cover_fetched_only_when_missing(events: Seq<CoverEvent>)
    requires
        cover_run(events) == Some(CoverStage::Fetching),
    ensures
        events =~= seq![CoverEvent::Exists(false), CoverEvent::Done],
{
    let before = events.drop_last();
    assert(cover_run(before) == Some(CoverStage::CreatingDir));
    let first = before.drop_last();
    assert(cover_run(first) == Some(CoverStage::CheckingFile));
    lemma_checking_file_only_at_start(first);
    assert(before =~= first.push(before.last()));
    assert(events =~= before.push(events.last()));
}

/// A failed write removes the cover folder before the serving fails: the stage
/// after a failure reported while writing is always `RemovingDir`, and from there
/// the serving fails with an I/O error whatever the removal gave.
pub proof fn lemma_failed_write_removes_folder(events: Seq<CoverEvent>, e: MangadexServiceError)
    requires
        cover_run(events) == Some(CoverStage::Writing),
    ensures
        cover_run(events.push(CoverEvent::Failed(e))) == Some(CoverStage::RemovingDir),
        cover_run(events.push(CoverEvent::Failed(e)).push(CoverEvent::Done)) == Some(
            CoverStage::Failed(MangadexServiceError::IoError),
        ),
{
    assert(events.push(CoverEvent::Failed(e)).drop_last() =~= events);
    assert(events.push(CoverEvent::Failed(e)).push(CoverEvent::Done).drop_last() =~= events.push(
        CoverEvent::Failed(e),
    ));
}

} // verus!
