//! Downloading a chapter as an e-book: where the files go, how the external
//! downloader and converter are called, and the order of the steps, as a state
//! machine that the caller drives by doing each action and reporting back.
use vstd::prelude::*;

use crate::error::MangadexServiceError;
use crate::text::{concat2, concat4};

verus! {

/// The folder of a chapter's downloads.
pub open spec fn chapter_dir_of(chapter_id: Seq<char>) -> Seq<char> {
    "downloads/"@ + chapter_id
}

/// Where the downloader leaves the chapter's EPUB.
pub open spec fn epub_path_of(chapter_id: Seq<char>) -> Seq<char> {
    chapter_dir_of(chapter_id) + "/"@ + chapter_id + ".epub"@
}

/// Where the converted AZW3 (Kindle) file goes.
pub open spec fn azw3_path_of(chapter_id: Seq<char>) -> Seq<char> {
    chapter_dir_of(chapter_id) + "/"@ + chapter_id + ".azw3"@
}

/// The name under which the e-book is handed to the reader.
pub open spec fn download_filename_of(manga_name: Seq<char>, chapter_name: Seq<char>) -> Seq<char> {
    manga_name + "_"@ + chapter_name + ".azw3"@
}

/// The arguments of the `mangadex-dl` downloader for a chapter.
pub open spec fn downloader_args_of(chapter_id: Seq<char>) -> Seq<Seq<char>> {
    seq![
        "-f"@,
        "epub"@,
        "https://mangadex.org/chapter/"@ + chapter_id,
        "-d"@,
        chapter_dir_of(chapter_id),
        "-ucc"@,
        "-uvc"@,
        "-ncf"@,
        "-nmf"@,
        "-fn"@,
        chapter_id,
        "--no-track"@,
    ]
}

pub fn chapter_dir(chapter_id: &str) -> (res: String)
    ensures
        res@ == chapter_dir_of(chapter_id@),
{
    concat2("downloads/", chapter_id)
}

pub fn epub_path(chapter_id: &str) -> (res: String)
    ensures
        res@ == epub_path_of(chapter_id@),
{
    let dir = chapter_dir(chapter_id);
    concat4(dir.as_str(), "/", chapter_id, ".epub")
}

pub fn azw3_path(chapter_id: &str) -> (res: String)
    ensures
        res@ == azw3_path_of(chapter_id@),
{
    let dir = chapter_dir(chapter_id);
    concat4(dir.as_str(), "/", chapter_id, ".azw3")
}

pub fn download_filename(manga_name: &str, chapter_name: &str) -> (res: String)
    ensures
        res@ == download_filename_of(manga_name@, chapter_name@),
{
    concat4(manga_name, "_", chapter_name, ".azw3")
}

/// The views of a list of owned strings.
pub open spec fn views_of(list: Seq<String>) -> Seq<Seq<char>> {
    list.map_values(|s: String| s@)
}

pub fn downloader_args(chapter_id: &str) -> (res: Vec<String>)
    ensures
        views_of(res@) == downloader_args_of(chapter_id@),
{
    let res = vec![
        "-f".to_owned(),
        "epub".to_owned(),
        concat2("https://mangadex.org/chapter/", chapter_id),
        "-d".to_owned(),
        chapter_dir(chapter_id),
        "-ucc".to_owned(),
        "-uvc".to_owned(),
        "-ncf".to_owned(),
        "-nmf".to_owned(),
        "-fn".to_owned(),
        chapter_id.to_owned(),
        "--no-track".to_owned(),
    ];
    assert(views_of(res@) =~= downloader_args_of(chapter_id@));
    res
}

/// The parameters of the response's content disposition: the new file name
/// first, then the parameters the file already had, in order.
pub fn prepend_filename_param<T>(filename: T, params: Vec<T>) -> (res: Vec<T>)
    ensures
        res@ == seq![filename] + params@,
{
    let ghost all = params@;
    let mut rest = params;
    let mut acc: Vec<T> = Vec::new();
    acc.push(filename);
    while rest.len() > 0
        invariant
            acc@.len() >= 1,
            acc@ + rest@ == seq![filename] + all,
        decreases rest@.len(),
    {
        let ghost before_acc = acc@;
        let ghost before_rest = rest@;
        let p = rest.remove(0);
        acc.push(p);
        assert(acc@ + rest@ =~= before_acc + before_rest);
    }
    assert(acc@ =~= acc@ + rest@);
    acc
}

/// Where the download of a chapter stands.
#[derive(Clone, Copy, Debug, PartialEq, Eq, Structural)]
pub enum ChapterStage {
    /// Waiting to learn whether the EPUB is already there.
    CheckingEpub,
    /// Waiting for the downloader to finish.
    Downloading,
    /// Waiting to learn whether the downloader left the EPUB.
    RecheckingEpub,
    /// Waiting to learn whether the AZW3 is already there.
    CheckingAzw3,
    /// Waiting for the converter to finish.
    Converting,
    /// Done: the AZW3 is served.
    Serving,
    /// Done: the chapter could not be downloaded.
    Failed,
}

/// What the caller reports after doing an action.
#[derive(Clone, Copy, Debug, PartialEq, Eq, Structural)]
pub enum ChapterEvent {
    /// The answer to a `CheckExists`.
    Exists(bool),
    /// A `Download` or `Convert` ran to its end.
    Finished,
}

/// What the caller is to do next.
pub enum ChapterAction {
    /// Find out whether this file exists, and report `Exists`.
    CheckExists(String),
    /// Take a MangaDex permit, run `mangadex-dl` with these arguments, release the
    /// permit, and report `Finished`.
    Download(Vec<String>),
    /// Run `ebook-convert` from the first file to the second, and report `Finished`.
    Convert(String, String),
    /// Serve this file under this download name (nothing more to report).
    Serve(String, String),
    /// Answer with this error (nothing more to report).
    Fail(MangadexServiceError),
}

/// An action, by the text of its strings.
pub enum PlannedAction {
    CheckExists(Seq<char>),
    Download(Seq<Seq<char>>),
    Convert(Seq<char>, Seq<char>),
    Serve(Seq<char>, Seq<char>),
    Fail(MangadexServiceError),
}

impl View for ChapterAction {
    type V = PlannedAction;

    open spec fn view(&self) -> PlannedAction {
        match self {
            ChapterAction::CheckExists(p) => PlannedAction::CheckExists(p@),
            ChapterAction::Download(args) => PlannedAction::Download(views_of(args@)),
            ChapterAction::Convert(from, to) => PlannedAction::Convert(from@, to@),
            ChapterAction::Serve(path, name) => PlannedAction::Serve(path@, name@),
            ChapterAction::Fail(e) => PlannedAction::Fail(*e),
        }
    }
}

/// Whether a stage waits for this event.
pub open spec fn accepts(stage: ChapterStage, event: ChapterEvent) -> bool {
    match stage {
        ChapterStage::CheckingEpub | ChapterStage::RecheckingEpub | ChapterStage::CheckingAzw3 => event is Exists,
        ChapterStage::Downloading | ChapterStage::Converting => event is Finished,
        ChapterStage::Serving | ChapterStage::Failed => false,
    }
}

/// The stage after `event` (for an event the stage accepts).
pub open spec fn next_stage(stage: ChapterStage, event: ChapterEvent) -> ChapterStage {
    match (stage, event) {
        (ChapterStage::CheckingEpub, ChapterEvent::Exists(true)) => ChapterStage::CheckingAzw3,
        (ChapterStage::CheckingEpub, _) => ChapterStage::Downloading,
        (ChapterStage::Downloading, _) => ChapterStage::RecheckingEpub,
        (ChapterStage::RecheckingEpub, ChapterEvent::Exists(true)) => ChapterStage::CheckingAzw3,
        (ChapterStage::RecheckingEpub, _) => ChapterStage::Failed,
        (ChapterStage::CheckingAzw3, ChapterEvent::Exists(true)) => ChapterStage::Serving,
        (ChapterStage::CheckingAzw3, _) => ChapterStage::Converting,
        (ChapterStage::Converting, _) => ChapterStage::Serving,
        (s, _) => s,
    }
}

/// The action that comes with entering `stage`.
pub open spec fn action_on_entering(
    stage: ChapterStage,
    chapter_id: Seq<char>,
    manga_name: Seq<char>,
    chapter_name: Seq<char>,
) -> PlannedAction {
    match stage {
        ChapterStage::CheckingEpub => PlannedAction::CheckExists(epub_path_of(chapter_id)),
        ChapterStage::Downloading => PlannedAction::Download(downloader_args_of(chapter_id)),
        ChapterStage::RecheckingEpub => PlannedAction::CheckExists(epub_path_of(chapter_id)),
        ChapterStage::CheckingAzw3 => PlannedAction::CheckExists(azw3_path_of(chapter_id)),
        ChapterStage::Converting => PlannedAction::Convert(epub_path_of(chapter_id), azw3_path_of(chapter_id)),
        ChapterStage::Serving => PlannedAction::Serve(
            azw3_path_of(chapter_id),
            download_filename_of(manga_name, chapter_name),
        ),
        ChapterStage::Failed => PlannedAction::Fail(MangadexServiceError::ChapterDownloadError),
    }
}

/// When its EPUB is missing, a chapter is downloaded by `mangadex-dl` with these
/// arguments: an EPUB (`-f epub`) of the chapter's MangaDex page, into the
/// chapter's folder (`-d`), under the chapter id as file name (`-fn`), without
/// cover pages or tracking. The file so written, folder/name.format, is the very
/// EPUB that is looked for next and then converted.
pub proof fn lemma_downloader_writes_the_checked_epub(
    chapter_id: Seq<char>,
    manga_name: Seq<char>,
    chapter_name: Seq<char>,
)
    ensures
        action_on_entering(ChapterStage::Downloading, chapter_id, manga_name, chapter_name)
            == PlannedAction::Download(
            seq![
                "-f"@,
                "epub"@,
                "https://mangadex.org/chapter/"@ + chapter_id,
                "-d"@,
                "downloads/"@ + chapter_id,
                "-ucc"@,
                "-uvc"@,
                "-ncf"@,
                "-nmf"@,
                "-fn"@,
                chapter_id,
                "--no-track"@,
            ],
        ),
        action_on_entering(ChapterStage::RecheckingEpub, chapter_id, manga_name, chapter_name)
            == PlannedAction::CheckExists("downloads/"@ + chapter_id + "/"@ + chapter_id + "."@ + "epub"@),
        action_on_entering(ChapterStage::Converting, chapter_id, manga_name, chapter_name)
            == PlannedAction::Convert(
            "downloads/"@ + chapter_id + "/"@ + chapter_id + "."@ + "epub"@,
            "downloads/"@ + chapter_id + "/"@ + chapter_id + "."@ + "azw3"@,
        ),
{
    reveal_strlit(".epub");
    reveal_strlit(".azw3");
    reveal_strlit(".");
    reveal_strlit("epub");
    reveal_strlit("azw3");
    let stem = "downloads/"@ + chapter_id + "/"@ + chapter_id;
    assert(stem + "."@ + "epub"@ =~= stem + ".epub"@);
    assert(stem + "."@ + "azw3"@ =~= stem + ".azw3"@);
}

/// The other steps spelled out: the EPUB is looked for first, then the AZW3 next
/// to it, and the AZW3 is served under the name `<manga>_<chapter>.azw3`; a
/// download that left no EPUB ends in a chapter download error.
pub proof fn lemma_chapter_files_spelled_out(chapter_id: Seq<char>, manga_name: Seq<char>, chapter_name: Seq<char>)
    ensures
        action_on_entering(ChapterStage::CheckingEpub, chapter_id, manga_name, chapter_name)
            == PlannedAction::CheckExists("downloads/"@ + chapter_id + "/"@ + chapter_id + "."@ + "epub"@),
        action_on_entering(ChapterStage::CheckingAzw3, chapter_id, manga_name, chapter_name)
            == PlannedAction::CheckExists("downloads/"@ + chapter_id + "/"@ + chapter_id + "."@ + "azw3"@),
        action_on_entering(ChapterStage::Serving, chapter_id, manga_name, chapter_name) == PlannedAction::Serve(
            "downloads/"@ + chapter_id + "/"@ + chapter_id + "."@ + "azw3"@,
            manga_name + "_"@ + chapter_name + "."@ + "azw3"@,
        ),
        action_on_entering(ChapterStage::Failed, chapter_id, manga_name, chapter_name)
            == PlannedAction::Fail(MangadexServiceError::ChapterDownloadError),
{
    reveal_strlit(".epub");
    reveal_strlit(".azw3");
    reveal_strlit(".");
    reveal_strlit("epub");
    reveal_strlit("azw3");
    let stem = "downloads/"@ + chapter_id + "/"@ + chapter_id;
    assert(stem + "."@ + "epub"@ =~= stem + ".epub"@);
    assert(stem + "."@ + "azw3"@ =~= stem + ".azw3"@);
    let name = manga_name + "_"@ + chapter_name;
    assert(name + "."@ + "azw3"@ =~= name + ".azw3"@);
}

/// One chapter download in progress.
pub struct ChapterDownload {
    pub chapter_id: String,
    pub manga_name: String,
    pub chapter_name: String,
    pub stage: ChapterStage,
}

impl ChapterDownload {
    /// The action that comes with entering `stage` for this chapter.
    pub open spec fn planned(self, stage: ChapterStage) -> PlannedAction {
        action_on_entering(stage, self.chapter_id@, self.manga_name@, self.chapter_name@)
    }

    fn action_for(&self, stage: ChapterStage) -> (res: ChapterAction)
        ensures
            res@ == self.planned(stage),
    {
        let id = self.chapter_id.as_str();
        match stage {
            ChapterStage::CheckingEpub => ChapterAction::CheckExists(epub_path(id)),
            ChapterStage::Downloading => ChapterAction::Download(downloader_args(id)),
            ChapterStage::RecheckingEpub => ChapterAction::CheckExists(epub_path(id)),
            ChapterStage::CheckingAzw3 => ChapterAction::CheckExists(azw3_path(id)),
            ChapterStage::Converting => ChapterAction::Convert(epub_path(id), azw3_path(id)),
            ChapterStage::Serving => ChapterAction::Serve(
                azw3_path(id),
                download_filename(self.manga_name.as_str(), self.chapter_name.as_str()),
            ),
            ChapterStage::Failed => ChapterAction::Fail(MangadexServiceError::ChapterDownloadError),
        }
    }

    /// Begins the download of a chapter: first, look for its EPUB.
    pub fn start(chapter_id: String, manga_name: String, chapter_name: String) -> (res: (
        ChapterDownload,
        ChapterAction,
    ))
        ensures
            res.0.chapter_id == chapter_id,
            res.0.manga_name == manga_name,
            res.0.chapter_name == chapter_name,
            res.0.stage == ChapterStage::CheckingEpub,
            res.1@ == PlannedAction::CheckExists(epub_path_of(chapter_id@)),
    {
        let download = ChapterDownload { chapter_id, manga_name, chapter_name, stage: ChapterStage::CheckingEpub };
        let action = download.action_for(ChapterStage::CheckingEpub);
        (download, action)
    }

    /// Takes in what the last action gave and says what to do next. An event that
    /// the stage does not wait for (a caller's mistake) ends the download with an
    /// internal error.
    pub fn next(&mut self, event: ChapterEvent) -> (action: ChapterAction)
        ensures
            final(self).chapter_id == old(self).chapter_id,
            final(self).manga_name == old(self).manga_name,
            final(self).chapter_name == old(self).chapter_name,
            accepts(old(self).stage, event) ==> final(self).stage == next_stage(old(self).stage, event)
                && action@ == old(self).planned(final(self).stage),
            !accepts(old(self).stage, event) ==> final(self).stage == ChapterStage::Failed
                && action@ == PlannedAction::Fail(MangadexServiceError::InternalError),
    {
        let accepted = match (self.stage, event) {
            (ChapterStage::CheckingEpub, ChapterEvent::Exists(_)) => true,
            (ChapterStage::RecheckingEpub, ChapterEvent::Exists(_)) => true,
            (ChapterStage::CheckingAzw3, ChapterEvent::Exists(_)) => true,
            (ChapterStage::Downloading, ChapterEvent::Finished) => true,
            (ChapterStage::Converting, ChapterEvent::Finished) => true,
            _ => false,
        };
        if !accepted {
            self.stage = ChapterStage::Failed;
            return ChapterAction::Fail(MangadexServiceError::InternalError);
        }
        let stage = match (self.stage, event) {
            (ChapterStage::CheckingEpub, ChapterEvent::Exists(true)) => ChapterStage::CheckingAzw3,
            (ChapterStage::CheckingEpub, _) => ChapterStage::Downloading,
            (ChapterStage::Downloading, _) => ChapterStage::RecheckingEpub,
            (ChapterStage::RecheckingEpub, ChapterEvent::Exists(true)) => ChapterStage::CheckingAzw3,
            (ChapterStage::RecheckingEpub, _) => ChapterStage::Failed,
            (ChapterStage::CheckingAzw3, ChapterEvent::Exists(true)) => ChapterStage::Serving,
            (ChapterStage::CheckingAzw3, _) => ChapterStage::Converting,
            (ChapterStage::Converting, _) => ChapterStage::Serving,
            (s, _) => s,
        };
        self.stage = stage;
        self.action_for(stage)
    }
}

/// The stage that `events`, reported one after another from the start, lead to;
/// `None` when some event is not one its stage waits for.
pub open spec fn run(events: Seq<ChapterEvent>) -> Option<ChapterStage>
    decreases events.len(),
{
    if events.len() == 0 {
        Some(ChapterStage::CheckingEpub)
    } else {
        match run(events.drop_last()) {
            Some(stage) => if accepts(stage, events.last()) {
                Some(next_stage(stage, events.last()))
            } else {
                None
            },
            None => None,
        }
    }
}

/// How many more events a stage can take at most before the download ends.
pub open spec fn steps_left(stage: ChapterStage) -> int {
    match stage {
        ChapterStage::CheckingEpub => 5,
        ChapterStage::Downloading => 4,
        ChapterStage::RecheckingEpub => 3,
        ChapterStage::CheckingAzw3 => 2,
        ChapterStage::Converting => 1,
        ChapterStage::Serving | ChapterStage::Failed => 0,
    }
}

/// A chapter download ends after at most five reports: every run of accepted
/// events is that short, and a run of five ends in `Serving`.
pub proof fn lemma_download_ends(events: Seq<ChapterEvent>)
    requires
        run(events) is Some,
    ensures
        events.len() + steps_left(run(events)->0) <= 5,
    decreases events.len(),
{
    if events.len() > 0 {
        lemma_download_ends(events.drop_last());
    }
}

/// The first stage is only ever the start.
proof fn lemma_checking_epub_only_at_start(events: Seq<ChapterEvent>)
    requires
        run(events) == Some(ChapterStage::CheckingEpub),
    ensures
        events.len() == 0,
{
    if events.len() > 0 {
        let prev = run(events.drop_last());
        assert(prev is Some);
    }
}

/// The downloader runs only when the first look found no EPUB.
pub proof fn lemma_download_only_when_missing(events: Seq<ChapterEvent>)
    requires
        run(events) == Some(ChapterStage::Downloading),
    ensures
        events =~= seq![ChapterEvent::Exists(false)],
{
    let prev = run(events.drop_last());
    assert(prev == Some(ChapterStage::CheckingEpub));
    lemma_checking_epub_only_at_start(events.drop_last());
}

/// The EPUB is looked for again only right after the downloader ran.
proof fn lemma_recheck_only_after_download(events: Seq<ChapterEvent>)
    requires
        run(events) == Some(ChapterStage::RecheckingEpub),
    ensures
        events =~= seq![ChapterEvent::Exists(false), ChapterEvent::Finished],
{
    let prev = run(events.drop_last());
    assert(prev == Some(ChapterStage::Downloading));
    lemma_download_only_when_missing(events.drop_last());
}

/// A chapter download fails exactly when the EPUB was missing, the downloader ran,
/// and the EPUB was still missing afterwards.
pub proof fn lemma_fails_only_when_download_left_no_epub(events: Seq<ChapterEvent>)
    ensures
        run(events) == Some(ChapterStage::Failed) <==> events =~= seq![
            ChapterEvent::Exists(false),
            ChapterEvent::Finished,
            ChapterEvent::Exists(false),
        ],
{
    let failing = seq![ChapterEvent::Exists(false), ChapterEvent::Finished, ChapterEvent::Exists(false)];
    if run(events) == Some(ChapterStage::Failed) {
        let prev = run(events.drop_last());
        assert(prev == Some(ChapterStage::RecheckingEpub));
        lemma_recheck_only_after_download(events.drop_last());
        assert(events.last() == ChapterEvent::Exists(false));
        assert(events =~= events.drop_last().push(events.last()));
    }
    if events =~= failing {
        let one = seq![ChapterEvent::Exists(false)];
        let two = seq![ChapterEvent::Exists(false), ChapterEvent::Finished];
        assert(one.drop_last() =~= Seq::<ChapterEvent>::empty());
        assert(run(Seq::<ChapterEvent>::empty()) == Some(ChapterStage::CheckingEpub));
        assert(one.last() == ChapterEvent::Exists(false));
        assert(run(one) == Some(ChapterStage::Downloading));
        assert(two.drop_last() =~= one);
        assert(two.last() == ChapterEvent::Finished);
        assert(run(two) == Some(ChapterStage::RecheckingEpub));
        assert(failing.drop_last() =~= two);
        assert(failing.last() == ChapterEvent::Exists(false));
        assert(run(failing) == Some(ChapterStage::Failed));
    }
}

/// The converter runs only when the AZW3 was found missing, and only once the EPUB
/// is known to be there (found at first, or left by the downloader).
pub proof fn lemma_convert_only_with_epub(events: Seq<ChapterEvent>)
    requires
        run(events) == Some(ChapterStage::Converting),
    ensures
        events =~= seq![ChapterEvent::Exists(true), ChapterEvent::Exists(false)]
            || events =~= seq![
                ChapterEvent::Exists(false),
                ChapterEvent::Finished,
                ChapterEvent::Exists(true),
                ChapterEvent::Exists(false),
            ],
{
    let before = events.drop_last();
    assert(run(before) == Some(ChapterStage::CheckingAzw3));
    assert(events.last() == ChapterEvent::Exists(false));
    assert(events =~= before.push(events.last()));
    let earlier = before.drop_last();
    assert(before =~= earlier.push(before.last()));
    assert(before.last() == ChapterEvent::Exists(true));
    if run(earlier) == Some(ChapterStage::CheckingEpub) {
        lemma_checking_epub_only_at_start(earlier);
    } else {
        assert(run(earlier) == Some(ChapterStage::RecheckingEpub));
        lemma_recheck_only_after_download(earlier);
    }
}

} // verus!
