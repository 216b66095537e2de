//! The ingestion worker as a state machine: one request at a time, from
//! download over classification to commit. The worker's loop performs the
//! actions; every decision is made here.

use vstd::prelude::*;
use super::classify::{
    classify_outputs, download_dir, last_in_role, plan_download, refs_of, rejected_in, roles_of,
    sniffed_of, DownloadPlan, DownloaderError, OutputRole, RawFile, YtdlRequest, YtdlResult,
};
use crate::vfs::files::FileRef;
use crate::vfs::model::FileId;
use crate::vfs::shared::VFSError;

verus! {

/// Where the worker stands with the request at hand.
#[derive(Debug)]
pub enum WorkerState {
    /// No request at hand.
    Idle,
    /// The download tool runs.
    Downloading,
    /// The download is done; its files are being read. Holds the title
    /// that the tool reported.
    Classifying(Option<String>),
    /// The files are sorted; the kept ones are being probed and committed.
    Committing,
}

/// What the worker's loop reports back.
#[derive(Debug)]
pub enum WorkerEvent {
    /// A request was taken from the queue.
    Request(YtdlRequest),
    /// The download tool is absent and could not be fetched.
    ToolUnavailable,
    /// The tool ran: whether it reported a single item, and the item's
    /// title.
    Downloaded { single: bool, title: Option<String> },
    /// The step at hand failed: the download, the reading of its files, or
    /// the probing and placing of the files to commit.
    Failed(DownloaderError),
    /// The files under the temporary stem, with their leading bytes.
    Listed(Vec<RawFile>),
    /// The commit ended.
    Stored(Result<FileId, VFSError>),
}

/// Why a request failed.
#[derive(Debug)]
pub enum MediaRequestError {
    Dl(DownloaderError),
    Vfs(VFSError),
}

/// What the worker's loop is to do next.
#[derive(Debug)]
pub enum WorkerAction {
    /// Nothing: wait for the next event.
    Wait,
    /// Fetch the download tool if it is absent, then run it as planned.
    Download(DownloadPlan),
    /// Read the files under the temporary stem in the download directory.
    ListOutputs,
    /// Delete the files in `discard`, probe the files of `result`, and
    /// commit them.
    Store { result: YtdlResult, discard: Vec<FileRef> },
    /// Delete the files in `discard` and send the reply, once; a requester
    /// that has gone away is no error.
    Reply { reply: Result<FileId, MediaRequestError>, discard: Vec<FileRef> },
}

/// The media file among downloaded files: the last one whose content is
/// video or audio.
pub open spec fn media_among(files: Seq<RawFile>) -> Option<FileRef> {
    last_in_role(
        roles_of(sniffed_of(files)),
        refs_of(sniffed_of(files)),
        OutputRole::Media,
        files.len(),
    )
}

/// The thumbnail among downloaded files: the last one whose content is an
/// image.
pub open spec fn thumbnail_among(files: Seq<RawFile>) -> Option<FileRef> {
    last_in_role(
        roles_of(sniffed_of(files)),
        refs_of(sniffed_of(files)),
        OutputRole::Thumbnail,
        files.len(),
    )
}

/// The downloaded files that are to be deleted: those whose content is of
/// no kind that is kept.
pub open spec fn discarded_among(files: Seq<RawFile>) -> Seq<FileRef> {
    rejected_in(roles_of(sniffed_of(files)), refs_of(sniffed_of(files)), files.len())
}

/// The state that an event leads to.
///
/// A request starts a download. A download that reported one item leads
/// to classification, and files with a media file among them lead to the
/// commit. Every failure, and the end of the commit, leads back to idle,
/// so that the next request is served. An event that the state does not
/// wait for changes nothing.
pub open spec fn next_state(state: WorkerState, event: WorkerEvent) -> WorkerState {
    match (state, event) {
        (WorkerState::Idle, WorkerEvent::Request(_)) => WorkerState::Downloading,
        (WorkerState::Downloading, WorkerEvent::ToolUnavailable) => WorkerState::Idle,
        (WorkerState::Downloading, WorkerEvent::Failed(_)) => WorkerState::Idle,
        (WorkerState::Downloading, WorkerEvent::Downloaded { single, title }) => if single {
            WorkerState::Classifying(title)
        } else {
            WorkerState::Idle
        },
        (WorkerState::Classifying(_), WorkerEvent::Failed(_)) => WorkerState::Idle,
        (WorkerState::Classifying(_), WorkerEvent::Listed(files)) => if media_among(files@)
            is Some {
            WorkerState::Committing
        } else {
            WorkerState::Idle
        },
        (WorkerState::Committing, WorkerEvent::Failed(_)) => WorkerState::Idle,
        (WorkerState::Committing, WorkerEvent::Stored(_)) => WorkerState::Idle,
        (state, _) => state,
    }
}

/// Whether `plan` is the plan of the download for `req`.
pub open spec fn is_plan_for(plan: DownloadPlan, req: YtdlRequest) -> bool {
    &&& plan.url@ == req.url@
    &&& plan.socket_timeout@ == "15"@
    &&& plan.extract_audio == req.audio_only
    &&& plan.extra_args@.len() == 1
    &&& plan.extra_args@[0]@ == "--write-thumbnail"@
    &&& plan.output_template@ == "TEMP.%(ext)s"@
    &&& plan.directory@ == download_dir()
}

/// Whether `action` is the reply `reply`, with `discard` to delete.
pub open spec fn is_reply(
    action: WorkerAction,
    reply: Result<FileId, MediaRequestError>,
    discard: Seq<FileRef>,
) -> bool {
    action matches WorkerAction::Reply { reply: sent, discard: deleted } && sent == reply
        && deleted@ == discard
}

/// Whether `action` is the reply that a download error ended the request,
/// with nothing to delete.
pub open spec fn is_refusal(action: WorkerAction, e: DownloaderError) -> bool {
    is_reply(action, Err(MediaRequestError::Dl(e)), Seq::empty())
}

/// Whether `action` is what an event asks for in a state.
///
/// A request asks for its download. A finished download asks for the
/// files to be read, unless it was no single item, which is replied as
/// `YtdlNotSingle`. A missing tool is replied as `YtdlInitError`, a
/// failure as itself. Files without a media file are replied as
/// `NoTempFile`; with one, they ask for the commit of the media file and
/// the thumbnail under the title. Either way the rejected files are to be
/// deleted. The end of the commit is replied as it ended. An event that
/// the state does not wait for asks for nothing.
pub open spec fn is_action_for(state: WorkerState, event: WorkerEvent, action: WorkerAction)
    -> bool {
    match (state, event) {
        (WorkerState::Idle, WorkerEvent::Request(req)) => action matches WorkerAction::Download(
            plan,
        ) && is_plan_for(plan, req),
        (WorkerState::Downloading, WorkerEvent::ToolUnavailable) => is_refusal(
            action,
            DownloaderError::YtdlInitError,
        ),
        (WorkerState::Downloading, WorkerEvent::Failed(e)) => is_refusal(action, e),
        (WorkerState::Downloading, WorkerEvent::Downloaded { single, title }) => if single {
            action is ListOutputs
        } else {
            is_refusal(action, DownloaderError::YtdlNotSingle)
        },
        (WorkerState::Classifying(_), WorkerEvent::Failed(e)) => is_refusal(action, e),
        (WorkerState::Classifying(title), WorkerEvent::Listed(files)) => match media_among(
            files@,
        ) {
            Some(media) => action matches WorkerAction::Store { result, discard } && result.title
                == title && result.media == media && result.thumbnail == thumbnail_among(files@)
                && discard@ == discarded_among(files@),
            None => is_reply(
                action,
                Err(MediaRequestError::Dl(DownloaderError::NoTempFile)),
                discarded_among(files@),
            ),
        },
        (WorkerState::Committing, WorkerEvent::Failed(e)) => is_refusal(action, e),
        (WorkerState::Committing, WorkerEvent::Stored(ended)) => is_reply(
            action,
            match ended {
                Ok(id) => Ok(id),
                Err(e) => Err(MediaRequestError::Vfs(e)),
            },
            Seq::empty(),
        ),
        _ => action is Wait,
    }
}

/// One step of the worker: the state that the event leads to, and what
/// the loop is to do next. See `next_state` and `is_action_for`.
pub fn worker_step(state: WorkerState, event: WorkerEvent) -> (out: (WorkerState, WorkerAction))
    ensures
        out.0 == next_state(state, event),
        is_action_for(state, event, out.1),
{
    match (state, event) {
        (WorkerState::Idle, WorkerEvent::Request(req)) => {
            (WorkerState::Downloading, WorkerAction::Download(plan_download(&req)))
        },
        (WorkerState::Downloading, WorkerEvent::ToolUnavailable) => {
            (WorkerState::Idle, refusal(DownloaderError::YtdlInitError))
        },
        (WorkerState::Downloading, WorkerEvent::Failed(e)) => (WorkerState::Idle, refusal(e)),
        (WorkerState::Downloading, WorkerEvent::Downloaded { single, title }) => {
            if single {
                (WorkerState::Classifying(title), WorkerAction::ListOutputs)
            } else {
                (WorkerState::Idle, refusal(DownloaderError::YtdlNotSingle))
            }
        },
        (WorkerState::Classifying(_), WorkerEvent::Failed(e)) => (WorkerState::Idle, refusal(e)),
        (WorkerState::Classifying(title), WorkerEvent::Listed(files)) => {
            let sorted = classify_outputs(&files);
            match sorted.media {
                Some(media) => (
                    WorkerState::Committing,
                    WorkerAction::Store {
                        result: YtdlResult { title, media, thumbnail: sorted.thumbnail },
                        discard: sorted.rejected,
                    },
                ),
                None => (
                    WorkerState::Idle,
                    WorkerAction::Reply {
                        reply: Err(MediaRequestError::Dl(DownloaderError::NoTempFile)),
                        discard: sorted.rejected,
                    },
                ),
            }
        },
        (WorkerState::Committing, WorkerEvent::Failed(e)) => (WorkerState::Idle, refusal(e)),
        (WorkerState::Committing, WorkerEvent::Stored(ended)) => {
            let reply = match ended {
                Ok(id) => Ok(id),
                Err(e) => Err(MediaRequestError::Vfs(e)),
            };
            (WorkerState::Idle, WorkerAction::Reply { reply, discard: Vec::new() })
        },
        (state, _) => (state, WorkerAction::Wait),
    }
}

/// The reply to a request that a download error ended, with nothing to
/// delete.
fn refusal(e: DownloaderError) -> (action: WorkerAction)
    ensures
        is_refusal(action, e),
{
    WorkerAction::Reply { reply: Err(MediaRequestError::Dl(e)), discard: Vec::new() }
}

} // verus!
