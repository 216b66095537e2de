//! Sorting the files that a download left behind, by what their content
//! is found to be.

use vstd::prelude::*;
use vstd::string::*;
use crate::vfs::files::FileRef;

verus! {

/// The directory that downloads are written to.
pub open spec fn download_dir() -> Seq<char> {
    "./ytdl"@
}

/// The stem of the file names that a download writes.
pub open spec fn temp_stem() -> Seq<char> {
    "TEMP"@
}

/// Why a download came to nothing.
#[derive(Debug)]
pub enum DownloaderError {
    /// The download tool could not be fetched.
    YtdlInitError,
    /// The tool reported a playlist where one item was asked for.
    YtdlNotSingle,
    /// The download left no media file behind.
    NoTempFile,
    /// The tool failed; the text is its own.
    Ytdl(String),
    /// The downloaded files could not be read or moved; the text is the
    /// operating system's.
    Io(String),
    /// The media probe failed on a downloaded file; the text is its own.
    Media(String),
}

/// A request to download what a URL points to.
#[derive(Debug, Clone)]
pub struct YtdlRequest {
    pub url: String,
    pub audio_only: bool,
}

/// What a download brought: the title that the tool reported, the media
/// file, and the thumbnail if one came with it.
#[derive(Debug, Clone)]
pub struct YtdlResult {
    pub title: Option<String>,
    pub media: FileRef,
    pub thumbnail: Option<FileRef>,
}

/// How the download tool is to be run for a request.
#[derive(Debug, Clone)]
pub struct DownloadPlan {
    pub url: String,
    /// Seconds after which a stalled connection is given up.
    pub socket_timeout: String,
    pub extract_audio: bool,
    pub extra_args: Vec<String>,
    pub output_template: String,
    pub directory: String,
}

/// Plans the run of the download tool for a request: a socket timeout of
/// 15 seconds, audio extraction as the request asks, the thumbnail written
/// too, everything into the download directory under the temporary stem.
pub fn plan_download(req: &YtdlRequest) -> (plan: DownloadPlan)
    ensures
        plan.url@ == req.url@,
        plan.socket_timeout@ == "15"@,
        plan.extract_audio == req.audio_only,
        plan.extra_args@.len() == 1,
        plan.extra_args@[0]@ == "--write-thumbnail"@,
        plan.output_template@ == "TEMP.%(ext)s"@,
        plan.directory@ == download_dir(),
{
    let mut extra_args: Vec<String> = Vec::new();
    extra_args.push(String::from_str("--write-thumbnail"));
    DownloadPlan {
        url: req.url.clone(),
        socket_timeout: String::from_str("15"),
        extract_audio: req.audio_only,
        extra_args,
        output_template: String::from_str("TEMP.%(ext)s"),
        directory: String::from_str("./ytdl"),
    }
}

/// Whether a file name is the temporary stem, alone or followed by one
/// extension: `TEMP`, `TEMP.mp4`, but not `TEMP.part.mp4` nor `TEMPO.mp4`.
pub open spec fn is_temp_name(name: Seq<char>) -> bool {
    &&& name.len() >= 4
    &&& name.subrange(0, 4) == temp_stem()
    &&& name.len() > 4 ==> name[4] == '.'
    &&& forall|j: int| 5 <= j < name.len() ==> name[j] != '.'
}

/// Tests a file name for the temporary stem. See `is_temp_name`.
pub fn is_temp_output(name: &str) -> (b: bool)
    ensures
        b == is_temp_name(name@),
{
    proof {
        reveal_strlit("TEMP");
    }
    let n = name.unicode_len();
    if n < 4 {
        return false;
    }
    if !(name.get_char(0) == 'T' && name.get_char(1) == 'E' && name.get_char(2) == 'M'
        && name.get_char(3) == 'P') {
        assert(name@.subrange(0, 4)[0] == name@[0]);
        assert(name@.subrange(0, 4)[1] == name@[1]);
        assert(name@.subrange(0, 4)[2] == name@[2]);
        assert(name@.subrange(0, 4)[3] == name@[3]);
        return false;
    }
    assert(name@.subrange(0, 4) =~= temp_stem());
    if n == 4 {
        return true;
    }
    if name.get_char(4) != '.' {
        return false;
    }
    let mut i: usize = 5;
    while i < n
        invariant
            5 <= i <= n,
            n == name@.len(),
            forall|j: int| 5 <= j < i ==> name@[j] != '.',
        decreases n - i,
    {
        if name.get_char(i) == '.' {
            return false;
        }
        i += 1;
    }
    true
}

/// The broad kind that content sniffing finds.
#[derive(Debug, Clone, Copy, PartialEq, Eq, Structural)]
pub enum MatcherKind {
    App,
    Archive,
    Audio,
    Book,
    Doc,
    Font,
    Image,
    Text,
    Video,
    Custom,
}

/// What content sniffing finds in the leading bytes of a file: the kind of
/// the first known signature that matches, or nothing.
pub uninterp spec fn sniffed_kind(data: Seq<u8>) -> Option<MatcherKind>;

/// Sniffs a buffer: `infer::get`, and the `matcher_type` of what it finds.
/// The answer depends on the bytes alone.
#[verifier::external_body]
fn sniff(data: &[u8]) -> (kind: Option<MatcherKind>)
    ensures
        kind == sniffed_kind(data@),
{
    match infer::get(data) {
        None => None,
        Some(found) => Some(match found.matcher_type() {
            infer::MatcherType::App => MatcherKind::App,
            infer::MatcherType::Archive => MatcherKind::Archive,
            infer::MatcherType::Audio => MatcherKind::Audio,
            infer::MatcherType::Book => MatcherKind::Book,
            infer::MatcherType::Doc => MatcherKind::Doc,
            infer::MatcherType::Font => MatcherKind::Font,
            infer::MatcherType::Image => MatcherKind::Image,
            infer::MatcherType::Text => MatcherKind::Text,
            infer::MatcherType::Video => MatcherKind::Video,
            infer::MatcherType::Custom => MatcherKind::Custom,
        }),
    }
}

/// What a downloaded file is kept as.
#[derive(Debug, Clone, Copy, PartialEq, Eq, Structural)]
pub enum OutputRole {
    Media,
    Thumbnail,
    Rejected,
}

/// The role of a file by its sniffed kind: video and audio are media, an
/// image is a thumbnail, anything else, known or not, is rejected.
pub open spec fn role_of(kind: Option<MatcherKind>) -> OutputRole {
    match kind {
        Some(MatcherKind::Video) | Some(MatcherKind::Audio) => OutputRole::Media,
        Some(MatcherKind::Image) => OutputRole::Thumbnail,
        _ => OutputRole::Rejected,
    }
}

/// The role of a file by its sniffed kind. See `role_of`.
pub fn role_of_kind(kind: Option<MatcherKind>) -> (role: OutputRole)
    ensures
        role == role_of(kind),
{
    match kind {
        Some(MatcherKind::Video) | Some(MatcherKind::Audio) => OutputRole::Media,
        Some(MatcherKind::Image) => OutputRole::Thumbnail,
        _ => OutputRole::Rejected,
    }
}

/// A downloaded file with the kind that its content was found to be.
#[derive(Debug, Clone)]
pub struct SniffedFile {
    pub file: FileRef,
    pub kind: Option<MatcherKind>,
}

/// A downloaded file with its leading bytes.
#[derive(Debug, Clone)]
pub struct RawFile {
    pub file: FileRef,
    pub data: Vec<u8>,
}

/// The downloaded files, sorted: the media file, the thumbnail, and the
/// files to delete.
#[derive(Debug, Clone)]
pub struct Classified {
    pub media: Option<FileRef>,
    pub thumbnail: Option<FileRef>,
    pub rejected: Vec<FileRef>,
}

/// The last of the first `n` files that has the given role.
pub open spec fn last_in_role(roles: Seq<OutputRole>, files: Seq<FileRef>, role: OutputRole, n: nat)
    -> Option<FileRef>
    decreases n,
{
    if n == 0 {
        None
    } else if roles[n - 1] == role {
        Some(files[n - 1])
    } else {
        last_in_role(roles, files, role, (n - 1) as nat)
    }
}

/// Those of the first `n` files that are rejected, in order.
pub open spec fn rejected_in(roles: Seq<OutputRole>, files: Seq<FileRef>, n: nat) -> Seq<FileRef>
    decreases n,
{
    if n == 0 {
        Seq::empty()
    } else if roles[n - 1] == OutputRole::Rejected {
        rejected_in(roles, files, (n - 1) as nat).push(files[n - 1])
    } else {
        rejected_in(roles, files, (n - 1) as nat)
    }
}

/// The roles of a list of sniffed files.
pub open spec fn roles_of(files: Seq<SniffedFile>) -> Seq<OutputRole> {
    files.map_values(|f: SniffedFile| role_of(f.kind))
}

/// The file records of a list of sniffed files.
pub open spec fn refs_of(files: Seq<SniffedFile>) -> Seq<FileRef> {
    files.map_values(|f: SniffedFile| f.file)
}

/// A copy of a file record.
pub fn copy_file_ref(f: &FileRef) -> (r: FileRef)
    ensures
        r == *f,
{
    FileRef { path: f.path.clone(), file_size: f.file_size }
}

/// Sorts sniffed files by role. Where several files are media, the last
/// one is kept as the media file, and likewise for thumbnails; rejected
/// files are listed in the order they came in.
pub fn classify_sniffed(files: &Vec<SniffedFile>) -> (c: Classified)
    ensures
        c.media == last_in_role(
            roles_of(files@),
            refs_of(files@),
            OutputRole::Media,
            files@.len(),
        ),
        c.thumbnail == last_in_role(
            roles_of(files@),
            refs_of(files@),
            OutputRole::Thumbnail,
            files@.len(),
        ),
        c.rejected@ == rejected_in(roles_of(files@), refs_of(files@), files@.len()),
{
    let mut media: Option<FileRef> = None;
    let mut thumbnail: Option<FileRef> = None;
    let mut rejected: Vec<FileRef> = Vec::new();
    let ghost roles = roles_of(files@);
    let ghost refs = refs_of(files@);
    let mut i: usize = 0;
    while i < files.len()
        invariant
            i <= files.len(),
            roles == roles_of(files@),
            refs == refs_of(files@),
            media == last_in_role(roles, refs, OutputRole::Media, i as nat),
            thumbnail == last_in_role(roles, refs, OutputRole::Thumbnail, i as nat),
            rejected@ == rejected_in(roles, refs, i as nat),
        decreases files.len() - i,
    {
        let file = copy_file_ref(&files[i].file);
        match role_of_kind(files[i].kind) {
            OutputRole::Media => {
                media = Some(file);
            },
            OutputRole::Thumbnail => {
                thumbnail = Some(file);
            },
            OutputRole::Rejected => {
                rejected.push(file);
            },
        }
        i += 1;
    }
    Classified { media, thumbnail, rejected }
}

/// The sniffed kinds of a list of files with their leading bytes.
pub open spec fn sniffed_of(files: Seq<RawFile>) -> Seq<SniffedFile> {
    files.map_values(|f: RawFile| SniffedFile { file: f.file, kind: sniffed_kind(f.data@) })
}

/// Sniffs each file's content.
pub fn sniff_outputs(files: &Vec<RawFile>) -> (out: Vec<SniffedFile>)
    ensures
        out@ == sniffed_of(files@),
{
    let mut out: Vec<SniffedFile> = Vec::new();
    let mut i: usize = 0;
    while i < files.len()
        invariant
            i <= files.len(),
            out@.len() == i,
            forall|j: int| 0 <= j < i ==> #[trigger] out@[j] == sniffed_of(files@)[j],
        decreases files.len() - i,
    {
        let kind = sniff(files[i].data.as_slice());
        out.push(SniffedFile { file: copy_file_ref(&files[i].file), kind });
        i += 1;
    }
    assert(out@ =~= sniffed_of(files@));
    out
}

/// Sniffs the content of each downloaded file and sorts the files by role.
/// See `classify_sniffed`.
pub fn classify_outputs(files: &Vec<RawFile>) -> (c: Classified)
    ensures
        c.media == last_in_role(
            roles_of(sniffed_of(files@)),
            refs_of(sniffed_of(files@)),
            OutputRole::Media,
            files@.len(),
        ),
        c.thumbnail == last_in_role(
            roles_of(sniffed_of(files@)),
            refs_of(sniffed_of(files@)),
            OutputRole::Thumbnail,
            files@.len(),
        ),
        c.rejected@ == rejected_in(
            roles_of(sniffed_of(files@)),
            refs_of(sniffed_of(files@)),
            files@.len(),
        ),
{
    let sniffed = sniff_outputs(files);
    classify_sniffed(&sniffed)
}

/// Closes a download: without a media file it failed with `NoTempFile`;
/// otherwise its result holds the title, the media file and the thumbnail.
pub fn finish_download(title: Option<String>, sorted: Classified) -> (r: Result<
    YtdlResult,
    DownloaderError,
>)
    ensures
        match sorted.media {
            None => r matches Err(DownloaderError::NoTempFile),
            Some(media) => r matches Ok(res) && res.title == title && res.media == media
                && res.thumbnail == sorted.thumbnail,
        },
{
    match sorted.media {
        None => Err(DownloaderError::NoTempFile),
        Some(media) => Ok(YtdlResult { title, media, thumbnail: sorted.thumbnail }),
    }
}

} // verus!
