use thrw::downloader::classify::{
    classify_outputs, classify_sniffed, finish_download, is_temp_output, plan_download,
    role_of_kind, sniff_outputs, DownloaderError, MatcherKind, OutputRole, RawFile, SniffedFile,
    YtdlRequest,
};
use thrw::downloader::ingest::{download_media, ProbedFile};
use thrw::downloader::worker::{
    worker_step, MediaRequestError, WorkerAction, WorkerEvent, WorkerState,
};
use thrw::media::{FFProbeMediaOutput, Format, MediaCodecType, Stream};
use thrw::vfs::api::{get_vfs_file_data, get_vfs_node_data, get_vfs_nodes, VfsGetNodeArgs};
use thrw::vfs::commit::get_thumbnail;
use thrw::vfs::files::{FileDetails, FileRef};
use thrw::vfs::model::{FileId, NodeId};
use thrw::vfs::namespace::traverse_vfs_path;
use thrw::vfs::shared::{PubVfsNodeType, VFSError, VfsTarget};
use thrw::vfs::store::VfsDb;

fn file(path: &str) -> FileRef {
    FileRef { path: path.to_string(), file_size: 10 }
}

fn jpeg() -> Vec<u8> {
    vec![0xFF, 0xD8, 0xFF, 0xE0, 0x00, 0x10, b'J', b'F', b'I', b'F', 0, 1]
}

fn mp4() -> Vec<u8> {
    let mut v = vec![0x00, 0x00, 0x00, 0x18];
    v.extend_from_slice(b"ftypmp42");
    v.extend_from_slice(&[0, 0, 0, 0]);
    v.extend_from_slice(b"mp42isom");
    v
}

fn mp3() -> Vec<u8> {
    let mut v = b"ID3".to_vec();
    v.extend_from_slice(&[3, 0, 0, 0, 0, 0, 0]);
    v
}

fn zip() -> Vec<u8> {
    vec![b'P', b'K', 0x03, 0x04, 0, 0, 0, 0]
}

fn raw(path: &str, data: Vec<u8>) -> RawFile {
    RawFile { file: file(path), data }
}

fn video_probe() -> FFProbeMediaOutput {
    let mut v = Stream::bare(0, MediaCodecType::Video);
    v.codec_name = Some("vp9".to_string());
    v.width = Some(640);
    v.height = Some(360);
    let mut a = Stream::bare(1, MediaCodecType::Audio);
    a.codec_name = Some("opus".to_string());
    let mut format = Format::bare("TEMP.mp4".to_string(), 100, 2);
    format.duration = Some("3.141000".to_string());
    FFProbeMediaOutput { streams: vec![v, a], format }
}

fn image_probe() -> FFProbeMediaOutput {
    let mut s = Stream::bare(0, MediaCodecType::Video);
    s.codec_name = Some("mjpeg".to_string());
    s.width = Some(320);
    s.height = Some(180);
    FFProbeMediaOutput { streams: vec![s], format: Format::bare("TEMP.jpg".to_string(), 10, 1) }
}

#[test]
fn sniffing_goes_by_content_not_by_name() {
    let sniffed = sniff_outputs(&vec![
        raw("TEMP.txt", jpeg()),
        raw("TEMP.jpg", mp4()),
        raw("TEMP.mp4", mp3()),
        raw("TEMP.mp3", zip()),
        raw("TEMP.bin", vec![1, 2, 3]),
        raw("TEMP.none", vec![]),
    ]);
    let kinds: Vec<Option<MatcherKind>> = sniffed.iter().map(|s| s.kind).collect();
    assert_eq!(
        kinds,
        vec![
            Some(MatcherKind::Image),
            Some(MatcherKind::Video),
            Some(MatcherKind::Audio),
            Some(MatcherKind::Archive),
            None,
            None
        ]
    );
    assert_eq!(sniffed[0].file.path, "TEMP.txt");
    assert_eq!(sniffed[5].file.path, "TEMP.none");
}

#[test]
fn roles_follow_the_sniffed_kind() {
    assert_eq!(role_of_kind(Some(MatcherKind::Video)), OutputRole::Media);
    assert_eq!(role_of_kind(Some(MatcherKind::Audio)), OutputRole::Media);
    assert_eq!(role_of_kind(Some(MatcherKind::Image)), OutputRole::Thumbnail);
    for k in [
        MatcherKind::App,
        MatcherKind::Archive,
        MatcherKind::Book,
        MatcherKind::Doc,
        MatcherKind::Font,
        MatcherKind::Text,
        MatcherKind::Custom,
    ] {
        assert_eq!(role_of_kind(Some(k)), OutputRole::Rejected);
    }
    assert_eq!(role_of_kind(None), OutputRole::Rejected);
}

#[test]
fn classification_keeps_the_last_of_each_role_and_rejects_the_rest() {
    let sniffed = |path: &str, kind| SniffedFile { file: file(path), kind };
    let sorted = classify_sniffed(&vec![
        sniffed("a", Some(MatcherKind::Video)),
        sniffed("b", None),
        sniffed("c", Some(MatcherKind::Image)),
        sniffed("d", Some(MatcherKind::Audio)),
        sniffed("e", Some(MatcherKind::Archive)),
        sniffed("f", Some(MatcherKind::Image)),
    ]);
    assert_eq!(sorted.media.unwrap().path, "d");
    assert_eq!(sorted.thumbnail.unwrap().path, "f");
    let rejected: Vec<String> = sorted.rejected.into_iter().map(|f| f.path).collect();
    assert_eq!(rejected, vec!["b", "e"]);
    let nothing = classify_sniffed(&vec![]);
    assert!(nothing.media.is_none() && nothing.thumbnail.is_none() && nothing.rejected.is_empty());
}

#[test]
fn download_without_media_is_no_temp_file() {
    let sorted = classify_outputs(&vec![raw("TEMP.jpg", jpeg()), raw("TEMP.zip", zip())]);
    assert!(sorted.media.is_none());
    assert_eq!(sorted.rejected.len(), 1);
    assert!(matches!(
        finish_download(Some("t".to_string()), sorted),
        Err(DownloaderError::NoTempFile)
    ));
    let sorted = classify_outputs(&vec![raw("TEMP.mp4", mp4())]);
    let done = finish_download(None, sorted).unwrap();
    assert_eq!(done.media.path, "TEMP.mp4");
    assert!(done.thumbnail.is_none());
    assert!(done.title.is_none());
}

#[test]
fn temp_outputs_are_matched_by_stem() {
    for name in ["TEMP", "TEMP.mp4", "TEMP.webp", "TEMP."] {
        assert!(is_temp_output(name), "{name}");
    }
    for name in ["TEMP.f137.mp4", "TEMPO.mp4", "temp.mp4", "TEM", "xTEMP.mp4", "TEMP_.mp4", ""] {
        assert!(!is_temp_output(name), "{name}");
    }
}

#[test]
fn download_plan_has_the_fixed_settings() {
    let plan = plan_download(&YtdlRequest { url: "https://e.x/v".to_string(), audio_only: true });
    assert_eq!(plan.url, "https://e.x/v");
    assert_eq!(plan.socket_timeout, "15");
    assert!(plan.extract_audio);
    assert_eq!(plan.extra_args, vec!["--write-thumbnail"]);
    assert_eq!(plan.output_template, "TEMP.%(ext)s");
    assert_eq!(plan.directory, "./ytdl");
    assert!(!plan_download(&YtdlRequest { url: String::new(), audio_only: false }).extract_audio);
}

#[test]
fn video_and_jpeg_download_commits_video_with_thumbnail() {
    let sorted = classify_outputs(&vec![raw("./ytdl/TEMP.mp4", mp4()), raw("./ytdl/TEMP.jpg", jpeg())]);
    let result = finish_download(Some("My Clip".to_string()), sorted).unwrap();
    assert_eq!(result.media.path, "./ytdl/TEMP.mp4");
    assert_eq!(result.thumbnail.as_ref().unwrap().path, "./ytdl/TEMP.jpg");

    let mut db = VfsDb::new(11);
    let media = ProbedFile { file: result.media.with_path("/v/aa/bb/id1.mp4".to_string()), probe: video_probe() };
    let thumb = ProbedFile {
        file: result.thumbnail.unwrap().with_path("/v/cc/dd/id2.jpg".to_string()),
        probe: image_probe(),
    };
    let target = Some(VfsTarget::Path("videos".to_string()));
    let media_id = download_media(&mut db, result.title, media, Some(thumb), target).unwrap();
    assert_eq!(media_id, FileId(0));
    let row = get_vfs_file_data(&db, media_id).unwrap();
    assert_eq!(row.details.label(), "video");
    match row.details {
        FileDetails::Video(v) => {
            assert_eq!(v.duration.as_deref(), Some("3.141000"));
            assert_eq!(v.width, Some(640));
            assert_eq!(v.height, Some(360));
            assert_eq!(v.video_codec.as_deref(), Some("vp9"));
            assert_eq!(v.audio_codec.as_deref(), Some("opus"));
        }
        other => panic!("not a video: {other:?}"),
    }
    let media_node = traverse_vfs_path(&mut db, "videos/My%20Clip").unwrap();
    assert_eq!(get_vfs_node_data(&db, media_node).unwrap().vfs_file, Some(media_id));
    assert_eq!(get_thumbnail(&db, media_node), Ok(Some((media_id, "/v/cc/dd/id2.jpg".to_string()))));
    let thumb_node = traverse_vfs_path(&mut db, "videos/My Clip Thumbnail").unwrap();
    let thumb_row = get_vfs_node_data(&db, thumb_node).unwrap();
    assert!(thumb_row.hide);
    assert_eq!(thumb_row.vfs_file, Some(FileId(1)));
    assert!(matches!(get_vfs_file_data(&db, FileId(1)).unwrap().details, FileDetails::Image(_)));

    let listed = get_vfs_nodes(&mut db, VfsTarget::Path("videos".to_string()), None).unwrap();
    assert_eq!(listed.len(), 1);
    assert_eq!(listed[0].id, media_node);
    assert_eq!(listed[0].name, "My Clip");
    assert_eq!(listed[0].path, vec!["videos", "My Clip"]);
    assert_eq!(listed[0].node_type, PubVfsNodeType::Video);
    assert_eq!(listed[0].thumbnail.as_deref(), Some("/v/cc/dd/id2.jpg"));
    let all = get_vfs_nodes(
        &mut db,
        VfsTarget::Path("videos".to_string()),
        Some(VfsGetNodeArgs { show_hidden: true }),
    )
    .unwrap();
    assert_eq!(all.len(), 2);
    assert_eq!(all[1].node_type, PubVfsNodeType::Image);
    assert_eq!(all[1].thumbnail, None);
}

#[test]
fn ingest_without_title_or_thumbnail() {
    let mut db = VfsDb::new(0);
    let media = ProbedFile { file: file("/m"), probe: video_probe() };
    let id = download_media(&mut db, None, media, None, None).unwrap();
    assert_eq!(traverse_vfs_path(&mut db, "UNKNOWN TITLE??"), Ok(NodeId(1)));
    assert_eq!(get_vfs_node_data(&db, NodeId(1)).unwrap().vfs_file, Some(id));
    assert_eq!(db.node_count(), 2);
}

#[test]
fn ingest_of_media_without_streams_changes_nothing() {
    let mut db = VfsDb::new(0);
    let broken = FFProbeMediaOutput { streams: vec![], format: Format::bare(String::new(), 0, 0) };
    let media = ProbedFile { file: file("/m"), probe: broken };
    let thumb = ProbedFile { file: file("/t"), probe: image_probe() };
    assert_eq!(
        download_media(&mut db, Some("x".to_string()), media, Some(thumb), None),
        Err(VFSError::MediaStreamMissing)
    );
    assert_eq!((db.node_count(), db.file_count()), (0, 0));
}

#[test]
fn ingest_with_a_broken_thumbnail_keeps_the_media() {
    let mut db = VfsDb::new(0);
    let broken = FFProbeMediaOutput { streams: vec![], format: Format::bare(String::new(), 0, 0) };
    let media = ProbedFile { file: file("/m"), probe: video_probe() };
    let thumb = ProbedFile { file: file("/t"), probe: broken };
    assert_eq!(
        download_media(&mut db, Some("x".to_string()), media, Some(thumb), None),
        Err(VFSError::MediaStreamMissing)
    );
    assert_eq!((db.node_count(), db.file_count()), (2, 1));
}

fn request() -> YtdlRequest {
    YtdlRequest { url: "u".to_string(), audio_only: false }
}

#[test]
fn worker_runs_a_request_from_idle_back_to_idle() {
    let (state, action) = worker_step(WorkerState::Idle, WorkerEvent::Request(request()));
    assert!(matches!(state, WorkerState::Downloading));
    match action {
        WorkerAction::Download(plan) => assert_eq!(plan.url, "u"),
        other => panic!("{other:?}"),
    }
    let (state, action) =
        worker_step(state, WorkerEvent::Downloaded { single: true, title: Some("T".to_string()) });
    assert!(matches!(&state, WorkerState::Classifying(Some(t)) if t == "T"));
    assert!(matches!(action, WorkerAction::ListOutputs));
    let files = vec![raw("TEMP.webp", zip()), raw("TEMP.mp4", mp4()), raw("TEMP.jpg", jpeg())];
    let (state, action) = worker_step(state, WorkerEvent::Listed(files));
    assert!(matches!(state, WorkerState::Committing));
    match action {
        WorkerAction::Store { result, discard } => {
            assert_eq!(result.title.as_deref(), Some("T"));
            assert_eq!(result.media.path, "TEMP.mp4");
            assert_eq!(result.thumbnail.unwrap().path, "TEMP.jpg");
            assert_eq!(discard.len(), 1);
            assert_eq!(discard[0].path, "TEMP.webp");
        }
        other => panic!("{other:?}"),
    }
    let (state, action) = worker_step(state, WorkerEvent::Stored(Ok(FileId(4))));
    assert!(matches!(state, WorkerState::Idle));
    assert!(matches!(action, WorkerAction::Reply { reply: Ok(FileId(4)), discard } if discard.is_empty()));
}

#[test]
fn worker_failures_end_the_request_and_return_to_idle() {
    let (s, a) = worker_step(WorkerState::Downloading, WorkerEvent::ToolUnavailable);
    assert!(matches!(s, WorkerState::Idle));
    assert!(matches!(
        a,
        WorkerAction::Reply { reply: Err(MediaRequestError::Dl(DownloaderError::YtdlInitError)), .. }
    ));
    let (s, a) = worker_step(WorkerState::Downloading, WorkerEvent::Downloaded { single: false, title: None });
    assert!(matches!(s, WorkerState::Idle));
    assert!(matches!(
        a,
        WorkerAction::Reply { reply: Err(MediaRequestError::Dl(DownloaderError::YtdlNotSingle)), .. }
    ));
    let (s, a) = worker_step(
        WorkerState::Downloading,
        WorkerEvent::Failed(DownloaderError::Ytdl("boom".to_string())),
    );
    assert!(matches!(s, WorkerState::Idle));
    assert!(matches!(
        a,
        WorkerAction::Reply { reply: Err(MediaRequestError::Dl(DownloaderError::Ytdl(t))), .. } if t == "boom"
    ));
    let (s, a) = worker_step(
        WorkerState::Classifying(None),
        WorkerEvent::Failed(DownloaderError::Io("gone".to_string())),
    );
    assert!(matches!(s, WorkerState::Idle));
    assert!(matches!(
        a,
        WorkerAction::Reply { reply: Err(MediaRequestError::Dl(DownloaderError::Io(_))), .. }
    ));
    let (s, a) = worker_step(
        WorkerState::Classifying(None),
        WorkerEvent::Listed(vec![raw("TEMP.jpg", jpeg()), raw("TEMP.x", vec![9])]),
    );
    assert!(matches!(s, WorkerState::Idle));
    match a {
        WorkerAction::Reply { reply, discard } => {
            assert!(matches!(reply, Err(MediaRequestError::Dl(DownloaderError::NoTempFile))));
            assert_eq!(discard.len(), 1);
            assert_eq!(discard[0].path, "TEMP.x");
        }
        other => panic!("{other:?}"),
    }
    let (s, a) = worker_step(
        WorkerState::Committing,
        WorkerEvent::Failed(DownloaderError::Media("no such file".to_string())),
    );
    assert!(matches!(s, WorkerState::Idle));
    assert!(matches!(
        a,
        WorkerAction::Reply { reply: Err(MediaRequestError::Dl(DownloaderError::Media(_))), .. }
    ));
    let (s, a) = worker_step(WorkerState::Committing, WorkerEvent::Stored(Err(VFSError::MediaStreamMissing)));
    assert!(matches!(s, WorkerState::Idle));
    assert!(matches!(
        a,
        WorkerAction::Reply { reply: Err(MediaRequestError::Vfs(VFSError::MediaStreamMissing)), .. }
    ));
    // the next request is served
    let (s, _) = worker_step(s, WorkerEvent::Request(request()));
    assert!(matches!(s, WorkerState::Downloading));
}

#[test]
fn worker_ignores_events_it_does_not_wait_for() {
    let (s, a) = worker_step(WorkerState::Idle, WorkerEvent::Stored(Ok(FileId(0))));
    assert!(matches!(s, WorkerState::Idle));
    assert!(matches!(a, WorkerAction::Wait));
    let (s, a) = worker_step(WorkerState::Downloading, WorkerEvent::Request(request()));
    assert!(matches!(s, WorkerState::Downloading));
    assert!(matches!(a, WorkerAction::Wait));
    let (s, a) = worker_step(WorkerState::Committing, WorkerEvent::Listed(vec![]));
    assert!(matches!(s, WorkerState::Committing));
    assert!(matches!(a, WorkerAction::Wait));
    let (s, a) = worker_step(WorkerState::Classifying(Some("t".to_string())), WorkerEvent::ToolUnavailable);
    assert!(matches!(s, WorkerState::Classifying(Some(_))));
    assert!(matches!(a, WorkerAction::Wait));
}
