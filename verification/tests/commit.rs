use thrw::media::{FFProbeMediaOutput, Format, MediaCodecType, Stream};
use thrw::vfs::api::{get_vfs_file_data, get_vfs_node_data};
use thrw::vfs::commit::{
    commit_file_to_vfs, create_vfs_file, get_thumbnail, set_thumbnail, set_vfs_file_to_node,
};
use thrw::vfs::files::{
    classify, try_get_field, FileDetails, FileRef, VFSFileType, VfsFileData,
};
use thrw::vfs::model::{FileId, NodeId};
use thrw::vfs::namespace::{ensure_vfs_path, get_vfs_path_to, traverse_vfs_path};
use thrw::vfs::shared::{StoreFault, VFSError, VfsTarget};
use thrw::vfs::store::VfsDb;

fn probe(streams: Vec<Stream>) -> FFProbeMediaOutput {
    let mut format = Format::bare("in.bin".to_string(), 1234, streams.len() as i32);
    format.duration = Some("12.500000".to_string());
    format.bit_rate = Some(128000);
    FFProbeMediaOutput { streams, format }
}

fn video_stream() -> Stream {
    let mut s = Stream::bare(0, MediaCodecType::Video);
    s.codec_name = Some("h264".to_string());
    s.width = Some(1280);
    s.height = Some(720);
    s.r_frame_rate = Some("30/1".to_string());
    s.avg_frame_rate = Some("30000/1001".to_string());
    s.pix_fmt = Some("yuv420p".to_string());
    s
}

fn audio_stream() -> Stream {
    let mut s = Stream::bare(1, MediaCodecType::Audio);
    s.codec_name = Some("aac".to_string());
    s.sample_fmt = Some("fltp".to_string());
    s.sample_rate = Some(44100);
    s.channels = Some(2);
    s
}

fn data(name: &str, path: &str, file_type: VFSFileType) -> VfsFileData {
    VfsFileData {
        name: name.to_string(),
        file: FileRef { path: path.to_string(), file_size: 42 },
        file_type,
        hide: false,
    }
}

#[test]
fn commit_without_streams_fails_and_leaves_nothing_behind() {
    let mut db = VfsDb::new(0);
    ensure_vfs_path(&mut db, "keep").unwrap();
    let nodes = db.node_count();
    let rows = db.closure_count();
    let empty = data("song", "/x/y.mp3", VFSFileType::Multimedia(probe(vec![])));
    let target = Some(VfsTarget::Path("music/new".to_string()));
    assert_eq!(commit_file_to_vfs(empty, &mut db, target), Err(VFSError::MediaStreamMissing));
    assert_eq!(db.node_count(), nodes);
    assert_eq!(db.file_count(), 0);
    assert_eq!(db.closure_count(), rows);
    assert_eq!(traverse_vfs_path(&mut db, "music"), Err(VFSError::NotFound));
    let image = data("pic", "/x/y.jpg", VFSFileType::Image(probe(vec![])));
    assert_eq!(commit_file_to_vfs(image, &mut db, None), Err(VFSError::MediaStreamMissing));
    assert_eq!(db.file_count(), 0);
    assert_eq!(db.node_count(), nodes);
}

#[test]
fn commit_on_an_empty_store_with_no_streams_creates_not_even_the_root() {
    let mut db = VfsDb::new(0);
    let empty = data("song", "/x/y.mp3", VFSFileType::Multimedia(probe(vec![])));
    assert_eq!(commit_file_to_vfs(empty, &mut db, None), Err(VFSError::MediaStreamMissing));
    assert_eq!(db.node_count(), 0);
    assert_eq!(db.closure_count(), 0);
}

#[test]
fn commit_video_writes_record_node_and_link() {
    let mut db = VfsDb::new(5);
    let file = data(
        "clip",
        "/vfsfiles/ab/cd/abcd.mp4",
        VFSFileType::Multimedia(probe(vec![audio_stream(), video_stream()])),
    );
    let (file_id, node_id) =
        commit_file_to_vfs(file, &mut db, Some(VfsTarget::Path("videos".to_string()))).unwrap();
    assert_eq!(file_id, FileId(0));
    assert_eq!(node_id, NodeId(2));
    assert_eq!(get_vfs_path_to(&db, node_id).unwrap(), vec!["videos", "clip"]);
    let node = get_vfs_node_data(&db, node_id).unwrap();
    assert_eq!(node.vfs_file, Some(file_id));
    assert_eq!(node.created_at, 5);
    assert!(!node.hide);
    let row = get_vfs_file_data(&db, file_id).unwrap();
    assert_eq!(row.id, file_id);
    assert_eq!(row.file_path, "/vfsfiles/ab/cd/abcd.mp4");
    assert_eq!(row.file_size, 42);
    assert_eq!(row.details.label(), "video");
    match row.details {
        FileDetails::Video(v) => {
            assert_eq!(v.duration.as_deref(), Some("12.500000"));
            assert_eq!(v.width, Some(1280));
            assert_eq!(v.height, Some(720));
            assert_eq!(v.r_frame_rate.as_deref(), Some("30/1"));
            assert_eq!(v.avg_frame_rate.as_deref(), Some("30000/1001"));
            assert_eq!(v.video_codec.as_deref(), Some("h264"));
            assert_eq!(v.audio_codec.as_deref(), Some("aac"));
        }
        other => panic!("not a video: {other:?}"),
    }
}

#[test]
fn commit_audio_only_is_an_audio_record() {
    let mut db = VfsDb::new(0);
    let file = data("song", "/s.m4a", VFSFileType::Multimedia(probe(vec![audio_stream()])));
    let (file_id, node_id) = commit_file_to_vfs(file, &mut db, None).unwrap();
    assert_eq!(get_vfs_path_to(&db, node_id).unwrap(), vec!["song"]);
    match get_vfs_file_data(&db, file_id).unwrap().details {
        FileDetails::Audio(a) => {
            assert_eq!(a.duration.as_deref(), Some("12.500000"));
            assert_eq!(a.codec_name.as_deref(), Some("aac"));
            assert_eq!(a.bitrate, Some(128000));
            assert_eq!(a.sample_format.as_deref(), Some("fltp"));
            assert_eq!(a.sample_rate, Some(44100));
            assert_eq!(a.channels, Some(2));
        }
        other => panic!("not audio: {other:?}"),
    }
}

#[test]
fn commit_image_and_text() {
    let mut db = VfsDb::new(0);
    let mut pic = video_stream();
    pic.codec_name = Some("mjpeg".to_string());
    let image = data("pic", "/p.jpg", VFSFileType::Image(probe(vec![pic])));
    let (image_id, _) = commit_file_to_vfs(image, &mut db, None).unwrap();
    match get_vfs_file_data(&db, image_id).unwrap().details {
        FileDetails::Image(i) => {
            assert_eq!(i.width, Some(1280));
            assert_eq!(i.height, Some(720));
            assert_eq!(i.codec_name.as_deref(), Some("mjpeg"));
            assert_eq!(i.pix_fmt.as_deref(), Some("yuv420p"));
        }
        other => panic!("not an image: {other:?}"),
    }
    let text = data("notes", "/n.txt", VFSFileType::Text);
    let (text_id, _) = commit_file_to_vfs(text, &mut db, None).unwrap();
    assert_eq!(text_id, FileId(1));
    assert!(matches!(get_vfs_file_data(&db, text_id).unwrap().details, FileDetails::Text));
    assert_eq!(get_vfs_file_data(&db, FileId(2)).err(), Some(VFSError::NotFound));
}

#[test]
fn commit_to_a_missing_node_changes_nothing() {
    let mut db = VfsDb::new(0);
    let file = data("a", "/a", VFSFileType::Text);
    assert_eq!(
        commit_file_to_vfs(file, &mut db, Some(VfsTarget::Node(NodeId(3)))),
        Err(VFSError::NotFound)
    );
    assert_eq!(db.node_count(), 0);
    assert_eq!(db.file_count(), 0);
}

#[test]
fn commit_under_an_existing_name_relinks_the_node() {
    let mut db = VfsDb::new(0);
    let (f1, n1) = commit_file_to_vfs(data("a", "/1", VFSFileType::Text), &mut db, None).unwrap();
    let (f2, n2) = commit_file_to_vfs(data("a", "/2", VFSFileType::Text), &mut db, None).unwrap();
    assert_eq!(n1, n2);
    assert_ne!(f1, f2);
    assert_eq!(get_vfs_node_data(&db, n1).unwrap().vfs_file, Some(f2));
    assert_eq!(db.node_count(), 2);
    assert_eq!(db.file_count(), 2);
}

#[test]
fn classify_picks_video_over_audio() {
    let both = VFSFileType::Multimedia(probe(vec![audio_stream(), video_stream()]));
    assert!(matches!(classify(&both), Ok(FileDetails::Video(_))));
    assert_eq!(both.to_string(), "video");
    let audio = VFSFileType::Multimedia(probe(vec![audio_stream()]));
    assert!(matches!(classify(&audio), Ok(FileDetails::Audio(_))));
    assert_eq!(audio.to_string(), "audio");
    let none = VFSFileType::Multimedia(probe(vec![]));
    assert_eq!(classify(&none).err(), Some(VFSError::MediaStreamMissing));
    assert_eq!(none.to_string(), "audio");
    assert_eq!(VFSFileType::Image(probe(vec![])).to_string(), "image");
    assert_eq!(VFSFileType::Text.to_string(), "text");
    assert!(matches!(classify(&VFSFileType::Text), Ok(FileDetails::Text)));
}

#[test]
fn create_file_alone_and_link_it() {
    let mut db = VfsDb::new(0);
    let node = ensure_vfs_path(&mut db, "n").unwrap();
    let file = create_vfs_file(&mut db, data("x", "/x", VFSFileType::Text)).unwrap();
    assert_eq!(
        create_vfs_file(&mut db, data("y", "/y", VFSFileType::Image(probe(vec![])))),
        Err(VFSError::MediaStreamMissing)
    );
    assert_eq!(db.file_count(), 1);
    assert_eq!(set_vfs_file_to_node(&mut db, file, NodeId(9)), Err(VFSError::NotFound));
    assert_eq!(
        set_vfs_file_to_node(&mut db, FileId(4), node),
        Err(VFSError::Sql(StoreFault::ForeignKeyViolation))
    );
    assert_eq!(get_vfs_node_data(&db, node).unwrap().vfs_file, None);
    assert_eq!(set_vfs_file_to_node(&mut db, file, node), Ok(()));
    assert_eq!(get_vfs_node_data(&db, node).unwrap().vfs_file, Some(file));
}

#[test]
fn thumbnails_link_one_to_one() {
    let mut db = VfsDb::new(0);
    let (media, media_node) =
        commit_file_to_vfs(data("m", "/m.mp4", VFSFileType::Text), &mut db, None).unwrap();
    let (thumb, thumb_node) =
        commit_file_to_vfs(data("t", "/t.jpg", VFSFileType::Text), &mut db, None).unwrap();
    assert_eq!(get_thumbnail(&db, media_node), Ok(None));
    assert_eq!(
        set_thumbnail(&mut db, media, FileId(9)),
        Err(VFSError::Sql(StoreFault::ForeignKeyViolation))
    );
    assert_eq!(
        set_thumbnail(&mut db, FileId(9), thumb),
        Err(VFSError::Sql(StoreFault::ForeignKeyViolation))
    );
    assert_eq!(set_thumbnail(&mut db, media, thumb), Ok(()));
    assert_eq!(get_thumbnail(&db, media_node), Ok(Some((media, "/t.jpg".to_string()))));
    assert_eq!(
        set_thumbnail(&mut db, media, thumb),
        Err(VFSError::Sql(StoreFault::UniqueViolation))
    );
    assert_eq!(get_thumbnail(&db, thumb_node), Ok(None));
    assert_eq!(get_thumbnail(&db, NodeId(0)), Ok(None));
    assert_eq!(get_thumbnail(&db, NodeId(99)), Ok(None));
}

#[test]
fn join_name_and_set_path() {
    let file = data("clip", "/tmp/TEMP.mp4", VFSFileType::Text);
    let mut longer = file.join_name(" Thumbnail").unwrap();
    assert_eq!(longer.name, "clip Thumbnail");
    assert_eq!(longer.file.path, "/tmp/TEMP.mp4");
    longer.set_path("/vfsfiles/ab/cd/abcd.mp4".to_string());
    assert_eq!(longer.file.path, "/vfsfiles/ab/cd/abcd.mp4");
    assert_eq!(longer.file.file_size, 42);
    let moved = longer.file.with_path("/elsewhere".to_string());
    assert_eq!(moved.path, "/elsewhere");
    assert_eq!(moved.file_size, 42);
}

#[test]
fn missing_metadata_is_named() {
    assert_eq!(try_get_field(&Some(5i16), "width"), Ok(5));
    assert_eq!(try_get_field(&Some("h264".to_string()), "codec_name"), Ok("h264".to_string()));
    assert_eq!(
        try_get_field::<i16>(&None, "width"),
        Err(VFSError::MediaMissingMetadata("width".to_string()))
    );
}
