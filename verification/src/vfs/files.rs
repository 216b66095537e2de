//! File records: what is kept of a file, by kind, and how a probe report
//! is turned into it.

use vstd::prelude::*;
use vstd::string::*;
use super::model::FileId;
use super::shared::VFSError;
use crate::media::{
    clone_opt_text, find_stream, first_stream_of, lemma_first_stream_of, opt_text,
    FFProbeMediaOutput, MediaCodecType, Stream,
};

verus! {

/// A file on disk: where it lies and how many bytes it has.
#[derive(Debug, Clone)]
pub struct FileRef {
    pub path: String,
    pub file_size: i64,
}

impl FileRef {
    /// The record of the same file at another place.
    pub fn with_path(self, path: String) -> (r: FileRef)
        ensures
            r.path == path,
            r.file_size == self.file_size,
    {
        FileRef { path, file_size: self.file_size }
    }
}

/// What kind of file is to be stored, with the probe report where the
/// kind has one.
#[derive(Debug, Clone)]
pub enum VFSFileType {
    Multimedia(FFProbeMediaOutput),
    Image(FFProbeMediaOutput),
    Text,
}

/// The tag under which a file of this kind is stored: a multimedia file
/// with a video stream is `video`, any other multimedia file `audio`.
pub open spec fn file_type_label(t: VFSFileType) -> Seq<char> {
    match t {
        VFSFileType::Multimedia(probe) => if first_stream_of(probe.streams@, MediaCodecType::Video)
            is Some {
            "video"@
        } else {
            "audio"@
        },
        VFSFileType::Image(_) => "image"@,
        VFSFileType::Text => "text"@,
    }
}

impl VFSFileType {
    /// The tag of this kind. See `file_type_label`.
    pub fn to_string(&self) -> (s: String)
        ensures
            s@ == file_type_label(*self),
    {
        match self {
            VFSFileType::Multimedia(probe) => {
                match find_stream(&probe.streams, MediaCodecType::Video) {
                    Some(_) => String::from_str("video"),
                    None => String::from_str("audio"),
                }
            },
            VFSFileType::Image(_) => String::from_str("image"),
            VFSFileType::Text => String::from_str("text"),
        }
    }
}

/// A file that waits to be committed: the name its node shall have, where
/// it lies, what kind it is, and whether its node is hidden.
#[derive(Debug, Clone)]
pub struct VfsFileData {
    pub name: String,
    pub file: FileRef,
    pub file_type: VFSFileType,
    pub hide: bool,
}

/// A file that waits to be committed, as contracts see it.
pub struct FileDataView {
    pub name: Seq<char>,
    pub path: Seq<char>,
    pub size: i64,
    pub file_type: VFSFileType,
    pub hide: bool,
}

impl View for VfsFileData {
    type V = FileDataView;

    open spec fn view(&self) -> FileDataView {
        FileDataView {
            name: self.name@,
            path: self.file.path@,
            size: self.file.file_size,
            file_type: self.file_type,
            hide: self.hide,
        }
    }
}

impl VfsFileData {
    /// The same file under a longer name: `add` is appended to the name.
    pub fn join_name(self, add: &str) -> (r: Result<VfsFileData, VFSError>)
        ensures
            r is Ok,
            r->Ok_0@ == (FileDataView { name: self.name@ + add@, ..self@ }),
            r->Ok_0.file == self.file,
    {
        Ok(
            VfsFileData {
                name: self.name.concat(add),
                file: self.file,
                file_type: self.file_type,
                hide: self.hide,
            },
        )
    }

    /// Records that the file now lies at `path`.
    pub fn set_path(&mut self, path: String)
        ensures
            final(self).file.path == path,
            final(self).file.file_size == old(self).file.file_size,
            final(self).name == old(self).name,
            final(self).file_type == old(self).file_type,
            final(self).hide == old(self).hide,
    {
        self.file.path = path;
    }
}

/// A copy of a field of a probe report that must be there:
/// `MediaMissingMetadata` with the field's name if it is not.
pub fn try_get_field<T: Clone>(content: &Option<T>, name: &str) -> (r: Result<T, VFSError>)
    ensures
        match *content {
            Some(v) => r is Ok && cloned(v, r->Ok_0),
            None => r matches Err(VFSError::MediaMissingMetadata(field)) && field@ == name@,
        },
{
    match content {
        Some(v) => Ok(v.clone()),
        None => Err(VFSError::MediaMissingMetadata(String::from_str(name))),
    }
}

/// What is kept of a video file. `duration` is in seconds, as decimal
/// text.
#[derive(Debug, Clone)]
pub struct VideoFile {
    pub duration: Option<String>,
    pub width: Option<i16>,
    pub height: Option<i16>,
    pub r_frame_rate: Option<String>,
    pub avg_frame_rate: Option<String>,
    pub video_codec: Option<String>,
    pub audio_codec: Option<String>,
}

/// What is kept of an audio file.
#[derive(Debug, Clone)]
pub struct AudioFile {
    pub duration: Option<String>,
    pub codec_name: Option<String>,
    pub bitrate: Option<i32>,
    pub sample_format: Option<String>,
    pub sample_rate: Option<i32>,
    pub channels: Option<i32>,
}

/// What is kept of an image file.
#[derive(Debug, Clone)]
pub struct ImageFile {
    pub width: Option<i16>,
    pub height: Option<i16>,
    pub codec_name: Option<String>,
    pub pix_fmt: Option<String>,
}

/// The record that goes with a file's kind.
#[derive(Debug, Clone)]
pub enum FileDetails {
    Video(VideoFile),
    Audio(AudioFile),
    Image(ImageFile),
    Text,
}

/// A file record.
#[derive(Debug, Clone)]
pub struct VfsFile {
    pub id: FileId,
    pub file_path: String,
    pub file_size: i64,
    pub details: FileDetails,
}

/// What is kept of a video file, as contracts see it.
pub struct VideoView {
    pub duration: Option<Seq<char>>,
    pub width: Option<i16>,
    pub height: Option<i16>,
    pub r_frame_rate: Option<Seq<char>>,
    pub avg_frame_rate: Option<Seq<char>>,
    pub video_codec: Option<Seq<char>>,
    pub audio_codec: Option<Seq<char>>,
}

/// What is kept of an audio file, as contracts see it.
pub struct AudioView {
    pub duration: Option<Seq<char>>,
    pub codec_name: Option<Seq<char>>,
    pub bitrate: Option<i32>,
    pub sample_format: Option<Seq<char>>,
    pub sample_rate: Option<i32>,
    pub channels: Option<i32>,
}

/// What is kept of an image file, as contracts see it.
pub struct ImageView {
    pub width: Option<i16>,
    pub height: Option<i16>,
    pub codec_name: Option<Seq<char>>,
    pub pix_fmt: Option<Seq<char>>,
}

/// The record that goes with a file's kind, as contracts see it.
pub enum DetailsView {
    Video(VideoView),
    Audio(AudioView),
    Image(ImageView),
    Text,
}

/// A file record, as contracts see it.
pub struct FileView {
    pub id: FileId,
    pub path: Seq<char>,
    pub size: i64,
    pub details: DetailsView,
}

impl View for VideoFile {
    type V = VideoView;

    open spec fn view(&self) -> VideoView {
        VideoView {
            duration: opt_text(self.duration),
            width: self.width,
            height: self.height,
            r_frame_rate: opt_text(self.r_frame_rate),
            avg_frame_rate: opt_text(self.avg_frame_rate),
            video_codec: opt_text(self.video_codec),
            audio_codec: opt_text(self.audio_codec),
        }
    }
}

impl View for AudioFile {
    type V = AudioView;

    open spec fn view(&self) -> AudioView {
        AudioView {
            duration: opt_text(self.duration),
            codec_name: opt_text(self.codec_name),
            bitrate: self.bitrate,
            sample_format: opt_text(self.sample_format),
            sample_rate: self.sample_rate,
            channels: self.channels,
        }
    }
}

impl View for ImageFile {
    type V = ImageView;

    open spec fn view(&self) -> ImageView {
        ImageView {
            width: self.width,
            height: self.height,
            codec_name: opt_text(self.codec_name),
            pix_fmt: opt_text(self.pix_fmt),
        }
    }
}

impl View for FileDetails {
    type V = DetailsView;

    open spec fn view(&self) -> DetailsView {
        match self {
            FileDetails::Video(v) => DetailsView::Video(v@),
            FileDetails::Audio(a) => DetailsView::Audio(a@),
            FileDetails::Image(i) => DetailsView::Image(i@),
            FileDetails::Text => DetailsView::Text,
        }
    }
}

impl View for VfsFile {
    type V = FileView;

    open spec fn view(&self) -> FileView {
        FileView {
            id: self.id,
            path: self.file_path@,
            size: self.file_size,
            details: self.details@,
        }
    }
}

impl FileDetails {
    /// A copy of these details.
    pub fn copy(&self) -> (r: FileDetails)
        ensures
            r@ == self@,
    {
        match self {
            FileDetails::Video(v) => FileDetails::Video(
                VideoFile {
                    duration: clone_opt_text(&v.duration),
                    width: v.width,
                    height: v.height,
                    r_frame_rate: clone_opt_text(&v.r_frame_rate),
                    avg_frame_rate: clone_opt_text(&v.avg_frame_rate),
                    video_codec: clone_opt_text(&v.video_codec),
                    audio_codec: clone_opt_text(&v.audio_codec),
                },
            ),
            FileDetails::Audio(a) => FileDetails::Audio(
                AudioFile {
                    duration: clone_opt_text(&a.duration),
                    codec_name: clone_opt_text(&a.codec_name),
                    bitrate: a.bitrate,
                    sample_format: clone_opt_text(&a.sample_format),
                    sample_rate: a.sample_rate,
                    channels: a.channels,
                },
            ),
            FileDetails::Image(i) => FileDetails::Image(
                ImageFile {
                    width: i.width,
                    height: i.height,
                    codec_name: clone_opt_text(&i.codec_name),
                    pix_fmt: clone_opt_text(&i.pix_fmt),
                },
            ),
            FileDetails::Text => FileDetails::Text,
        }
    }

    /// The tag under which a record of these details is stored.
    pub fn label(&self) -> (s: String)
        ensures
            s@ == details_label(self@),
    {
        match self {
            FileDetails::Video(_) => String::from_str("video"),
            FileDetails::Audio(_) => String::from_str("audio"),
            FileDetails::Image(_) => String::from_str("image"),
            FileDetails::Text => String::from_str("text"),
        }
    }
}

/// The tag under which a record of these details is stored.
pub open spec fn details_label(d: DetailsView) -> Seq<char> {
    match d {
        DetailsView::Video(_) => "video"@,
        DetailsView::Audio(_) => "audio"@,
        DetailsView::Image(_) => "image"@,
        DetailsView::Text => "text"@,
    }
}

/// What is kept of a video: the container's duration, the picture of the
/// video stream, and the codec of the audio stream if there is one.
pub open spec fn video_details(probe: FFProbeMediaOutput, video: Stream, audio: Option<Stream>)
    -> VideoView {
    VideoView {
        duration: opt_text(probe.format.duration),
        width: video.width,
        height: video.height,
        r_frame_rate: opt_text(video.r_frame_rate),
        avg_frame_rate: opt_text(video.avg_frame_rate),
        video_codec: opt_text(video.codec_name),
        audio_codec: match audio {
            Some(a) => opt_text(a.codec_name),
            None => None,
        },
    }
}

/// What is kept of an audio file: the container's duration and bit rate,
/// and the sampling of the audio stream.
pub open spec fn audio_details(probe: FFProbeMediaOutput, audio: Stream) -> AudioView {
    AudioView {
        duration: opt_text(probe.format.duration),
        codec_name: opt_text(audio.codec_name),
        bitrate: probe.format.bit_rate,
        sample_format: opt_text(audio.sample_fmt),
        sample_rate: audio.sample_rate,
        channels: audio.channels,
    }
}

/// What is kept of an image: the picture of its stream.
pub open spec fn image_details(stream: Stream) -> ImageView {
    ImageView {
        width: stream.width,
        height: stream.height,
        codec_name: opt_text(stream.codec_name),
        pix_fmt: opt_text(stream.pix_fmt),
    }
}

/// The stream at an optional position.
pub open spec fn stream_at(streams: Seq<Stream>, at: Option<int>) -> Option<Stream> {
    match at {
        Some(i) => Some(streams[i]),
        None => None,
    }
}

/// The details that a file of the given kind is stored with.
///
/// A multimedia file is a video if it has a video stream, else an audio
/// file if it has an audio stream; with neither it has no details, and
/// `MediaStreamMissing` says so. An image goes by its first stream and
/// needs one. A text has no details to extract.
pub open spec fn details_of(t: VFSFileType) -> Result<DetailsView, VFSError> {
    match t {
        VFSFileType::Text => Ok(DetailsView::Text),
        VFSFileType::Image(probe) => if probe.streams@.len() == 0 {
            Err(VFSError::MediaStreamMissing)
        } else {
            Ok(DetailsView::Image(image_details(probe.streams@[0])))
        },
        VFSFileType::Multimedia(probe) => {
            let video = first_stream_of(probe.streams@, MediaCodecType::Video);
            let audio = first_stream_of(probe.streams@, MediaCodecType::Audio);
            match video {
                Some(v) => Ok(
                    DetailsView::Video(
                        video_details(probe, probe.streams@[v], stream_at(probe.streams@, audio)),
                    ),
                ),
                None => match audio {
                    Some(a) => Ok(DetailsView::Audio(audio_details(probe, probe.streams@[a]))),
                    None => Err(VFSError::MediaStreamMissing),
                },
            }
        },
    }
}

/// Works out the details that a file of the given kind is stored with.
/// See `details_of`.
pub fn classify(t: &VFSFileType) -> (r: Result<FileDetails, VFSError>)
    ensures
        match details_of(*t) {
            Ok(d) => r is Ok && r->Ok_0@ == d,
            Err(e) => r == Err::<FileDetails, VFSError>(e),
        },
{
    match t {
        VFSFileType::Text => Ok(FileDetails::Text),
        VFSFileType::Image(probe) => {
            if probe.streams.len() == 0 {
                return Err(VFSError::MediaStreamMissing);
            }
            let stream = &probe.streams[0];
            Ok(
                FileDetails::Image(
                    ImageFile {
                        width: stream.width,
                        height: stream.height,
                        codec_name: clone_opt_text(&stream.codec_name),
                        pix_fmt: clone_opt_text(&stream.pix_fmt),
                    },
                ),
            )
        },
        VFSFileType::Multimedia(probe) => {
            let video = find_stream(&probe.streams, MediaCodecType::Video);
            let audio = find_stream(&probe.streams, MediaCodecType::Audio);
            proof {
                lemma_first_stream_of(probe.streams@, MediaCodecType::Video);
                lemma_first_stream_of(probe.streams@, MediaCodecType::Audio);
            }
            match video {
                Some(v) => {
                    let stream = &probe.streams[v];
                    let audio_codec = match audio {
                        Some(a) => clone_opt_text(&probe.streams[a].codec_name),
                        None => None,
                    };
                    Ok(
                        FileDetails::Video(
                            VideoFile {
                                duration: clone_opt_text(&probe.format.duration),
                                width: stream.width,
                                height: stream.height,
                                r_frame_rate: clone_opt_text(&stream.r_frame_rate),
                                avg_frame_rate: clone_opt_text(&stream.avg_frame_rate),
                                video_codec: clone_opt_text(&stream.codec_name),
                                audio_codec,
                            },
                        ),
                    )
                },
                None => match audio {
                    Some(a) => {
                        let stream = &probe.streams[a];
                        Ok(
                            FileDetails::Audio(
                                AudioFile {
                                    duration: clone_opt_text(&probe.format.duration),
                                    codec_name: clone_opt_text(&stream.codec_name),
                                    bitrate: probe.format.bit_rate,
                                    sample_format: clone_opt_text(&stream.sample_fmt),
                                    sample_rate: stream.sample_rate,
                                    channels: stream.channels,
                                },
                            ),
                        )
                    },
                    None => Err(VFSError::MediaStreamMissing),
                },
            }
        },
    }
}

} // verus!
