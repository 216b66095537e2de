//! What a media probe reports about a file: its container format and one
//! record per stream.

use vstd::prelude::*;
use vstd::string::*;

verus! {

/// The kind of a stream, as the probe tags it.
#[derive(Debug, Clone, Copy, PartialEq, Eq, Structural)]
pub enum MediaCodecType {
    Audio,
    Video,
}

/// The tag that stands for a stream kind in stored records.
pub open spec fn codec_type_label(t: MediaCodecType) -> Seq<char> {
    match t {
        MediaCodecType::Audio => "audio"@,
        MediaCodecType::Video => "video"@,
    }
}

impl MediaCodecType {
    /// The lower-case tag of this kind.
    pub fn to_string(&self) -> (s: String)
        ensures
            s@ == codec_type_label(*self),
    {
        match self {
            MediaCodecType::Audio => String::from_str("audio"),
            MediaCodecType::Video => String::from_str("video"),
        }
    }
}

/// The whole report of one probe run.
#[derive(Debug, Clone)]
pub struct FFProbeMediaOutput {
    pub streams: Vec<Stream>,
    pub format: Format,
}

/// One stream of a probed file.
#[derive(Debug, Clone)]
pub struct Stream {
    pub index: i32,
    pub codec_name: Option<String>,
    pub codec_long_name: Option<String>,
    pub profile: Option<String>,
    pub codec_type: MediaCodecType,
    pub codec_tag_string: Option<String>,
    pub codec_tag: Option<String>,
    // Video-specific
    pub width: Option<i16>,
    pub height: Option<i16>,
    pub coded_width: Option<i16>,
    pub coded_height: Option<i16>,
    pub closed_captions: Option<i32>,
    pub film_grain: Option<i32>,
    pub has_b_frames: Option<i32>,
    pub sample_aspect_ratio: Option<String>,
    pub display_aspect_ratio: Option<String>,
    pub pix_fmt: Option<String>,
    pub level: Option<i32>,
    pub color_range: Option<String>,
    pub color_space: Option<String>,
    pub color_transfer: Option<String>,
    pub color_primaries: Option<String>,
    pub refs: Option<i32>,
    // Audio-specific
    pub sample_fmt: Option<String>,
    pub sample_rate: Option<i32>,
    pub channels: Option<i32>,
    pub channel_layout: Option<String>,
    pub bits_per_sample: Option<i32>,
    pub initial_padding: Option<i32>,
    pub extradata_size: Option<i32>,
    // Timing
    pub r_frame_rate: Option<String>,
    pub avg_frame_rate: Option<String>,
    pub time_base: Option<String>,
    pub start_pts: Option<i64>,
    pub start_time: Option<String>,
    pub disposition: Option<Disposition>,
    pub tags: Option<StreamTags>,
}

/// The disposition flags of a stream.
#[derive(Debug, Clone)]
pub struct Disposition {
    pub default: u8,
    pub dub: u8,
    pub original: u8,
    pub comment: u8,
    pub lyrics: u8,
    pub karaoke: u8,
    pub forced: u8,
    pub hearing_impaired: u8,
    pub visual_impaired: u8,
    pub clean_effects: u8,
    pub attached_pic: u8,
    pub timed_thumbnails: u8,
    pub non_diegetic: u8,
    pub captions: u8,
    pub descriptions: u8,
    pub metadata: u8,
    pub dependent: u8,
    pub still_image: u8,
    pub multilayer: u8,
}

/// The tags a stream may carry.
#[derive(Debug, Clone)]
pub struct StreamTags {
    pub handler_name: Option<String>,
    pub vendor_id: Option<String>,
    pub duration: Option<String>,
    pub language: Option<String>,
}

/// The container-level part of a probe report. `duration` is in seconds,
/// kept as the decimal text that the probe printed.
#[derive(Debug, Clone)]
pub struct Format {
    pub filename: String,
    pub nb_streams: i32,
    pub nb_programs: i32,
    pub nb_stream_groups: Option<i32>,
    pub format_name: String,
    pub format_long_name: String,
    pub start_time: Option<String>,
    pub duration: Option<String>,
    pub size: u64,
    pub bit_rate: Option<i32>,
    pub probe_score: Option<i32>,
    pub tags: Option<FormatTags>,
}

/// The tags a container may carry.
#[derive(Debug, Clone)]
pub struct FormatTags {
    pub compatible_brands: Option<String>,
    pub major_brand: Option<String>,
    pub minor_version: Option<String>,
    pub encoder: Option<String>,
}

/// The stream of the given kind of which nothing else is known.
pub open spec fn bare_stream(index: i32, codec_type: MediaCodecType) -> Stream {
    Stream {
        index,
        codec_name: None,
        codec_long_name: None,
        profile: None,
        codec_type,
        codec_tag_string: None,
        codec_tag: None,
        width: None,
        height: None,
        coded_width: None,
        coded_height: None,
        closed_captions: None,
        film_grain: None,
        has_b_frames: None,
        sample_aspect_ratio: None,
        display_aspect_ratio: None,
        pix_fmt: None,
        level: None,
        color_range: None,
        color_space: None,
        color_transfer: None,
        color_primaries: None,
        refs: None,
        sample_fmt: None,
        sample_rate: None,
        channels: None,
        channel_layout: None,
        bits_per_sample: None,
        initial_padding: None,
        extradata_size: None,
        r_frame_rate: None,
        avg_frame_rate: None,
        time_base: None,
        start_pts: None,
        start_time: None,
        disposition: None,
        tags: None,
    }
}

impl Stream {
    /// A stream of the given kind of which nothing else is known.
    pub fn bare(index: i32, codec_type: MediaCodecType) -> (s: Stream)
        ensures
            s == bare_stream(index, codec_type),
    {
        Stream {
            index,
            codec_name: None,
            codec_long_name: None,
            profile: None,
            codec_type,
            codec_tag_string: None,
            codec_tag: None,
            width: None,
            height: None,
            coded_width: None,
            coded_height: None,
            closed_captions: None,
            film_grain: None,
            has_b_frames: None,
            sample_aspect_ratio: None,
            display_aspect_ratio: None,
            pix_fmt: None,
            level: None,
            color_range: None,
            color_space: None,
            color_transfer: None,
            color_primaries: None,
            refs: None,
            sample_fmt: None,
            sample_rate: None,
            channels: None,
            channel_layout: None,
            bits_per_sample: None,
            initial_padding: None,
            extradata_size: None,
            r_frame_rate: None,
            avg_frame_rate: None,
            time_base: None,
            start_pts: None,
            start_time: None,
            disposition: None,
            tags: None,
        }
    }
}

impl Format {
    /// The format of a file of which only name, size and number of streams
    /// are known: no programs, no names of the format, nothing optional.
    pub fn bare(filename: String, size: u64, nb_streams: i32) -> (f: Format)
        ensures
            f.filename == filename,
            f.nb_streams == nb_streams,
            f.nb_programs == 0,
            f.nb_stream_groups is None,
            f.format_name@.len() == 0,
            f.format_long_name@.len() == 0,
            f.start_time is None,
            f.duration is None,
            f.size == size,
            f.bit_rate is None,
            f.probe_score is None,
            f.tags is None,
    {
        Format {
            filename,
            nb_streams,
            nb_programs: 0,
            nb_stream_groups: None,
            format_name: String::new(),
            format_long_name: String::new(),
            start_time: None,
            duration: None,
            size,
            bit_rate: None,
            probe_score: None,
            tags: None,
        }
    }
}

/// The view of an optional text.
pub open spec fn opt_text(o: Option<String>) -> Option<Seq<char>> {
    match o {
        Some(s) => Some(s@),
        None => None,
    }
}

/// Copies an optional text.
pub fn clone_opt_text(o: &Option<String>) -> (r: Option<String>)
    ensures
        opt_text(r) == opt_text(*o),
{
    match o {
        Some(s) => Some(s.clone()),
        None => None,
    }
}

/// The position of the first stream of kind `t`, if any.
pub open spec fn first_stream_of(streams: Seq<Stream>, t: MediaCodecType) -> Option<int>
    decreases streams.len(),
{
    if streams.len() == 0 {
        None
    } else if streams[0].codec_type == t {
        Some(0int)
    } else {
        match first_stream_of(streams.drop_first(), t) {
            Some(i) => Some(i + 1),
            None => None,
        }
    }
}

/// What `first_stream_of` finds is the earliest stream of that kind.
pub proof fn lemma_first_stream_of(streams: Seq<Stream>, t: MediaCodecType)
    ensures
        match first_stream_of(streams, t) {
            Some(i) => 0 <= i < streams.len() && streams[i].codec_type == t && forall|j: int|
                0 <= j < i ==> (#[trigger] streams[j]).codec_type != t,
            None => forall|j: int|
                0 <= j < streams.len() ==> (#[trigger] streams[j]).codec_type != t,
        },
    decreases streams.len(),
{
    if streams.len() > 0 && streams[0].codec_type != t {
        let rest = streams.drop_first();
        lemma_first_stream_of(rest, t);
        match first_stream_of(rest, t) {
            Some(i) => {
                assert forall|j: int| 0 <= j < i + 1 implies (#[trigger] streams[j]).codec_type
                    != t by {
                    if j > 0 {
                        assert(rest[j - 1] == streams[j]);
                    }
                }
            },
            None => {
                assert forall|j: int| 0 <= j < streams.len() implies (
                #[trigger] streams[j]).codec_type != t by {
                    if j > 0 {
                        assert(rest[j - 1] == streams[j]);
                    }
                }
            },
        }
    }
}

/// Finds the first stream of kind `t`.
pub fn find_stream(streams: &Vec<Stream>, t: MediaCodecType) -> (r: Option<usize>)
    ensures
        match r {
            Some(i) => first_stream_of(streams@, t) == Some(i as int),
            None => first_stream_of(streams@, t) is None,
        },
{
    let mut i: usize = 0;
    proof {
        lemma_first_stream_of(streams@, t);
    }
    while i < streams.len()
        invariant
            match first_stream_of(streams@, t) {
                Some(k) => 0 <= k < streams.len() && streams@[k].codec_type == t && forall|j: int|
                    0 <= j < k ==> (#[trigger] streams@[j]).codec_type != t,
                None => forall|j: int|
                    0 <= j < streams.len() ==> (#[trigger] streams@[j]).codec_type != t,
            },
            i <= streams.len(),
            forall|j: int| 0 <= j < i ==> (#[trigger] streams@[j]).codec_type != t,
        decreases streams.len() - i,
    {
        if streams[i].codec_type == t {
            return Some(i);
        }
        i += 1;
    }
    None
}

} // verus!
