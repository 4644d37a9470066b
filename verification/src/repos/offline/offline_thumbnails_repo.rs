//! Thumbnails of the files in the local directory tree.
//!
//! A picture is decoded, scaled down to fit into 256 by 256 and encoded as
//! PNG. For a video one frame is taken at a random point of its middle 80
//! percent and treated as a picture. The caller reads the files and runs the
//! tools; what it does when, and with which arguments, is decided here.

use crate::models::error::{ErrorKind, PipelineError};
use crate::models::files::{extension_fits, path_extension, FileType, PathProbe};
use crate::repos::offline::imaging;
use crate::utils::decimal::{
    decimal_text,
    format_decimal,
    format_seconds,
    is_seconds,
    parse_seconds,
    seconds_micros,
    seconds_text,
};
use crate::utils::paths::{extension_in, portable};
use crate::utils::text::{has_prefix, join2, push_text, str_eq};
use vstd::prelude::*;

verus! {

/// The thumbnail service of the local tree.
pub struct OfflineThumbnailsRepo;

/// No thumbnail is wider than this.
pub const THUMBNAIL_MAX_WIDTH: u32 = 256;

/// No thumbnail is higher than this.
pub const THUMBNAIL_MAX_HEIGHT: u32 = 256;

/// How the thumbnail of a file is made.
#[derive(Debug, Clone, Copy, PartialEq, Eq, Structural)]
pub enum ThumbnailSource {
    /// From the file itself.
    Image,
    /// From a frame of the file.
    Video,
}

/// One stream of a media file, as the inspection tool reports it.
#[derive(Debug)]
pub struct ProbeStream {
    pub codec_type: String,
    pub duration: Option<String>,
}

/// What the inspection tool reports of a media file.
#[derive(Debug)]
pub struct ProbeReport {
    /// The duration of the container, in seconds.
    pub format_duration: Option<String>,
    pub streams: Option<Vec<ProbeStream>>,
}

/// The run of the encoder that takes one frame out of a video.
#[derive(Debug)]
pub struct FrameGrab {
    /// Where in the video the frame is taken, in microseconds.
    pub seek_micros: u64,
    /// The file that receives the frame. It is to be removed afterwards,
    /// however the run ends.
    pub output_path: String,
    /// The arguments of the encoder.
    pub args: Vec<String>,
}

/// A side of a picture after scaling: the side times `bound` over `longest`,
/// rounded down, but no less than one pixel for a side that has one.
pub open spec fn scaled_side(side: nat, bound: nat, longest: nat) -> nat {
    if side * bound / longest == 0 && side > 0 {
        1
    } else {
        side * bound / longest
    }
}

/// The size of the thumbnail of a picture of `width` by `height`. A picture
/// that fits into the bounds keeps its size. Any other is scaled by the
/// largest factor that makes it fit: the side that is too long, in relation
/// to its bound, shrinks to the bound, and the other side by the same factor,
/// as [`scaled_side`] says.
pub open spec fn scaled_size(width: nat, height: nat) -> (nat, nat) {
    if width <= THUMBNAIL_MAX_WIDTH && height <= THUMBNAIL_MAX_HEIGHT {
        (width, height)
    } else if width * THUMBNAIL_MAX_HEIGHT >= height * THUMBNAIL_MAX_WIDTH {
        (THUMBNAIL_MAX_WIDTH as nat, scaled_side(height, THUMBNAIL_MAX_WIDTH as nat, width))
    } else {
        (scaled_side(width, THUMBNAIL_MAX_HEIGHT as nat, height), THUMBNAIL_MAX_HEIGHT as nat)
    }
}

/// A thumbnail fits into the bounds, is no larger than the picture, and has
/// at least one pixel on each side on which the picture has one.
pub proof fn lemma_scaled_size_fits(width: nat, height: nat)
    ensures
        scaled_size(width, height).0 <= THUMBNAIL_MAX_WIDTH,
        scaled_size(width, height).1 <= THUMBNAIL_MAX_HEIGHT,
        scaled_size(width, height).0 <= width,
        scaled_size(width, height).1 <= height,
        width >= 1 ==> scaled_size(width, height).0 >= 1,
        height >= 1 ==> scaled_size(width, height).1 >= 1,
{
    if width <= THUMBNAIL_MAX_WIDTH && height <= THUMBNAIL_MAX_HEIGHT {
    } else if width * THUMBNAIL_MAX_HEIGHT >= height * THUMBNAIL_MAX_WIDTH {
        assert(height * 256 / width <= 256 && height * 256 / width <= height && width >= 256)
            by (nonlinear_arith)
            requires
                width * 256 >= height * 256,
                width > 256 || height > 256,
        ;
    } else {
        assert(width * 256 / height <= 256 && width * 256 / height <= width && height > 256)
            by (nonlinear_arith)
            requires
                width * 256 < height * 256,
                width > 256 || height > 256,
        ;
    }
}

/// Scaling keeps the proportions as far as whole pixels allow: the side that
/// was scaled is off by less than one pixel, unless it would have vanished
/// and is one pixel instead.
pub proof fn lemma_scaled_size_keeps_proportions(width: nat, height: nat)
    requires
        width > THUMBNAIL_MAX_WIDTH || height > THUMBNAIL_MAX_HEIGHT,
    ensures
        width * THUMBNAIL_MAX_HEIGHT >= height * THUMBNAIL_MAX_WIDTH ==> height
            * THUMBNAIL_MAX_WIDTH < (scaled_size(width, height).1 + 1) * width && (scaled_size(
            width,
            height,
        ).1 * width <= height * THUMBNAIL_MAX_WIDTH || scaled_size(width, height).1 == 1),
        width * THUMBNAIL_MAX_HEIGHT < height * THUMBNAIL_MAX_WIDTH ==> width
            * THUMBNAIL_MAX_HEIGHT < (scaled_size(width, height).0 + 1) * height && (scaled_size(
            width,
            height,
        ).0 * height <= width * THUMBNAIL_MAX_HEIGHT || scaled_size(width, height).0 == 1),
{
    if width * THUMBNAIL_MAX_HEIGHT >= height * THUMBNAIL_MAX_WIDTH {
        assert((height * 256 / width) * width <= height * 256 < (height * 256 / width + 1) * width)
            by (nonlinear_arith)
            requires
                width > 0,
        ;
        assert(height * 256 < 2 * width ==> height * 256 / width <= 1) by (nonlinear_arith)
            requires
                width > 0,
        ;
    } else {
        assert((width * 256 / height) * height <= width * 256 < (width * 256 / height + 1)
            * height) by (nonlinear_arith)
            requires
                height > 0,
        ;
        assert(width * 256 < 2 * height ==> width * 256 / height <= 1) by (nonlinear_arith)
            requires
                height > 0,
        ;
    }
}

/// How the thumbnail of a file of a type is made. Pictures and videos have
/// thumbnails; anything else is refused as `UnsupportedType`.
pub open spec fn dispatched(file_type: FileType, source: Result<ThumbnailSource, PipelineError>)
    -> bool {
    match file_type {
        FileType::Image => source == Ok::<ThumbnailSource, PipelineError>(ThumbnailSource::Image),
        FileType::Video => source == Ok::<ThumbnailSource, PipelineError>(ThumbnailSource::Video),
        _ => source is Err && source->Err_0.kind == ErrorKind::UnsupportedType
            && source->Err_0.message@ == "不支持提取缩略图的类型"@,
    }
}

/// The box that the picture which `bytes` hold is scaled into, where they
/// hold one.
pub open spec fn thumbnail_box(size: (u32, u32)) -> (u32, u32) {
    (
        scaled_size(size.0 as nat, size.1 as nat).0 as u32,
        scaled_size(size.0 as nat, size.1 as nat).1 as u32,
    )
}

/// What becomes of the making of a thumbnail from `bytes` in the format of
/// `extension`. Bytes that do not decode give a `ResourceError` that says so.
/// Bytes that decode give the picture scaled into its [`thumbnail_box`] as a
/// PNG stream; where the encoder fails, a `ResourceError` that says that.
pub open spec fn thumbnail_made(
    result: Result<Vec<u8>, PipelineError>,
    bytes: Seq<u8>,
    extension: Seq<char>,
) -> bool {
    match imaging::decoded_size(bytes, extension) {
        None => result is Err && result->Err_0.kind == ErrorKind::ResourceError && has_prefix(
            result->Err_0.message@,
            "打开图片失败: "@,
        ),
        Some(size) => match imaging::scaled_png(
            bytes,
            extension,
            thumbnail_box(size).0,
            thumbnail_box(size).1,
        ) {
            Some(png) => result is Ok && result->Ok_0@ == png && imaging::is_png(png),
            None => result is Err && result->Err_0.kind == ErrorKind::ResourceError && has_prefix(
                result->Err_0.message@,
                "写入缩略图失败: "@,
            ),
        },
    }
}

/// What becomes of the making of a thumbnail of the file at `path` from its
/// `bytes`, the file extension being `extension`: without an extension the
/// file cannot be opened as a picture; with one, [`thumbnail_made`].
pub open spec fn thumbnail_of_file(
    result: Result<Vec<u8>, PipelineError>,
    bytes: Seq<u8>,
    extension: Option<Seq<char>>,
) -> bool {
    match extension {
        Some(ext) => thumbnail_made(result, bytes, ext),
        None => result is Err && result->Err_0.kind == ErrorKind::ResourceError && has_prefix(
            result->Err_0.message@,
            "打开图片失败: "@,
        ),
    }
}

/// The duration that a text tells, in microseconds, if it tells one that
/// fits.
pub open spec fn told_duration(text: Option<Seq<char>>) -> Option<u64> {
    match text {
        Some(t) => if is_seconds(t) && seconds_micros(t) <= u64::MAX {
            Some(seconds_micros(t) as u64)
        } else {
            None
        },
        None => None,
    }
}

/// The duration text of the first video stream among `streams`.
pub open spec fn first_video_duration(streams: Seq<ProbeStream>) -> Option<Seq<char>>
    decreases streams.len(),
{
    if streams.len() == 0 {
        None
    } else if streams[0].codec_type@ == "video"@ {
        streams[0].duration.deep_view()
    } else {
        first_video_duration(streams.drop_first())
    }
}

/// The duration of a media file according to a report: that of the container
/// where it can be read, else that of the first video stream.
pub open spec fn report_duration(report: ProbeReport) -> Option<u64> {
    match told_duration(report.format_duration.deep_view()) {
        Some(duration) => Some(duration),
        None => match report.streams {
            Some(streams) => told_duration(first_video_duration(streams@)),
            None => None,
        },
    }
}

/// The earliest point at which a frame is taken: a tenth of the duration.
pub open spec fn seek_low(duration: nat) -> nat {
    duration / 10
}

/// The point before which a frame is taken: nine tenths of the duration.
pub open spec fn seek_high(duration: nat) -> nat {
    duration * 9 / 10
}

/// The file that receives the frame.
pub open spec fn frame_path(temp_dir: Seq<char>, nonce: u64) -> Seq<char> {
    temp_dir + "/thumbnail_"@ + decimal_text(nonce as nat) + ".jpg"@
}

/// The arguments with which the encoder takes one frame at `seek`.
pub open spec fn frame_args(input: Seq<char>, seek: u64, output: Seq<char>) -> Seq<Seq<char>> {
    seq![
        "-ss"@,
        seconds_text(seek as nat),
        "-i"@,
        input,
        "-vframes"@,
        "1"@,
        "-q:v"@,
        "2"@,
        "-y"@,
        output,
    ]
}

/// The arguments with which the inspection tool reports on `path`.
pub open spec fn probe_args(path: Seq<char>) -> Seq<Seq<char>> {
    seq!["-v"@, "quiet"@, "-print_format"@, "json"@, "-show_format"@, "-show_streams"@, path]
}

/// `rand::random_range` on a half-open range of whole numbers: some number
/// from `low` up to, and not including, `high`. The range must not be empty.
#[verifier::external_body]
fn random_between(low: u64, high: u64) -> (value: u64)
    requires
        low < high,
    ensures
        low <= value < high,
{
    rand::random_range(low..high)
}

/// `rand::random`: some number. Nothing is claimed of it.
#[verifier::external_body]
fn random_nonce() -> (nonce: u64) {
    rand::random::<u64>()
}

fn read_duration(text: &Option<String>) -> (duration: Option<u64>)
    ensures
        duration == told_duration(text.deep_view()),
{
    match text {
        Some(t) => parse_seconds(t.as_str()),
        None => None,
    }
}

impl OfflineThumbnailsRepo {
    /// The path of the requested file: `id` appended to `base_dir`.
    pub fn source_path(base_dir: &str, id: &str) -> (path: String)
        ensures
            path@ == base_dir@ + id@,
    {
        join2(base_dir, id)
    }

    /// How the thumbnail of a file of the given type is made: [`dispatched`].
    pub fn dispatch(file_type: FileType) -> (source: Result<ThumbnailSource, PipelineError>)
        ensures
            dispatched(file_type, source),
    {
        match file_type {
            FileType::Image => Ok(ThumbnailSource::Image),
            FileType::Video => Ok(ThumbnailSource::Video),
            _ => Err(PipelineError::new(ErrorKind::UnsupportedType, "不支持提取缩略图的类型")),
        }
    }

    /// How the thumbnail of the file that `source` describes is made: the file
    /// is classified and [`dispatch`](OfflineThumbnailsRepo::dispatch)ed, by
    /// the [`type_in`](PathProbe::type_in) of its path where every host reads
    /// the path alike. A directory has no thumbnail, nor has a file without a
    /// dot in its path.
    pub fn get(source: &PathProbe) -> (result: Result<ThumbnailSource, PipelineError>)
        ensures
            portable(source.path@) ==> dispatched(source.type_in(), result),
            exists|file_type: FileType|
                source.may_have_type(file_type) && #[trigger] dispatched(file_type, result),
            source.is_dir ==> result is Err,
            result is Err ==> result->Err_0.kind == ErrorKind::UnsupportedType,
    {
        let file_type = source.file_type();
        let result = Self::dispatch(file_type);
        assert(dispatched(file_type, result));
        result
    }

    /// The size of the thumbnail of a picture: [`scaled_size`].
    pub fn thumbnail_dimensions(width: u32, height: u32) -> (size: (u32, u32))
        ensures
            size == thumbnail_box((width, height)),
            size.0 == scaled_size(width as nat, height as nat).0,
            size.1 == scaled_size(width as nat, height as nat).1,
            size.0 <= THUMBNAIL_MAX_WIDTH,
            size.1 <= THUMBNAIL_MAX_HEIGHT,
            width >= 1 ==> size.0 >= 1,
            height >= 1 ==> size.1 >= 1,
    {
        proof {
            lemma_scaled_size_fits(width as nat, height as nat);
        }
        if width <= THUMBNAIL_MAX_WIDTH && height <= THUMBNAIL_MAX_HEIGHT {
            (width, height)
        } else if (width as u64) * (THUMBNAIL_MAX_HEIGHT as u64) >= (height as u64) * (
        THUMBNAIL_MAX_WIDTH as u64) {
            let scaled = (height as u64) * (THUMBNAIL_MAX_WIDTH as u64) / (width as u64);
            (
                THUMBNAIL_MAX_WIDTH,
                if scaled == 0 && height > 0 {
                    1
                } else {
                    scaled as u32
                },
            )
        } else {
            let scaled = (width as u64) * (THUMBNAIL_MAX_HEIGHT as u64) / (height as u64);
            (
                if scaled == 0 && width > 0 {
                    1
                } else {
                    scaled as u32
                },
                THUMBNAIL_MAX_HEIGHT,
            )
        }
    }

    /// The thumbnail of the picture that `bytes` hold in the format that the
    /// file extension `extension` stands for: the picture is decoded, scaled
    /// into the box of [`thumbnail_dimensions`] and encoded as PNG, as
    /// [`thumbnail_made`] says.
    ///
    /// [`thumbnail_dimensions`]: OfflineThumbnailsRepo::thumbnail_dimensions
    pub fn thumbnail_from_bytes(extension: &str, bytes: &[u8]) -> (thumbnail: Result<
        Vec<u8>,
        PipelineError,
    >)
        ensures
            thumbnail_made(thumbnail, bytes@, extension@),
    {
        let size = match imaging::decode(bytes, extension) {
            Some(Ok(size)) => size,
            Some(Err(error)) => {
                return Err(Self::picture_error("打开图片失败: ", &error));
            },
            None => {
                return Err(Self::format_error("打开图片失败: ", extension));
            },
        };
        let (width, height) = Self::thumbnail_dimensions(size.0, size.1);
        match imaging::scale_and_encode(bytes, extension, width, height) {
            Some(Ok(png)) => Ok(png),
            Some(Err(error)) => Err(Self::picture_error("写入缩略图失败: ", &error)),
            None => Err(Self::format_error("写入缩略图失败: ", extension)),
        }
    }

    /// The thumbnail of the picture at `path` whose content is `bytes`:
    /// [`thumbnail_from_bytes`](OfflineThumbnailsRepo::thumbnail_from_bytes)
    /// with the extension of `path`, which is [`extension_in`] where every
    /// host reads the path alike, and else an extension that fits the path. A
    /// file without extension cannot be opened as a picture.
    pub fn get_image_thumbnail(path: &str, bytes: &[u8]) -> (thumbnail: Result<
        Vec<u8>,
        PipelineError,
    >)
        ensures
            portable(path@) ==> thumbnail_of_file(thumbnail, bytes@, extension_in(path@)),
            exists|extension: Option<Seq<char>>|
                extension_fits(path@, extension) && thumbnail_of_file(
                    thumbnail,
                    bytes@,
                    extension,
                ),
            thumbnail is Ok ==> imaging::is_png(thumbnail->Ok_0@),
            thumbnail is Err ==> thumbnail->Err_0.kind == ErrorKind::ResourceError && (has_prefix(
                thumbnail->Err_0.message@,
                "打开图片失败: "@,
            ) || has_prefix(thumbnail->Err_0.message@, "写入缩略图失败: "@)),
    {
        match path_extension(path) {
            Some(extension) => {
                let thumbnail = Self::thumbnail_from_bytes(extension.as_str(), bytes);
                assert(thumbnail_of_file(thumbnail, bytes@, Some(extension@)));
                thumbnail
            },
            None => {
                let thumbnail = Err(Self::format_error("打开图片失败: ", ""));
                assert(thumbnail_of_file(thumbnail, bytes@, None));
                thumbnail
            },
        }
    }

    fn picture_error(prefix: &str, error: &image::ImageError) -> (failure: PipelineError)
        ensures
            failure.kind == ErrorKind::ResourceError,
            has_prefix(failure.message@, prefix@),
    {
        let detail = imaging::error_text(error);
        let failure = PipelineError::with_detail(
            ErrorKind::ResourceError,
            prefix,
            detail.as_str(),
        );
        assert((prefix@ + detail@).take(prefix@.len() as int) =~= prefix@);
        failure
    }

    fn format_error(prefix: &str, extension: &str) -> (failure: PipelineError)
        ensures
            failure.kind == ErrorKind::ResourceError,
            has_prefix(failure.message@, prefix@),
    {
        let detail = join2("不支持的图片格式: ", extension);
        let failure = PipelineError::with_detail(
            ErrorKind::ResourceError,
            prefix,
            detail.as_str(),
        );
        assert((prefix@ + detail@).take(prefix@.len() as int) =~= prefix@);
        failure
    }

    /// The arguments with which the inspection tool is run on `path`:
    /// [`probe_args`].
    pub fn probe_arguments(path: &str) -> (args: Vec<String>)
        ensures
            args.deep_view() == probe_args(path@),
    {
        let mut args: Vec<String> = Vec::new();
        assert(args.deep_view() =~= Seq::<Seq<char>>::empty());
        push_text(&mut args, "-v");
        push_text(&mut args, "quiet");
        push_text(&mut args, "-print_format");
        push_text(&mut args, "json");
        push_text(&mut args, "-show_format");
        push_text(&mut args, "-show_streams");
        push_text(&mut args, path);
        assert(args.deep_view() =~= probe_args(path@));
        args
    }

    /// Judges the end of a tool: a tool that ended with a failure gives a
    /// `ResourceError` whose message is `prefix` followed by what the tool
    /// wrote to its error stream.
    pub fn check_tool_exit(success: bool, prefix: &str, stderr: &str) -> (result: Result<
        (),
        PipelineError,
    >)
        ensures
            success ==> result is Ok,
            !success ==> result is Err && result->Err_0.kind == ErrorKind::ResourceError
                && result->Err_0.message@ == prefix@ + stderr@,
    {
        if success {
            Ok(())
        } else {
            Err(PipelineError::with_detail(ErrorKind::ResourceError, prefix, stderr))
        }
    }

    /// The duration of a video in microseconds, from the report of the
    /// inspection tool: [`report_duration`]. A report that tells none is a
    /// `ResourceError`.
    pub fn get_video_duration(report: &ProbeReport) -> (duration: Result<u64, PipelineError>)
        ensures
            match report_duration(*report) {
                Some(told) => duration == Ok::<u64, PipelineError>(told),
                None => duration is Err && duration->Err_0.kind == ErrorKind::ResourceError
                    && duration->Err_0.message@ == "无法获取视频时长"@,
            },
    {
        if let Some(duration) = read_duration(&report.format_duration) {
            return Ok(duration);
        }
        if let Some(streams) = &report.streams {
            let mut i: usize = 0;
            proof {
                assert(streams@.skip(0) =~= streams@);
            }
            while i < streams.len()
                invariant
                    i <= streams.len(),
                    told_duration(report.format_duration.deep_view()) is None,
                    report.streams == Some(*streams),
                    first_video_duration(streams@) == first_video_duration(
                        streams@.skip(i as int),
                    ),
                decreases streams.len() - i,
            {
                proof {
                    assert(streams@.skip(i as int)[0] == streams@[i as int]);
                    assert(streams@.skip(i as int).drop_first() =~= streams@.skip(i + 1));
                }
                if str_eq(streams[i].codec_type.as_str(), "video") {
                    return match read_duration(&streams[i].duration) {
                        Some(duration) => Ok(duration),
                        None => Err(PipelineError::new(ErrorKind::ResourceError, "无法获取视频时长")),
                    };
                }
                i += 1;
            }
            proof {
                assert(streams@.skip(streams.len() as int).len() == 0);
            }
        }
        Err(PipelineError::new(ErrorKind::ResourceError, "无法获取视频时长"))
    }

    /// The range in which the frame of a video of the given duration is taken:
    /// from a tenth to nine tenths of the duration.
    pub fn seek_window(duration: u64) -> (window: (u64, u64))
        ensures
            window.0 == seek_low(duration as nat),
            window.1 == seek_high(duration as nat),
            window.0 <= window.1 <= duration,
    {
        let low = duration / 10;
        let high = ((duration as u128) * 9 / 10) as u64;
        (low, high)
    }

    /// Plans the taking of a frame at `seek` from the video `input`, whose
    /// duration is `duration`, into a file in `temp_dir` that is named after
    /// `nonce`. A video without duration yields no frame: that is a
    /// `ResourceError`, and the encoder is not to be run.
    pub fn frame_grab_at(input: &str, temp_dir: &str, duration: u64, seek: u64, nonce: u64) -> (grab:
        Result<FrameGrab, PipelineError>)
        ensures
            duration == 0 ==> grab is Err && grab->Err_0.kind == ErrorKind::ResourceError
                && grab->Err_0.message@ == "视频时长无效"@,
            duration > 0 ==> grab is Ok && grab->Ok_0.seek_micros == seek
                && grab->Ok_0.output_path@ == frame_path(temp_dir@, nonce)
                && grab->Ok_0.args.deep_view() == frame_args(
                input@,
                seek,
                frame_path(temp_dir@, nonce),
            ),
    {
        if duration == 0 {
            return Err(PipelineError::new(ErrorKind::ResourceError, "视频时长无效"));
        }
        let mut output_path = join2(temp_dir, "/thumbnail_");
        let number = format_decimal(nonce);
        output_path.append(number.as_str());
        output_path.append(".jpg");
        let seek_text = format_seconds(seek);
        let mut args: Vec<String> = Vec::new();
        assert(args.deep_view() =~= Seq::<Seq<char>>::empty());
        push_text(&mut args, "-ss");
        push_text(&mut args, seek_text.as_str());
        push_text(&mut args, "-i");
        push_text(&mut args, input);
        push_text(&mut args, "-vframes");
        push_text(&mut args, "1");
        push_text(&mut args, "-q:v");
        push_text(&mut args, "2");
        push_text(&mut args, "-y");
        push_text(&mut args, output_path.as_str());
        assert(args.deep_view() =~= frame_args(input@, seek, output_path@));
        Ok(FrameGrab { seek_micros: seek, output_path, args })
    }

    /// Plans the taking of a frame from the video `input` at a random point
    /// of its middle 80 percent, into a file in `temp_dir` with a random
    /// name. The point lies in the [`seek_window`], short of its upper end
    /// unless the window is empty. A video without duration is refused as
    /// [`frame_grab_at`](OfflineThumbnailsRepo::frame_grab_at) refuses it.
    ///
    /// [`seek_window`]: OfflineThumbnailsRepo::seek_window
    pub fn get_video_thumbnail(input: &str, temp_dir: &str, duration: u64) -> (grab: Result<
        FrameGrab,
        PipelineError,
    >)
        ensures
            duration == 0 ==> grab is Err && grab->Err_0.kind == ErrorKind::ResourceError
                && grab->Err_0.message@ == "视频时长无效"@,
            duration > 0 ==> grab is Ok && seek_low(duration as nat) <= grab->Ok_0.seek_micros
                <= seek_high(duration as nat) && grab->Ok_0.args.deep_view() == frame_args(
                input@,
                grab->Ok_0.seek_micros,
                grab->Ok_0.output_path@,
            ),
            duration > 0 && seek_low(duration as nat) < seek_high(duration as nat)
                ==> grab->Ok_0.seek_micros < seek_high(duration as nat),
            duration > 0 && seek_low(duration as nat) >= seek_high(duration as nat)
                ==> grab->Ok_0.seek_micros == seek_low(duration as nat),
            duration > 0 ==> exists|nonce: u64|
                grab->Ok_0.output_path@ == #[trigger] frame_path(temp_dir@, nonce),
    {
        let (low, high) = Self::seek_window(duration);
        let seek = if low < high {
            random_between(low, high)
        } else {
            low
        };
        let nonce = random_nonce();
        let grab = Self::frame_grab_at(input, temp_dir, duration, seek, nonce);
        assert(duration > 0 ==> grab->Ok_0.output_path@ == frame_path(temp_dir@, nonce));
        grab
    }
}

} // verus!
