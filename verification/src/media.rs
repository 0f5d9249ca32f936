//! Media: audio and video formats by file extension, image decoding and
//! resizing through the `image` crate, and the playback state of audio and
//! of a video.
use vstd::prelude::*;
use image::GenericImageView;
use crate::text::{lowercase_of, str_eq, to_lowercase};

verus! {

// ---------------------------------------------------------------------------
// Formats
// ---------------------------------------------------------------------------

/// An audio container or codec, named by file extension.
#[derive(Clone, Copy, PartialEq, Eq, Structural, Debug)]
pub enum AudioFormat {
    Mp3,
    Wav,
    Ogg,
    Flac,
    M4a,
    Aac,
    Unknown,
}

/// A video container, named by file extension.
#[derive(Clone, Copy, PartialEq, Eq, Structural, Debug)]
pub enum VideoFormat {
    Mp4,
    Webm,
    Ogx,
    Unknown,
}

/// An image file format.
#[derive(Clone, Copy, PartialEq, Eq, Structural, Debug)]
pub enum ImageFormat {
    Png,
    Jpeg,
    Gif,
    WebP,
    Pnm,
    Tiff,
    Tga,
    Dds,
    Bmp,
    Ico,
    Hdr,
    OpenExr,
    Farbfeld,
    Avif,
    Qoi,
}

/// The kind of a media resource and its format.
#[derive(Clone, Copy, PartialEq, Eq, Structural, Debug)]
pub enum MediaType {
    Audio(AudioFormat),
    Video(VideoFormat),
    Image(ImageFormat),
}

/// The audio format a lowercase extension names.
pub open spec fn audio_format_named(ext: Seq<char>) -> AudioFormat {
    if ext == "mp3"@ {
        AudioFormat::Mp3
    } else if ext == "wav"@ {
        AudioFormat::Wav
    } else if ext == "ogg"@ {
        AudioFormat::Ogg
    } else if ext == "flac"@ {
        AudioFormat::Flac
    } else if ext == "m4a"@ {
        AudioFormat::M4a
    } else if ext == "aac"@ {
        AudioFormat::Aac
    } else {
        AudioFormat::Unknown
    }
}

/// The MIME type of an audio format.
pub open spec fn audio_mime(f: AudioFormat) -> Seq<char> {
    match f {
        AudioFormat::Mp3 => "audio/mpeg"@,
        AudioFormat::Wav => "audio/wav"@,
        AudioFormat::Ogg => "audio/ogg"@,
        AudioFormat::Flac => "audio/flac"@,
        AudioFormat::M4a => "audio/mp4"@,
        AudioFormat::Aac => "audio/aac"@,
        AudioFormat::Unknown => "application/octet-stream"@,
    }
}

/// The video format a lowercase extension names.
pub open spec fn video_format_named(ext: Seq<char>) -> VideoFormat {
    if ext == "mp4"@ {
        VideoFormat::Mp4
    } else if ext == "webm"@ {
        VideoFormat::Webm
    } else if ext == "ogv"@ {
        VideoFormat::Ogx
    } else {
        VideoFormat::Unknown
    }
}

/// The MIME type of a video format.
pub open spec fn video_mime(f: VideoFormat) -> Seq<char> {
    match f {
        VideoFormat::Mp4 => "video/mp4"@,
        VideoFormat::Webm => "video/webm"@,
        VideoFormat::Ogx => "video/ogg"@,
        VideoFormat::Unknown => "application/octet-stream"@,
    }
}

impl AudioFormat {
    /// The format an already lowercased extension names.
    pub fn from_lowercase_extension(ext: &str) -> (r: Self)
        ensures
            r == audio_format_named(ext@),
    {
        if str_eq(ext, "mp3") {
            AudioFormat::Mp3
        } else if str_eq(ext, "wav") {
            AudioFormat::Wav
        } else if str_eq(ext, "ogg") {
            AudioFormat::Ogg
        } else if str_eq(ext, "flac") {
            AudioFormat::Flac
        } else if str_eq(ext, "m4a") {
            AudioFormat::M4a
        } else if str_eq(ext, "aac") {
            AudioFormat::Aac
        } else {
            AudioFormat::Unknown
        }
    }

    /// The format an extension names, in any letter case.
    pub fn from_extension(ext: &str) -> (r: Self)
        ensures
            r == audio_format_named(lowercase_of(ext@)),
    {
        let lower = to_lowercase(ext);
        AudioFormat::from_lowercase_extension(lower.as_str())
    }

    /// The MIME type of the format.
    pub fn mime_type(&self) -> (r: &'static str)
        ensures
            r@ == audio_mime(*self),
    {
        match self {
            AudioFormat::Mp3 => "audio/mpeg",
            AudioFormat::Wav => "audio/wav",
            AudioFormat::Ogg => "audio/ogg",
            AudioFormat::Flac => "audio/flac",
            AudioFormat::M4a => "audio/mp4",
            AudioFormat::Aac => "audio/aac",
            AudioFormat::Unknown => "application/octet-stream",
        }
    }
}

impl VideoFormat {
    /// The format an already lowercased extension names.
    pub fn from_lowercase_extension(ext: &str) -> (r: Self)
        ensures
            r == video_format_named(ext@),
    {
        if str_eq(ext, "mp4") {
            VideoFormat::Mp4
        } else if str_eq(ext, "webm") {
            VideoFormat::Webm
        } else if str_eq(ext, "ogv") {
            VideoFormat::Ogx
        } else {
            VideoFormat::Unknown
        }
    }

    /// The format an extension names, in any letter case.
    pub fn from_extension(ext: &str) -> (r: Self)
        ensures
            r == video_format_named(lowercase_of(ext@)),
    {
        let lower = to_lowercase(ext);
        VideoFormat::from_lowercase_extension(lower.as_str())
    }

    /// The MIME type of the format.
    pub fn mime_type(&self) -> (r: &'static str)
        ensures
            r@ == video_mime(*self),
    {
        match self {
            VideoFormat::Mp4 => "video/mp4",
            VideoFormat::Webm => "video/webm",
            VideoFormat::Ogx => "video/ogg",
            VideoFormat::Unknown => "application/octet-stream",
        }
    }
}

// ---------------------------------------------------------------------------
// Images
// ---------------------------------------------------------------------------

/// Whether `image::load_from_memory` decodes `data`, and the width and
/// height of the image it makes; nothing when it fails. (The pixel values
/// are not named: the JPEG decoder picks its arithmetic by the processor it
/// runs on, and may round differently from one machine to another.)
pub uninterp spec fn decoded_size(data: Seq<u8>) -> Option<(u32, u32)>;

/// Whether `image::load` decodes `data` in the format the extension `ext`
/// names, and the width and height of the image it makes; nothing when the
/// extension names no format or decoding fails.
pub uninterp spec fn decoded_size_as(data: Seq<u8>, ext: Seq<char>) -> Option<(u32, u32)>;

/// The size of a decoding result.
pub open spec fn size_view(r: Option<(u32, u32, Vec<u8>)>) -> Option<(u32, u32)> {
    match r {
        Some((w, h, _)) => Some((w, h)),
        None => None,
    }
}

/// A decoding result holds four bytes (RGBA) per pixel.
pub open spec fn rgba_sized(r: Option<(u32, u32, Vec<u8>)>) -> bool {
    r matches Some((w, h, px)) ==> px@.len() == 4 * w * h
}

/// A decoding result with its pixel bytes taken as a sequence.
pub open spec fn decoding_view(r: Option<(u32, u32, Vec<u8>)>) -> Option<(u32, u32, Seq<u8>)> {
    match r {
        Some((w, h, px)) => Some((w, h, px@)),
        None => None,
    }
}

/// Whether a `width` by `height` RGBA image fits in `len` bytes, its byte
/// count computed in `usize` without overflow.
pub open spec fn rgba_fits(width: u32, height: u32, len: nat) -> bool {
    4 * width <= usize::MAX && 4 * width * height <= usize::MAX && 4 * width * height <= len
}

/// `image::load_from_memory`, then the image's dimensions and RGBA bytes
/// (`to_rgba8`). The contract names whether decoding succeeds and the size
/// (`decoded_size` of the bytes) and states that there are four bytes per
/// pixel; it says nothing of the pixel values.
#[verifier::external_body]
fn decode_rgba(data: &[u8]) -> (r: Option<(u32, u32, Vec<u8>)>)
    ensures
        size_view(r) == decoded_size(data@),
        rgba_sized(r),
{
    match image::load_from_memory(data) {
        Ok(img) => {
            let (w, h) = img.dimensions();
            Some((w, h, img.to_rgba8().into_raw()))
        },
        Err(_) => None,
    }
}

/// `image::load` of the bytes in the format that `image::ImageFormat::from_extension`
/// gives for `ext`, then the image's dimensions and RGBA bytes; nothing when
/// the extension names no format or decoding fails. The contract names
/// whether decoding succeeds and the size (`decoded_size_as` of the bytes
/// and the extension) and states that there are four bytes per pixel; it
/// says nothing of the pixel values.
#[verifier::external_body]
fn decode_rgba_as(data: &[u8], ext: &str) -> (r: Option<(u32, u32, Vec<u8>)>)
    ensures
        size_view(r) == decoded_size_as(data@, ext@),
        rgba_sized(r),
{
    let f = image::ImageFormat::from_extension(ext)?;
    match image::load(std::io::Cursor::new(data), f) {
        Ok(img) => {
            let (w, h) = img.dimensions();
            Some((w, h, img.to_rgba8().into_raw()))
        },
        Err(_) => None,
    }
}

/// The file extension that names `format` in the `image` crate.
pub open spec fn extension_of(format: ImageFormat) -> Seq<char> {
    match format {
        ImageFormat::Png => "png"@,
        ImageFormat::Jpeg => "jpg"@,
        ImageFormat::Gif => "gif"@,
        ImageFormat::WebP => "webp"@,
        ImageFormat::Pnm => "ppm"@,
        ImageFormat::Tiff => "tiff"@,
        ImageFormat::Tga => "tga"@,
        ImageFormat::Dds => "dds"@,
        ImageFormat::Bmp => "bmp"@,
        ImageFormat::Ico => "ico"@,
        ImageFormat::Hdr => "hdr"@,
        ImageFormat::OpenExr => "exr"@,
        ImageFormat::Farbfeld => "ff"@,
        ImageFormat::Avif => "avif"@,
        ImageFormat::Qoi => "qoi"@,
    }
}

/// The file extension that names `format` in the `image` crate.
pub fn image_extension(format: ImageFormat) -> (r: &'static str)
    ensures
        r@ == extension_of(format),
{
    match format {
        ImageFormat::Png => "png",
        ImageFormat::Jpeg => "jpg",
        ImageFormat::Gif => "gif",
        ImageFormat::WebP => "webp",
        ImageFormat::Pnm => "ppm",
        ImageFormat::Tiff => "tiff",
        ImageFormat::Tga => "tga",
        ImageFormat::Dds => "dds",
        ImageFormat::Bmp => "bmp",
        ImageFormat::Ico => "ico",
        ImageFormat::Hdr => "hdr",
        ImageFormat::OpenExr => "exr",
        ImageFormat::Farbfeld => "ff",
        ImageFormat::Avif => "avif",
        ImageFormat::Qoi => "qoi",
    }
}

/// `image::RgbaImage::from_raw` on the bytes, then `image::imageops::resize`
/// with the Lanczos3 filter. The contract states only the length of the
/// result, four bytes per pixel of the new size: the filter's kernel is
/// computed with `f32::sin`, whose precision std leaves to the platform, so
/// the pixel values are not a function of the arguments and get no name.
/// The sizes in
/// `requires` keep the intermediate buffers the crate allocates within what
/// a vector can hold.
#[verifier::external_body]
fn resize_rgba(width: u32, height: u32, data: &Vec<u8>, new_width: u32, new_height: u32) -> (r: Vec<u8>)
    requires
        rgba_fits(width, height, data@.len()),
        16 * width * new_height <= isize::MAX,
        16 * new_width * new_height <= isize::MAX,
    ensures
        r@.len() == 4 * new_width * new_height,
{
    match image::RgbaImage::from_raw(width, height, data.clone()) {
        Some(img) => image::imageops::resize(&img, new_width, new_height, image::imageops::FilterType::Lanczos3).into_raw(),
        None => Vec::new(),
    }
}

/// A decoded image: its size and RGBA bytes.
#[derive(Debug, Clone)]
pub struct DecodedImage {
    pub width: u32,
    pub height: u32,
    pub data: Vec<u8>,
    pub format: ImageFormat,
}

impl DecodedImage {
    /// The image a decoding result describes, labelled `format`, or the
    /// error `failure` when decoding failed.
    pub fn from_decoding(
        decoded: Option<(u32, u32, Vec<u8>)>,
        format: ImageFormat,
        failure: &'static str,
    ) -> (r: Result<DecodedImage, &'static str>)
        ensures
            match decoding_view(decoded) {
                Some((w, h, px)) => r matches Ok(img) && img.width == w && img.height == h && img.data@ == px
                    && img.format == format,
                None => r matches Err(e) && e@ == failure@,
            },
    {
        match decoded {
            Some((w, h, px)) => Ok(DecodedImage { width: w, height: h, data: px, format }),
            None => Err(failure),
        }
    }
}

/// Decodes images in the formats it lists as supported.
pub struct ImageDecoder {
    supported_formats: Vec<ImageFormat>,
}

/// The formats a new decoder lists.
pub open spec fn default_image_formats() -> Seq<ImageFormat> {
    seq![ImageFormat::Png, ImageFormat::Jpeg, ImageFormat::Gif, ImageFormat::WebP]
}

impl ImageDecoder {
    /// The supported formats, in order.
    pub closed spec fn formats(self) -> Seq<ImageFormat> {
        self.supported_formats@
    }

    /// A decoder for PNG, JPEG, GIF and WebP.
    pub fn new() -> (r: Self)
        ensures
            r.formats() == default_image_formats(),
    {
        let mut v: Vec<ImageFormat> = Vec::new();
        v.push(ImageFormat::Png);
        v.push(ImageFormat::Jpeg);
        v.push(ImageFormat::Gif);
        v.push(ImageFormat::WebP);
        assert(v@ =~= default_image_formats());
        ImageDecoder { supported_formats: v }
    }

    /// Decodes `data`, guessing its format; the result is labelled PNG. Its
    /// pixels are the RGBA bytes the `image` crate decodes.
    pub fn decode(&self, data: &[u8]) -> (r: Result<DecodedImage, &'static str>)
        ensures
            match decoded_size(data@) {
                Some((w, h)) => r matches Ok(img) && img.width == w && img.height == h && img.data@.len() == 4 * w
                    * h && img.format == ImageFormat::Png,
                None => r matches Err(e) && e@ == "Failed to decode image"@,
            },
    {
        DecodedImage::from_decoding(decode_rgba(data), ImageFormat::Png, "Failed to decode image")
    }

    /// Decodes `data` as `format`. The pixels are the RGBA bytes the `image`
    /// crate decodes.
    pub fn decode_with_format(&self, data: &[u8], format: ImageFormat) -> (r: Result<DecodedImage, &'static str>)
        ensures
            match decoded_size_as(data@, extension_of(format)) {
                Some((w, h)) => r matches Ok(img) && img.width == w && img.height == h && img.data@.len() == 4
                    * w * h && img.format == format,
                None => r matches Err(e) && e@ == "Failed to decode image with specified format"@,
            },
    {
        DecodedImage::from_decoding(
            decode_rgba_as(data, image_extension(format)),
            format,
            "Failed to decode image with specified format",
        )
    }

    /// Whether `format` is supported.
    pub fn is_format_supported(&self, format: ImageFormat) -> (b: bool)
        ensures
            b == self.formats().contains(format),
    {
        let mut i: usize = 0;
        while i < self.supported_formats.len()
            invariant
                i <= self.supported_formats@.len(),
                forall|k: int| 0 <= k < i ==> self.supported_formats@[k] != format,
            decreases self.supported_formats.len() - i,
        {
            if self.supported_formats[i] == format {
                return true;
            }
            i = i + 1;
        }
        false
    }

    /// The supported formats, in order.
    pub fn get_supported_formats(&self) -> (r: &[ImageFormat])
        ensures
            r@ == self.formats(),
    {
        self.supported_formats.as_slice()
    }

    /// The image resized to `new_width` by `new_height` with the Lanczos3
    /// filter, or an error when its bytes are too few for its size. The new
    /// pixels are what the `image` crate computes; the contract states their
    /// size, format and byte count.
    pub fn resize(&self, image: &DecodedImage, new_width: u32, new_height: u32) -> (r: Result<DecodedImage, &'static str>)
        requires
            rgba_fits(image.width, image.height, image.data@.len()) ==> 16 * image.width * new_height
                <= isize::MAX && 16 * new_width * new_height <= isize::MAX,
        ensures
            rgba_fits(image.width, image.height, image.data@.len()) ==> (r matches Ok(img) && img.width
                == new_width && img.height == new_height && img.format == image.format && img.data@.len()
                == 4 * new_width * new_height),
            !rgba_fits(image.width, image.height, image.data@.len()) ==> (r matches Err(e) && e@
                == "Invalid image data"@),
    {
        proof {
            assert(4 * image.width * image.height == (4 * image.width) * image.height) by (nonlinear_arith);
        }
        let fits = match (4usize).checked_mul(image.width as usize) {
            Some(a) => match a.checked_mul(image.height as usize) {
                Some(b) => b <= image.data.len(),
                None => false,
            },
            None => false,
        };
        if !fits {
            return Err("Invalid image data");
        }
        let px = resize_rgba(image.width, image.height, &image.data, new_width, new_height);
        Ok(DecodedImage { width: new_width, height: new_height, data: px, format: image.format })
    }
}

impl Default for ImageDecoder {
    fn default() -> (r: Self)
        ensures
            r.formats() == default_image_formats(),
    {
        ImageDecoder::new()
    }
}

// ---------------------------------------------------------------------------
// Audio playback
// ---------------------------------------------------------------------------

/// The playback state of audio: the loaded track and its format, and
/// whether it plays. (Volume and position are floating-point values that
/// the caller keeps.)
pub struct AudioManager {
    is_playing: bool,
    loaded_audio: Option<Vec<u8>>,
    loaded_format: Option<AudioFormat>,
}

impl AudioManager {
    /// The bytes of the loaded track, if any.
    pub closed spec fn track(self) -> Option<Seq<u8>> {
        match self.loaded_audio {
            Some(v) => Some(v@),
            None => None,
        }
    }

    /// The format of the loaded track, if any.
    pub closed spec fn format(self) -> Option<AudioFormat> {
        self.loaded_format
    }

    /// Whether the track plays.
    pub closed spec fn playing(self) -> bool {
        self.is_playing
    }

    /// A silent manager with nothing loaded; it cannot fail.
    pub fn new() -> (r: Result<Self, &'static str>)
        ensures
            r matches Ok(m) && m.track() is None && m.format() is None && !m.playing(),
    {
        Ok(AudioManager { is_playing: false, loaded_audio: None, loaded_format: None })
    }

    /// Loads `data` as a track of `format`; an unknown format is refused and
    /// nothing changes. Loading does not start or stop playback.
    pub fn load_audio(&mut self, data: &[u8], format: AudioFormat) -> (r: Result<(), &'static str>)
        ensures
            format == AudioFormat::Unknown ==> (r matches Err(e) && e@ == "Unknown audio format"@),
            format == AudioFormat::Unknown ==> final(self).track() == old(self).track(),
            format == AudioFormat::Unknown ==> final(self).format() == old(self).format(),
            format != AudioFormat::Unknown ==> r is Ok,
            format != AudioFormat::Unknown ==> final(self).track() == Some(data@),
            format != AudioFormat::Unknown ==> final(self).format() == Some(format),
            final(self).playing() == old(self).playing(),
    {
        match format {
            AudioFormat::Unknown => Err("Unknown audio format"),
            _ => {
                self.loaded_audio = Some(vstd::slice::slice_to_vec(data));
                self.loaded_format = Some(format);
                Ok(())
            },
        }
    }

    /// Starts playback when a track is loaded; otherwise nothing changes.
    pub fn play(&mut self)
        ensures
            final(self).playing() == (old(self).playing() || old(self).track() is Some),
            final(self).track() == old(self).track(),
            final(self).format() == old(self).format(),
    {
        if self.loaded_audio.is_some() {
            self.is_playing = true;
        }
    }

    /// Pauses playback.
    pub fn pause(&mut self)
        ensures
            !final(self).playing(),
            final(self).track() == old(self).track(),
            final(self).format() == old(self).format(),
    {
        self.is_playing = false;
    }

    /// Stops playback (the caller rewinds its position).
    pub fn stop(&mut self)
        ensures
            !final(self).playing(),
            final(self).track() == old(self).track(),
            final(self).format() == old(self).format(),
    {
        self.is_playing = false;
    }

    /// Whether the track plays.
    pub fn is_playing(&self) -> (b: bool)
        ensures
            b == self.playing(),
    {
        self.is_playing
    }

    /// Whether metadata can be read from `data` of `format`: the format is
    /// known and there are bytes.
    pub fn has_metadata(&self, data: &[u8], format: AudioFormat) -> (b: bool)
        ensures
            b == (format != AudioFormat::Unknown && data@.len() > 0),
    {
        match format {
            AudioFormat::Unknown => false,
            _ => data.len() > 0,
        }
    }
}

impl Default for AudioManager {
    fn default() -> (r: Self)
        ensures
            r.track() is None && r.format() is None && !r.playing(),
    {
        AudioManager { is_playing: false, loaded_audio: None, loaded_format: None }
    }
}

// ---------------------------------------------------------------------------
// Video playback
// ---------------------------------------------------------------------------

/// One frame of video.
#[derive(Debug, Clone)]
pub struct VideoFrame {
    pub width: u32,
    pub height: u32,
    pub data: Vec<u8>,
    pub timestamp_ms: u64,
}

/// The playback state of a video: whether it plays or is paused, the
/// position, the duration and the frame on screen.
pub struct VideoPlayer {
    current_frame: Option<VideoFrame>,
    is_playing: bool,
    is_paused: bool,
    current_time_ms: u64,
    duration_ms: u64,
}

/// The playback state, as its fields read.
pub struct PlayerView {
    pub frame: Option<VideoFrame>,
    pub started: bool,
    pub paused: bool,
    pub position: u64,
    pub duration: u64,
}

impl View for VideoPlayer {
    type V = PlayerView;

    closed spec fn view(&self) -> PlayerView {
        PlayerView {
            frame: self.current_frame,
            started: self.is_playing,
            paused: self.is_paused,
            position: self.current_time_ms,
            duration: self.duration_ms,
        }
    }
}

/// The state of a new player: stopped at 0, with no frame and no duration.
pub open spec fn fresh_player() -> PlayerView {
    PlayerView { frame: None, started: false, paused: false, position: 0, duration: 0 }
}

impl VideoPlayer {
    /// A stopped player at position 0 with no frame and no duration.
    pub fn new() -> (r: Self)
        ensures
            r@ == fresh_player(),
    {
        VideoPlayer { current_frame: None, is_playing: false, is_paused: false, current_time_ms: 0, duration_ms: 0 }
    }

    /// Accepts a video of a known format, whose duration is not read and
    /// taken as 0; an unknown format is refused and nothing changes.
    pub fn load_video(&mut self, _data: &[u8], format: VideoFormat) -> (r: Result<(), &'static str>)
        ensures
            format == VideoFormat::Unknown ==> (r matches Err(e) && e@ == "Unknown video format"@ && final(self)@
                == old(self)@),
            format != VideoFormat::Unknown ==> (r is Ok && final(self)@ == (PlayerView {
                duration: 0,
                ..old(self)@
            })),
    {
        match format {
            VideoFormat::Unknown => Err("Unknown video format"),
            _ => {
                self.duration_ms = 0;
                Ok(())
            },
        }
    }

    /// Starts playback unless it was already started.
    pub fn play(&mut self)
        ensures
            final(self)@ == (if old(self)@.started {
                old(self)@
            } else {
                PlayerView { started: true, paused: false, ..old(self)@ }
            }),
    {
        if !self.is_playing {
            self.is_playing = true;
            self.is_paused = false;
        }
    }

    /// Pauses playback if it was started.
    pub fn pause(&mut self)
        ensures
            final(self)@ == (if old(self)@.started {
                PlayerView { paused: true, ..old(self)@ }
            } else {
                old(self)@
            }),
    {
        if self.is_playing {
            self.is_paused = true;
        }
    }

    /// Stops playback, rewinds to 0 and drops the frame.
    pub fn stop(&mut self)
        ensures
            final(self)@ == (PlayerView {
                started: false,
                paused: false,
                position: 0,
                frame: None,
                ..old(self)@
            }),
    {
        self.is_playing = false;
        self.is_paused = false;
        self.current_time_ms = 0;
        self.current_frame = None;
    }

    /// Moves to `position_ms`, but never past the end.
    pub fn seek(&mut self, position_ms: u64)
        ensures
            final(self)@ == (PlayerView {
                position: if position_ms <= old(self)@.duration {
                    position_ms
                } else {
                    old(self)@.duration
                },
                ..old(self)@
            }),
    {
        self.current_time_ms = if position_ms <= self.duration_ms {
            position_ms
        } else {
            self.duration_ms
        };
    }

    /// The frame on screen.
    pub fn get_current_frame(&self) -> (r: Option<&VideoFrame>)
        ensures
            match r {
                Some(f) => self@.frame == Some(*f),
                None => self@.frame is None,
            },
    {
        match &self.current_frame {
            Some(f) => Some(f),
            None => None,
        }
    }

    /// Puts `frame` on screen.
    pub fn update_frame(&mut self, frame: VideoFrame)
        ensures
            final(self)@ == (PlayerView { frame: Some(frame), ..old(self)@ }),
    {
        self.current_frame = Some(frame);
    }

    /// The duration, in milliseconds.
    pub fn get_duration_ms(&self) -> (r: u64)
        ensures
            r == self@.duration,
    {
        self.duration_ms
    }

    /// The position, in milliseconds.
    pub fn get_current_time_ms(&self) -> (r: u64)
        ensures
            r == self@.position,
    {
        self.current_time_ms
    }

    /// Whether the video is playing: started and not paused.
    pub fn is_playing(&self) -> (b: bool)
        ensures
            b == (self@.started && !self@.paused),
    {
        self.is_playing && !self.is_paused
    }
}

impl Default for VideoPlayer {
    fn default() -> (r: Self)
        ensures
            r@ == fresh_player(),
    {
        VideoPlayer::new()
    }
}

/// Seeking never moves past the end of the video.
pub proof fn law_seek_within_duration(position_ms: u64, duration_ms: u64)
    ensures
        (if position_ms <= duration_ms {
            position_ms
        } else {
            duration_ms
        }) <= duration_ms,
{
}

} // verus!
