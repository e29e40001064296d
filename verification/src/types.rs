//! The fixed code tables: media type, advisory rating, channel
//! configuration, sample rate, audio information and artwork images.

use vstd::prelude::*;

use crate::error::{Error, ErrorKind};

verus! {

/// An enum describing the media type of a file stored in the `stik` atom.
#[derive(Clone, Copy, Debug, PartialEq, Eq, Structural)]
pub enum MediaType {
    /// A media type stored as 0 in the `stik` atom.
    Movie,
    /// A media type stored as 1 in the `stik` atom.
    Normal,
    /// A media type stored as 2 in the `stik` atom.
    AudioBook,
    /// A media type stored as 5 in the `stik` atom.
    WhackedBookmark,
    /// A media type stored as 6 in the `stik` atom.
    MusicVideo,
    /// A media type stored as 9 in the `stik` atom.
    ShortFilm,
    /// A media type stored as 10 in the `stik` atom.
    TvShow,
    /// A media type stored as 11 in the `stik` atom.
    Booklet,
}

impl MediaType {
    /// The media type code as stored in the `stik` atom.
    pub open spec fn spec_code(self) -> u8 {
        match self {
            MediaType::Movie => 0,
            MediaType::Normal => 1,
            MediaType::AudioBook => 2,
            MediaType::WhackedBookmark => 5,
            MediaType::MusicVideo => 6,
            MediaType::ShortFilm => 9,
            MediaType::TvShow => 10,
            MediaType::Booklet => 11,
        }
    }

    /// Returns the media type code.
    pub fn code(&self) -> (r: u8)
        ensures
            r == self.spec_code(),
    {
        match self {
            MediaType::Movie => 0,
            MediaType::Normal => 1,
            MediaType::AudioBook => 2,
            MediaType::WhackedBookmark => 5,
            MediaType::MusicVideo => 6,
            MediaType::ShortFilm => 9,
            MediaType::TvShow => 10,
            MediaType::Booklet => 11,
        }
    }

    /// Reads a media type from its code; every value that is no known code
    /// is rejected with `UnknownMediaType`.
    pub fn try_from(value: u8) -> (r: Result<MediaType, Error>)
        ensures
            match r {
                Ok(m) => m.spec_code() == value,
                Err(e) => e.kind == ErrorKind::UnknownMediaType(value) && forall|m: MediaType|
                    m.spec_code() != value,
            },
    {
        match value {
            0u8 => Ok(MediaType::Movie),
            1u8 => Ok(MediaType::Normal),
            2u8 => Ok(MediaType::AudioBook),
            5u8 => Ok(MediaType::WhackedBookmark),
            6u8 => Ok(MediaType::MusicVideo),
            9u8 => Ok(MediaType::ShortFilm),
            10u8 => Ok(MediaType::TvShow),
            11u8 => Ok(MediaType::Booklet),
            _ => Err(Error::new(ErrorKind::UnknownMediaType(value), "Unknown media type")),
        }
    }
}

/// An enum describing the rating of a file stored in the `rtng` atom.
#[derive(Clone, Copy, Debug, PartialEq, Eq, Structural)]
pub enum AdvisoryRating {
    /// An advisory rating stored as 2 in the `rtng` atom.
    Clean,
    /// An advisory rating stored as 0 in the `rtng` atom.
    Inoffensive,
    /// An advisory rating indicated by any other value than 0 or 2 in the
    /// `rtng` atom.
    Explicit,
}

impl AdvisoryRating {
    /// The advisory rating code as written to the `rtng` atom.
    pub open spec fn spec_code(self) -> u8 {
        match self {
            AdvisoryRating::Clean => 2,
            AdvisoryRating::Inoffensive => 0,
            AdvisoryRating::Explicit => 4,
        }
    }

    /// Returns the advisory rating code.
    pub fn code(&self) -> (r: u8)
        ensures
            r == self.spec_code(),
    {
        match self {
            AdvisoryRating::Clean => 2,
            AdvisoryRating::Inoffensive => 0,
            AdvisoryRating::Explicit => 4,
        }
    }

    /// Reads an advisory rating from its code: 2 is clean, 0 inoffensive,
    /// and every other value explicit.
    pub fn from_code(rating: u8) -> (r: AdvisoryRating)
        ensures
            r == (if rating == 2 {
                AdvisoryRating::Clean
            } else if rating == 0 {
                AdvisoryRating::Inoffensive
            } else {
                AdvisoryRating::Explicit
            }),
    {
        match rating {
            2u8 => AdvisoryRating::Clean,
            0u8 => AdvisoryRating::Inoffensive,
            _ => AdvisoryRating::Explicit,
        }
    }
}

impl From<u8> for AdvisoryRating {
    fn from(rating: u8) -> (r: AdvisoryRating) {
        AdvisoryRating::from_code(rating)
    }
}

impl vstd::std_specs::convert::FromSpecImpl<u8> for AdvisoryRating {
    open spec fn obeys_from_spec() -> bool {
        true
    }

    open spec fn from_spec(rating: u8) -> AdvisoryRating {
        if rating == 2 {
            AdvisoryRating::Clean
        } else if rating == 0 {
            AdvisoryRating::Inoffensive
        } else {
            AdvisoryRating::Explicit
        }
    }
}

/// An enum representing the channel configuration of an MPEG-4 audio track.
#[derive(Clone, Copy, Debug, PartialEq, Eq, Structural)]
pub enum ChannelConfig {
    /// Mono.
    Mono,
    /// Stereo.
    Stereo,
    /// The 3.0 layout.
    Three,
    /// The 4.0 layout.
    Four,
    /// The 5.0 layout.
    Five,
    /// The 5.1 layout.
    FiveOne,
    /// The 7.1 layout.
    SevenOne,
}

impl ChannelConfig {
    /// The index under which this configuration is stored.
    pub open spec fn spec_code(self) -> u8 {
        match self {
            ChannelConfig::Mono => 1,
            ChannelConfig::Stereo => 2,
            ChannelConfig::Three => 3,
            ChannelConfig::Four => 4,
            ChannelConfig::Five => 5,
            ChannelConfig::FiveOne => 6,
            ChannelConfig::SevenOne => 7,
        }
    }

    /// Reads a channel configuration from its index; every other value is
    /// rejected with `UnknownChannelConfig`.
    pub fn try_from(value: u8) -> (r: Result<ChannelConfig, Error>)
        ensures
            match r {
                Ok(c) => c.spec_code() == value,
                Err(e) => e.kind == ErrorKind::UnknownChannelConfig(value) && forall|
                    c: ChannelConfig,
                |
                    c.spec_code() != value,
            },
    {
        match value {
            1u8 => Ok(ChannelConfig::Mono),
            2u8 => Ok(ChannelConfig::Stereo),
            3u8 => Ok(ChannelConfig::Three),
            4u8 => Ok(ChannelConfig::Four),
            5u8 => Ok(ChannelConfig::Five),
            6u8 => Ok(ChannelConfig::FiveOne),
            7u8 => Ok(ChannelConfig::SevenOne),
            _ => Err(
                Error::new(ErrorKind::UnknownChannelConfig(value), "Unknown channel config index"),
            ),
        }
    }

    /// Returns the number of channels.
    pub fn channel_count(&self) -> (r: u8)
        ensures
            r == (match self {
                ChannelConfig::Mono => 1u8,
                ChannelConfig::Stereo => 2u8,
                ChannelConfig::Three => 3u8,
                ChannelConfig::Four => 4u8,
                ChannelConfig::Five => 5u8,
                ChannelConfig::FiveOne => 6u8,
                ChannelConfig::SevenOne => 8u8,
            }),
    {
        match self {
            ChannelConfig::Mono => 1,
            ChannelConfig::Stereo => 2,
            ChannelConfig::Three => 3,
            ChannelConfig::Four => 4,
            ChannelConfig::Five => 5,
            ChannelConfig::FiveOne => 6,
            ChannelConfig::SevenOne => 8,
        }
    }
}

/// An enum representing the sample rate of an MPEG-4 audio track.
#[derive(Clone, Copy, Debug, PartialEq, Eq, Structural)]
pub enum SampleRate {
    /// A sample rate of 96000Hz.
    Hz96000,
    /// A sample rate of 88200Hz.
    Hz88200,
    /// A sample rate of 64000Hz.
    Hz64000,
    /// A sample rate of 48000Hz.
    Hz48000,
    /// A sample rate of 44100Hz.
    Hz44100,
    /// A sample rate of 32000Hz.
    Hz32000,
    /// A sample rate of 24000Hz.
    Hz24000,
    /// A sample rate of 22050Hz.
    Hz22050,
    /// A sample rate of 16000Hz.
    Hz16000,
    /// A sample rate of 12000Hz.
    Hz12000,
    /// A sample rate of 11025Hz.
    Hz11025,
    /// A sample rate of 8000Hz.
    Hz8000,
    /// A sample rate of 7350Hz.
    Hz7350,
}

impl SampleRate {
    /// The index under which this sample rate is stored.
    pub open spec fn spec_code(self) -> u8 {
        match self {
            SampleRate::Hz96000 => 0,
            SampleRate::Hz88200 => 1,
            SampleRate::Hz64000 => 2,
            SampleRate::Hz48000 => 3,
            SampleRate::Hz44100 => 4,
            SampleRate::Hz32000 => 5,
            SampleRate::Hz24000 => 6,
            SampleRate::Hz22050 => 7,
            SampleRate::Hz16000 => 8,
            SampleRate::Hz12000 => 9,
            SampleRate::Hz11025 => 10,
            SampleRate::Hz8000 => 11,
            SampleRate::Hz7350 => 12,
        }
    }

    /// The rate in Hertz.
    pub open spec fn spec_hz(self) -> u32 {
        match self {
            SampleRate::Hz96000 => 96000,
            SampleRate::Hz88200 => 88200,
            SampleRate::Hz64000 => 64000,
            SampleRate::Hz48000 => 48000,
            SampleRate::Hz44100 => 44100,
            SampleRate::Hz32000 => 32000,
            SampleRate::Hz24000 => 24000,
            SampleRate::Hz22050 => 22050,
            SampleRate::Hz16000 => 16000,
            SampleRate::Hz12000 => 12000,
            SampleRate::Hz11025 => 11025,
            SampleRate::Hz8000 => 8000,
            SampleRate::Hz7350 => 7350,
        }
    }

    /// Reads a sample rate from its index; every other value is rejected
    /// with `UnknownChannelConfig`, as the two tables share an error kind.
    pub fn try_from(value: u8) -> (r: Result<SampleRate, Error>)
        ensures
            match r {
                Ok(s) => s.spec_code() == value,
                Err(e) => e.kind == ErrorKind::UnknownChannelConfig(value) && forall|
                    s: SampleRate,
                |
                    s.spec_code() != value,
            },
    {
        match value {
            0u8 => Ok(SampleRate::Hz96000),
            1u8 => Ok(SampleRate::Hz88200),
            2u8 => Ok(SampleRate::Hz64000),
            3u8 => Ok(SampleRate::Hz48000),
            4u8 => Ok(SampleRate::Hz44100),
            5u8 => Ok(SampleRate::Hz32000),
            6u8 => Ok(SampleRate::Hz24000),
            7u8 => Ok(SampleRate::Hz22050),
            8u8 => Ok(SampleRate::Hz16000),
            9u8 => Ok(SampleRate::Hz12000),
            10u8 => Ok(SampleRate::Hz11025),
            11u8 => Ok(SampleRate::Hz8000),
            12u8 => Ok(SampleRate::Hz7350),
            _ => Err(
                Error::new(ErrorKind::UnknownChannelConfig(value), "Unknown sample rate index"),
            ),
        }
    }

    /// Returns the sample rate in Hz.
    pub fn hz(&self) -> (r: u32)
        ensures
            r == self.spec_hz(),
    {
        match self {
            SampleRate::Hz96000 => 96000,
            SampleRate::Hz88200 => 88200,
            SampleRate::Hz64000 => 64000,
            SampleRate::Hz48000 => 48000,
            SampleRate::Hz44100 => 44100,
            SampleRate::Hz32000 => 32000,
            SampleRate::Hz24000 => 24000,
            SampleRate::Hz22050 => 22050,
            SampleRate::Hz16000 => 16000,
            SampleRate::Hz12000 => 12000,
            SampleRate::Hz11025 => 11025,
            SampleRate::Hz8000 => 8000,
            SampleRate::Hz7350 => 7350,
        }
    }
}

/// A struct containing information about an MPEG-4 audio track.
#[derive(Clone, Debug)]
pub struct AudioInfo {
    /// The duration of the track.
    pub duration: Option<core::time::Duration>,
    /// The channel configuration of the track.
    pub channel_config: Option<ChannelConfig>,
    /// The sample rate of the track.
    pub sample_rate: Option<SampleRate>,
    /// The maximum bitrate of the track.
    pub max_bitrate: Option<u32>,
    /// The average bitrate of the track.
    pub avg_bitrate: Option<u32>,
}

impl Default for AudioInfo {
    fn default() -> (r: AudioInfo)
        ensures
            r.duration is None,
            r.channel_config is None,
            r.sample_rate is None,
            r.max_bitrate is None,
            r.avg_bitrate is None,
    {
        AudioInfo {
            duration: None,
            channel_config: None,
            sample_rate: None,
            max_bitrate: None,
            avg_bitrate: None,
        }
    }
}

/// An enum representing image formats.
#[derive(Clone, Debug, PartialEq, Eq, Structural)]
pub enum ImgFmt {
    /// The bmp format.
    Bmp,
    /// The jpeg format.
    Jpeg,
    /// The png format.
    Png,
}

impl ImgFmt {
    /// Returns true when this is the bmp format.
    pub fn is_bmp(&self) -> (r: bool)
        ensures
            r == (self is Bmp),
    {
        matches!(self, ImgFmt::Bmp)
    }

    /// Returns true when this is the jpeg format.
    pub fn is_jpeg(&self) -> (r: bool)
        ensures
            r == (self is Jpeg),
    {
        matches!(self, ImgFmt::Jpeg)
    }

    /// Returns true when this is the png format.
    pub fn is_png(&self) -> (r: bool)
        ensures
            r == (self is Png),
    {
        matches!(self, ImgFmt::Png)
    }
}

/// A struct representing an image.
#[derive(Clone, Debug)]
pub struct Img<T> {
    /// The image format.
    pub fmt: ImgFmt,
    /// The image data.
    pub data: T,
}

impl<T> Img<T> {
    /// Creates a new image.
    pub fn new(fmt: ImgFmt, data: T) -> (r: Self)
        ensures
            r.fmt == fmt,
            r.data == data,
    {
        Img { fmt, data }
    }

    /// Creates a new image with the bmp format.
    pub fn bmp(data: T) -> (r: Self)
        ensures
            r.fmt is Bmp,
            r.data == data,
    {
        Img::new(ImgFmt::Bmp, data)
    }

    /// Creates a new image with the jpeg format.
    pub fn jpeg(data: T) -> (r: Self)
        ensures
            r.fmt is Jpeg,
            r.data == data,
    {
        Img::new(ImgFmt::Jpeg, data)
    }

    /// Creates a new image with the png format.
    pub fn png(data: T) -> (r: Self)
        ensures
            r.fmt is Png,
            r.data == data,
    {
        Img::new(ImgFmt::Png, data)
    }
}

} // verus!
