//! Tests of the fixed code tables.

use mp4ameta::{AdvisoryRating, ChannelConfig, ErrorKind, Img, ImgFmt, MediaType};
use mp4ameta::types::SampleRate;

#[test]
fn media_type_codes() {
    let cases = [
        (MediaType::Movie, 0u8),
        (MediaType::Normal, 1),
        (MediaType::AudioBook, 2),
        (MediaType::WhackedBookmark, 5),
        (MediaType::MusicVideo, 6),
        (MediaType::ShortFilm, 9),
        (MediaType::TvShow, 10),
        (MediaType::Booklet, 11),
    ];
    for (mt, code) in cases {
        assert_eq!(mt.code(), code);
        assert_eq!(MediaType::try_from(code).unwrap(), mt);
    }
    let err = MediaType::try_from(3).unwrap_err();
    assert_eq!(err.kind, ErrorKind::UnknownMediaType(3));
}

#[test]
fn advisory_rating_codes() {
    assert_eq!(AdvisoryRating::Clean.code(), 2);
    assert_eq!(AdvisoryRating::Inoffensive.code(), 0);
    assert_eq!(AdvisoryRating::Explicit.code(), 4);
    assert_eq!(AdvisoryRating::from(2u8), AdvisoryRating::Clean);
    assert_eq!(AdvisoryRating::from(0u8), AdvisoryRating::Inoffensive);
    assert_eq!(AdvisoryRating::from(4u8), AdvisoryRating::Explicit);
    // any other value reads as explicit
    assert_eq!(AdvisoryRating::from(7u8), AdvisoryRating::Explicit);
}

#[test]
fn channel_config_codes() {
    let cases = [
        (ChannelConfig::Mono, 1u8, 1u8),
        (ChannelConfig::Stereo, 2, 2),
        (ChannelConfig::Three, 3, 3),
        (ChannelConfig::Four, 4, 4),
        (ChannelConfig::Five, 5, 5),
        (ChannelConfig::FiveOne, 6, 6),
        (ChannelConfig::SevenOne, 7, 8),
    ];
    for (cc, code, count) in cases {
        assert_eq!(ChannelConfig::try_from(code).unwrap(), cc);
        assert_eq!(cc.channel_count(), count);
    }
    let err = ChannelConfig::try_from(0).unwrap_err();
    assert_eq!(err.kind, ErrorKind::UnknownChannelConfig(0));
}

#[test]
fn sample_rate_codes() {
    let cases = [
        (SampleRate::Hz96000, 0u8, 96000u32),
        (SampleRate::Hz88200, 1, 88200),
        (SampleRate::Hz64000, 2, 64000),
        (SampleRate::Hz48000, 3, 48000),
        (SampleRate::Hz44100, 4, 44100),
        (SampleRate::Hz32000, 5, 32000),
        (SampleRate::Hz24000, 6, 24000),
        (SampleRate::Hz22050, 7, 22050),
        (SampleRate::Hz16000, 8, 16000),
        (SampleRate::Hz12000, 9, 12000),
        (SampleRate::Hz11025, 10, 11025),
        (SampleRate::Hz8000, 11, 8000),
        (SampleRate::Hz7350, 12, 7350),
    ];
    for (sr, code, hz) in cases {
        assert_eq!(SampleRate::try_from(code).unwrap(), sr);
        assert_eq!(sr.hz(), hz);
    }
    let err = SampleRate::try_from(13).unwrap_err();
    assert_eq!(err.kind, ErrorKind::UnknownChannelConfig(13));
}

#[test]
fn image_constructors() {
    let bmp = Img::bmp(vec![1u8, 2]);
    assert!(bmp.fmt.is_bmp());
    assert!(!bmp.fmt.is_jpeg());
    let jpeg = Img::jpeg(vec![3u8]);
    assert!(jpeg.fmt.is_jpeg());
    let png = Img::png(vec![4u8]);
    assert!(png.fmt.is_png());
    let img = Img::new(ImgFmt::Png, vec![9u8]);
    assert!(img.fmt.is_png());
    assert_eq!(img.data, vec![9u8]);
}

#[test]
fn audio_info_default() {
    let info = mp4ameta::AudioInfo::default();
    assert!(info.duration.is_none());
    assert!(info.channel_config.is_none());
    assert!(info.sample_rate.is_none());
    assert!(info.max_bitrate.is_none());
    assert!(info.avg_bitrate.is_none());
}
