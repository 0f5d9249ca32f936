use glycerin::media::{AudioFormat, DecodedImage, ImageDecoder, ImageFormat, VideoFormat, VideoFrame, VideoPlayer};

#[test]
fn mime_types() {
    assert_eq!(AudioFormat::from_extension("FLAC").mime_type(), "audio/flac");
    assert_eq!(AudioFormat::from_lowercase_extension("m4a").mime_type(), "audio/mp4");
    assert_eq!(AudioFormat::from_lowercase_extension("MP3"), AudioFormat::Unknown);
    assert_eq!(VideoFormat::from_extension("WebM").mime_type(), "video/webm");
    assert_eq!(VideoFormat::Ogx.mime_type(), "video/ogg");
    assert_eq!(VideoFormat::Unknown.mime_type(), "application/octet-stream");
}

#[test]
fn unknown_video_is_refused_and_seek_stays_within_duration() {
    let mut player = VideoPlayer::new();
    assert_eq!(player.load_video(&[1, 2, 3], VideoFormat::Unknown), Err("Unknown video format"));
    assert_eq!(player.load_video(&[1, 2, 3], VideoFormat::Mp4), Ok(()));
    player.seek(5000);
    assert_eq!(player.get_current_time_ms(), 0);
    assert_eq!(player.get_duration_ms(), 0);
    player.update_frame(VideoFrame { width: 2, height: 1, data: vec![0; 8], timestamp_ms: 40 });
    assert_eq!(player.get_current_frame().unwrap().timestamp_ms, 40);
    player.play();
    player.pause();
    player.play();
    // a paused player that was started stays paused until stopped
    assert!(!player.is_playing());
    player.stop();
    assert!(player.get_current_frame().is_none());
    player.play();
    assert!(player.is_playing());
}

fn png_bytes() -> Vec<u8> {
    let img = image::RgbaImage::from_raw(2, 1, vec![255, 0, 0, 255, 0, 0, 255, 255]).unwrap();
    let mut out = std::io::Cursor::new(Vec::new());
    img.write_to(&mut out, image::ImageOutputFormat::Png).unwrap();
    out.into_inner()
}

#[test]
fn images_decode_and_resize() {
    let decoder = ImageDecoder::new();
    assert_eq!(decoder.get_supported_formats().len(), 4);
    assert!(!decoder.is_format_supported(ImageFormat::Bmp));
    let png = png_bytes();
    let img = decoder.decode(&png).unwrap();
    assert_eq!((img.width, img.height), (2, 1));
    assert_eq!(img.data, vec![255, 0, 0, 255, 0, 0, 255, 255]);
    let same = decoder.decode_with_format(&png, ImageFormat::Png).unwrap();
    assert_eq!(same.data, img.data);
    assert!(decoder.decode(b"not an image").is_err());
    assert_eq!(
        decoder.decode_with_format(&png, ImageFormat::Gif).err(),
        Some("Failed to decode image with specified format")
    );
    let small = decoder.resize(&img, 1, 1).unwrap();
    assert_eq!((small.width, small.height), (1, 1));
    assert_eq!(small.data.len(), 4);
    let broken = DecodedImage { width: 4, height: 4, data: vec![0; 3], format: ImageFormat::Png };
    assert_eq!(decoder.resize(&broken, 1, 1).err(), Some("Invalid image data"));
}

#[test]
fn audio_plays_only_once_a_known_track_is_loaded() {
    let mut audio = glycerin::media::AudioManager::new().unwrap();
    assert!(!audio.is_playing());
    audio.play();
    assert!(!audio.is_playing());
    assert_eq!(audio.load_audio(b"RIFF", glycerin::media::AudioFormat::Unknown), Err("Unknown audio format"));
    audio.play();
    assert!(!audio.is_playing());
    assert_eq!(audio.load_audio(b"ID3", glycerin::media::AudioFormat::Mp3), Ok(()));
    audio.play();
    assert!(audio.is_playing());
    audio.pause();
    assert!(!audio.is_playing());
    audio.play();
    audio.stop();
    assert!(!audio.is_playing());
}

#[test]
fn audio_metadata_needs_a_known_format_and_bytes() {
    let audio = glycerin::media::AudioManager::default();
    assert!(audio.has_metadata(b"ID3", glycerin::media::AudioFormat::Mp3));
    assert!(!audio.has_metadata(b"", glycerin::media::AudioFormat::Mp3));
    assert!(!audio.has_metadata(b"ID3", glycerin::media::AudioFormat::Unknown));
}
