use glycerin::media::{AudioFormat, ImageDecoder, ImageFormat, VideoFormat, VideoPlayer};

#[test]
fn test_audio_format_detection() {
    assert_eq!(AudioFormat::from_extension("mp3"), AudioFormat::Mp3);
    assert_eq!(AudioFormat::from_extension("MP3"), AudioFormat::Mp3);
    assert_eq!(AudioFormat::from_extension("wav"), AudioFormat::Wav);
    assert_eq!(AudioFormat::from_extension("ogg"), AudioFormat::Ogg);
    assert_eq!(AudioFormat::from_extension("unknown"), AudioFormat::Unknown);
}

#[test]
fn test_video_format_detection() {
    assert_eq!(VideoFormat::from_extension("mp4"), VideoFormat::Mp4);
    assert_eq!(VideoFormat::from_extension("webm"), VideoFormat::Webm);
    assert_eq!(VideoFormat::from_extension("ogv"), VideoFormat::Ogx);
    assert_eq!(VideoFormat::from_extension("unknown"), VideoFormat::Unknown);
}

#[test]
fn test_image_decoder_creation() {
    let decoder = ImageDecoder::new();
    assert!(decoder.is_format_supported(ImageFormat::Png));
    assert!(decoder.is_format_supported(ImageFormat::Jpeg));
    assert!(decoder.is_format_supported(ImageFormat::WebP));
}

#[test]
fn test_video_player_state() {
    let mut player = VideoPlayer::new();
    assert!(!player.is_playing());

    player.play();
    assert!(player.is_playing());

    player.pause();
    assert!(!player.is_playing());

    player.stop();
    assert_eq!(player.get_current_time_ms(), 0);
}
