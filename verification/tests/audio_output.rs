use hayate_core::audio_output::{
    AudioFormat, DEFAULT_BUFFER_FRAMES, DEFAULT_CHANNEL_COUNT, DEFAULT_SAMPLE_RATE_HZ,
};

#[test]
fn default_format_is_built_from_named_constants() {
    let format = AudioFormat::default();
    assert_eq!(format.sample_rate_hz, DEFAULT_SAMPLE_RATE_HZ);
    assert_eq!(format.channel_count, DEFAULT_CHANNEL_COUNT);
    assert_eq!(format.buffer_frames, DEFAULT_BUFFER_FRAMES);
}

#[test]
fn buffer_len_is_frames_times_channels() {
    let stereo = AudioFormat {
        sample_rate_hz: 48_000,
        channel_count: 2,
        buffer_frames: 1_024,
    };
    assert_eq!(stereo.buffer_len(), 2_048);

    let mono = AudioFormat {
        sample_rate_hz: 44_100,
        channel_count: 1,
        buffer_frames: 512,
    };
    assert_eq!(mono.buffer_len(), 512);
}
