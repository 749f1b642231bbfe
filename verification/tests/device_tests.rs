use broadcast_daw_studio::audio_engine::device::device_info_from_configs;
use broadcast_daw_studio::audio_engine::AudioDevice;

#[test]
fn input_device_takes_channels_of_last_input_config() {
    let info = device_info_from_configs(
        "\"Mic\"".to_string(),
        "Mic".to_string(),
        AudioDevice::Input,
        vec![(1, 44100, 48000), (2, 8000, 96000)],
        vec![(6, 48000, 48000)],
    );
    assert_eq!(info.id, "\"Mic\"");
    assert_eq!(info.name, "Mic");
    assert_eq!(info.device_type, "input");
    assert_eq!(info.channels, 2);
    assert_eq!(info.sample_rates, vec![8000, 44100, 48000, 96000]);
    assert_eq!(info.buffer_sizes, vec![64, 128, 256, 512, 1024, 2048]);
    assert!(!info.is_exclusive);
}

#[test]
fn output_device_takes_first_output_channels_when_no_input() {
    let info = device_info_from_configs(
        "id".to_string(),
        "Speakers".to_string(),
        AudioDevice::Output,
        vec![],
        vec![(0, 44100, 44100), (8, 48000, 192000), (2, 44100, 48000)],
    );
    assert_eq!(info.device_type, "output");
    assert_eq!(info.channels, 8);
    assert_eq!(info.sample_rates, vec![44100, 48000, 192000]);
}

#[test]
fn zero_input_channels_fall_back_to_output() {
    let info = device_info_from_configs(
        "id".to_string(),
        "Duplex".to_string(),
        AudioDevice::Input,
        vec![(4, 48000, 48000), (0, 32000, 32000)],
        vec![(2, 48000, 48000)],
    );
    assert_eq!(info.channels, 2);
    assert_eq!(info.sample_rates, vec![32000, 48000]);
}

#[test]
fn device_without_configs_reports_nothing() {
    let info = device_info_from_configs(
        "id".to_string(),
        "Empty".to_string(),
        AudioDevice::Output,
        vec![],
        vec![],
    );
    assert_eq!(info.channels, 0);
    assert!(info.sample_rates.is_empty());
    assert_eq!(info.buffer_sizes.len(), 6);
}
