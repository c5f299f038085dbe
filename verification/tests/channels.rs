use soundcard_control::name_map::NameMap;
use soundcard_control::storage::config::{InputChannelConfig, SoundCardConfig};
use soundcard_control::storage::controller::{
    load_all_channels, load_channel_config, save_channel_config,
};

fn channel(control: &str, display: &str, stereo: &str, coupled: bool) -> InputChannelConfig {
    InputChannelConfig {
        control_name: control.to_string(),
        display_name: display.to_string(),
        display_name_stereo: stereo.to_string(),
        stereo_coupled: coupled,
    }
}

fn save(config: &mut SoundCardConfig, control: &str, display: &str, stereo: &str, coupled: bool) {
    save_channel_config(
        config,
        control.to_string(),
        display.to_string(),
        stereo.to_string(),
        coupled,
    );
}

#[test]
fn new_configuration_is_empty() {
    let config = SoundCardConfig::new();
    assert_eq!(config.channels.len(), 0);
    assert_eq!(load_all_channels(&config), Vec::<InputChannelConfig>::new());
    assert_eq!(load_channel_config(&config, "Mic-AN1"), None);
}

#[test]
fn saved_channel_is_loaded_back() {
    let mut config = SoundCardConfig::new();
    save(&mut config, "Mic-AN1", "Vocals", "", false);
    assert_eq!(
        load_channel_config(&config, "Mic-AN1"),
        Some(channel("Mic-AN1", "Vocals", "", false))
    );
    assert_eq!(load_channel_config(&config, "Mic-AN2"), None);
    assert_eq!(load_channel_config(&config, "Mic-AN"), None);
}

#[test]
fn saving_again_replaces_the_channel() {
    let mut config = SoundCardConfig::new();
    save(&mut config, "Mic-AN1", "Vocals", "", false);
    save(&mut config, "Mic-AN2", "Guitar", "", false);
    save(&mut config, "Mic-AN1", "Keys L", "Keys", true);
    assert_eq!(config.channels.len(), 2);
    assert_eq!(
        load_channel_config(&config, "Mic-AN1"),
        Some(channel("Mic-AN1", "Keys L", "Keys", true))
    );
    assert_eq!(
        load_all_channels(&config),
        vec![
            channel("Mic-AN1", "Keys L", "Keys", true),
            channel("Mic-AN2", "Guitar", "", false)
        ]
    );
}

#[test]
fn name_map_keeps_one_value_for_each_name() {
    let mut map: NameMap<u32> = NameMap::new();
    assert_eq!(map.len(), 0);
    assert_eq!(map.get("a"), None);
    map.insert("a".to_string(), 1);
    map.insert("b".to_string(), 2);
    map.insert("a".to_string(), 3);
    assert_eq!(map.len(), 2);
    assert_eq!(map.get("a"), Some(&3));
    assert_eq!(map.get("b"), Some(&2));
    assert_eq!(map.get(""), None);
    assert!(map.contains_key("b"));
    assert!(!map.contains_key("c"));
    assert_eq!(map.entries(), &vec![("a".to_string(), 3), ("b".to_string(), 2)]);
}
