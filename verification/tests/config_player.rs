use plugged::config::{default_true, Config, Notifications, Sounds};
use plugged::player::Player;

#[test]
fn missing_enable_flags_default_to_true() {
    assert!(default_true());
}

#[test]
fn sounds_default_is_enabled_with_empty_paths() {
    let sounds = Sounds::default();
    assert!(sounds.enable);
    assert_eq!(sounds.connected, "");
    assert_eq!(sounds.disconnected, "");
}

#[test]
fn notifications_default_uses_the_standard_template() {
    let notifications = Notifications::default();
    assert!(notifications.enable);
    assert_eq!(notifications.format, "Device {{device_name}} {{action}}.");
}

#[test]
fn config_default_composes_the_section_defaults() {
    let config = Config::default();
    assert!(config.sounds.enable);
    assert!(config.notifications.enable);
    assert_eq!(config.notifications.format, "Device {{device_name}} {{action}}.");
}

#[test]
fn player_hands_out_the_cue_for_each_action() {
    let plugged_cue = vec![1u8, 2, 3];
    let unplugged_cue = vec![9u8, 8];
    let player = Player::new(plugged_cue.clone(), unplugged_cue.clone());
    assert_eq!(player.play_plugged(), &plugged_cue);
    assert_eq!(player.play_unplugged(), &unplugged_cue);
    // The same buffer is reused for every occurrence of the action.
    assert_eq!(player.play_plugged(), &plugged_cue);
}
