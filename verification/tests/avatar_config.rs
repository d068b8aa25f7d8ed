use shittuber::avatar::{
    avatar_display_name, background_color, emotion_image_names, size_parts, talk_mode, uses_nearest_filter,
    MissingGravity, TalkModeSetting,
};

#[test]
fn only_nearest_selects_the_nearest_filter() {
    assert!(uses_nearest_filter(Some("nearest")));
    assert!(!uses_nearest_filter(Some("Nearest")));
    assert!(!uses_nearest_filter(Some("linear")));
    assert!(!uses_nearest_filter(None));
}

#[test]
fn background_defaults_to_green() {
    assert_eq!(background_color(None), Some(0x00ff00));
    assert_eq!(background_color(Some("1e2030")), Some(0x1e2030));
    assert_eq!(background_color(Some("#123456")), None);
    assert_eq!(background_color(Some("")), None);
}

fn mode(s: Option<&str>) -> String {
    match talk_mode(s) {
        Ok(TalkModeSetting::Plain) => "plain".to_string(),
        Ok(TalkModeSetting::MoveUp(m)) => format!("moveup {}", m),
        Ok(TalkModeSetting::Shake(m)) => format!("shake {}", m),
        Ok(TalkModeSetting::Jump(m, g)) => format!("jump {} {}", m, g),
        Err(MissingGravity) => "missing gravity".to_string(),
    }
}

#[test]
fn talk_modes_are_read_from_their_prefix() {
    assert_eq!(mode(None), "plain");
    assert_eq!(mode(Some("none")), "plain");
    assert_eq!(mode(Some("moveup:30")), "moveup 30");
    assert_eq!(mode(Some("moveup:3moveup:1")), "moveup 31");
    assert_eq!(mode(Some("shake:2.5")), "shake 2.5");
    assert_eq!(mode(Some("jump:5:9.8")), "jump 5 9.8");
    assert_eq!(mode(Some("jump:5:9.8:1")), "jump 5 9.8");
    assert_eq!(mode(Some("Shake:2")), "plain");
    assert_eq!(mode(Some("xmoveup:2")), "plain");
}

#[test]
fn jump_without_gravity_is_refused() {
    assert_eq!(mode(Some("jump:5")), "missing gravity");
}

#[test]
fn sizes_split_at_x() {
    assert_eq!(size_parts("100x200"), Some(("100".to_string(), "200".to_string())));
    assert_eq!(size_parts("1x2x3"), Some(("1".to_string(), "2".to_string())));
    assert_eq!(size_parts("100"), None);
}

#[test]
fn emotion_images_are_numbered_from_the_second() {
    assert_eq!(emotion_image_names(0), ("idle.png".to_string(), "speak.png".to_string()));
    assert_eq!(emotion_image_names(1), ("idle2.png".to_string(), "speak2.png".to_string()));
    assert_eq!(emotion_image_names(9), ("idle10.png".to_string(), "speak10.png".to_string()));
}

#[test]
fn display_names_drop_the_avatar_directory() {
    assert_eq!(avatar_display_name("avatars\\bob"), "bob");
    assert_eq!(avatar_display_name("avatars/alice"), "alice");
    assert_eq!(avatar_display_name("x/avatars/avatars/y"), "x/y");
}
