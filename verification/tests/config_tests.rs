use liplayerpro::config::{AudioConfig, Config, LibraryConfig, Rgb, StyleEngine, Theme, UiConfig};
use liplayerpro::theme::{hex_readable, hex_to_rgb, Theme as StatusTheme};

fn engine(pairs: &[(&str, &str)]) -> StyleEngine {
    let mut theme = Theme::new();
    for (k, v) in pairs {
        theme.set(k.to_string(), v.to_string());
    }
    StyleEngine::new(theme)
}

#[test]
fn style_colors_by_name() {
    let e = engine(&[("primary", "#ff8000"), ("secondary", "#12ab3C"), ("bad", "#zz00+f")]);
    assert_eq!(e.get("primary"), Some(Rgb { r: 255, g: 128, b: 0 }));
    assert_eq!(e.get("secondary"), Some(Rgb { r: 0x12, g: 0xab, b: 0x3c }));
    assert_eq!(e.get("bad"), Some(Rgb { r: 255, g: 0, b: 15 }));
    assert_eq!(e.get("missing"), None);
}

#[test]
fn style_colors_need_seven_bytes_and_a_hash() {
    let e = engine(&[("a", "ff8000"), ("b", "#ff80001"), ("c", "#fff")]);
    assert_eq!(e.get("a"), None);
    assert_eq!(e.get("b"), None);
    assert_eq!(e.get("c"), None);
}

#[test]
fn hex_to_rgb_skips_hashes() {
    assert_eq!(hex_to_rgb("#102030"), Rgb { r: 0x10, g: 0x20, b: 0x30 });
    assert_eq!(hex_to_rgb("##a0b0c0"), Rgb { r: 0xa0, g: 0xb0, b: 0xc0 });
    assert_eq!(hex_to_rgb("ffffff00"), Rgb { r: 255, g: 255, b: 255 });
    assert_eq!(hex_to_rgb("#xx0000"), Rgb { r: 255, g: 0, b: 0 });
}

#[test]
fn status_theme_from_texts() {
    let t = StatusTheme::from_hex_colors("#000000", "#00ff00", "#ff0000", "#ffff00");
    assert_eq!(t.header, Rgb { r: 0, g: 0, b: 0 });
    assert_eq!(t.status_play, Rgb { r: 0, g: 255, b: 0 });
    assert_eq!(t.status_stop, Rgb { r: 255, g: 0, b: 0 });
    assert_eq!(t.warning, Rgb { r: 255, g: 255, b: 0 });
}

#[test]
fn expand_paths_keeps_plain_paths() {
    let mut c = Config {
        library: LibraryConfig { music_dir: "/srv/music".into(), index_path: "~user/idx".into() },
        audio: AudioConfig { device: "hw:0".into() },
        ui: UiConfig { fps: 30 },
    };
    c.expand_paths(Some("/home/u".into()));
    assert_eq!(c.library.music_dir, "/srv/music");
    assert_eq!(c.library.index_path, "~user/idx");
    assert_eq!(c.audio.device, "hw:0");
    assert_eq!(c.ui, UiConfig { fps: 30 });
}

#[test]
fn expand_paths_replaces_home() {
    let mut c = Config {
        library: LibraryConfig { music_dir: "~/Music".into(), index_path: "~".into() },
        audio: AudioConfig { device: "default".into() },
        ui: UiConfig { fps: 30 },
    };
    c.expand_paths(Some("/home/u".into()));
    assert_eq!(c.library.music_dir, "/home/u/Music");
    assert_eq!(c.library.index_path, "/home/u");
    assert_eq!(c.audio.device, "default");
}

#[test]
fn expand_paths_without_a_home_keeps_the_paths() {
    let mut c = Config {
        library: LibraryConfig { music_dir: "~/Music".into(), index_path: "/idx".into() },
        audio: AudioConfig { device: "default".into() },
        ui: UiConfig { fps: 30 },
    };
    c.expand_paths(None);
    assert_eq!(c.library.music_dir, "~/Music");
    assert_eq!(c.library.index_path, "/idx");
}

#[test]
fn colours_cut_inside_a_character_are_refused() {
    let e = engine(&[("a", "#0é000"), ("b", "#ff8000"), ("c", "é")]);
    assert!(!e.can_get("a"));
    assert!(e.can_get("b"));
    assert!(e.can_get("c"));
    assert!(e.can_get("missing"));
    assert!(hex_readable("#ff8000"));
    assert!(hex_readable("ff8000aa"));
    assert!(!hex_readable("#ff80"));
    assert!(!hex_readable("#fé8000"));
    assert!(!hex_readable("##ff800é"));
    assert!(hex_readable("##ff8000é"));
}

#[test]
fn setting_a_colour_again_replaces_it() {
    let mut theme = Theme::new();
    theme.set("primary".to_string(), "#000000".to_string());
    theme.set("secondary".to_string(), "#111111".to_string());
    theme.set("primary".to_string(), "#ff0000".to_string());
    assert_eq!(
        theme.pairs(),
        &vec![
            ("primary".to_string(), "#ff0000".to_string()),
            ("secondary".to_string(), "#111111".to_string())
        ]
    );
    let e = StyleEngine::new(theme);
    assert_eq!(e.get("primary"), Some(Rgb { r: 255, g: 0, b: 0 }));
}
