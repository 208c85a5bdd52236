use eaststar::settings::{config_path_for, AppSettings, VisualEffect};

#[test]
fn effect_labels() {
    assert_eq!(VisualEffect::NebulaFlight.label(), "Nebula Flight");
    assert_eq!(VisualEffect::Pipes.label(), "Pipes");
    assert_eq!(VisualEffect::Plasma.label(), "Fractal Plasma");
}

#[test]
fn effect_config_values_read_back() {
    for effect in VisualEffect::ALL {
        assert_eq!(VisualEffect::parse(effect.config_value()), Some(effect));
    }
    assert_eq!(VisualEffect::ALL.len(), 3);
}

#[test]
fn effect_parse_trims_and_rejects() {
    assert_eq!(VisualEffect::parse("  pipes\t"), Some(VisualEffect::Pipes));
    assert_eq!(VisualEffect::parse("\u{3000}fractal-plasma\n"), Some(VisualEffect::Plasma));
    assert_eq!(VisualEffect::parse("Pipes"), None);
    assert_eq!(VisualEffect::parse("nebula flight"), None);
    assert_eq!(VisualEffect::parse(""), None);
}

#[test]
fn default_settings() {
    let s = AppSettings::default();
    assert_eq!(s.saver_delay_seconds, 180);
    assert_eq!(s.lock_after_seconds, 0);
    assert_eq!(s.visual_effect, VisualEffect::NebulaFlight);
}

#[test]
fn config_text_format() {
    let s = AppSettings {
        saver_delay_seconds: 300,
        lock_after_seconds: 45,
        visual_effect: VisualEffect::Pipes,
    };
    assert_eq!(
        s.config_text(),
        "# eastStar settings\nsaver_delay_seconds=300\nlock_after_seconds=45\nvisual_effect=pipes\n"
    );
}

#[test]
fn config_roundtrip() {
    for (delay, lock, effect) in [
        (30u64, 0u64, VisualEffect::NebulaFlight),
        (3600, 7200, VisualEffect::Plasma),
        (181, 9, VisualEffect::Pipes),
    ] {
        let s = AppSettings { saver_delay_seconds: delay, lock_after_seconds: lock, visual_effect: effect };
        assert_eq!(AppSettings::parse_config(&s.config_text()), s);
    }
}

#[test]
fn config_roundtrip_clamps_out_of_range() {
    let s = AppSettings {
        saver_delay_seconds: 5,
        lock_after_seconds: 99_999,
        visual_effect: VisualEffect::Plasma,
    };
    let back = AppSettings::parse_config(&s.config_text());
    assert_eq!(
        back,
        AppSettings { saver_delay_seconds: 30, lock_after_seconds: 7200, visual_effect: VisualEffect::Plasma }
    );
    let s = AppSettings {
        saver_delay_seconds: u64::MAX,
        lock_after_seconds: 7201,
        visual_effect: VisualEffect::Pipes,
    };
    let back = AppSettings::parse_config(&s.config_text());
    assert_eq!(back.saver_delay_seconds, 3600);
    assert_eq!(back.lock_after_seconds, 7200);
    assert_eq!(back.visual_effect, VisualEffect::Pipes);
}

#[test]
fn parse_config_clamps_values() {
    let s = AppSettings::parse_config("saver_delay_seconds=5\nlock_after_seconds=99999\n");
    assert_eq!(s.saver_delay_seconds, 30);
    assert_eq!(s.lock_after_seconds, 7200);
    let s = AppSettings::parse_config("saver_delay_seconds=99999");
    assert_eq!(s.saver_delay_seconds, 3600);
}

#[test]
fn parse_config_ignores_noise() {
    let text = "# comment\n\n   \nno equals sign\nunknown=1\nsaver_delay_seconds=abc\n\
                lock_after_seconds=-5\nvisual_effect=warp-drive\n";
    assert_eq!(AppSettings::parse_config(text), AppSettings::default());
    assert_eq!(AppSettings::parse_config(""), AppSettings::default());
}

#[test]
fn parse_config_whitespace_plus_and_crlf() {
    let text = "  saver_delay_seconds = +240 \r\n\tlock_after_seconds=\t60\r\nvisual_effect =  fractal-plasma\r\n";
    let s = AppSettings::parse_config(text);
    assert_eq!(s.saver_delay_seconds, 240);
    assert_eq!(s.lock_after_seconds, 60);
    assert_eq!(s.visual_effect, VisualEffect::Plasma);
}

#[test]
fn parse_config_later_lines_win_and_overflow_is_ignored() {
    let text = "saver_delay_seconds=100\nsaver_delay_seconds=200\nsaver_delay_seconds=18446744073709551616\n";
    assert_eq!(AppSettings::parse_config(text).saver_delay_seconds, 200);
    let text = "lock_after_seconds=18446744073709551615";
    assert_eq!(AppSettings::parse_config(text).lock_after_seconds, 7200);
}

#[test]
fn parse_config_splits_at_first_equals() {
    let s = AppSettings::parse_config("visual_effect=pipes=x\n#saver_delay_seconds=400\nsaver_delay_seconds==400");
    assert_eq!(s, AppSettings::default());
}

#[test]
fn parse_config_always_in_range() {
    for text in ["saver_delay_seconds=0", "saver_delay_seconds=3601", "lock_after_seconds=7201"] {
        let s = AppSettings::parse_config(text);
        assert!(s.saver_delay_seconds >= 30 && s.saver_delay_seconds <= 3600);
        assert!(s.lock_after_seconds <= 7200);
    }
}

#[test]
fn config_path_prefers_xdg() {
    assert_eq!(config_path_for(Some(" /x/cfg "), Some("/home/u")), "/x/cfg/eaststar/settings.conf");
    assert_eq!(config_path_for(Some("/x/cfg/"), None), "/x/cfg/eaststar/settings.conf");
}

#[test]
fn config_path_falls_back_to_home_then_cwd() {
    assert_eq!(config_path_for(Some("   "), Some("/home/u")), "/home/u/.config/eaststar/settings.conf");
    assert_eq!(config_path_for(None, Some("/home/u/")), "/home/u/.config/eaststar/settings.conf");
    assert_eq!(config_path_for(None, Some("\t")), "settings.conf");
    assert_eq!(config_path_for(None, None), "settings.conf");
}
