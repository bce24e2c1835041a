use novashell_lib::strmap::StrMap;
use novashell_lib::widgets::battery::{alert_class, battery_icon, find_battery_path, percent_text, read_battery, BatteryOptions, BAT1_PATH, BAT_PATH};
use novashell_lib::widgets::cava::{color_slices_fit, mirror_bars, parse_color, CavaOptions};
use novashell_lib::widgets::clock::{clock_text, format_reading, ClockField, ClockOptions};
use novashell_lib::widgets::exec::{render_output, ExecOptions, TextAlign};
use novashell_lib::widgets::media::{
    art_source, format_duration, media_command, player_display, simple_hash, title_text, ArtSource, MediaOptions,
    MediaState, PlaybackStatus,
};
use novashell_lib::widgets::sysmon::{rate_per_sec, SysmonOptions};
use novashell_lib::widgets::volume::{amixer_fields, is_mute_toggle, volume_glyph, volume_icon, wpctl_fields, VolumeOptions};
use novashell_lib::widgets::{builtin_source, BuiltinKind, BuiltinRegistry, BuiltinSource, VarDef, WidgetContext, WidgetDefinition, default_interval};
use indexmap::IndexMap;

fn ctx(pairs: &[(&str, &str)]) -> WidgetContext {
    let mut c = WidgetContext::new("id", "w");
    for (k, v) in pairs {
        c.set_var(k, v);
    }
    c
}

#[test]
fn context_vars() {
    let mut c = WidgetContext::new("inst-1", "clock");
    assert_eq!(c.id, "inst-1");
    assert_eq!(c.widget_name, "clock");
    assert!(c.visible);
    assert_eq!(c.var("k", "fallback"), "fallback");
    c.set_var("k", "v1");
    assert_eq!(c.var("k", "fallback"), "v1");
    c.set_var("k", "v2");
    assert_eq!(c.var("k", "fallback"), "v2");
    assert_eq!(c.vars.len(), 1);
}

#[test]
fn builtin_registry() {
    let mut r = BuiltinRegistry::new();
    assert_eq!(
        r.names(),
        vec!["clock", "sysmon", "cava", "media", "battery", "volume", "launcher", "exec"]
            .into_iter()
            .map(String::from)
            .collect::<Vec<_>>()
    );
    assert_eq!(r.get("media"), Some(BuiltinKind::Media));
    assert_eq!(r.get("weather"), None);
    assert!(r.get_definition("x").is_none());
    r.register_definition(WidgetDefinition {
        name: "x".to_string(),
        description: String::new(),
        template: "<box/>".to_string(),
        vars: IndexMap::new(),
        default_style: String::new(),
    });
    assert_eq!(r.get_definition("x").unwrap().template, "<box/>");
    assert_eq!(BuiltinKind::Launcher.name(), "launcher");
}

#[test]
fn builtin_sources() {
    assert_eq!(builtin_source("clock::time"), BuiltinSource::ClockTime);
    assert_eq!(builtin_source("media::art_path"), BuiltinSource::MediaArtPath);
    assert_eq!(builtin_source("cava::bars"), BuiltinSource::CavaBars);
    assert_eq!(builtin_source("clock::week"), BuiltinSource::Unknown);
}

#[test]
fn var_def_defaults() {
    let d = VarDef::default();
    assert!(d.script.is_none() && d.builtin.is_none());
    assert_eq!(d.interval_ms, 0);
    assert_eq!(default_interval(), 1000);
}

#[test]
fn battery_logic() {
    assert_eq!(find_battery_path(true, true), Some(BAT_PATH));
    assert_eq!(find_battery_path(false, true), Some(BAT1_PATH));
    assert_eq!(find_battery_path(false, false), None);
    assert_eq!(read_battery(true, Some(" 57\n"), Some("Discharging\n")), (57, "Discharging".to_string()));
    assert_eq!(read_battery(true, Some("abc"), None), (100, "Unknown".to_string()));
    assert_eq!(read_battery(false, Some("12"), Some("Full")), (100, "Unknown".to_string()));
    assert_eq!(battery_icon(95, "Discharging"), "󰁹");
    assert_eq!(battery_icon(5, "Charging"), "⚡");
    assert_eq!(battery_icon(75, "Full"), "⚡");
    assert_eq!(battery_icon(55, "Discharging"), "󰁾");
    assert_eq!(battery_icon(25, "x"), "󰁼");
    assert_eq!(battery_icon(15, "x"), "󰁻");
    assert_eq!(battery_icon(5, "x"), "󰂎");
    assert_eq!(battery_icon(150, "x"), "󰂎");
    assert_eq!(alert_class(8, 20, 10), Some("critical"));
    assert_eq!(alert_class(15, 20, 10), Some("warning"));
    assert_eq!(alert_class(50, 20, 10), None);
    assert_eq!(percent_text(42), "42%");
    let o = BatteryOptions::from_context(&ctx(&[("show_bar", "false"), ("threshold_warning", "x"), ("update_interval", "5")]));
    assert!(!o.show_bar && o.show_status && o.show_icon);
    assert_eq!(o.warn_threshold, 20);
    assert_eq!(o.crit_threshold, 10);
    assert_eq!(o.update_secs, 5);
}

#[test]
fn exec_logic() {
    let o = ExecOptions::from_context(&ctx(&[("interval", "30"), ("align", "right"), ("on_click", "xdg-open x")]));
    assert_eq!(o.command, "echo 'set command var'");
    assert_eq!(o.interval_secs, 30);
    assert_eq!(o.format, "{output}");
    assert!(!o.markup);
    assert_eq!(o.align, TextAlign::Right);
    assert!(o.wants_clicks());
    assert_eq!(o.click_command(1), Some(&"xdg-open x".to_string()));
    assert_eq!(o.click_command(3), None);
    assert_eq!(render_output("🌤 {output} ({output})", Some("  sunny \n")), "🌤 sunny (sunny)");
    assert_eq!(render_output("{output}", None), "error");
}

#[test]
fn media_report() {
    let m = MediaState::from_report("Song\nArtist\nAlbum\nfile:///a.png\nPlaying\n61500000\n240000000\nspotify\ntrue\n");
    assert_eq!(m.title, "Song");
    assert_eq!(m.artist, "Artist");
    assert_eq!(m.status, PlaybackStatus::Playing);
    assert_eq!(m.position_secs, 61);
    assert_eq!(m.duration_secs, 240);
    assert_eq!(m.player_name, "spotify");
    assert!(m.shuffle);
    assert!(m.has_content());
    let m = MediaState::from_report("Only title\n");
    assert_eq!(m.status, PlaybackStatus::Stopped);
    assert_eq!(m.position_us, 0);
    assert!(!m.shuffle);
    assert!(!MediaState::empty().has_content());
}

#[test]
fn media_display() {
    assert_eq!(PlaybackStatus::from_str(" Paused "), PlaybackStatus::Paused);
    assert_eq!(PlaybackStatus::Paused.css_class(), "nova-media--paused");
    assert_eq!(PlaybackStatus::Playing.play_icon(), "media-playback-pause-symbolic");
    assert_eq!(PlaybackStatus::Stopped.play_icon(), "media-playback-start-symbolic");
    assert_eq!(format_duration(0), "0:00");
    assert_eq!(format_duration(65), "1:05");
    assert_eq!(format_duration(600), "10:00");
    assert_eq!(title_text(""), "Nothing Playing");
    assert_eq!(title_text("X"), "X");
    assert_eq!(player_display("spotify"), "Spotify");
    assert_eq!(player_display("ßa"), "SSa");
    assert_eq!(player_display(""), "");
    assert_eq!(media_command("media::shuffle"), Some(vec!["shuffle", "Toggle"]));
    assert_eq!(media_command("media::prev"), Some(vec!["previous"]));
    assert_eq!(media_command("media::stop"), None);
    let o = MediaOptions::from_context(&ctx(&[("show_album", "no"), ("show_time", "true"), ("art_size", "64")]));
    assert!(o.show_album && o.show_time && !o.show_shuffle && o.hide_stopped);
    assert_eq!(o.art_size, 64);
    assert_eq!(o.max_chars, 24);
    let d = MediaOptions::from_context(&ctx(&[]));
    assert!(d.show_time && d.show_art && !d.show_shuffle);
}

#[test]
fn media_art() {
    assert_eq!(simple_hash(""), 5381);
    assert_eq!(simple_hash("a"), 5381 * 33 + 97);
    assert!(matches!(art_source(""), ArtSource::Missing));
    assert!(matches!(art_source("file:///x/y.png"), ArtSource::File(p) if p == "/x/y.png"));
    match art_source("https://e.com/a.jpg") {
        ArtSource::Remote { url, cache } => {
            assert_eq!(url, "https://e.com/a.jpg");
            assert_eq!(cache, format!("/tmp/nova-art-{}.img", simple_hash("https://e.com/a.jpg")));
        }
        _ => panic!("expected a remote image"),
    }
    assert!(matches!(art_source("ftp://x"), ArtSource::Missing));
}

#[test]
fn cava_colors() {
    assert_eq!(parse_color("#89b4fa"), Some((0x89, 0xb4, 0xfa)));
    assert_eq!(parse_color("##FF0000"), Some((255, 0, 0)));
    assert_eq!(parse_color("+f+f+f"), Some((15, 15, 15)));
    assert_eq!(parse_color("#12345"), None);
    assert_eq!(parse_color("#12345g"), None);
    assert_eq!(parse_color("#éé12"), None);
    let o = CavaOptions::from_context(&ctx(&[("color", "#111111"), ("color_active", "#222222"), ("bar_count", "32")]));
    assert_eq!(o.color, "#222222");
    assert_eq!(o.bar_count, 32);
    assert_eq!(o.width, 280);
    assert_eq!(o.pipe, "/tmp/cava_input");
}

#[test]
fn cava_color_slices() {
    assert!(color_slices_fit("#89b4fa"));
    assert!(color_slices_fit("#éé12"));
    assert!(color_slices_fit("#é"));
    assert!(!color_slices_fit("#a€bc"));
    assert!(!color_slices_fit("€abc"));
}

#[test]
fn clock_logic() {
    let o = ClockOptions::from_context(&ctx(&[("date_format", "%d/%m")]));
    assert_eq!(o.time_format, "%H:%M:%S");
    assert_eq!(o.date_format, "%d/%m");
    assert_eq!(o.day_format, "%A");
    let t = clock_text(ClockField::Time, "%H:%M").unwrap();
    assert_eq!(t.len(), 5);
    assert_ne!(t, "%H:%M");
    assert_eq!(clock_text(ClockField::Day, "%Q"), None);
    assert_eq!(clock_text(ClockField::Time, "%#z"), None);
    assert_eq!(clock_text(ClockField::Date, "%Y").map(|t| t.len()), Some(4));
}

#[test]
fn volume_logic() {
    assert_eq!(volume_icon(true, 80), "audio-volume-muted");
    assert_eq!(volume_icon(false, 0), "audio-volume-muted");
    assert_eq!(volume_icon(false, 33), "audio-volume-low");
    assert_eq!(volume_icon(false, 34), "audio-volume-medium");
    assert_eq!(volume_icon(false, 67), "audio-volume-high");
    assert_eq!(wpctl_fields("Volume: 0.75 [MUTED]\n"), (Some("0.75".to_string()), true));
    assert_eq!(wpctl_fields("Volume: 0.40"), (Some("0.40".to_string()), false));
    assert_eq!(wpctl_fields(""), (None, false));
}

#[test]
fn strmap_basics() {
    let mut m: StrMap<u32> = StrMap::new();
    m.insert("a".to_string(), 1);
    m.insert("b".to_string(), 2);
    m.insert("a".to_string(), 3);
    assert_eq!(m.len(), 2);
    assert_eq!(m.get("a"), Some(&3));
    assert!(m.contains_key("b"));
    assert!(!m.contains_key("c"));
    assert_eq!(m.keys(), vec!["a".to_string(), "b".to_string()]);
}

#[test]
fn sysmon_settings_and_rates() {
    let o = SysmonOptions::from_context(&ctx(&[]));
    assert!(o.show_net);
    assert!(!o.show_swap);
    assert!(o.show_title);
    assert_eq!(o.title, "System");
    assert_eq!(o.cpu_label, "CPU");
    assert_eq!(o.swap_label, "SWP");
    assert_eq!(o.net_rx_label, "NET↓");
    assert_eq!(o.net_tx_label, "NET↑");
    assert_eq!(o.update_secs, 2);
    let o = SysmonOptions::from_context(&ctx(&[("show_swap", "true"), ("show_net", "nope"), ("title", "Box"), ("update_interval", "5")]));
    assert!(o.show_swap);
    assert!(o.show_net);
    assert_eq!(o.title, "Box");
    assert_eq!(o.update_secs, 5);
    assert_eq!(rate_per_sec(4096, 2), 2048);
    assert_eq!(rate_per_sec(7, 0), 7);
}

#[test]
fn volume_settings_and_glyphs() {
    let o = VolumeOptions::from_context(&ctx(&[]));
    assert!(o.show_icon && o.show_label && o.show_slider);
    assert!(!o.text_icon);
    assert_eq!(o.mute_icon, "\u{f075f}");
    assert_eq!(o.update_ms, 1000);
    let o = VolumeOptions::from_context(&ctx(&[("text_icon", "true"), ("mute_icon", "M"), ("update_interval", "250"), ("show_label", "false")]));
    assert!(o.text_icon);
    assert!(!o.show_label);
    assert_eq!(o.update_ms, 250);
    assert_eq!(volume_glyph(true, 80, &o.mute_icon), "M");
    assert_eq!(volume_glyph(false, 0, "M"), "M");
    assert_eq!(volume_glyph(false, 33, "M"), "\u{f057f}");
    assert_eq!(volume_glyph(false, 50, "M"), "\u{f0580}");
    assert_eq!(volume_glyph(false, 90, "M"), "\u{f057e}");
}

#[test]
fn cava_style_settings() {
    let o = CavaOptions::from_context(&ctx(&[]));
    assert_eq!(o.gradient_end, None);
    assert!(!o.mirror);
    assert!(!o.rounded);
    let o = CavaOptions::from_context(&ctx(&[("gradient_end", "#000000"), ("mirror", "true"), ("bar_style", "rounded")]));
    assert_eq!(o.gradient_end, Some("#000000".to_string()));
    assert!(o.mirror);
    assert!(o.rounded);
    assert_eq!(mirror_bars(&vec![1, 2, 3]), vec![3, 2, 1, 1, 2, 3]);
    assert_eq!(mirror_bars(&vec![]), Vec::<u8>::new());
}

#[test]
fn clock_day_line_hides_when_empty() {
    assert!(ClockOptions::from_context(&ctx(&[])).shows_day());
    assert!(!ClockOptions::from_context(&ctx(&[("day_format", "")])).shows_day());
}

#[test]
fn amixer_report_readings() {
    let out = "Simple mixer control 'Master',0\n  Limits: Playback 0 - 65536\n  Front Left: Playback 42000 [64%] [on]\n  Front Right: Playback 0 [0%] [off]\n  Mono: 5% [x]\n";
    assert_eq!(
        amixer_fields(out),
        vec![("64".to_string(), false), ("0".to_string(), true)]
    );
    assert_eq!(amixer_fields("no percent here\n"), vec![]);
    assert!(is_mute_toggle("volume::mute_toggle"));
    assert!(!is_mute_toggle("volume::set"));
}

#[test]
fn clock_formats_a_reading() {
    let f = "%Y-%m-%d %H:%M:%S";
    assert_eq!(format_reading(f, 0, 0, 0), Some("1970-01-01 00:00:00".to_string()));
    assert_eq!(format_reading(f, 0, 0, 3600), Some("1970-01-01 01:00:00".to_string()));
    assert_eq!(format_reading(f, 1_700_000_000, 0, -18000), Some("2023-11-14 17:13:20".to_string()));
    assert_eq!(format_reading("%A", 86_400 * 3, 0, 0), Some("Sunday".to_string()));
    assert_eq!(format_reading(f, u64::MAX, 0, 0), None);
    assert_eq!(format_reading("%#z", 0, 0, 0), None);
    assert_eq!(format_reading(f, 0, 0, 86_400), None);
}
