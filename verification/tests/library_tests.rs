use capsule_core::config::{Config, CustomModuleInfo, ModuleSlot, PromptSide};
use capsule_core::style::Style;
use capsule_core::directory::RenderContext;
use capsule_core::modules::{
    format_clock, format_duration, ClockTime, CmdDurationModule, StatusModule, TimeModule,
};
use capsule_core::prompt::{compose_prompt, run_fast_modules, FastOutputs, SlowOutput};
use capsule_core::render::display_width;
use capsule_core::shell::zsh_single_quote;

fn ctx(exit: i32, duration_ms: Option<u64>) -> RenderContext {
    RenderContext {
        cwd: "/".to_owned(),
        home_dir: "/Users/testuser".to_owned(),
        last_exit_code: exit,
        duration_ms,
        keymap: "main".to_owned(),
        cols: 80,
    }
}

#[test]
fn quote_plain_value() {
    assert_eq!(zsh_single_quote("/usr/local/bin/capsule"), "'/usr/local/bin/capsule'");
}

#[test]
fn quote_value_with_single_quote() {
    assert_eq!(zsh_single_quote("it's"), "'it'\\''s'");
}

#[test]
fn quote_empty_value() {
    assert_eq!(zsh_single_quote(""), "''");
}

#[test]
fn clock_formats() {
    let t = ClockTime { hour: 9, minute: 5, second: 7 };
    assert_eq!(format_clock(t, true), "09:05:07");
    assert_eq!(format_clock(t, false), "09:05");
    assert_eq!(TimeModule::with_show_seconds(true).render(ClockTime { hour: 14, minute: 30, second: 45 }).map(|o| o.content), Some("14:30:45".to_owned()));
}

#[test]
fn duration_formats() {
    assert_eq!(format_duration(450), "450ms");
    assert_eq!(format_duration(3000), "3s");
    assert_eq!(format_duration(125_000), "2m5s");
    assert_eq!(format_duration(3_607_000), "1h0m7s");
}

#[test]
fn duration_threshold() {
    let module = CmdDurationModule::with_threshold(2000);
    assert_eq!(module.render(&ctx(0, Some(1999))), None);
    assert_eq!(module.render(&ctx(0, None)), None);
    assert_eq!(module.render(&ctx(0, Some(2000))).map(|o| o.content), Some("2s".to_owned()));
}

#[test]
fn status_shows_nonzero_exit() {
    assert_eq!(StatusModule::new().render(&ctx(0, None)), None);
    assert_eq!(StatusModule::new().render(&ctx(127, None)).map(|o| o.content), Some("127".to_owned()));
    assert_eq!(StatusModule::new().render(&ctx(-2, None)).map(|o| o.content), Some("-2".to_owned()));
}

#[test]
fn fast_modules_follow_configuration() {
    let mut config = Config::default();
    let now = ClockTime { hour: 14, minute: 30, second: 45 };
    let fast = run_fast_modules(&ctx(1, Some(3000)), &config, false, vec![], now);
    assert_eq!(fast.time.as_deref(), Some("14:30:45"));
    assert_eq!(fast.directory.as_deref(), Some("/"));
    assert_eq!(fast.cmd_duration.as_deref(), Some("3s"));
    assert_eq!(fast.status.as_deref(), Some("1"));
    assert_eq!(fast.character.as_deref(), Some("\u{276f}"));
    assert_eq!(fast.last_exit_code, 1);

    config.time.disabled = true;
    config.directory.disabled = true;
    config.cmd_duration.disabled = true;
    config.character.disabled = true;
    let fast = run_fast_modules(&ctx(0, Some(3000)), &config, true, vec![], now);
    assert_eq!(fast.time, None);
    assert_eq!(fast.directory, None);
    assert_eq!(fast.cmd_duration, None);
    assert_eq!(fast.status, None);
    assert_eq!(fast.character, None);
    assert!(fast.read_only);
}

fn fast_with(directory: &str) -> FastOutputs {
    FastOutputs {
        directory: Some(directory.to_owned()),
        cmd_duration: None,
        time: None,
        status: None,
        character: Some(">".to_owned()),
        last_exit_code: 0,
        read_only: false,
        custom_modules: vec![],
    }
}

#[test]
fn two_line_lines_are_cut_to_width() {
    let fast = fast_with("/a/very/long/directory/name/that/does/not/fit");
    let lines = compose_prompt(&fast, None, 10, &Config::default());
    assert!(display_width(&lines.left1) <= 10, "{}", lines.left1);
    assert!(lines.left1.ends_with("\x1b[0m"));
    assert_eq!(lines.right1, "");
}

#[test]
fn zero_columns_give_empty_lines() {
    let fast = fast_with("/tmp");
    let lines = compose_prompt(&fast, None, 0, &Config::default());
    assert_eq!(display_width(&lines.left1), 0);
    assert_eq!(display_width(&lines.left2), 0);
}

#[test]
fn empty_slow_output_changes_nothing_in_fish_layout() {
    let mut config = Config::default();
    config.layout = capsule_core::config::PromptLayout::Fish;
    let fast = fast_with("/tmp");
    let slow = SlowOutput { git: None, custom_modules: vec![] };
    assert_eq!(compose_prompt(&fast, Some(&slow), 80, &config), compose_prompt(&fast, None, 80, &config));
}

#[test]
fn exact_two_line_rendering() {
    let fast = fast_with("/tmp");
    let lines = compose_prompt(&fast, None, 80, &Config::default());
    assert_eq!(lines.left1, "\x1b[1;36m/tmp\x1b[0m");
    assert_eq!(lines.left2, "\x1b[32m>\x1b[0m");
    assert_eq!(
        lines.char_meta,
        "viins\x1e\x1b[32m>\x1b[0m\x1fvicmd\x1e\x1b[32m\u{276e}\x1b[0m"
    );
}

#[test]
fn git_indicator_is_styled_apart() {
    let fast = fast_with("/tmp");
    let slow = SlowOutput { git: Some("main [!+]".to_owned()), custom_modules: vec![] };
    let lines = compose_prompt(&fast, Some(&slow), 80, &Config::default());
    assert_eq!(
        lines.left1,
        "\x1b[1;36m/tmp\x1b[0m on \x1b[1;35m\u{f418}\x1b[0m \x1b[1;35mmain\x1b[0m \x1b[1;31m[!+]\x1b[0m"
    );
}

#[test]
fn display_width_skips_escape_sequences() {
    assert_eq!(display_width("\x1b[1;31mabc\x1b[0m"), 3);
    assert_eq!(display_width("\x1b[12"), 4);
    assert_eq!(display_width(""), 0);
}

#[test]
fn two_line_layout_order() {
    let fast = FastOutputs {
        directory: Some("/tmp".to_owned()),
        cmd_duration: Some("3s".to_owned()),
        time: Some("14:30:45".to_owned()),
        status: None,
        character: Some(">".to_owned()),
        last_exit_code: 0,
        read_only: false,
        custom_modules: vec![],
    };
    let slow = SlowOutput {
        git: Some("main".to_owned()),
        custom_modules: vec![CustomModuleInfo {
            name: "rust".to_owned(),
            value: "v1.82.0".to_owned(),
            icon: None,
            style: Style::new(),
            connector: Some("via".to_owned()),
            slot: ModuleSlot::Line1,
        }],
    };
    let lines = compose_prompt(&fast, Some(&slow), 200, &Config::default());
    let dir = lines.left1.find("/tmp").unwrap();
    let on = lines.left1.find(" on ").unwrap();
    let via = lines.left1.find("via v1.82.0").unwrap();
    let took = lines.left1.find("took").unwrap();
    assert!(dir < on && on < via && via < took, "{}", lines.left1);
    let at = lines.left2.find("at ").unwrap();
    let time = lines.left2.find("14:30:45").unwrap();
    let ch = lines.left2.find('>').unwrap();
    assert!(at < time && time < ch, "{}", lines.left2);
}

#[test]
fn right2_prompt_is_recorded_in_meta() {
    let mut config = Config::default();
    config.time.slot = ModuleSlot::Line2;
    config.time.side = PromptSide::Right;
    config.time.connector = String::new();
    let mut fast = fast_with("/tmp");
    fast.time = Some("14:30".to_owned());
    let lines = compose_prompt(&fast, None, 80, &config);
    assert_eq!(lines.right2, "\x1b[33m14:30\x1b[0m");
    assert!(lines.char_meta.starts_with("right2\x1e\x1b[33m14:30\x1b[0m\x1fviins\x1e"));
}

#[test]
fn right1_prompt_is_dropped_when_it_does_not_fit() {
    let mut config = Config::default();
    config.time.slot = ModuleSlot::Line1;
    config.time.side = PromptSide::Right;
    config.time.connector = String::new();
    let mut fast = fast_with("/tmp/abcdef");
    fast.time = Some("14:30".to_owned());
    let lines = compose_prompt(&fast, None, 12, &config);
    assert!(!lines.left1.contains("14:30"), "{}", lines.left1);
    assert!(display_width(&lines.left1) <= 11);
}
