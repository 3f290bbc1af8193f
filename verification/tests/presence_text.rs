use discordloops::config::{get_appdata_folder, plan_setup, Config, LogTarget};
use discordloops::proj_info::{
    count_plugin, get_info, get_plugins, get_project, project_of_title, ChildWindow, FlWindow,
};
use discordloops::text::{
    chars_of, concat_str, encode_utf16, has_prefix, replace, string_from_chars, usize_to_string,
};
use discordloops::tray::{
    classify_message, menu_choice, tip_buffer, MenuAction, WindowAction, TIP_LEN, WM_CREATE,
    WM_DESTROY, WM_PAINT, WM_RBUTTONDOWN, WM_TRAYMESSAGE,
};

fn window(class_name: &str, title: &str) -> ChildWindow {
    ChildWindow { class_name: class_name.to_string(), title: title.to_string() }
}

fn fl(title: &str, children: Vec<ChildWindow>) -> Option<FlWindow> {
    Some(FlWindow { title: title.to_string(), children })
}

#[test]
fn replace_matches_std_on_samples() {
    let cases = [
        ("working on %%", "%%", "beat"),
        ("%%%", "%%", "x"),
        ("%x %y open", "%x", "12"),
        ("no placeholder", "%%", "x"),
        ("", "%%", "x"),
        ("abc", "", "-"),
        ("", "", "-"),
        ("aaaa", "aa", "b"),
        ("é%%é", "%%", "ü"),
        ("%%", "%%", ""),
    ];
    for (s, pat, to) in cases {
        assert_eq!(replace(s, pat, to), s.replace(pat, to), "{s:?} {pat:?} {to:?}");
    }
}

#[test]
fn replace_keeps_text_without_pattern() {
    assert_eq!(replace("just a project", "%%", "anything"), "just a project");
}

#[test]
fn replace_by_itself_keeps_text() {
    assert_eq!(replace("a %% b %%% c", "%%", "%%"), "a %% b %%% c");
}

#[test]
fn usize_to_string_matches_std() {
    for n in (0..=1000usize).chain([9999, 10000, 65535, 4294967295, usize::MAX]) {
        assert_eq!(usize_to_string(n), n.to_string());
    }
}

#[test]
fn encode_utf16_matches_std() {
    for s in ["", "DiscordLoops", "é", "黑风雷", "👨‍👩‍👧", "a\u{10FFFF}b"] {
        let expected: Vec<u16> = s.encode_utf16().collect();
        assert_eq!(encode_utf16(s), expected);
    }
}

#[test]
fn prefix_and_concat() {
    assert!(has_prefix("OTT 1", "OTT"));
    assert!(!has_prefix("ott 1", "OTT"));
    assert!(has_prefix("anything", ""));
    assert!(!has_prefix("OT", "OTT"));
    assert_eq!(concat_str("C:\\Users", "\\x"), "C:\\Users\\x");
    assert_eq!(string_from_chars(&chars_of("ünï")), "ünï");
}

#[test]
fn default_config_values() {
    let c = Config::default();
    assert_eq!(c.project_format, "working on %%");
    assert_eq!(c.plugin_format, "%x %y open");
    assert_eq!(c.plugin, "OTT");
    assert_eq!(c.update_rate, 10);
    assert_eq!(c.app_id, 1168141266517766175);
}

#[test]
fn project_name_drops_window_suffix() {
    assert_eq!(project_of_title("my beat - FL Studio 2024"), "my beat");
    assert_eq!(project_of_title("short"), "");
    assert_eq!(project_of_title("FL Studio 2024..."), "");
    assert_eq!(project_of_title("naïve - FL Studio 2024"), "naïve");
}

#[test]
fn project_name_never_splits_a_character() {
    // 21 bytes: the cut at byte 4 falls inside 'é', so it moves back to byte 3
    assert_eq!(project_of_title("cafés - FL Studio 21"), "caf");
    let w = fl("cafés - FL Studio 21", vec![]);
    assert_eq!(get_project(&w, "%%".to_string()), "caf");
    assert_eq!(project_of_title("黑风雷 - FL Studio 2024"), "黑风雷");
}

#[test]
fn plugin_count_goes_past_255() {
    let children = (0..256).map(|_| window("TPluginForm", "OTT")).collect();
    let w = fl("x - FL Studio 2024", children);
    assert_eq!(count_plugin(&w, "%x".to_string(), "OTT".to_string()), "256");
}

#[test]
fn project_line() {
    let w = fl("my beat - FL Studio 2024", vec![]);
    assert_eq!(get_project(&w, "working on %%".to_string()), "working on my beat");
    assert_eq!(get_project(&w, "%% / %%".to_string()), "my beat / my beat");
    assert_eq!(get_project(&None, "working on %%".to_string()), "nothing here...");
}

#[test]
fn plugin_windows_selected_by_class() {
    let children = vec![
        window("TPluginForm", "OTT (Master)"),
        window("TButton", "OTT"),
        window("TPluginForm", "Fruity Limiter"),
        window("TPluginForm", "OTT #2"),
    ];
    assert_eq!(get_plugins(&children), vec![0, 2, 3]);
}

#[test]
fn plugin_line_counts_matching_titles() {
    let w = fl(
        "x - FL Studio 2024",
        vec![
            window("TPluginForm", "OTT (Master)"),
            window("TButton", "OTT"),
            window("TPluginForm", "ott lower"),
            window("TPluginForm", "OTT #2"),
        ],
    );
    assert_eq!(count_plugin(&w, "%x %y open".to_string(), "OTT".to_string()), "2 OTT open");
    assert_eq!(count_plugin(&w, "%y: %x".to_string(), "Fruity".to_string()), "Fruity: 0");
    assert_eq!(count_plugin(&w, "%x".to_string(), "".to_string()), "3");
    assert_eq!(
        count_plugin(&None, "%x %y open".to_string(), "OTT".to_string()),
        "not using otts right now"
    );
}

#[test]
fn plugin_line_substitutes_count_before_name() {
    let w = fl("x", vec![window("TPluginForm", "%x tool")]);
    assert_eq!(count_plugin(&w, "%y=%x".to_string(), "%x".to_string()), "%x=1");
}

#[test]
fn info_with_default_config() {
    let c = Config::default();
    let w = fl(
        "song - FL Studio 2024",
        vec![window("TPluginForm", "OTT"), window("TPluginForm", "OTT")],
    );
    let info = get_info(&w, &c);
    assert_eq!(info.project, "working on song");
    assert_eq!(info.plugins, "2 OTT open");
    let none = get_info(&None, &c);
    assert_eq!(none.project, "nothing here...");
    assert_eq!(none.plugins, "not using otts right now");
}

#[test]
fn appdata_folder_path() {
    assert_eq!(
        get_appdata_folder("C:\\Users\\me\\AppData\\Roaming"),
        "C:\\Users\\me\\AppData\\Roaming\\discordloops"
    );
}

#[test]
fn setup_prefers_local_config() {
    let plan = plan_setup("C:\\A", true, true);
    assert_eq!(plan.config_file, ".\\config.json");
    assert!(!plan.create_defaults);
    assert!(matches!(plan.log, LogTarget::SingleFile(ref f) if f == ".\\logs.txt"));
}

#[test]
fn setup_creates_appdata_folder() {
    let plan = plan_setup("C:\\A", false, false);
    assert!(plan.create_defaults);
    assert_eq!(plan.app_folder, "C:\\A\\discordloops");
    assert_eq!(plan.log_folder, "C:\\A\\discordloops\\logs");
    assert_eq!(plan.config_file, "C:\\A\\discordloops\\config.json");
    assert!(matches!(plan.log, LogTarget::DailyFiles(ref d) if d == "C:\\A\\discordloops\\logs"));
}

#[test]
fn setup_uses_existing_appdata_folder() {
    let plan = plan_setup("C:\\A", true, false);
    assert!(!plan.create_defaults);
    assert_eq!(plan.config_file, "C:\\A\\discordloops\\config.json");
    assert!(matches!(plan.log, LogTarget::DailyFiles(_)));
}

#[test]
fn window_messages() {
    assert!(matches!(classify_message(WM_CREATE, 0), WindowAction::Created));
    assert!(matches!(classify_message(WM_PAINT, 0), WindowAction::Paint));
    assert!(matches!(classify_message(WM_DESTROY, 0), WindowAction::Destroy));
    assert!(matches!(
        classify_message(WM_TRAYMESSAGE, WM_RBUTTONDOWN as isize),
        WindowAction::ShowTrayMenu
    ));
    assert!(matches!(
        classify_message(WM_TRAYMESSAGE, 0x0205),
        WindowAction::UnhandledTray(0x0205)
    ));
    assert!(matches!(classify_message(0x0010, 7), WindowAction::Default(0x0010)));
}

#[test]
fn tray_menu_choice() {
    assert!(matches!(menu_choice(1), MenuAction::Exit));
    assert!(matches!(menu_choice(0), MenuAction::Nothing));
    assert!(matches!(menu_choice(2), MenuAction::Nothing));
}

#[test]
fn tooltip_buffer() {
    let tip = tip_buffer("DiscordLoops");
    assert_eq!(tip.len(), TIP_LEN);
    let expected: Vec<u16> = "DiscordLoops".encode_utf16().collect();
    assert_eq!(&tip[..12], &expected[..]);
    assert!(tip[12..].iter().all(|&u| u == 0));
    let long = "x".repeat(200);
    let tip = tip_buffer(&long);
    assert_eq!(tip.len(), TIP_LEN);
    assert!(tip.iter().all(|&u| u == 'x' as u16));
}

#[test]
fn one_more_matching_window_raises_count() {
    let plugin_line = |ws: &[(&str, &str)]| {
        let children = ws.iter().map(|(c, t)| window(c, t)).collect();
        count_plugin(&fl("x", children), "%x".to_string(), "OTT".to_string())
    };
    let base = [("TPluginForm", "OTT"), ("TButton", "OTT")];
    let more = [("TPluginForm", "OTT"), ("TButton", "OTT"), ("TPluginForm", "OTT (2)")];
    let other = [("TPluginForm", "OTT"), ("TButton", "OTT"), ("TPluginForm", "OTT (2)"), ("TEdit", "OTT")];
    assert_eq!(plugin_line(&base), "1");
    assert_eq!(plugin_line(&more), "2");
    assert_eq!(plugin_line(&other), "2");
}

#[test]
fn ascii_title_loses_last_17_characters() {
    let title = "a".repeat(30);
    assert_eq!(project_of_title(&title), "a".repeat(13));
    assert_eq!(project_of_title(&"b".repeat(17)), "");
}
