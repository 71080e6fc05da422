use shion_watcher::shared::Program;
use shion_watcher::windows::{
    audio_event, description_lookup, file_description_block, focus_event, get_display_name,
    get_foreground_processes, get_program_list, get_program_path, get_window_title,
    is_main_window, program_name, program_path, watch_audio, App, AudioSessionEvent,
    DisplayNameError, ProbeError, ProgramFile, Pump, SessionState, Watcher, WindowInfo,
};

fn utf16(text: &str) -> Vec<u16> {
    text.encode_utf16().collect()
}

fn file(path: Option<&str>, name: Option<&str>, icon: Option<Vec<u8>>) -> ProgramFile {
    ProgramFile {
        path: path.map(|p| p.to_string()),
        display_name: name.map(|n| n.to_string()),
        icon,
    }
}

fn listed(programs: &[Program]) -> Vec<(String, String, Vec<u8>)> {
    programs.iter().map(|p| (p.path.clone(), p.name.clone(), p.icon.clone())).collect()
}

fn window(owner: isize, visible: bool, title: &str, pid: u32) -> WindowInfo {
    WindowInfo { owner, visible, title: title.to_string(), pid }
}

#[test]
fn windows_test_get_program_list() {
    let list = get_program_list(vec![file(
        Some("C:\\Program Files\\Code\\Code.exe"),
        Some("Visual Studio Code"),
        Some(vec![137, 80, 78, 71]),
    )]);
    println!("{:?}", list);
    assert_eq!(
        listed(&list),
        vec![(
            "C:\\Program Files\\Code\\Code.exe".to_string(),
            "Visual Studio Code".to_string(),
            vec![137, 80, 78, 71]
        )]
    );
}

#[test]
fn windows_test_app() {
    if let Err(err) = App::start(0) {
        println!("watcher error: {}", err.message());
        assert_eq!(err, ProbeError::HookRegistration);
        assert_eq!(err.message(), "watcher SetWinEventHook error");
    } else {
        panic!("a null hook must fail the probe");
    }
}

#[test]
fn mod_test_get_program_list() {
    let list = get_program_list(vec![
        file(Some("C:/a/one.exe"), Some(""), None),
        file(None, Some("Ghost"), Some(vec![1])),
        file(Some("C:/b/two.tar.exe"), None, Some(vec![2, 3])),
        file(Some("C:/c/three.exe"), Some("Three"), Some(vec![])),
    ]);
    println!("{:#?}", list);
    assert_eq!(
        listed(&list),
        vec![
            ("C:/a/one.exe".to_string(), "one".to_string(), vec![]),
            ("C:/b/two.tar.exe".to_string(), "two.tar".to_string(), vec![2, 3]),
            ("C:/c/three.exe".to_string(), "Three".to_string(), vec![]),
        ]
    );
}

#[test]
fn mod_test_app() {
    match App::start(0x5151) {
        Err(err) => println!("watcher error: {}", err.message()),
        Ok(app) => {
            assert_eq!(app.hook(), 0x5151);
            assert_eq!(app.eventloop(1, 0), Pump::Dispatch);
            assert_eq!(app.eventloop(0, 0), Pump::Quit);
        }
    }
}

#[test]
fn test_get_foreground_processes() {
    let list = get_foreground_processes(&vec![
        window(10, true, "Editor", 400),
        window(0, true, "No owner", 401),
        window(11, false, "Hidden", 402),
        window(12, true, "", 403),
        window(13, true, "Editor, second window", 400),
        window(14, true, "Browser", 120),
    ]);
    println!("{:?}", list);
    assert_eq!(list, vec![400, 120]);
}

#[test]
fn program_list_of_nothing_is_empty() {
    assert!(get_program_list(Vec::new()).is_empty());
    assert!(get_foreground_processes(&Vec::new()).is_empty());
}

#[test]
fn hook_is_refused_exactly_when_the_handle_is_null() {
    assert_eq!(Watcher::init(0).unwrap_err(), ProbeError::HookRegistration);
    assert_eq!(Watcher::init(1).unwrap().handle(), 1);
    assert_eq!(Watcher::init(-1).unwrap().handle(), -1);
    assert!(App::start(isize::MAX).is_ok());
}

#[test]
fn message_loop_decides_on_each_answer() {
    let app = App::start(7).unwrap();
    assert_eq!(app.eventloop(-1, 5), Pump::Fail(ProbeError::MessageLoop { code: 5 }));
    assert_eq!(app.eventloop(-1, 0), Pump::Retry);
    assert_eq!(app.eventloop(0, 0), Pump::Quit);
    assert_eq!(app.eventloop(0, 1400), Pump::Quit);
    assert_eq!(app.eventloop(1, 0), Pump::Dispatch);
    assert_eq!(app.eventloop(-2, 9), Pump::Dispatch);
    assert_eq!(app.eventloop(i32::MAX, 0), Pump::Dispatch);
    assert_eq!(ProbeError::MessageLoop { code: 5 }.message(), "watcher message loop error");
}

#[test]
fn null_handle_is_no_main_window() {
    assert!(!is_main_window(0));
    assert!(is_main_window(1));
    assert!(is_main_window(-1));
}

#[test]
fn focus_change_of_a_known_window_is_a_focus_activation() {
    let event = focus_event(0, Some("C:\\app.exe".to_string())).unwrap();
    assert_eq!(event.path, "C:\\app.exe");
    assert!(!event.is_audio);
    assert!(event.active);
    assert!(focus_event(0, None).is_none());
    assert!(focus_event(-4, Some("C:\\app.exe".to_string())).is_none());
    assert!(focus_event(2, None).is_none());
}

#[test]
fn audio_state_change_is_an_audio_event() {
    let started =
        audio_event(AudioSessionEvent::StateChange(SessionState::Active), "a".to_string()).unwrap();
    assert_eq!((started.path.as_str(), started.is_audio, started.active), ("a", true, true));
    let stopped =
        audio_event(AudioSessionEvent::StateChange(SessionState::Inactive), "a".to_string())
            .unwrap();
    assert_eq!((stopped.is_audio, stopped.active), (true, false));
    let expired =
        audio_event(AudioSessionEvent::StateChange(SessionState::Expired), "a".to_string())
            .unwrap();
    assert_eq!((expired.is_audio, expired.active), (true, false));
    assert!(audio_event(AudioSessionEvent::Other, "a".to_string()).is_none());
}

#[test]
fn audio_snapshot_goes_to_a_started_engine_only() {
    let paths = vec!["a".to_string(), "b".to_string()];
    assert!(watch_audio(false, &paths).is_empty());
    let reports = watch_audio(true, &paths);
    assert_eq!(reports.len(), 2);
    assert_eq!((reports[0].path.as_str(), reports[0].is_audio, reports[0].active), ("a", true, true));
    assert_eq!((reports[1].path.as_str(), reports[1].is_audio, reports[1].active), ("b", true, true));
    assert!(watch_audio(true, &Vec::new()).is_empty());
}

#[test]
fn window_title_is_decoded_from_the_units_written() {
    let mut buffer = utf16("Inbox");
    buffer.resize(512, 0);
    assert_eq!(get_window_title(&buffer, 5), "Inbox");
    assert_eq!(get_window_title(&buffer, 2), "In");
    assert_eq!(get_window_title(&buffer, 0), "");
    assert_eq!(get_window_title(&utf16("Hi"), 40), "Hi");
    // An unpaired surrogate becomes the replacement character.
    assert_eq!(get_window_title(&vec![0x0041, 0xD800, 0x0042], 3), "A\u{FFFD}B");
}

#[test]
fn program_path_is_known_only_on_a_good_answer() {
    let mut buffer = utf16("C:\\x.exe");
    buffer.resize(260, 0);
    assert_eq!(get_program_path(true, &buffer, 8), Some("C:\\x.exe".to_string()));
    assert_eq!(get_program_path(false, &buffer, 8), None);
    assert_eq!(get_program_path(true, &buffer, 0), None);
    assert_eq!(get_program_path(true, &Vec::new(), 8), None);
    assert_eq!(program_path(String::new()), None);
    assert_eq!(program_path("p".to_string()), Some("p".to_string()));
}

#[test]
fn description_block_names_language_and_code_page_in_hex() {
    assert_eq!(
        file_description_block(0x0409, 0x04b0),
        "\\StringFileInfo\\040904b0\\FileDescription\0"
    );
    assert_eq!(
        file_description_block(0, 0xffff),
        "\\StringFileInfo\\0000ffff\\FileDescription\0"
    );
    assert_eq!(
        file_description_block(0xABCD, 0x1e2f),
        "\\StringFileInfo\\abcd1e2f\\FileDescription\0"
    );
}

#[test]
fn display_name_leaves_the_terminating_null_out() {
    let mut buffer = utf16("Notepad");
    buffer.push(0);
    assert_eq!(get_display_name(1832, true, 4, &buffer, 8), Ok("Notepad".to_string()));
    assert_eq!(get_display_name(1832, true, 4, &buffer, 1), Ok(String::new()));
}

#[test]
fn display_name_fails_on_each_missing_answer() {
    let mut buffer = utf16("Notepad");
    buffer.push(0);
    assert_eq!(get_display_name(0, true, 4, &buffer, 8), Err(DisplayNameError::NoVersionInfo));
    assert_eq!(get_display_name(1832, false, 4, &buffer, 8), Err(DisplayNameError::ReadFailed));
    assert_eq!(get_display_name(1832, true, 0, &buffer, 8), Err(DisplayNameError::NoTranslation));
    assert_eq!(get_display_name(1832, true, 4, &buffer, 0), Err(DisplayNameError::NoDescription));
    // The first obstacle in the order of the lookup is the one reported.
    assert_eq!(get_display_name(0, false, 0, &buffer, 0), Err(DisplayNameError::NoVersionInfo));
    assert_eq!(get_display_name(8, false, 0, &buffer, 0), Err(DisplayNameError::ReadFailed));
    assert_eq!(get_display_name(8, true, 0, &buffer, 0), Err(DisplayNameError::NoTranslation));
}

#[test]
fn description_lookup_goes_on_only_without_an_obstacle() {
    assert_eq!(description_lookup(1832, true, 4), Ok(()));
    assert_eq!(description_lookup(1, true, 1), Ok(()));
    assert_eq!(description_lookup(0, true, 4), Err(DisplayNameError::NoVersionInfo));
    assert_eq!(description_lookup(1832, false, 4), Err(DisplayNameError::ReadFailed));
    assert_eq!(description_lookup(1832, true, 0), Err(DisplayNameError::NoTranslation));
}

#[test]
fn display_name_errors_in_words() {
    assert_eq!(DisplayNameError::NoVersionInfo.message(), "no version info");
    assert_eq!(DisplayNameError::ReadFailed.message(), "version info not readable");
    assert_eq!(DisplayNameError::NoTranslation.message(), "no translation info");
    assert_eq!(DisplayNameError::NoDescription.message(), "no file description");
}

#[test]
fn program_name_prefers_description_then_stem_then_path() {
    let path = "C:/x/app.exe".to_string();
    let name = |display: Option<&str>, stem: Option<&str>| {
        program_name(display.map(|d| d.to_string()), stem.map(|s| s.to_string()), &path)
    };
    assert_eq!(name(Some("App"), Some("app")), "App");
    assert_eq!(name(Some(""), Some("app")), "app");
    assert_eq!(name(None, Some("app")), "app");
    assert_eq!(name(None, None), "C:/x/app.exe");
    assert_eq!(name(Some(""), None), "C:/x/app.exe");
    assert_eq!(name(Some("App"), None), "App");
}

#[test]
fn listing_falls_back_to_the_stem_of_the_path() {
    let list = get_program_list(vec![
        file(Some("/opt/tools/editor.bin"), None, None),
        file(Some("plain"), Some(""), None),
        file(Some("/"), None, None),
    ]);
    assert_eq!(
        listed(&list),
        vec![
            ("/opt/tools/editor.bin".to_string(), "editor".to_string(), vec![]),
            ("plain".to_string(), "plain".to_string(), vec![]),
            ("/".to_string(), "/".to_string(), vec![]),
        ]
    );
}
