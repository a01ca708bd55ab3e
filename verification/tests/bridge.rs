use multibg_sway::bytes::{bytes_equal, copy_range, find_byte, starts_with};
use multibg_sway::compositors::hyprland::{
    current_state, HyprlandConnectionTask, HyprlandError, Monitor, Step,
};
use multibg_sway::compositors::niri::{
    decimal_text, find_workspace, has_workspace, workspace_label, Event, NiriConnectionTask,
    NiriError,
};
use multibg_sway::compositors::{
    niri, request_visible_workspace, sway, Compositor, Environment, WorkspaceVisible,
};

fn environment() -> Environment {
    Environment {
        xdg_session_desktop: None,
        xdg_current_desktop: None,
        swaysock: false,
        niri_socket: false,
        hyprland_instance_signature: false,
    }
}

fn pair(event: &WorkspaceVisible) -> (&str, &str) {
    (event.output.as_str(), event.workspace_name.as_str())
}

#[test]
fn session_desktop_comes_first() {
    let mut env = environment();
    assert_eq!(Compositor::from_env(&env), None);
    env.hyprland_instance_signature = true;
    assert_eq!(Compositor::from_env(&env), Some(Compositor::Hyprland));
    env.niri_socket = true;
    assert_eq!(Compositor::from_env(&env), Some(Compositor::Niri));
    env.swaysock = true;
    assert_eq!(Compositor::from_env(&env), Some(Compositor::Sway));
    env.xdg_current_desktop = Some(b"niri".to_vec());
    assert_eq!(Compositor::from_env(&env), Some(Compositor::Niri));
    env.xdg_session_desktop = Some(b"Hyprland".to_vec());
    assert_eq!(Compositor::from_env(&env), Some(Compositor::Hyprland));
    env.xdg_session_desktop = Some(b"gnome".to_vec());
    assert_eq!(Compositor::from_env(&env), Some(Compositor::Niri));
    env.xdg_current_desktop = Some(b"KDE".to_vec());
    assert_eq!(Compositor::from_env(&env), Some(Compositor::Sway));
}

#[test]
fn desktop_names_are_read_by_their_start() {
    let hint = |name: &[u8]| Compositor::from_xdg_desktop_var(&Some(name.to_vec()));
    assert_eq!(hint(b"sway"), Some(Compositor::Sway));
    assert_eq!(hint(b"sway:wlroots"), Some(Compositor::Sway));
    assert_eq!(hint(b"niri"), Some(Compositor::Niri));
    assert_eq!(hint(b"Hyprland"), Some(Compositor::Hyprland));
    assert_eq!(hint(b"swa"), None);
    assert_eq!(hint(b"Sway"), None);
    assert_eq!(hint(b""), None);
    assert_eq!(Compositor::from_xdg_desktop_var(&None), None);
    assert_eq!(Compositor::from_ipc_socket_var(false, false, false), None);
    assert_eq!(Compositor::from_ipc_socket_var(false, true, true), Some(Compositor::Niri));
}

#[test]
fn sway_is_the_default() {
    let mut env = environment();
    assert_eq!(Compositor::select(None, &env), Compositor::Sway);
    env.niri_socket = true;
    assert_eq!(Compositor::select(None, &env), Compositor::Niri);
    assert_eq!(Compositor::select(Some(Compositor::Hyprland), &env), Compositor::Hyprland);
}

#[test]
fn one_output_is_picked_from_the_visible() {
    let visible = vec![
        WorkspaceVisible { output: "A".to_string(), workspace_name: "1".to_string() },
        WorkspaceVisible { output: "B".to_string(), workspace_name: "2".to_string() },
        WorkspaceVisible { output: "B".to_string(), workspace_name: "3".to_string() },
    ];
    let found = request_visible_workspace(&visible, "B").unwrap();
    assert_eq!(pair(&found), ("B", "2"));
    assert!(request_visible_workspace(&visible, "C").is_none());
    assert!(request_visible_workspace(&Vec::new(), "A").is_none());
}

#[test]
fn byte_helpers() {
    assert!(bytes_equal(b"abc", b"abc"));
    assert!(!bytes_equal(b"abc", b"abd"));
    assert!(!bytes_equal(b"abc", b"ab"));
    assert!(bytes_equal(b"", b""));
    assert_eq!(find_byte(b"a>b>c", b'>', 0, 5), Some(1));
    assert_eq!(find_byte(b"a>b>c", b'>', 2, 5), Some(3));
    assert_eq!(find_byte(b"a>b>c", b'>', 2, 3), None);
    assert_eq!(find_byte(b"a>b>c", b'x', 0, 5), None);
    assert_eq!(copy_range(b"hello", 1, 4), b"ell".to_vec());
    assert_eq!(copy_range(b"hello", 2, 2), Vec::<u8>::new());
    assert!(starts_with(b"sway", b""));
    assert!(starts_with(b"sway", b"sw"));
    assert!(!starts_with(b"sw", b"sway"));
    assert!(!starts_with(b"swxy", b"sway"));
}

fn emitted(step: Step) -> (String, String) {
    match step {
        Step::Emit(event) => (event.output, event.workspace_name),
        other => panic!("no event: {:?}", other),
    }
}

#[test]
fn hyprland_workspace_record_gives_an_event() {
    let mut task = HyprlandConnectionTask::new();
    task.set_active_monitor("DP-1".to_string());
    task.feed(b"workspace>3\n").unwrap();
    assert_eq!(emitted(task.next_step()), ("DP-1".to_string(), "3".to_string()));
    assert!(matches!(task.next_step(), Step::NeedMore));
    assert_eq!(task.pending_len(), 0);
}

#[test]
fn hyprland_data_starts_after_one_separator() {
    let mut task = HyprlandConnectionTask::new();
    task.feed(b"workspace>\nworkspace>1\nworkspace>>2\nworkspace>a>b\n").unwrap();
    assert_eq!(emitted(task.next_step()), (String::new(), String::new()));
    assert_eq!(emitted(task.next_step()), (String::new(), "1".to_string()));
    assert_eq!(emitted(task.next_step()), (String::new(), ">2".to_string()));
    assert_eq!(emitted(task.next_step()), (String::new(), "a>b".to_string()));
    assert!(matches!(task.next_step(), Step::NeedMore));
}

#[test]
fn hyprland_records_come_in_pieces() {
    let mut task = HyprlandConnectionTask::new();
    task.feed(b"focusedmon>HDMI-A-1,3\nworksp").unwrap();
    assert!(matches!(task.next_step(), Step::Consumed));
    assert!(matches!(task.next_step(), Step::NeedMore));
    assert_eq!(task.pending_len(), 6);
    task.feed(b"ace>").unwrap();
    assert!(matches!(task.next_step(), Step::NeedMore));
    task.feed(b"web").unwrap();
    assert!(matches!(task.next_step(), Step::NeedMore));
    task.feed(b" mail\nactivewindow>a,b\n").unwrap();
    assert_eq!(emitted(task.next_step()), ("HDMI-A-1".to_string(), "web mail".to_string()));
    assert!(matches!(task.next_step(), Step::Consumed));
    assert!(matches!(task.next_step(), Step::NeedMore));
}

#[test]
fn hyprland_structural_records_ask_for_the_monitors() {
    let mut task = HyprlandConnectionTask::new();
    task.feed(b"moveworkspace>2,DP-2\nrenameworkspace>2,two\nworkspacev2>2,two\n").unwrap();
    assert!(matches!(task.next_step(), Step::Requery));
    assert!(matches!(task.next_step(), Step::Requery));
    assert!(matches!(task.next_step(), Step::Consumed));
    assert!(matches!(task.next_step(), Step::NeedMore));
}

#[test]
fn hyprland_protocol_breaks_are_fatal() {
    let mut task = HyprlandConnectionTask::new();
    task.feed(b"focusedmon>DP-1\n").unwrap();
    assert!(matches!(task.next_step(), Step::Fatal(HyprlandError::MissingComma)));
    let mut task = HyprlandConnectionTask::new();
    task.feed(b"workspace>\xff\xfe\n").unwrap();
    assert!(matches!(task.next_step(), Step::Fatal(HyprlandError::InvalidUtf8)));
    let mut task = HyprlandConnectionTask::new();
    task.feed(b"focusedmon>\xc3,1\n").unwrap();
    assert!(matches!(task.next_step(), Step::Fatal(HyprlandError::InvalidUtf8)));
    let mut task = HyprlandConnectionTask::new();
    task.feed("workspace>\u{e4}\u{4e16}\n".as_bytes()).unwrap();
    assert_eq!(emitted(task.next_step()), (String::new(), "\u{e4}\u{4e16}".to_string()));
}

#[test]
fn hyprland_failure_is_final() {
    let mut task = HyprlandConnectionTask::new();
    task.set_active_monitor("DP-1".to_string());
    task.feed(b"workspace>1\nfocusedmon>DP-2\nworkspace>2\n").unwrap();
    assert_eq!(emitted(task.next_step()), ("DP-1".to_string(), "1".to_string()));
    assert!(matches!(task.next_step(), Step::Fatal(HyprlandError::MissingComma)));
    let pending = task.pending_len();
    assert!(matches!(task.next_step(), Step::Fatal(HyprlandError::MissingComma)));
    assert!(matches!(task.next_step(), Step::Fatal(HyprlandError::MissingComma)));
    assert_eq!(task.feed(b"workspace>3\n"), Err(HyprlandError::MissingComma));
    assert!(matches!(task.next_step(), Step::Fatal(HyprlandError::MissingComma)));
    assert_eq!(task.pending_len(), pending);
}

#[test]
fn hyprland_buffer_grows() {
    let mut task = HyprlandConnectionTask::new();
    let long = vec![b'x'; 5000];
    task.feed(b"workspace>").unwrap();
    task.feed(&long).unwrap();
    assert!(matches!(task.next_step(), Step::NeedMore));
    assert_eq!(task.pending_len(), 5010);
    task.feed(b"\nworkspace>1\n").unwrap();
    let (_, name) = emitted(task.next_step());
    assert_eq!(name.len(), 5000);
    let (_, name) = emitted(task.next_step());
    assert_eq!(name, "1");
}

#[test]
fn hyprland_monitors_give_the_state() {
    let monitor = |name: &str, workspace: &str, focused| Monitor {
        name: name.to_string(),
        active_workspace: workspace.to_string(),
        focused,
    };
    let state = current_state(&vec![
        monitor("DP-1", "1", false),
        monitor("DP-2", "web", true),
        monitor("DP-3", "3", false),
    ]);
    assert_eq!(state.active_monitor, "DP-2");
    let pairs: Vec<(&str, &str)> = state.visible_workspaces.iter().map(pair).collect();
    assert_eq!(pairs, vec![("DP-1", "1"), ("DP-2", "web"), ("DP-3", "3")]);
    let state = current_state(&Vec::new());
    assert_eq!(state.active_monitor, "");
    assert!(state.visible_workspaces.is_empty());
    let state = current_state(&vec![monitor("A", "1", true), monitor("B", "2", true)]);
    assert_eq!(state.active_monitor, "B");
}

fn niri_workspace(
    id: u64,
    idx: u8,
    name: Option<&str>,
    output: Option<&str>,
    is_active: bool,
) -> niri::Workspace {
    niri::Workspace {
        id,
        idx,
        name: name.map(|n| n.to_string()),
        output: output.map(|o| o.to_string()),
        is_active,
    }
}

#[test]
fn niri_positions_are_written_in_decimal() {
    assert_eq!(decimal_text(0), "0");
    assert_eq!(decimal_text(7), "7");
    assert_eq!(decimal_text(10), "10");
    assert_eq!(decimal_text(42), "42");
    assert_eq!(decimal_text(99), "99");
    assert_eq!(decimal_text(100), "100");
    assert_eq!(decimal_text(105), "105");
    assert_eq!(decimal_text(255), "255");
    for value in 0..=255u8 {
        assert_eq!(decimal_text(value), value.to_string());
    }
    assert_eq!(workspace_label(&niri_workspace(1, 3, None, None, true)), "3");
    assert_eq!(workspace_label(&niri_workspace(1, 3, Some("web"), None, true)), "web");
}

#[test]
fn niri_active_workspaces_are_visible() {
    let workspaces = vec![
        niri_workspace(10, 1, None, Some("A"), true),
        niri_workspace(11, 2, Some("mail"), Some("A"), false),
        niri_workspace(12, 1, Some("web"), None, true),
    ];
    let visible = niri::request_visible_workspaces(&workspaces);
    let pairs: Vec<(&str, &str)> = visible.iter().map(pair).collect();
    assert_eq!(pairs, vec![("A", "1"), ("", "web")]);
    assert!(has_workspace(&workspaces, 11));
    assert_eq!(pair(&find_workspace(&workspaces, 11)), ("A", "mail"));
    assert_eq!(pair(&find_workspace(&workspaces, 12)), ("", "web"));
    assert_eq!(pair(&find_workspace(&workspaces, 10)), ("A", "1"));
    assert!(!has_workspace(&workspaces, 13));
    assert!(!has_workspace(&Vec::new(), 10));
}

#[test]
fn niri_events_are_resolved_from_the_cache() {
    let mut task = NiriConnectionTask::new();
    task.set_workspaces(vec![niri_workspace(1, 1, None, Some("A"), true)]);
    let event = task.subscribe_event(Event::WorkspaceActivated { id: 1 }).unwrap().unwrap();
    assert_eq!(pair(&event), ("A", "1"));
    assert!(task.subscribe_event(Event::Other).unwrap().is_none());
    let changed = Event::WorkspacesChanged {
        workspaces: vec![niri_workspace(2, 4, Some("code"), Some("B"), false)],
    };
    assert!(task.subscribe_event(changed).unwrap().is_none());
    let event = task.subscribe_event(Event::WorkspaceActivated { id: 2 }).unwrap().unwrap();
    assert_eq!(pair(&event), ("B", "code"));
}

#[test]
fn niri_failure_is_final() {
    let mut task = NiriConnectionTask::new();
    task.set_workspaces(vec![niri_workspace(1, 1, None, Some("A"), true)]);
    assert_eq!(
        task.subscribe_event(Event::WorkspaceActivated { id: 7 }).unwrap_err(),
        NiriError::UnknownWorkspace(7)
    );
    assert_eq!(
        task.subscribe_event(Event::WorkspaceActivated { id: 1 }).unwrap_err(),
        NiriError::UnknownWorkspace(7)
    );
    assert_eq!(task.subscribe_event(Event::Other).unwrap_err(), NiriError::UnknownWorkspace(7));
    let changed = Event::WorkspacesChanged {
        workspaces: vec![niri_workspace(7, 1, None, Some("A"), true)],
    };
    assert_eq!(task.subscribe_event(changed).unwrap_err(), NiriError::UnknownWorkspace(7));
    assert_eq!(
        task.subscribe_event(Event::WorkspaceActivated { id: 7 }).unwrap_err(),
        NiriError::UnknownWorkspace(7)
    );
}

#[test]
fn sway_visible_workspaces_are_reported() {
    let workspace = |name: &str, output: &str, visible| sway::Workspace {
        name: name.to_string(),
        output: output.to_string(),
        visible,
    };
    let visible = sway::request_visible_workspaces(&vec![
        workspace("1", "A", false),
        workspace("2", "A", true),
        workspace("3", "B", true),
    ]);
    let pairs: Vec<(&str, &str)> = visible.iter().map(pair).collect();
    assert_eq!(pairs, vec![("A", "2"), ("B", "3")]);
}

#[test]
fn sway_focus_event_gives_the_focused_workspace() {
    let node = |name: Option<&str>, output: Option<&str>| sway::Node {
        name: name.map(|n| n.to_string()),
        output: output.map(|o| o.to_string()),
    };
    let full = node(Some("2"), Some("A"));
    assert!(sway::subscribe_event(false, Some(&full)).unwrap().is_none());
    assert!(sway::subscribe_event(false, None).unwrap().is_none());
    let event = sway::subscribe_event(true, Some(&full)).unwrap().unwrap();
    assert_eq!(pair(&event), ("A", "2"));
    assert_eq!(sway::subscribe_event(true, None).unwrap_err(), sway::SwayError::NoCurrent);
    assert_eq!(
        sway::subscribe_event(true, Some(&node(Some("2"), None))).unwrap_err(),
        sway::SwayError::NoOutput
    );
    assert_eq!(
        sway::subscribe_event(true, Some(&node(None, None))).unwrap_err(),
        sway::SwayError::NoOutput
    );
    assert_eq!(
        sway::subscribe_event(true, Some(&node(None, Some("A")))).unwrap_err(),
        sway::SwayError::NoName
    );
}
