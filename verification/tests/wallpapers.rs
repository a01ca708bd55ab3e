use multibg_sway::compositors::WorkspaceVisible;
use multibg_sway::output::{
    describe_output, OutputError, OutputGeometry, OutputInfo, OutputMode, Scaling, Transform,
};
use multibg_sway::wayland::model::{
    Configured, DrawOutcome, FreedWallpaper, LayerDraw, Placement, ReleaseOutcome, ViewportChange,
};
use multibg_sway::wayland::{layer_surface_name, Destroyed, State, Teardown, WallpaperFile};

fn info(name: &str, width: i32, height: i32) -> OutputInfo {
    OutputInfo {
        name: Some(name.to_string()),
        modes: vec![OutputMode { dimensions: (width, height), current: true }],
        transform: Transform::Normal,
        scale_factor: 1,
        logical_size: Some((width, height)),
    }
}

fn file(workspace: &str, path: &str, modified: u128) -> WallpaperFile {
    WallpaperFile {
        workspace: workspace.to_string(),
        canon_path: path.as_bytes().to_vec(),
        canon_modified: modified,
    }
}

fn load(state: &mut State, layer: usize, wallpaper: &WallpaperFile, size: usize) -> Placement {
    match state.place_wallpaper(layer, wallpaper, None) {
        Placement::NeedsLoad => state.place_wallpaper(layer, wallpaper, Some(size)),
        placed => placed,
    }
}

fn requery(destroyed: Destroyed) -> Teardown {
    match destroyed {
        Destroyed::Requery(teardown) => teardown,
        Destroyed::UnknownOutput => panic!("no layer was removed"),
    }
}

fn out1_with_three() -> State {
    let mut state = State::new(false);
    let made = state.new_output(Some(&info("OUT1", 1920, 1080))).unwrap();
    assert_eq!(made.layer, 0);
    assert_eq!(load(&mut state, 0, &file("1", "/root/OUT1/1.png", 10), 100), Placement::Created(0));
    assert_eq!(load(&mut state, 0, &file("2", "/root/OUT1/2.png", 20), 200), Placement::Created(1));
    assert_eq!(
        load(&mut state, 0, &file("_default", "/root/OUT1/_default.png", 30), 300),
        Placement::Created(2)
    );
    state
}

#[test]
fn end_to_end_one_output() {
    let mut state = out1_with_three();
    assert_eq!(state.configure(0), Configured::RequestVisible);
    assert_eq!(
        state.draw("OUT1", "2"),
        DrawOutcome::Attach { layer: 0, wallpaper: 1, width: 1920, height: 1080 }
    );
    assert_eq!(state.wallpaper(1).unwrap().active_count(), 1);
    assert_eq!(
        state.draw("OUT1", "5"),
        DrawOutcome::Attach { layer: 0, wallpaper: 2, width: 1920, height: 1080 }
    );
    assert_eq!(state.layer(0).unwrap().current_workspace().unwrap().as_str(), "5");
    for id in 0..3 {
        assert_eq!(state.wallpaper(id).unwrap().sharing_count(), 1);
    }
    let teardown = requery(state.output_destroyed("OUT1"));
    assert_eq!(teardown.layer, 0);
    let mut freed = teardown.freed.clone();
    freed.sort_by_key(|f| f.wallpaper);
    assert_eq!(
        freed,
        vec![
            FreedWallpaper { wallpaper: 0, active_count: 0 },
            FreedWallpaper { wallpaper: 1, active_count: 1 },
            FreedWallpaper { wallpaper: 2, active_count: 1 },
        ]
    );
    assert_eq!(state.layer_count(), 0);
    for id in 0..3 {
        assert!(state.wallpaper(id).is_none());
    }
}

#[test]
fn draw_twice_attaches_once() {
    let mut state = out1_with_three();
    state.configure(0);
    assert!(matches!(state.draw("OUT1", "1"), DrawOutcome::Attach { wallpaper: 0, .. }));
    assert_eq!(state.draw("OUT1", "1"), DrawOutcome::AlreadyCurrent);
    assert_eq!(state.wallpaper(0).unwrap().active_count(), 1);
}

#[test]
fn draw_before_configure_is_ignored() {
    let mut state = out1_with_three();
    assert_eq!(state.draw("OUT1", "1"), DrawOutcome::NotConfigured);
    assert!(state.layer(0).unwrap().current_workspace().is_none());
    assert_eq!(state.wallpaper(0).unwrap().active_count(), 0);
}

#[test]
fn draw_on_unknown_output() {
    let mut state = out1_with_three();
    state.configure(0);
    assert_eq!(state.draw("OUT2", "1"), DrawOutcome::UnknownOutput);
}

#[test]
fn configure_twice_requests_once() {
    let mut state = out1_with_three();
    assert!(!state.layer(0).unwrap().is_configured());
    assert_eq!(state.configure(0), Configured::RequestVisible);
    assert!(state.layer(0).unwrap().is_configured());
    assert_eq!(state.configure(0), Configured::AlreadyConfigured);
    assert_eq!(state.configure(7), Configured::NoSuchLayer);
}

#[test]
fn unknown_workspace_without_default_keeps_attachment() {
    let mut state = State::new(false);
    state.new_output(Some(&info("OUT1", 800, 600))).unwrap();
    assert_eq!(load(&mut state, 0, &file("1", "/w/1.png", 1), 10), Placement::Created(0));
    state.configure(0);
    assert!(matches!(state.draw("OUT1", "1"), DrawOutcome::Attach { wallpaper: 0, .. }));
    assert_eq!(state.draw("OUT1", "9"), DrawOutcome::NoWallpaper);
    assert_eq!(state.layer(0).unwrap().current_workspace().unwrap().as_str(), "1");
    assert_eq!(state.wallpaper(0).unwrap().active_count(), 1);
}

#[test]
fn exact_entry_wins_over_default() {
    let mut state = State::new(false);
    state.new_output(Some(&info("OUT1", 800, 600))).unwrap();
    load(&mut state, 0, &file("_default", "/w/d.png", 1), 10);
    load(&mut state, 0, &file("3", "/w/3.png", 1), 10);
    state.configure(0);
    assert!(matches!(state.draw("OUT1", "3"), DrawOutcome::Attach { wallpaper: 1, .. }));
    assert!(matches!(state.draw("OUT1", "4"), DrawOutcome::Attach { wallpaper: 0, .. }));
}

#[test]
fn excess_release_is_one_anomaly() {
    let mut state = out1_with_three();
    state.configure(0);
    state.draw("OUT1", "1");
    assert_eq!(state.release(0), ReleaseOutcome::Released);
    assert_eq!(state.wallpaper(0).unwrap().active_count(), 0);
    assert_eq!(state.release(0), ReleaseOutcome::Unexpected);
    assert_eq!(state.wallpaper(0).unwrap().active_count(), 0);
    assert_eq!(state.release(17), ReleaseOutcome::Stale);
}

#[test]
fn releases_come_in_any_order() {
    let mut state = out1_with_three();
    state.configure(0);
    state.draw("OUT1", "1");
    state.draw("OUT1", "2");
    state.draw("OUT1", "1");
    assert_eq!(state.wallpaper(0).unwrap().active_count(), 2);
    assert_eq!(state.release(1), ReleaseOutcome::Released);
    assert_eq!(state.release(0), ReleaseOutcome::Released);
    assert_eq!(state.release(0), ReleaseOutcome::Released);
    assert_eq!(state.release(1), ReleaseOutcome::Unexpected);
}

#[test]
fn equal_files_on_equal_outputs_share() {
    let mut state = State::new(false);
    state.new_output(Some(&info("A", 1920, 1080))).unwrap();
    state.new_output(Some(&info("B", 1920, 1080))).unwrap();
    assert_eq!(load(&mut state, 0, &file("1", "/w/same.png", 5), 64), Placement::Created(0));
    assert_eq!(state.place_wallpaper(1, &file("web", "/w/same.png", 5), None), Placement::Shared(0));
    assert_eq!(state.wallpaper(0).unwrap().sharing_count(), 2);
    assert_eq!(state.memory_stats().pools, 1);
    assert_eq!(state.memory_stats().bytes, 64);

    let teardown = requery(state.output_destroyed("A"));
    assert!(teardown.freed.is_empty());
    assert_eq!(teardown.layer, 0);
    assert_eq!(state.layer_count(), 1);
    assert_eq!(state.layer(0).unwrap().output_name().as_str(), "B");
    assert_eq!(state.wallpaper(0).unwrap().sharing_count(), 1);

    let teardown = requery(state.output_destroyed("B"));
    assert_eq!(teardown.freed, vec![FreedWallpaper { wallpaper: 0, active_count: 0 }]);
    assert!(state.wallpaper(0).is_none());
    assert_eq!(state.memory_stats().pools, 0);
}

#[test]
fn symlinked_file_is_shared_on_one_output() {
    let mut state = State::new(false);
    state.new_output(Some(&info("A", 1920, 1080))).unwrap();
    assert_eq!(load(&mut state, 0, &file("1", "/w/same.png", 5), 64), Placement::Created(0));
    assert_eq!(load(&mut state, 0, &file("2", "/w/same.png", 5), 64), Placement::Shared(0));
    assert_eq!(state.wallpaper(0).unwrap().sharing_count(), 2);
    assert_eq!(state.layer(0).unwrap().background_count(), 2);
    assert_eq!(state.layer(0).unwrap().background(1).unwrap().workspace_name().as_str(), "2");
    assert_eq!(state.layer(0).unwrap().background(1).unwrap().wallpaper(), 0);
    assert!(state.layer(0).unwrap().background(2).is_none());
}

#[test]
fn other_geometry_or_time_is_not_shared() {
    let mut state = State::new(false);
    state.new_output(Some(&info("A", 1920, 1080))).unwrap();
    state.new_output(Some(&info("B", 1280, 720))).unwrap();
    let mut rotated = info("C", 1080, 1920);
    rotated.transform = Transform::Rotated90;
    state.new_output(Some(&rotated)).unwrap();
    assert_eq!(load(&mut state, 0, &file("1", "/w/same.png", 5), 64), Placement::Created(0));
    assert_eq!(state.place_wallpaper(1, &file("1", "/w/same.png", 5), None), Placement::NeedsLoad);
    assert_eq!(state.place_wallpaper(2, &file("1", "/w/same.png", 5), None), Placement::NeedsLoad);
    assert_eq!(state.place_wallpaper(0, &file("2", "/w/same.png", 6), None), Placement::NeedsLoad);
    assert_eq!(state.place_wallpaper(0, &file("2", "/w/other.png", 5), None), Placement::NeedsLoad);
    assert_eq!(state.place_wallpaper(9, &file("2", "/w/same.png", 5), None), Placement::NoSuchLayer);
    assert_eq!(state.layer(0).unwrap().background_count(), 1);
    assert_eq!(load(&mut state, 2, &file("1", "/w/same.png", 5), 64), Placement::Created(1));
    assert_eq!(state.wallpaper(1).unwrap().width(), 1920);
    assert_eq!(state.wallpaper(1).unwrap().height(), 1080);
    assert_eq!(state.wallpaper(1).unwrap().transform(), Transform::Rotated90);
    assert_eq!(state.wallpaper(1).unwrap().canon_path().as_slice(), b"/w/same.png");
    assert_eq!(state.wallpaper(1).unwrap().canon_modified(), 5);
    assert_eq!(state.wallpaper(1).unwrap().shm_size(), 64);
}

#[test]
fn vacant_place_is_used_again() {
    let mut state = State::new(false);
    state.new_output(Some(&info("A", 100, 100))).unwrap();
    state.new_output(Some(&info("B", 200, 200))).unwrap();
    assert_eq!(load(&mut state, 0, &file("1", "/w/a.png", 1), 8), Placement::Created(0));
    assert_eq!(load(&mut state, 1, &file("1", "/w/b.png", 1), 8), Placement::Created(1));
    requery(state.output_destroyed("A"));
    assert_eq!(state.wallpaper_places(), 2);
    assert_eq!(load(&mut state, 0, &file("2", "/w/c.png", 1), 8), Placement::Created(0));
    assert_eq!(state.wallpaper(0).unwrap().width(), 200);
}

#[test]
fn destroy_unknown_output_changes_nothing() {
    let mut state = out1_with_three();
    assert!(matches!(state.output_destroyed("OUT7"), Destroyed::UnknownOutput));
    assert_eq!(state.layer_count(), 1);
    assert_eq!(state.memory_stats().pools, 3);
    assert_eq!(state.memory_stats().bytes, 600);
}

#[test]
fn last_layer_takes_the_place_of_the_removed() {
    let mut state = State::new(false);
    state.new_output(Some(&info("A", 100, 100))).unwrap();
    state.new_output(Some(&info("B", 100, 100))).unwrap();
    state.new_output(Some(&info("C", 100, 100))).unwrap();
    let teardown = requery(state.output_destroyed("A"));
    assert_eq!(teardown.layer, 0);
    assert_eq!(state.layer(0).unwrap().output_name().as_str(), "C");
    assert_eq!(state.layer(1).unwrap().output_name().as_str(), "B");
    assert!(state.layer(2).is_none());
}

#[test]
fn events_are_handled_in_their_order() {
    let mut state = out1_with_three();
    state.configure(0);
    let events = vec![
        WorkspaceVisible { output: "OUT1".to_string(), workspace_name: "1".to_string() },
        WorkspaceVisible { output: "OUT1".to_string(), workspace_name: "2".to_string() },
        WorkspaceVisible { output: "NONE".to_string(), workspace_name: "2".to_string() },
        WorkspaceVisible { output: "OUT1".to_string(), workspace_name: "2".to_string() },
        WorkspaceVisible { output: "OUT1".to_string(), workspace_name: "1".to_string() },
    ];
    let outcomes = state.handle_events(&events);
    assert_eq!(
        outcomes,
        vec![
            DrawOutcome::Attach { layer: 0, wallpaper: 0, width: 1920, height: 1080 },
            DrawOutcome::Attach { layer: 0, wallpaper: 1, width: 1920, height: 1080 },
            DrawOutcome::UnknownOutput,
            DrawOutcome::AlreadyCurrent,
            DrawOutcome::Attach { layer: 0, wallpaper: 0, width: 1920, height: 1080 },
        ]
    );
    assert_eq!(state.wallpaper(0).unwrap().active_count(), 2);
    assert_eq!(state.wallpaper(1).unwrap().active_count(), 1);
    assert!(state.handle_events(&Vec::new()).is_empty());
}

#[test]
fn layer_draws_on_its_own() {
    let mut state = out1_with_three();
    assert_eq!(state.layer(0).unwrap().width(), 1920);
    assert_eq!(state.layer(0).unwrap().height(), 1080);
    assert_eq!(state.layer(0).unwrap().transform(), Transform::Normal);
    assert!(!state.layer(0).unwrap().has_viewport());
    state.configure(0);
    assert_eq!(state.draw("OUT1", "_default"), DrawOutcome::Attach {
        layer: 0,
        wallpaper: 2,
        width: 1920,
        height: 1080
    });
    let _ = LayerDraw::Attach(2);
}

#[test]
fn output_descriptions_are_checked_in_order() {
    assert_eq!(describe_output(None), Err(OutputError::NoInfo));
    let mut described = info("A", 0, 0);
    described.modes.clear();
    described.logical_size = None;
    described.name = None;
    assert_eq!(describe_output(Some(&described)), Err(OutputError::NoName));
    described.name = Some("A".to_string());
    assert_eq!(describe_output(Some(&described)), Err(OutputError::NoCurrentMode));
    described.modes.push(OutputMode { dimensions: (640, 480), current: false });
    assert_eq!(describe_output(Some(&described)), Err(OutputError::NoCurrentMode));
    described.modes.push(OutputMode { dimensions: (0, 480), current: true });
    assert_eq!(describe_output(Some(&described)), Err(OutputError::NonPositiveResolution));
    described.modes[1].dimensions = (800, -1);
    assert_eq!(describe_output(Some(&described)), Err(OutputError::NonPositiveResolution));
    described.modes[1].dimensions = (800, 600);
    described.modes.push(OutputMode { dimensions: (1024, 768), current: true });
    assert_eq!(describe_output(Some(&described)), Err(OutputError::NoLogicalSize));
    described.logical_size = Some((800, 0));
    assert_eq!(describe_output(Some(&described)), Err(OutputError::NonPositiveLogicalSize));
    described.logical_size = Some((400, 300));
    described.scale_factor = 2;
    assert_eq!(
        describe_output(Some(&described)),
        Ok(OutputGeometry {
            width: 800,
            height: 600,
            transform: Transform::Normal,
            scale_factor: 2,
            logical_width: 400,
            logical_height: 300,
        })
    );
}

#[test]
fn quarter_turns_swap_the_axes() {
    for (transform, swapped) in [
        (Transform::Normal, false),
        (Transform::Rotated90, true),
        (Transform::Rotated180, false),
        (Transform::Rotated270, true),
        (Transform::Flipped, false),
        (Transform::Flipped90, true),
        (Transform::Flipped180, false),
        (Transform::Flipped270, true),
        (Transform::Unsupported, false),
    ] {
        let mut described = info("A", 1920, 1080);
        described.transform = transform;
        let geometry = describe_output(Some(&described)).unwrap();
        let expected = if swapped { (1080, 1920) } else { (1920, 1080) };
        assert_eq!((geometry.width, geometry.height), expected);
    }
}

#[test]
fn scaling_follows_the_logical_size() {
    let geometry = |width, height, scale_factor, logical_width, logical_height| OutputGeometry {
        width,
        height,
        transform: Transform::Normal,
        scale_factor,
        logical_width,
        logical_height,
    };
    assert_eq!(geometry(1920, 1080, 1, 1920, 1080).scaling(), Scaling::Unscaled);
    assert_eq!(geometry(1920, 1080, 2, 1920, 540).scaling(), Scaling::Unscaled);
    assert_eq!(geometry(3840, 2160, 2, 1920, 1080).scaling(), Scaling::Integer(2));
    assert_eq!(
        geometry(3840, 2160, 2, 2560, 1440).scaling(),
        Scaling::Fractional { logical_width: 2560, logical_height: 1440 }
    );
    assert_eq!(
        geometry(2, 2, i32::MAX, i32::MAX, i32::MAX).scaling(),
        Scaling::Fractional { logical_width: i32::MAX, logical_height: i32::MAX }
    );
}

#[test]
fn new_output_refuses_what_it_cannot_use() {
    let mut state = State::new(false);
    assert_eq!(state.new_output(None), Err(OutputError::NoInfo));
    let mut nameless = info("A", 10, 10);
    nameless.name = None;
    assert_eq!(state.new_output(Some(&nameless)), Err(OutputError::NoName));
    assert_eq!(state.layer_count(), 0);
    let mut fractional = info("A", 3840, 2160);
    fractional.scale_factor = 2;
    fractional.logical_size = Some((2560, 1440));
    let made = state.new_output(Some(&fractional)).unwrap();
    assert_eq!(made.layer, 0);
    assert_eq!(made.geometry.width, 3840);
    assert_eq!(made.scaling, Scaling::Fractional { logical_width: 2560, logical_height: 1440 });
    assert!(state.layer(0).unwrap().has_viewport());
}

#[test]
fn update_output_brings_scaling_up_to_date() {
    let mut state = State::new(false);
    state.new_output(Some(&info("A", 3840, 2160))).unwrap();
    assert_eq!(state.update_output(None), Err(OutputError::NoInfo));
    assert_eq!(state.update_output(Some(&info("B", 3840, 2160))), Err(OutputError::NoBackgroundLayer));

    let same = state.update_output(Some(&info("A", 3840, 2160))).unwrap();
    assert_eq!(same.layer, 0);
    assert!(!same.size_changed);
    assert_eq!(same.buffer_scale, 1);
    assert_eq!(same.viewport, ViewportChange::Keep);

    let mut fractional = info("A", 3840, 2160);
    fractional.scale_factor = 2;
    fractional.logical_size = Some((2560, 1440));
    let update = state.update_output(Some(&fractional)).unwrap();
    assert_eq!(update.buffer_scale, 1);
    assert_eq!(update.viewport, ViewportChange::Create { logical_width: 2560, logical_height: 1440 });
    fractional.logical_size = Some((3000, 1688));
    let update = state.update_output(Some(&fractional)).unwrap();
    assert_eq!(update.viewport, ViewportChange::Resize { logical_width: 3000, logical_height: 1688 });

    let mut doubled = info("A", 3840, 2160);
    doubled.scale_factor = 2;
    doubled.logical_size = Some((1920, 1080));
    let update = state.update_output(Some(&doubled)).unwrap();
    assert_eq!(update.buffer_scale, 2);
    assert_eq!(update.viewport, ViewportChange::Destroy);
    assert!(!state.layer(0).unwrap().has_viewport());

    let update = state.update_output(Some(&info("A", 1920, 1080))).unwrap();
    assert!(update.size_changed);
    assert_eq!(state.layer(0).unwrap().width(), 3840);
}

#[test]
fn surface_is_named_after_its_output() {
    assert_eq!(layer_surface_name("eDP-1"), Some("multibg-sway_wallpaper_eDP-1".to_string()));
    assert_eq!(layer_surface_name(""), Some("multibg-sway_wallpaper_".to_string()));
}

#[test]
fn events_in_two_passes_give_the_same() {
    let event = |output: &str, workspace: &str| WorkspaceVisible {
        output: output.to_string(),
        workspace_name: workspace.to_string(),
    };
    let all = vec![event("OUT1", "1"), event("OUT1", "2"), event("OUT1", "2"), event("OUT1", "7")];
    let mut once = out1_with_three();
    once.configure(0);
    let together = once.handle_events(&all);

    let mut twice = out1_with_three();
    twice.configure(0);
    let mut apart = twice.handle_events(&vec![event("OUT1", "1")]);
    apart.extend(twice.handle_events(&vec![
        event("OUT1", "2"),
        event("OUT1", "2"),
        event("OUT1", "7"),
    ]));
    assert_eq!(together, apart);
    for id in 0..3 {
        assert_eq!(
            once.wallpaper(id).unwrap().active_count(),
            twice.wallpaper(id).unwrap().active_count()
        );
    }
    assert_eq!(
        once.layer(0).unwrap().current_workspace(),
        twice.layer(0).unwrap().current_workspace()
    );
}
