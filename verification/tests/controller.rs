use tdawm::{
    Command, Event, Layout, LayoutKind, Position, Screen, Size, TDAWm, TDAWmError, WindowType,
};

const HERE: (i16, i16) = (10, 10);

fn one_screen() -> TDAWm {
    TDAWm::new(vec![Screen::new_screen(1920, 1080, 0, 0)]).unwrap()
}

fn two_screens() -> TDAWm {
    TDAWm::new(vec![
        Screen::new_screen(1920, 1080, 0, 0),
        Screen::new_screen(1000, 500, 1920, 0),
    ])
    .unwrap()
}

fn placed(window: u64, x: i32, y: i32, width: u32, height: u32) -> Vec<Command> {
    vec![
        Command::Move { window, x, y },
        Command::Resize { window, width, height },
        Command::Show { window },
    ]
}

fn taken(window: u64) -> Vec<Command> {
    vec![Command::Raise { window }, Command::Focus { window }, Command::GrabEvents { window }]
}

fn map(window: u64) -> Event {
    Event::MapRequest { window, window_type: WindowType::Normal }
}

fn horizontal_with(ids: &[u64]) -> TDAWm {
    let mut wm = one_screen();
    wm.handle_event(Event::KeyPress { keycode: 33 }, HERE).unwrap();
    for id in ids {
        wm.handle_event(map(*id), HERE).unwrap();
    }
    wm
}

#[test]
fn without_a_screen_there_is_no_window_manager() {
    assert!(matches!(TDAWm::new(vec![]), Err(TDAWmError::NoScreenFound)));
}

#[test]
fn a_new_window_manager_stacks_and_has_no_window() {
    let wm = two_screens();
    assert_eq!(wm.current_layout().id(), "dwm");
    assert!(matches!(wm.current_layout(), LayoutKind::MasterStack(l) if l.master == 0));
    assert_eq!(wm.context().screens.len(), 2);
    assert!(wm.context().windows_by_id.is_empty());
    assert_eq!(wm.layout(HERE), Ok(vec![]));
}

#[test]
fn the_first_window_fills_the_screen() {
    let mut wm = one_screen();
    let requests = wm.handle_event(map(5), HERE).unwrap();
    let mut expected = taken(5);
    expected.extend(placed(5, 0, 0, 1920, 1080));
    assert_eq!(requests, expected);
    assert_eq!(wm.context().screens[0].workspaces[0].window_ids(), vec![5]);
    assert_eq!(wm.context().window(5).map(|w| w.id), Some(5));
    assert!(matches!(wm.current_layout(), LayoutKind::MasterStack(l) if l.master == 5));
}

#[test]
fn the_newest_tiled_window_is_the_master() {
    let mut wm = one_screen();
    wm.handle_event(map(5), HERE).unwrap();
    wm.handle_event(map(9), HERE).unwrap();
    let requests = wm.handle_event(map(7), HERE).unwrap();
    let mut expected = taken(7);
    expected.extend(placed(5, 960, 0, 960, 540));
    expected.extend(placed(7, 0, 0, 960, 1080));
    expected.extend(placed(9, 960, 540, 960, 540));
    assert_eq!(requests, expected);
}

#[test]
fn a_new_dock_is_not_proposed_as_master_and_is_raised() {
    let mut wm = one_screen();
    wm.handle_event(map(5), HERE).unwrap();
    let requests = wm
        .handle_event(Event::MapRequest { window: 6, window_type: WindowType::Dock }, HERE)
        .unwrap();
    let mut expected = taken(6);
    expected.extend(placed(5, 0, 0, 1920, 1080));
    expected.push(Command::Raise { window: 6 });
    assert_eq!(requests, expected);
    assert!(matches!(wm.current_layout(), LayoutKind::MasterStack(l) if l.master == 5));
}

#[test]
fn a_window_that_leaves_makes_room() {
    let mut wm = horizontal_with(&[5, 7, 9]);
    let requests = wm.handle_event(Event::Destroyed { window: 7 }, HERE).unwrap();
    let mut expected = placed(5, 0, 0, 960, 1080);
    expected.extend(placed(9, 960, 0, 960, 1080));
    assert_eq!(requests, expected);
    assert!(wm.context().window(7).is_none());
    assert_eq!(wm.context().screens[0].workspaces[0].window_ids(), vec![5, 9]);
}

#[test]
fn a_window_leaves_the_workspace_that_owns_it() {
    let mut wm = horizontal_with(&[5, 7]);
    wm.handle_event(Event::KeyPress { keycode: 12 }, HERE).unwrap();
    let requests = wm.handle_event(Event::Destroyed { window: 5 }, HERE).unwrap();
    assert_eq!(requests, vec![]);
    assert!(wm.context().window(5).is_none());
    assert_eq!(wm.context().screens[0].workspaces[0].window_ids(), vec![7]);
}

#[test]
fn forgetting_an_unknown_window_changes_nothing() {
    let mut wm = horizontal_with(&[5, 7]);
    let requests = wm.handle_event(Event::Destroyed { window: 42 }, HERE).unwrap();
    let mut expected = placed(5, 0, 0, 960, 1080);
    expected.extend(placed(7, 960, 0, 960, 1080));
    assert_eq!(requests, expected);
    assert_eq!(wm.context().screens[0].workspaces[0].window_ids(), vec![5, 7]);
    assert_eq!(wm.context().windows_by_id.len(), 2);
    assert_eq!(wm.layout(HERE), Ok(expected));
}

#[test]
fn a_created_window_is_only_subscribed_to() {
    let mut wm = one_screen();
    let requests = wm.handle_event(Event::Created { window: 3 }, HERE).unwrap();
    assert_eq!(requests, vec![Command::GrabEvents { window: 3 }]);
    assert!(wm.context().window(3).is_none());
    assert!(wm.context().screens[0].workspaces[0].window_ids().is_empty());
}

#[test]
fn the_layout_key_alternates_columns_and_rows() {
    let mut wm = one_screen();
    wm.handle_event(map(5), HERE).unwrap();
    wm.handle_event(map(7), HERE).unwrap();
    let columns = wm.handle_event(Event::KeyPress { keycode: 33 }, HERE).unwrap();
    assert_eq!(wm.current_layout().id(), "horizontal");
    let mut expected = placed(5, 0, 0, 960, 1080);
    expected.extend(placed(7, 960, 0, 960, 1080));
    assert_eq!(columns, expected);
    let rows = wm.handle_event(Event::KeyPress { keycode: 33 }, HERE).unwrap();
    assert_eq!(wm.current_layout().id(), "vertical");
    let mut expected = placed(5, 0, 0, 1920, 540);
    expected.extend(placed(7, 0, 540, 1920, 540));
    assert_eq!(rows, expected);
    wm.handle_event(Event::KeyPress { keycode: 33 }, HERE).unwrap();
    assert_eq!(wm.current_layout().id(), "horizontal");
}

#[test]
fn the_terminal_key_asks_for_a_terminal() {
    let mut wm = horizontal_with(&[5]);
    let requests = wm.handle_event(Event::KeyPress { keycode: 36 }, HERE).unwrap();
    assert_eq!(requests, vec![Command::SpawnTerminal]);
}

#[test]
fn other_keys_and_events_are_passed_over() {
    let mut wm = horizontal_with(&[5]);
    for keycode in [0, 9, 20, 32, 34, 35, 37, 255] {
        assert_eq!(wm.handle_event(Event::KeyPress { keycode }, HERE), Ok(vec![]));
    }
    assert_eq!(wm.handle_event(Event::Unknown, HERE), Ok(vec![]));
    assert_eq!(wm.current_layout().id(), "horizontal");
    assert_eq!(wm.context().screens[0].current_workspace_id, 0);
}

#[test]
fn a_workspace_switch_hides_the_old_and_tiles_the_new() {
    let mut wm = horizontal_with(&[5, 7]);
    let away = wm.handle_event(Event::KeyPress { keycode: 11 }, HERE).unwrap();
    assert_eq!(
        away,
        vec![
            Command::Hide { window: 5 },
            Command::Hide { window: 7 },
            Command::FocusRoot,
            Command::SetCurrentDesktop { index: 1 },
        ]
    );
    assert_eq!(wm.context().screens[0].current_workspace_id, 1);
    assert_eq!(wm.context().screens[0].workspaces[0].window_ids(), vec![5, 7]);
    assert!(wm.context().screens[0].workspaces[1].window_ids().is_empty());
    wm.handle_event(map(8), HERE).unwrap();
    let back = wm.handle_event(Event::KeyPress { keycode: 10 }, HERE).unwrap();
    let mut expected = vec![
        Command::Hide { window: 8 },
        Command::FocusRoot,
        Command::SetCurrentDesktop { index: 0 },
    ];
    expected.extend(placed(5, 0, 0, 960, 1080));
    expected.extend(placed(7, 960, 0, 960, 1080));
    assert_eq!(back, expected);
    assert_eq!(wm.context().screens[0].workspaces[1].window_ids(), vec![8]);
}

#[test]
fn the_last_workspace_key_selects_the_tenth_workspace() {
    let mut wm = one_screen();
    let requests = wm.handle_event(Event::KeyPress { keycode: 19 }, HERE).unwrap();
    assert_eq!(requests, vec![Command::FocusRoot, Command::SetCurrentDesktop { index: 9 }]);
    assert_eq!(wm.context().screens[0].current_workspace_id, 9);
}

#[test]
fn a_switch_to_a_missing_workspace_keeps_the_shown_one() {
    let mut wm = horizontal_with(&[5]);
    let requests = wm.switch_workspace(10, HERE).unwrap();
    let mut expected = vec![
        Command::Hide { window: 5 },
        Command::FocusRoot,
        Command::SetCurrentDesktop { index: 10 },
    ];
    expected.extend(placed(5, 0, 0, 1920, 1080));
    assert_eq!(requests, expected);
    assert_eq!(wm.context().screens[0].current_workspace_id, 0);
}

#[test]
fn the_focus_follows_the_pointer_onto_shown_windows_only() {
    let mut wm = horizontal_with(&[5, 7]);
    assert_eq!(wm.handle_event(Event::Enter { window: 7 }, HERE), Ok(vec![Command::Focus {
        window: 7
    }]));
    assert_eq!(wm.context().screens[0].focused_window, 7);
    assert_eq!(wm.handle_event(Event::Enter { window: 99 }, HERE), Ok(vec![]));
    assert_eq!(wm.context().screens[0].focused_window, 7);
    wm.handle_event(Event::KeyPress { keycode: 13 }, HERE).unwrap();
    assert_eq!(wm.handle_event(Event::Enter { window: 5 }, HERE), Ok(vec![]));
    assert_eq!(wm.context().screens[0].focused_window, 7);
}

#[test]
fn a_property_change_to_dock_takes_the_window_out_of_the_tiling() {
    let mut wm = horizontal_with(&[5, 7, 9]);
    wm.handle_event(
        Event::ConfigureRequest { window: 7, x: 1800, y: 0, width: 120, height: 1080 },
        HERE,
    )
    .unwrap();
    let requests = wm
        .handle_event(Event::PropertyChanged { window: 7, window_type: WindowType::Dock }, HERE)
        .unwrap();
    let mut expected = placed(5, 0, 0, 960, 1080);
    expected.extend(placed(9, 960, 0, 960, 1080));
    expected.push(Command::Move { window: 7, x: 1800, y: 0 });
    expected.push(Command::Resize { window: 7, width: 120, height: 1080 });
    expected.push(Command::Raise { window: 7 });
    assert_eq!(requests, expected);
    assert_eq!(wm.layout(HERE), Ok(expected));
    let record = wm.context().window(7).unwrap();
    assert_eq!(record.window_type, WindowType::Dock);
    assert_eq!(record.fixed_position, Some(Position { x: 1800, y: 0 }));
    assert_eq!(record.fixed_size, Some(Size { x: 120, y: 1080 }));
}

#[test]
fn a_property_change_to_normal_requests_nothing() {
    let mut wm = horizontal_with(&[5, 7]);
    wm.handle_event(Event::PropertyChanged { window: 7, window_type: WindowType::Dock }, HERE)
        .unwrap();
    let requests = wm
        .handle_event(Event::PropertyChanged { window: 7, window_type: WindowType::Normal }, HERE)
        .unwrap();
    assert_eq!(requests, vec![]);
    assert_eq!(wm.context().window(7).unwrap().window_type, WindowType::Normal);
    assert!(wm.load_window_properties(5, WindowType::Dock));
    assert!(!wm.load_window_properties(6, WindowType::Dock));
    assert_eq!(wm.context().window(5).unwrap().window_type, WindowType::Dock);
}

#[test]
fn a_property_change_of_an_unknown_window_is_passed_over() {
    let mut wm = horizontal_with(&[5]);
    let requests = wm
        .handle_event(Event::PropertyChanged { window: 6, window_type: WindowType::Dock }, HERE)
        .unwrap();
    assert_eq!(requests, vec![]);
    assert!(wm.context().window(6).is_none());
}

#[test]
fn a_configure_request_pins_the_geometry_of_a_known_window() {
    let mut wm = horizontal_with(&[5]);
    let requests = wm
        .handle_event(
            Event::ConfigureRequest { window: 5, x: -4, y: 6, width: 300, height: 200 },
            HERE,
        )
        .unwrap();
    assert_eq!(requests, placed(5, 0, 0, 1920, 1080));
    let record = wm.context().window(5).unwrap();
    assert_eq!(record.fixed_position, Some(Position { x: -4, y: 6 }));
    assert_eq!(record.fixed_size, Some(Size { x: 300, y: 200 }));
    assert_eq!(record.window_type, WindowType::Normal);
    let unknown = wm
        .handle_event(
            Event::ConfigureRequest { window: 6, x: 1, y: 1, width: 1, height: 1 },
            HERE,
        )
        .unwrap();
    assert_eq!(unknown, vec![]);
    assert!(wm.context().window(6).is_none());
}

#[test]
fn a_dock_without_pinned_geometry_is_only_raised() {
    let mut wm = horizontal_with(&[5, 7]);
    let requests = wm
        .handle_event(Event::PropertyChanged { window: 5, window_type: WindowType::Dock }, HERE)
        .unwrap();
    let mut expected = placed(7, 0, 0, 1920, 1080);
    expected.push(Command::Raise { window: 5 });
    assert_eq!(requests, expected);
    assert_eq!(wm.place_docks(HERE), vec![Command::Raise { window: 5 }]);
}

#[test]
fn a_window_lands_on_the_screen_under_the_pointer() {
    let mut wm = two_screens();
    wm.handle_event(Event::KeyPress { keycode: 33 }, HERE).unwrap();
    wm.handle_event(map(5), HERE).unwrap();
    let requests = wm.handle_event(map(6), (2000, 100)).unwrap();
    let mut expected = taken(6);
    expected.extend(placed(5, 0, 0, 1920, 1080));
    expected.extend(placed(6, 1920, 0, 1000, 500));
    assert_eq!(requests, expected);
    assert_eq!(wm.context().screens[0].workspaces[0].window_ids(), vec![5]);
    assert_eq!(wm.context().screens[1].workspaces[0].window_ids(), vec![6]);
    let switched = wm.handle_event(Event::KeyPress { keycode: 14 }, (2000, 100)).unwrap();
    let mut expected = vec![
        Command::Hide { window: 6 },
        Command::FocusRoot,
        Command::SetCurrentDesktop { index: 4 },
    ];
    expected.extend(placed(5, 0, 0, 1920, 1080));
    assert_eq!(switched, expected);
    assert_eq!(wm.context().screens[0].current_workspace_id, 0);
    assert_eq!(wm.context().screens[1].current_workspace_id, 4);
}

#[test]
fn a_layout_pass_repeats_itself() {
    let wm = horizontal_with(&[5, 7, 9]);
    let first = wm.layout(HERE).unwrap();
    let second = wm.layout(HERE).unwrap();
    assert_eq!(first, second);
    assert_eq!(first.len(), 9);
}

#[test]
fn a_run_answers_the_inputs_in_order() {
    let mut wm = one_screen();
    let inputs = vec![
        (Event::KeyPress { keycode: 33 }, HERE),
        (map(5), HERE),
        (Event::Unknown, HERE),
        (map(7), HERE),
        (Event::Enter { window: 5 }, HERE),
    ];
    let requests = wm.run(&inputs).unwrap();
    let mut expected = vec![Command::SetCurrentDesktop { index: 0 }];
    expected.extend(taken(5));
    expected.extend(placed(5, 0, 0, 1920, 1080));
    expected.extend(taken(7));
    expected.extend(placed(5, 0, 0, 960, 1080));
    expected.extend(placed(7, 960, 0, 960, 1080));
    expected.push(Command::Focus { window: 5 });
    assert_eq!(requests, expected);
    assert_eq!(wm.context().screens[0].focused_window, 5);
    let mut idle = one_screen();
    assert_eq!(idle.run(&vec![]), Ok(vec![Command::SetCurrentDesktop { index: 0 }]));
}

#[test]
fn every_window_of_a_workspace_has_a_record_after_a_run() {
    let mut wm = two_screens();
    let inputs = vec![
        (map(1), HERE),
        (map(2), (2000, 100)),
        (Event::KeyPress { keycode: 15 }, HERE),
        (map(3), HERE),
        (Event::Destroyed { window: 1 }, (2000, 100)),
        (Event::Destroyed { window: 50 }, HERE),
        (Event::MapRequest { window: 4, window_type: WindowType::Dock }, (2000, 100)),
    ];
    wm.run(&inputs).unwrap();
    let ctx = wm.context();
    let mut seen: Vec<u64> = Vec::new();
    for screen in ctx.screens.iter() {
        for workspace in screen.workspaces.iter() {
            for id in workspace.window_ids() {
                assert!(ctx.windows_by_id.contains_key(&id));
                assert!(!seen.contains(&id));
                seen.push(id);
            }
        }
    }
    seen.sort();
    assert_eq!(seen, vec![2, 3, 4]);
    assert_eq!(ctx.windows_by_id.len(), 3);
}

#[test]
fn a_window_shown_again_under_another_screen_moves_to_that_workspace() {
    let mut wm = two_screens();
    wm.handle_event(map(5), HERE).unwrap();
    wm.handle_event(map(5), HERE).unwrap();
    assert_eq!(wm.context().screens[0].workspaces[0].window_ids(), vec![5]);
    assert_eq!(wm.context().windows_by_id.len(), 1);
    wm.handle_event(map(5), (2000, 100)).unwrap();
    assert!(wm.context().screens[0].workspaces[0].window_ids().is_empty());
    assert_eq!(wm.context().screens[1].workspaces[0].window_ids(), vec![5]);
    assert_eq!(wm.context().windows_by_id.len(), 1);
    wm.handle_event(Event::Destroyed { window: 5 }, HERE).unwrap();
    assert!(wm.context().screens[0].workspaces[0].window_ids().is_empty());
    assert!(wm.context().screens[1].workspaces[0].window_ids().is_empty());
    assert!(wm.context().windows_by_id.is_empty());
}

#[test]
fn a_hidden_window_that_is_shown_again_leaves_its_hidden_workspace() {
    let mut wm = horizontal_with(&[5, 7]);
    wm.handle_event(Event::KeyPress { keycode: 12 }, HERE).unwrap();
    wm.handle_event(map(9), HERE).unwrap();
    let requests = wm.handle_event(map(7), HERE).unwrap();
    let mut expected = taken(7);
    expected.extend(placed(7, 0, 0, 960, 1080));
    expected.extend(placed(9, 960, 0, 960, 1080));
    assert_eq!(requests, expected);
    assert_eq!(wm.context().screens[0].workspaces[0].window_ids(), vec![5]);
    assert_eq!(wm.context().screens[0].workspaces[2].window_ids(), vec![7, 9]);
    assert_eq!(wm.context().windows_by_id.len(), 3);
    let back = wm.handle_event(Event::KeyPress { keycode: 10 }, HERE).unwrap();
    let mut expected = vec![
        Command::Hide { window: 7 },
        Command::Hide { window: 9 },
        Command::FocusRoot,
        Command::SetCurrentDesktop { index: 0 },
    ];
    expected.extend(placed(5, 0, 0, 1920, 1080));
    assert_eq!(back, expected);
}

#[test]
fn no_window_is_in_two_workspaces_after_windows_were_shown_again() {
    let mut wm = two_screens();
    let inputs = vec![
        (map(1), HERE),
        (map(2), HERE),
        (Event::KeyPress { keycode: 13 }, HERE),
        (map(1), HERE),
        (map(2), (2000, 100)),
        (Event::KeyPress { keycode: 17 }, (2000, 100)),
        (map(1), (2000, 100)),
        (Event::MapRequest { window: 2, window_type: WindowType::Dock }, (1920, 0)),
        (map(3), (0, 0)),
    ];
    wm.run(&inputs).unwrap();
    let ctx = wm.context();
    let mut seen: Vec<u64> = Vec::new();
    for screen in ctx.screens.iter() {
        for workspace in screen.workspaces.iter() {
            for id in workspace.window_ids() {
                assert!(ctx.windows_by_id.contains_key(&id));
                assert!(!seen.contains(&id));
                seen.push(id);
            }
        }
    }
    seen.sort();
    assert_eq!(seen, vec![1, 2, 3]);
    assert_eq!(ctx.windows_by_id.len(), 3);
    assert_eq!(ctx.screens[1].workspaces[7].window_ids(), vec![1, 2]);
    assert_eq!(ctx.screens[0].workspaces[3].window_ids(), vec![3]);
}

#[test]
fn showing_a_window_again_forgets_its_pinned_geometry() {
    let mut wm = horizontal_with(&[5]);
    wm.configure_window(5, Position { x: 1, y: 2 }, Size { x: 3, y: 4 }, HERE).unwrap();
    assert!(wm.context().window(5).unwrap().fixed_position.is_some());
    wm.register_window(5, WindowType::Dock, HERE).unwrap();
    let record = wm.context().window(5).unwrap();
    assert_eq!(record.fixed_position, None);
    assert_eq!(record.fixed_size, None);
    assert_eq!(record.window_type, WindowType::Dock);
}
