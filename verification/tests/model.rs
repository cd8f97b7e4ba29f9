use std::cmp::Ordering;
use std::collections::HashMap;
use tdawm::{
    Config, ConfigError, Context, Position, Screen, Size, TDAWmError, Window, WindowType,
    Workspace,
};

fn dock(id: u64) -> Window {
    Window { id, fixed_position: None, fixed_size: None, window_type: WindowType::Dock }
}

#[test]
fn a_fresh_record_is_tiled_and_unpinned() {
    let window = Window::from(42);
    assert_eq!(window.id, 42);
    assert_eq!(window.fixed_position, None);
    assert_eq!(window.fixed_size, None);
    assert_eq!(window.window_type, WindowType::Normal);
}

#[test]
fn records_compare_by_identifier_alone() {
    let pinned = Window {
        id: 3,
        fixed_position: Some(Position { x: 1, y: 2 }),
        fixed_size: Some(Size { x: 3, y: 4 }),
        window_type: WindowType::Dock,
    };
    assert!(pinned == Window::from(3));
    assert!(pinned != Window::from(4));
    assert_eq!(Window::from(3).partial_cmp(&Window::from(4)), Some(Ordering::Less));
    assert_eq!(pinned.partial_cmp(&Window::from(3)), Some(Ordering::Equal));
    assert_eq!(Window::from(9).partial_cmp(&pinned), Some(Ordering::Greater));
    assert!(Window::from(1) < Window::from(2));
}

#[test]
fn a_window_is_a_dock_only_if_its_property_says_so() {
    assert_eq!(WindowType::of_property(Some(400), 400), WindowType::Dock);
    assert_eq!(WindowType::of_property(Some(399), 400), WindowType::Normal);
    assert_eq!(WindowType::of_property(None, 400), WindowType::Normal);
    assert_eq!(WindowType::of_property(Some(0), 0), WindowType::Dock);
}

#[test]
fn a_workspace_is_a_set() {
    let mut workspace = Workspace::new();
    assert_eq!(workspace.count_windows(), 0);
    workspace.add_window(7);
    workspace.add_window(5);
    workspace.add_window(7);
    assert_eq!(workspace.count_windows(), 2);
    assert!(workspace.contains(5));
    assert!(workspace.contains(7));
    assert!(!workspace.contains(6));
    assert_eq!(workspace.window_ids(), vec![5, 7]);
    workspace.remove_window(&6);
    assert_eq!(workspace.window_ids(), vec![5, 7]);
    workspace.remove_window(&5);
    assert_eq!(workspace.window_ids(), vec![7]);
    workspace.update(&Window::from(7));
    workspace.update(&Window::from(2));
    assert_eq!(workspace.window_ids(), vec![2, 7]);
}

#[test]
fn normal_windows_come_in_ascending_order_without_docks_and_strangers() {
    let mut workspace = Workspace::new();
    for id in [30, 10, 40, 20, 50] {
        workspace.add_window(id);
    }
    let mut registry = HashMap::new();
    registry.insert(10, Window::from(10));
    registry.insert(20, dock(20));
    registry.insert(30, Window::from(30));
    registry.insert(50, Window::from(50));
    registry.insert(60, Window::from(60));
    let normal = workspace.iter_normal_windows(&registry);
    let ids: Vec<u64> = normal.iter().map(|w| w.id).collect();
    assert_eq!(ids, vec![10, 30, 50]);
    assert!(normal.iter().all(|w| w.window_type == WindowType::Normal));
    assert!(Workspace::new().iter_normal_windows(&registry).is_empty());
}

#[test]
fn a_new_screen_has_ten_empty_workspaces() {
    let screen = Screen::new_screen(1920, 1080, -5, 7);
    assert_eq!(screen.width, 1920);
    assert_eq!(screen.height, 1080);
    assert_eq!(screen.x, -5);
    assert_eq!(screen.y, 7);
    assert_eq!(screen.workspaces.len(), 10);
    assert!(screen.workspaces.iter().all(|w| w.count_windows() == 0));
    assert_eq!(screen.current_workspace_id, 0);
    assert_eq!(screen.focused_window, 0);
    assert!(screen.is_usable());
}

#[test]
fn a_screen_is_unusable_with_a_bad_index_or_a_far_corner() {
    let mut screen = Screen::new_screen(1920, 1080, 0, 0);
    screen.current_workspace_id = 10;
    assert!(!screen.is_usable());
    assert!(!Screen::new_screen(u32::MAX, 1080, 0, 0).is_usable());
    assert!(!Screen::new_screen(1920, 2147483647, 0, 1).is_usable());
    assert!(Screen::new_screen(1920, 2147483647, 0, 0).is_usable());
    assert!(Screen::new_screen(2147483647, 1080, -1, 0).is_usable());
}

#[test]
fn a_screen_finds_the_workspace_of_a_window() {
    let mut screen = Screen::new_screen(800, 600, 0, 0);
    screen.workspaces[3].add_window(11);
    screen.workspaces[6].add_window(11);
    screen.workspaces[6].add_window(12);
    assert_eq!(screen.window_workspace_index(11), Some(3));
    assert_eq!(screen.window_workspace_index(12), Some(6));
    assert_eq!(screen.window_workspace_index(13), None);
    assert_eq!(screen.window_workspace(12).unwrap().window_ids(), vec![11, 12]);
    assert_eq!(screen.window_workspace(11).unwrap().window_ids(), vec![11]);
    assert!(screen.window_workspace(13).is_none());
}

#[test]
fn only_the_shown_workspace_is_visible() {
    let mut screen = Screen::new_screen(800, 600, 0, 0);
    screen.current_workspace_mut().add_window(1);
    screen.workspaces[4].add_window(2);
    assert!(screen.has_window_visible(1));
    assert!(!screen.has_window_visible(2));
    screen.current_workspace_id = 4;
    assert!(!screen.has_window_visible(1));
    assert!(screen.has_window_visible(2));
    assert_eq!(screen.current_workspace().window_ids(), vec![2]);
    screen.remove_window(2);
    assert!(!screen.has_window_visible(2));
    assert_eq!(screen.workspaces[0].window_ids(), vec![1]);
}

fn two_screens() -> Context {
    Context {
        screens: vec![
            Screen::new_screen(1920, 1080, 0, 0),
            Screen::new_screen(1280, 1024, 1920, 0),
        ],
        windows_by_id: HashMap::new(),
    }
}

#[test]
fn the_focused_screen_is_the_one_under_the_pointer() {
    let ctx = two_screens();
    assert_eq!(ctx.focused_screen_index((10, 10)), 0);
    assert_eq!(ctx.focused_screen_index((1919, 1079)), 0);
    assert_eq!(ctx.focused_screen_index((1921, 1)), 1);
    assert_eq!(ctx.focused_screen_index((3199, 1023)), 1);
    assert_eq!(ctx.focused_screen((2000, 500)).width, 1280);
    assert_eq!(ctx.focused_screen((500, 500)).width, 1920);
}

#[test]
fn the_left_and_top_edges_belong_to_a_screen() {
    let ctx = Context {
        screens: vec![
            Screen::new_screen(1920, 1080, 0, 0),
            Screen::new_screen(1920, 1080, 1920, 0),
        ],
        windows_by_id: HashMap::new(),
    };
    assert_eq!(ctx.focused_screen_index((1920, 0)), 1);
    assert_eq!(ctx.focused_screen((1920, 0)).x, 1920);
    assert_eq!(ctx.focused_screen_index((1920, 10)), 1);
    assert_eq!(ctx.focused_screen_index((2000, 0)), 1);
    assert_eq!(ctx.focused_screen_index((1919, 0)), 0);
    assert_eq!(ctx.focused_screen_index((0, 0)), 0);
    let mut moved = ctx;
    moved.screens.swap(0, 1);
    assert_eq!(moved.focused_screen_index((0, 0)), 1);
    assert_eq!(moved.focused_screen_index((0, 1079)), 1);
    assert_eq!(moved.focused_screen_index((1919, 0)), 1);
    assert_eq!(moved.focused_screen_mut((0, 0)).x, 0);
}

#[test]
fn the_right_and_bottom_edges_do_not_belong_to_a_screen() {
    let ctx = Context {
        screens: vec![
            Screen::new_screen(100, 100, 500, 500),
            Screen::new_screen(100, 50, 10, 20),
        ],
        windows_by_id: HashMap::new(),
    };
    assert_eq!(ctx.focused_screen_index((10, 20)), 1);
    assert_eq!(ctx.focused_screen_index((109, 69)), 1);
    assert_eq!(ctx.focused_screen_index((110, 20)), 0);
    assert_eq!(ctx.focused_screen_index((10, 70)), 0);
    assert_eq!(ctx.focused_screen_index((110, 70)), 0);
    assert_eq!(ctx.focused_screen_index((9, 20)), 0);
    assert_eq!(ctx.focused_screen_index((10, 19)), 0);
}

#[test]
fn a_pointer_on_no_screen_falls_to_the_first_screen() {
    let ctx = two_screens();
    assert_eq!(ctx.focused_screen_index((-3, -3)), 0);
    assert_eq!(ctx.focused_screen_index((-1, 10)), 0);
    assert_eq!(ctx.focused_screen_index((3200, 10)), 0);
    assert_eq!(ctx.focused_screen_index((2000, 1024)), 0);
    assert_eq!(ctx.focused_screen_index((2000, 1050)), 0);
    assert_eq!(ctx.focused_screen_index((2000, -1)), 0);
    let none = Context { screens: vec![], windows_by_id: HashMap::new() };
    assert_eq!(none.focused_screen_index((5, 5)), 0);
}

#[test]
fn the_first_of_two_overlapping_screens_wins() {
    let ctx = Context {
        screens: vec![
            Screen::new_screen(100, 100, 50, 50),
            Screen::new_screen(1000, 1000, 0, 0),
            Screen::new_screen(1000, 1000, 0, 0),
        ],
        windows_by_id: HashMap::new(),
    };
    assert_eq!(ctx.focused_screen_index((60, 60)), 0);
    assert_eq!(ctx.focused_screen_index((10, 10)), 1);
    assert_eq!(ctx.focused_screen_index((50, 60)), 0);
    assert_eq!(ctx.focused_screen_index((49, 60)), 1);
    assert_eq!(ctx.focused_screen_index((150, 60)), 1);
}

#[test]
fn a_context_files_and_forgets_windows() {
    let mut ctx = two_screens();
    ctx.add_window((2000, 10), Window::from(8));
    ctx.add_window((10, 10), dock(9));
    assert_eq!(ctx.screens[1].workspaces[0].window_ids(), vec![8]);
    assert_eq!(ctx.screens[0].workspaces[0].window_ids(), vec![9]);
    assert_eq!(ctx.window(8).map(|w| w.window_type), Some(WindowType::Normal));
    assert_eq!(ctx.window(9).map(|w| w.window_type), Some(WindowType::Dock));
    assert!(ctx.window(10).is_none());
    assert_eq!(ctx.showing_screen(8), Some(1));
    assert_eq!(ctx.showing_screen(10), None);
    assert!(ctx.update_window(dock(8)));
    assert!(!ctx.update_window(dock(10)));
    assert_eq!(ctx.window(8).map(|w| w.window_type), Some(WindowType::Dock));
    assert!(ctx.window(10).is_none());
    ctx.focus(1, 8);
    assert_eq!(ctx.screens[1].focused_window, 8);
    assert_eq!(ctx.screens[0].focused_window, 0);
    ctx.show_workspace((2000, 10), 3);
    assert_eq!(ctx.screens[1].current_workspace_id, 3);
    assert_eq!(ctx.showing_screen(8), None);
    ctx.show_workspace((2000, 10), 10);
    assert_eq!(ctx.screens[1].current_workspace_id, 3);
    ctx.add_window((10, 10), Window::from(8));
    assert!(ctx.screens[1].workspaces[0].window_ids().is_empty());
    assert_eq!(ctx.screens[0].workspaces[0].window_ids(), vec![8, 9]);
    assert_eq!(ctx.window(8).map(|w| w.window_type), Some(WindowType::Normal));
    ctx.clear_window(9);
    assert_eq!(ctx.screens[0].workspaces[0].window_ids(), vec![8]);
    assert_eq!(ctx.window(9).map(|w| w.window_type), Some(WindowType::Dock));
    ctx.add_window((10, 10), dock(9));
    ctx.add_window((2000, 10), Window::from(8));
    ctx.show_workspace((2000, 10), 0);
    assert_eq!(ctx.screens[1].workspaces[3].window_ids(), vec![8]);
    ctx.remove_window(8);
    ctx.remove_window(77);
    assert!(ctx.window(8).is_none());
    assert!(ctx.screens[1].workspaces[0].window_ids().is_empty());
    assert!(ctx.screens[1].workspaces[3].window_ids().is_empty());
    assert_eq!(ctx.screens[0].workspaces[0].window_ids(), vec![9]);
}

#[test]
fn errors_describe_themselves() {
    assert_eq!(TDAWmError::NoScreenFound.message(), "No screen");
    assert_eq!(ConfigError::HomeNotDefined.message(), "$HOME is not defined");
    assert_eq!(
        ConfigError::UnableToReadConfig(String::from("/home/u/.config/tdawm/tdawm.toml"))
            .message(),
        "unable to read config: /home/u/.config/tdawm/tdawm.toml"
    );
    assert_eq!(
        ConfigError::TomlSyntaxError(String::from("expected `=`")).message(),
        "invalid toml file: expected `=`"
    );
}

#[test]
fn a_configuration_lists_the_startup_commands() {
    let config = Config { startup: vec![String::from("feh --bg-scale a.jpg")] };
    assert_eq!(config.startup.len(), 1);
    assert_eq!(config.clone(), config);
}
