use tdawm::{
    Command, Context, DWMLayout, HorizontalLayout, Layout, Screen, TDAWmError, VerticalLayout,
    Window, WindowType,
};
use std::collections::HashMap;

fn context_with(ids: &[u64]) -> Context {
    let mut screen = Screen::new_screen(1920, 1080, 0, 0);
    let mut windows_by_id = HashMap::new();
    for id in ids {
        screen.current_workspace_mut().add_window(*id);
        windows_by_id.insert(*id, Window::from(*id));
    }
    Context { screens: vec![screen], windows_by_id }
}

fn placed(window: u64, x: i32, y: i32, width: u32, height: u32) -> Vec<Command> {
    vec![
        Command::Move { window, x, y },
        Command::Resize { window, width, height },
        Command::Show { window },
    ]
}

#[test]
fn horizontal_layout_splits_two_windows_into_columns() {
    let ctx = context_with(&[7, 5]);
    let requests = HorizontalLayout::init().layout(&ctx).unwrap();
    let mut expected = placed(5, 0, 0, 960, 1080);
    expected.extend(placed(7, 960, 0, 960, 1080));
    assert_eq!(requests, expected);
}

#[test]
fn vertical_layout_splits_three_windows_into_rows() {
    let ctx = context_with(&[5, 7, 9]);
    let requests = VerticalLayout::init().layout(&ctx).unwrap();
    let mut expected = placed(5, 0, 0, 1920, 360);
    expected.extend(placed(7, 0, 360, 1920, 360));
    expected.extend(placed(9, 0, 720, 1920, 360));
    assert_eq!(requests, expected);
}

#[test]
fn master_stack_gives_the_master_the_left_half() {
    let ctx = context_with(&[5, 7, 9]);
    let mut layout = DWMLayout::init();
    layout.set_master(5);
    let requests = layout.layout(&ctx).unwrap();
    let mut expected = placed(5, 0, 0, 960, 1080);
    expected.extend(placed(7, 960, 0, 960, 540));
    expected.extend(placed(9, 960, 540, 960, 540));
    assert_eq!(requests, expected);
}

#[test]
fn layout_of_an_empty_workspace_requests_nothing() {
    let ctx = context_with(&[]);
    assert_eq!(HorizontalLayout::init().layout(&ctx), Ok(vec![]));
    assert_eq!(VerticalLayout::init().layout(&ctx), Ok(vec![]));
    assert_eq!(DWMLayout::init().layout(&ctx), Ok(vec![]));
}

#[test]
fn layout_without_a_screen_is_an_error() {
    let ctx = Context { screens: vec![], windows_by_id: HashMap::new() };
    assert_eq!(HorizontalLayout::init().layout(&ctx), Err(TDAWmError::NoScreenFound));
    assert_eq!(VerticalLayout::init().layout(&ctx), Err(TDAWmError::NoScreenFound));
    assert_eq!(DWMLayout::init().layout(&ctx), Err(TDAWmError::NoScreenFound));
}

#[test]
fn docks_are_left_out_of_the_partition() {
    let mut ctx = context_with(&[5, 7, 9]);
    ctx.windows_by_id.get_mut(&7).unwrap().window_type = WindowType::Dock;
    let requests = HorizontalLayout::init().layout(&ctx).unwrap();
    let mut expected = placed(5, 0, 0, 960, 1080);
    expected.extend(placed(9, 960, 0, 960, 1080));
    assert_eq!(requests, expected);
}

#[test]
fn columns_drop_the_remainder_of_the_width() {
    let mut screen = Screen::new_screen(1000, 700, 100, -50);
    let mut windows_by_id = HashMap::new();
    for id in [3, 1, 2] {
        screen.current_workspace_mut().add_window(id);
        windows_by_id.insert(id, Window::from(id));
    }
    let ctx = Context { screens: vec![screen], windows_by_id };
    let requests = HorizontalLayout::init().layout(&ctx).unwrap();
    let mut expected = placed(1, 100, -50, 333, 700);
    expected.extend(placed(2, 433, -50, 333, 700));
    expected.extend(placed(3, 766, -50, 333, 700));
    assert_eq!(requests, expected);
    let rows = VerticalLayout::init().layout(&ctx).unwrap();
    let mut expected = placed(1, 100, -50, 1000, 233);
    expected.extend(placed(2, 100, 183, 1000, 233));
    expected.extend(placed(3, 100, 416, 1000, 233));
    assert_eq!(rows, expected);
}

#[test]
fn more_windows_than_pixels_get_an_empty_column_each() {
    let mut screen = Screen::new_screen(2, 2, 0, 0);
    let mut windows_by_id = HashMap::new();
    for id in [1, 2, 3] {
        screen.current_workspace_mut().add_window(id);
        windows_by_id.insert(id, Window::from(id));
    }
    let ctx = Context { screens: vec![screen], windows_by_id };
    let requests = HorizontalLayout::init().layout(&ctx).unwrap();
    let mut expected = placed(1, 0, 0, 0, 2);
    expected.extend(placed(2, 0, 0, 0, 2));
    expected.extend(placed(3, 0, 0, 0, 2));
    assert_eq!(requests, expected);
}

#[test]
fn a_single_window_fills_the_screen_whoever_is_master() {
    let ctx = context_with(&[5]);
    let mut layout = DWMLayout::init();
    assert_eq!(layout.layout(&ctx), Ok(placed(5, 0, 0, 1920, 1080)));
    layout.set_master(5);
    assert_eq!(layout.layout(&ctx), Ok(placed(5, 0, 0, 1920, 1080)));
    layout.set_master(6);
    assert_eq!(layout.layout(&ctx), Ok(placed(5, 0, 0, 1920, 1080)));
}

#[test]
fn without_a_master_among_them_all_windows_share_the_stack() {
    let ctx = context_with(&[5, 7, 9]);
    let mut layout = DWMLayout::init();
    layout.set_master(6);
    let requests = layout.layout(&ctx).unwrap();
    let mut expected = placed(5, 960, 0, 960, 360);
    expected.extend(placed(7, 960, 360, 960, 360));
    expected.extend(placed(9, 960, 720, 960, 360));
    assert_eq!(requests, expected);
}

#[test]
fn only_the_master_stack_layout_minds_the_master() {
    let ctx = context_with(&[5, 7]);
    let mut columns = HorizontalLayout::init();
    let before = columns.layout(&ctx);
    columns.set_master(7);
    assert_eq!(columns.layout(&ctx), before);
    let mut rows = VerticalLayout::init();
    let before = rows.layout(&ctx);
    rows.set_master(7);
    assert_eq!(rows.layout(&ctx), before);
    let mut stack = DWMLayout::init();
    let before = stack.layout(&ctx);
    stack.set_master(7);
    assert_ne!(stack.layout(&ctx), before);
    assert_eq!(stack.master, 7);
}

#[test]
fn every_screen_is_tiled_and_an_empty_one_gets_nothing() {
    let mut first = Screen::new_screen(800, 600, 0, 0);
    let empty = Screen::new_screen(800, 600, 800, 0);
    let mut third = Screen::new_screen(400, 300, 1600, 0);
    let mut windows_by_id = HashMap::new();
    for id in [1, 2] {
        first.current_workspace_mut().add_window(id);
        windows_by_id.insert(id, Window::from(id));
    }
    third.current_workspace_mut().add_window(3);
    windows_by_id.insert(3, Window::from(3));
    let ctx = Context { screens: vec![first, empty, third], windows_by_id };
    let mut expected = placed(1, 0, 0, 400, 600);
    expected.extend(placed(2, 400, 0, 400, 600));
    expected.extend(placed(3, 1600, 0, 400, 300));
    assert_eq!(HorizontalLayout::init().layout(&ctx), Ok(expected));
    let mut stack = DWMLayout::init();
    stack.set_master(2);
    let mut expected = placed(1, 400, 0, 400, 600);
    expected.extend(placed(2, 0, 0, 400, 600));
    expected.extend(placed(3, 1600, 0, 400, 300));
    assert_eq!(stack.layout(&ctx), Ok(expected));
}

#[test]
fn windows_of_hidden_workspaces_are_not_tiled() {
    let mut ctx = context_with(&[5, 7]);
    ctx.screens[0].workspaces[2].add_window(9);
    ctx.windows_by_id.insert(9, Window::from(9));
    let shown = HorizontalLayout::init().layout(&ctx).unwrap();
    assert_eq!(shown.len(), 6);
    assert!(!shown.contains(&Command::Show { window: 9 }));
    ctx.screens[0].current_workspace_id = 2;
    assert_eq!(HorizontalLayout::init().layout(&ctx), Ok(placed(9, 0, 0, 1920, 1080)));
}

#[test]
fn strategies_are_known_by_their_keys() {
    assert_eq!(HorizontalLayout::init().id(), "horizontal");
    assert_eq!(VerticalLayout::init().id(), "vertical");
    assert_eq!(DWMLayout::init().id(), "dwm");
    assert_eq!(DWMLayout::init().master, 0);
}
