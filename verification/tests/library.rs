use std::collections::BTreeSet;
use wtftw::arrange::ScreenArrangement;
use wtftw::decode::{
    decode_event, screen_rectangles, size_hint_from, RawEvent, ScreenInfo, BUTTON_PRESS, CONFIGURE_REQUEST, ENTER_NOTIFY,
    KEY_PRESS, MAP_REQUEST, UNMAP_NOTIFY,
};
use wtftw::events::{EventFacts, Reaction};
use wtftw::handlers::{
    encode_window_ids, parse_window_ids, read_window_ids, spawn_on, terminal_arguments, window_ids_argument, WindowIdsError,
};
use wtftw::layout::{
    avoid_struts, check_avoid_struts, check_split_vertically, check_tile, mirror_rect, parse_strut, parse_strut_partial, split_horizontally_at, split_vertically,
    tall_layout, tile, Direction, Strut,
};
use wtftw::stack::Stack;
use wtftw::window_manager::{tile_window_size, WindowManager};
use wtftw::window_system::{
    KeyCommand, KeyModifiers, MouseCommand, Rectangle, SizeHint, WindowChanges, WindowSystemEvent, MOD1MASK, SHIFTMASK,
};
use wtftw::workspaces::Workspaces;

type Rect = (f32, f32, f32, f32);

fn tags(n: usize) -> Vec<String> {
    (0..n).map(|i| format!("{}", i + 1)).collect()
}

fn screens(n: usize) -> Vec<Rectangle> {
    (0..n).map(|i| Rectangle(i as i32 * 100, 0, 100, 100)).collect()
}

#[test]
fn stack_focus_up_then_down_is_identity() {
    let s = Stack::new(1u64, vec![2, 3], vec![4, 5, 6]);
    assert!(s.focus_up().focus_down() == s);
    assert!(s.focus_down().focus_up() == s);
    let top = Stack::new(1u64, vec![], vec![4, 5, 6]);
    assert!(top.focus_up() == Stack::new(6, vec![5, 4, 1], vec![]));
    assert!(top.focus_up().focus_down() == top);
}

#[test]
fn stack_focus_moves_keep_order() {
    let s = Stack::new(1u64, vec![2, 3], vec![4, 5, 6]);
    assert_eq!(s.focus_up().integrate(), s.integrate());
    assert_eq!(s.focus_down().integrate(), s.integrate());
    assert_eq!(s.reverse().integrate(), vec![6, 5, 4, 1, 2, 3]);
}

#[test]
fn stack_swaps() {
    let s = Stack::new(1u64, vec![2, 3], vec![4, 5, 6]);
    assert!(s.swap_up() == Stack::new(1, vec![3], vec![2, 4, 5, 6]));
    assert!(s.swap_up().swap_down() == s);
    assert!(s.swap_down().swap_up() == s);
    let top = Stack::new(1u64, vec![], vec![4, 5]);
    assert!(top.swap_up() == Stack::new(1, vec![5, 4], vec![]));
    assert!(s.swap_master() == Stack::new(1, vec![], vec![2, 3, 4, 5, 6]));
    let one_up = Stack::new(1u64, vec![2], vec![4]);
    assert!(one_up.swap_master() == Stack::new(1, vec![], vec![2, 4]));
}

#[test]
fn stack_filter_moves_focus() {
    let s = Stack::new(1u64, vec![2, 3], vec![4, 5]);
    assert!(s.filter(|&x| x != 1) == Some(Stack::new(4, vec![2, 3], vec![5])));
    assert!(s.filter(|&x| x == 3) == Some(Stack::new(3, vec![], vec![])));
    assert!(s.filter(|&x| x == 2 || x == 3) == Some(Stack::new(2, vec![3], vec![])));
    assert!(s.filter(|_| false) == None);
    assert_eq!(s.filter(|&x| x % 2 == 1).unwrap().integrate(), vec![3, 1, 5]);
}

#[test]
fn layout_split_vertically() {
    let r = split_vertically(3, Rectangle(0, 0, 100, 90));
    assert_eq!(r, vec![Rectangle(0, 0, 100, 30), Rectangle(0, 30, 100, 30), Rectangle(0, 60, 100, 30)]);
    let r = split_vertically(3, Rectangle(5, 0, 10, 10));
    assert_eq!(r, vec![Rectangle(5, 0, 10, 3), Rectangle(5, 3, 10, 3), Rectangle(5, 6, 10, 4)]);
    assert_eq!(split_vertically(0, Rectangle(1, 2, 3, 4)), vec![Rectangle(1, 2, 3, 4)]);
}

#[test]
fn layout_tile() {
    let t = tile(50, Rectangle(0, 0, 100, 100), 1, 3);
    assert_eq!(t, vec![Rectangle(0, 0, 50, 100), Rectangle(50, 0, 50, 50), Rectangle(50, 50, 50, 50)]);
    let t = tile(50, Rectangle(0, 0, 100, 100), 2, 2);
    assert_eq!(t, vec![Rectangle(0, 0, 100, 50), Rectangle(0, 50, 100, 50)]);
    assert_eq!(split_horizontally_at(30, Rectangle(10, 0, 100, 20)), (Rectangle(10, 0, 30, 20), Rectangle(40, 0, 70, 20)));
}

#[test]
fn layout_tall() {
    let s = Some(Stack::new(1u64, vec![], vec![2, 3]));
    let r = tall_layout(&s, Rectangle(0, 0, 100, 100), 1, 50);
    assert_eq!(r, vec![(1, Rectangle(0, 0, 50, 100)), (2, Rectangle(50, 0, 50, 50)), (3, Rectangle(50, 50, 50, 50))]);
    assert!(tall_layout(&None, Rectangle(0, 0, 100, 100), 1, 50).is_empty());
}

#[test]
fn layout_mirror_and_directions() {
    assert_eq!(mirror_rect(&Rectangle(1, 2, 3, 4)), Rectangle(2, 1, 4, 3));
    assert_eq!(mirror_rect(&mirror_rect(&Rectangle(1, 2, 3, 4))), Rectangle(1, 2, 3, 4));
    assert_eq!(Direction::Up.opposite(), Direction::Down);
    assert_eq!(Direction::Left.opposite(), Direction::Right);
    assert_eq!(Direction::Right.opposite().opposite(), Direction::Right);
}

#[test]
fn struts() {
    let p = parse_strut_partial(vec![0, 5, 20, 0, 0, 0, 1, 2, 3, 4, 0, 0]);
    assert_eq!(p, vec![Strut(Direction::Right, 5, 1, 2), Strut(Direction::Up, 20, 3, 4)]);
    assert!(parse_strut_partial(vec![1, 2, 3]).is_empty());
    let f = parse_strut(vec![0, 0, 25, 0]);
    assert_eq!(f, vec![Strut(Direction::Up, 25, 0, u64::MAX)]);
    assert!(parse_strut(vec![1, 2]).is_empty());
    let screen = Rectangle(0, 0, 800, 600);
    let s = vec![Strut(Direction::Up, 20, 0, 0), Strut(Direction::Left, 10, 0, 0)];
    assert_eq!(avoid_struts(screen, &s, &vec![Direction::Up]), Rectangle(0, 20, 800, 580));
    assert_eq!(avoid_struts(screen, &s, &vec![Direction::Up, Direction::Left]), Rectangle(10, 20, 790, 580));
    assert_eq!(avoid_struts(screen, &s, &vec![]), screen);
}

#[test]
fn rectangles() {
    let r = Rectangle(10, 10, 20, 20);
    assert!(r.is_inside(10, 30));
    assert!(!r.is_inside(9, 15));
    assert!(r.overlaps(&Rectangle(25, 25, 10, 10)));
    assert!(!r.overlaps(&Rectangle(30, 10, 10, 10)));
    assert!(Rectangle(25, 25, 10, 10).overlaps(&r));
}

#[test]
fn key_and_mouse_commands() {
    let m = KeyModifiers::from_bits_truncate(MOD1MASK).union(KeyModifiers::from_bits_truncate(SHIFTMASK));
    assert_eq!(m.get_mask(), 9);
    assert!(m.contains(KeyModifiers::from_bits_truncate(SHIFTMASK)));
    assert_eq!(KeyModifiers::from_bits_truncate(0x1ff).bits(), 0xff);
    let k = KeyCommand::new(36, m);
    assert_eq!(k.key, 36);
    let b = MouseCommand::new(1, m);
    assert_eq!(b.button, 1);
    assert!(SizeHint { min_size: Some((10, 10)), max_size: Some((10, 10)) }.is_fixed_size());
    assert!(!SizeHint { min_size: Some((10, 10)), max_size: Some((20, 10)) }.is_fixed_size());
    assert!(!SizeHint { min_size: None, max_size: None }.is_fixed_size());
}

#[test]
fn workspaces_new() {
    let w: Workspaces<Rect> = Workspaces::new(tags(3), screens(2));
    assert_eq!(w.current_tag(), 0);
    assert_eq!(w.visible.len(), 1);
    assert_eq!(w.visible[0].workspace.id, 1);
    assert_eq!(w.visible[0].screen_id, 1);
    assert_eq!(w.hidden.len(), 1);
    assert_eq!(w.hidden[0].id, 2);
    assert_eq!(w.number_workspaces(), 3);
    assert_eq!(w.len(), 0);
    let w2: Workspaces<Rect> = Workspaces::new(tags(2), screens(3));
    assert_eq!(w2.visible.len(), 1);
    assert_eq!(w2.hidden.len(), 0);
}

#[test]
fn workspaces_view() {
    let w: Workspaces<Rect> = Workspaces::new(tags(3), screens(2));
    let v = w.view(2);
    assert_eq!(v.current_tag(), 2);
    assert_eq!(v.current.screen_id, 0);
    assert_eq!(v.hidden[0].id, 0);
    let v = w.view(1);
    assert_eq!(v.current_tag(), 1);
    assert_eq!(v.current.screen_id, 1);
    assert_eq!(v.visible[0].workspace.id, 0);
    let v = w.view(7);
    assert_eq!(v.current_tag(), 0);
    let g = w.greedy_view(1);
    assert_eq!(g.current_tag(), 1);
    assert_eq!(g.current.screen_id, 0);
    assert_eq!(g.visible[0].workspace.id, 0);
    assert_eq!(g.visible[0].screen_id, 1);
}

#[test]
fn workspaces_insert_delete() {
    let w: Workspaces<Rect> = Workspaces::new(tags(3), screens(1));
    let a = w.insert_up(10).insert_up(11);
    assert!(a.contains(10));
    assert_eq!(a.peek(), Some(11));
    assert_eq!(a.all_windows(), vec![11, 10]);
    assert_eq!(a.insert_up(10).all_windows(), vec![11, 10]);
    let d = a.delete(11);
    assert!(!d.contains(11));
    assert_eq!(d.peek(), Some(10));
    let d = d.delete(10);
    assert_eq!(d.peek(), None);
    assert_eq!(d.len(), 0);
    let f = a.float(10, (0.0, 0.0, 0.5, 0.5));
    assert_eq!(f.len(), 2);
    assert_eq!(a.float(99, (0.0, 0.0, 0.5, 0.5)).len(), 3);
    assert_eq!(f.sink(10).len(), 2);
    assert!(!f.delete(10).contains(10));
}

#[test]
fn workspaces_focus_and_shift() {
    let w: Workspaces<Rect> = Workspaces::new(tags(3), screens(1));
    let a = w.insert_up(10).insert_up(11).insert_up(12);
    assert_eq!(a.focus_up().peek(), Some(10));
    assert_eq!(a.focus_down().peek(), Some(11));
    assert_eq!(a.find_tag(10), Some(0));
    assert_eq!(a.find_tag(99), None);
    let s = a.shift_window(2, 11);
    assert_eq!(s.current_tag(), 0);
    assert_eq!(s.find_tag(11), Some(2));
    assert_eq!(s.hidden[1].peek(), Some(11));
    assert_eq!(s.all_windows_with_workspaces(), vec![(10, 0), (12, 0), (11, 2)]);
    let f = s.focus_window(11);
    assert_eq!(f.current_tag(), 2);
    assert_eq!(f.peek(), Some(11));
    let f = a.focus_window(10);
    assert_eq!(f.peek(), Some(10));
    assert_eq!(f.all_windows(), vec![12, 11, 10]);
    let sh = a.shift(1);
    assert_eq!(sh.find_tag(12), Some(1));
    let sp = spawn_on(a.clone(), 10, 2);
    assert_eq!(sp.find_tag(10), Some(2));
    assert_eq!(a.shift_master().current.workspace.stack.unwrap(), Stack::new(12, vec![], vec![11, 10]));
}

#[test]
fn window_manager_unmap_counts() {
    let mut m: WindowManager<Rect> = WindowManager::new(tags(2), screens(1));
    assert!(!m.is_waiting_unmap(5));
    m.insert_or_update_unmap(5);
    m.insert_or_update_unmap(5);
    assert_eq!(m.waiting_unmap.get(&5), Some(&2));
    m.update_unmap(5);
    assert_eq!(m.waiting_unmap.get(&5), Some(&1));
    m.update_unmap(5);
    assert!(!m.is_waiting_unmap(5));
    m.insert_or_update_unmap(6);
    m.remove_from_unmap(6);
    assert!(!m.is_waiting_unmap(6));
    let stopped = m.exit();
    assert!(!stopped.running);
}

#[test]
fn window_manager_decisions() {
    let mut m: WindowManager<Rect> = WindowManager::new(tags(3), screens(2));
    assert!(m.view(5).is_none());
    assert_eq!(m.view(2).unwrap().current_tag(), 2);
    let fixed = SizeHint { min_size: Some((5, 5)), max_size: Some((5, 5)) };
    let free = SizeHint { min_size: None, max_size: None };
    m.workspaces = m.manage(20, free, (0.0, 0.0, 1.0, 1.0));
    m.workspaces = m.manage(21, fixed, (0.1, 0.1, 0.2, 0.2));
    assert!(m.workspaces.floating.contains_key(&21));
    assert!(!m.workspaces.floating.contains_key(&20));
    assert!(m.is_window_managed(20));
    assert!(m.unmanage(99).is_none());
    assert!(!m.unmanage(21).unwrap().contains(21));
    assert!(m.focus(20, 1).is_some());
    assert_eq!(m.focus(20, 1).unwrap().peek(), Some(20));
    assert!(m.focus(21, 1).is_none());
    m.rescreen(screens(1));
    assert_eq!(m.workspaces.visible.len(), 0);
    assert_eq!(m.workspaces.current_tag(), 0);
    m.focus_up();
    assert_eq!(m.workspaces.peek(), Some(20));
}

#[test]
fn window_ids_json() {
    assert_eq!(encode_window_ids(&vec![(1, 2), (3, 4)]), "[[1,2],[3,4]]");
    assert_eq!(parse_window_ids("[[1,2],[3,4]]"), Ok(vec![(1, 2), (3, 4)]));
    assert_eq!(parse_window_ids("not json"), Err(WindowIdsError::Decode));
    let w: Workspaces<Rect> = Workspaces::new(tags(2), screens(1));
    let a = w.insert_up(7).insert_up(8);
    assert_eq!(window_ids_argument(&a), "[[7,0],[8,0]]");
}

#[test]
fn window_ids_round_trip() {
    let ids = vec![(4_000_000_000u64, 0u32), (1, 9), (u64::MAX, u32::MAX)];
    let text = encode_window_ids(&ids);
    assert_eq!(parse_window_ids(&text), Ok(ids));
    assert_eq!(encode_window_ids(&vec![]), "[]");
    assert_eq!(parse_window_ids("[]"), Ok(vec![]));
}

#[test]
fn terminal_argument_splitting() {
    assert!(terminal_arguments("").is_empty());
    assert_eq!(terminal_arguments("-e vim"), vec!["-e".to_string(), "vim".to_string()]);
    assert_eq!(terminal_arguments("a  b"), vec!["a".to_string(), "".to_string(), "b".to_string()]);
    assert_eq!(terminal_arguments(" x "), vec!["".to_string(), "x".to_string(), "".to_string()]);
    assert_eq!(terminal_arguments("caf\u{e9} \u{3bb}"), vec!["caf\u{e9}".to_string(), "\u{3bb}".to_string()]);
    assert_eq!(terminal_arguments(" "), vec!["".to_string(), "".to_string()]);
}

#[test]
fn fitting_checks() {
    assert!(check_split_vertically(3, Rectangle(0, 0, 100, 90)));
    assert!(!check_split_vertically(2, Rectangle(0, i32::MAX, 10, 10)));
    assert!(check_tile(50, Rectangle(0, 0, 100, 100), 1, 3));
    assert!(!check_tile(u32::MAX, Rectangle(i32::MAX, 0, 100, 100), 1, 3));
    let s = vec![Strut(Direction::Up, 20, 0, 0)];
    assert!(check_avoid_struts(Rectangle(0, 0, 800, 600), &s, &vec![Direction::Up]));
    assert!(!check_avoid_struts(Rectangle(0, 0, 800, 10), &s, &vec![Direction::Up]));
    assert_eq!(tile_window_size(Rectangle(0, 0, 100, 50), 2), (96, 46));
    assert_eq!(tile_window_size(Rectangle(0, 0, 4, 4), 2), (0, 0));
}

#[test]
fn workspaces_well_formed() {
    let w: Workspaces<Rect> = Workspaces::new(tags(3), screens(2));
    assert!(w.is_well_formed());
    let mut bad = w.clone();
    bad.hidden[0].id = 0;
    assert!(!bad.is_well_formed());
    let mut bad = w.clone();
    bad.visible[0].screen_id = 0;
    assert!(!bad.is_well_formed());
}

fn tiled(a: &ScreenArrangement) -> Vec<u64> {
    match &a.tiled {
        Some(s) => s.integrate(),
        None => vec![],
    }
}

#[test]
fn arrangement_of_screens() {
    let mut m: WindowManager<Rect> = WindowManager::new(tags(3), screens(2));
    m.workspaces = m.workspaces.insert_up(1).insert_up(2).float(2, (0.1, 0.1, 0.5, 0.5));
    let mut ws = m.workspaces.insert_up(3).float(1, (0.0, 0.0, 0.2, 0.2));
    ws.visible[0].workspace.stack = Some(Stack::new(3, vec![], vec![4]));
    let a = m.arrange(&ws);
    assert_eq!(a.len(), 2);
    assert_eq!(a[0].screen_detail, Rectangle(0, 0, 100, 100));
    assert_eq!(a[0].workspace_id, 0);
    assert_eq!(tiled(&a[0]), vec![3]);
    assert_eq!(a[0].floating, vec![2]);
    assert_eq!(a[1].workspace_id, 1);
    assert_eq!(a[1].screen_detail, Rectangle(100, 0, 100, 100));
    assert_eq!(tiled(&a[1]), vec![4]);
    assert!(a[1].floating.is_empty());
    let mut only_shared = ws.clone();
    only_shared.visible[0].workspace.stack = Some(Stack::new(3, vec![], vec![]));
    assert!(m.arrange(&only_shared)[1].tiled.is_none());
}

fn set(v: Vec<u64>) -> BTreeSet<u64> {
    v.into_iter().collect()
}

#[test]
fn windows_shown_and_hidden() {
    let mut m: WindowManager<Rect> = WindowManager::new(tags(3), screens(1));
    m.workspaces = m.workspaces.insert_up(5).insert_up(2);
    let ws = m.workspaces.insert_up(9).insert_up(1).delete(5);
    assert_eq!(m.new_windows(&ws), set(vec![1, 9]));
    assert!(m.new_windows(&m.workspaces.clone()).is_empty());
    let new_windows = m.new_windows(&ws);
    let hide = m.windows_to_hide(&new_windows, &vec![2, 1]);
    assert_eq!(hide, set(vec![5, 9]));
    assert_eq!(m.windows_to_hide(&BTreeSet::new(), &vec![]), set(vec![2, 5]));
    m.insert_or_update_unmap(9);
    let hide_list: Vec<u64> = hide.iter().copied().collect();
    m.commit_windows(ws.clone(), &hide_list);
    assert_eq!(m.workspaces.all_windows(), ws.all_windows());
    assert_eq!(m.waiting_unmap.get(&5), Some(&1));
    assert_eq!(m.waiting_unmap.get(&9), Some(&2));
    assert_eq!(m.waiting_unmap.len(), 2);
}


fn facts() -> EventFacts {
    EventFacts {
        root: 1,
        overrides_redirect: false,
        focus_follows_mouse: true,
        has_mouse_handler: false,
        has_key_handler: false,
        dragging: false,
    }
}

#[test]
fn event_reactions() {
    let mut m: WindowManager<Rect> = WindowManager::new(tags(2), screens(1));
    m.workspaces = m.workspaces.insert_up(10).insert_up(11).float(11, (0.0, 0.0, 0.5, 0.5));
    let f = facts();
    assert!(matches!(m.react(WindowSystemEvent::ConfigurationNotification(1), f), Reaction::Rescreen));
    assert!(matches!(m.react(WindowSystemEvent::ConfigurationNotification(10), f), Reaction::Ignore));
    let changes = WindowChanges { x: 0, y: 0, width: 5, height: 5, border_width: 0, sibling: 0, stack_mode: 0 };
    assert!(matches!(m.react(WindowSystemEvent::ConfigurationRequest(10, changes, 3), f), Reaction::Configure(10, _, 3, false)));
    assert!(matches!(m.react(WindowSystemEvent::ConfigurationRequest(11, changes, 3), f), Reaction::Configure(11, _, 3, true)));
    assert!(matches!(m.react(WindowSystemEvent::ConfigurationRequest(12, changes, 3), f), Reaction::Configure(12, _, 3, true)));
    assert!(matches!(m.react(WindowSystemEvent::WindowCreated(12), f), Reaction::Manage(12)));
    assert!(matches!(m.react(WindowSystemEvent::WindowCreated(10), f), Reaction::Ignore));
    let redirect = EventFacts { overrides_redirect: true, ..f };
    assert!(matches!(m.react(WindowSystemEvent::WindowCreated(12), redirect), Reaction::Ignore));
    assert!(matches!(m.react(WindowSystemEvent::WindowUnmapped(10, true), f), Reaction::Unmanage(10)));
    assert!(matches!(m.react(WindowSystemEvent::WindowUnmapped(10, false), f), Reaction::Ignore));
    assert!(matches!(m.react(WindowSystemEvent::WindowDestroyed(10), f), Reaction::Forget(10)));
    assert!(matches!(m.react(WindowSystemEvent::WindowDestroyed(12), f), Reaction::Ignore));
    assert!(matches!(m.react(WindowSystemEvent::Enter(10), f), Reaction::Focus(10)));
    let no_follow = EventFacts { focus_follows_mouse: false, ..f };
    assert!(matches!(m.react(WindowSystemEvent::Enter(10), no_follow), Reaction::Ignore));
    let button = MouseCommand::new(1, KeyModifiers::from_bits_truncate(MOD1MASK));
    let bound = EventFacts { has_mouse_handler: true, ..f };
    assert!(matches!(m.react(WindowSystemEvent::ButtonPressed(1, 10, button, 0, 0), bound), Reaction::MouseHandler(_, 10)));
    assert!(matches!(m.react(WindowSystemEvent::ButtonPressed(1, 0, button, 0, 0), bound), Reaction::Ignore));
    assert!(matches!(m.react(WindowSystemEvent::ButtonPressed(10, 0, button, 0, 0), bound), Reaction::Ignore));
    assert!(matches!(m.react(WindowSystemEvent::ButtonPressed(10, 0, button, 0, 0), f), Reaction::Focus(10)));
    assert!(matches!(m.react(WindowSystemEvent::ButtonPressed(1, 10, button, 0, 0), f), Reaction::Ignore));
    let dragging = EventFacts { dragging: true, ..f };
    assert!(matches!(m.react(WindowSystemEvent::ButtonReleased, dragging), Reaction::EndDrag));
    assert!(matches!(m.react(WindowSystemEvent::ButtonReleased, f), Reaction::Ignore));
    assert!(matches!(m.react(WindowSystemEvent::MouseMotion(3, 4), dragging), Reaction::Drag(3, 4)));
    assert!(matches!(m.react(WindowSystemEvent::MouseMotion(3, 4), f), Reaction::Ignore));
    let key = KeyCommand::new(36, KeyModifiers::from_bits_truncate(MOD1MASK));
    let keyed = EventFacts { has_key_handler: true, ..f };
    assert!(matches!(m.react(WindowSystemEvent::KeyPressed(1, key), keyed), Reaction::KeyHandler(k) if k.key == 36));
    assert!(matches!(m.react(WindowSystemEvent::KeyPressed(1, key), f), Reaction::Ignore));
    assert!(matches!(m.react(WindowSystemEvent::UnknownEvent, f), Reaction::Ignore));
    assert!(matches!(m.react(WindowSystemEvent::Leave(10), f), Reaction::Ignore));
}

#[test]
fn layout_stack_leaves_out_floating() {
    let mut m: WindowManager<Rect> = WindowManager::new(tags(2), screens(1));
    m.workspaces = m.workspaces.insert_up(10).insert_up(11).insert_up(12).float(11, (0.0, 0.0, 0.5, 0.5));
    let s = m.layout_stack(&m.workspaces.current.workspace.stack.clone());
    assert_eq!(s.unwrap().integrate(), vec![12, 10]);
    let only = m.layout_stack(&Some(Stack::new(11, vec![], vec![])));
    assert!(only.is_none());
    assert!(m.layout_stack(&None).is_none());
}

fn raw(kind: i32) -> RawEvent {
    RawEvent {
        kind,
        window: 42,
        subwindow: 43,
        send_event: false,
        detail: 0,
        state: 0,
        button: 0,
        keysym: 0,
        x_root: 0,
        y_root: 0,
        x: 0,
        y: 0,
        width: 0,
        height: 0,
        border_width: 0,
        above: 0,
        value_mask: 0,
        message_type: 0,
        format: 0,
        data: [0; 5],
    }
}

#[test]
fn decoding_events() {
    assert!(matches!(decode_event(&raw(MAP_REQUEST)), WindowSystemEvent::WindowCreated(42)));
    assert!(matches!(decode_event(&RawEvent { send_event: true, ..raw(UNMAP_NOTIFY) }), WindowSystemEvent::WindowUnmapped(42, true)));
    assert!(matches!(decode_event(&raw(UNMAP_NOTIFY)), WindowSystemEvent::WindowUnmapped(42, false)));
    assert!(matches!(decode_event(&raw(ENTER_NOTIFY)), WindowSystemEvent::Enter(42)));
    assert!(matches!(decode_event(&RawEvent { detail: 2, ..raw(ENTER_NOTIFY) }), WindowSystemEvent::UnknownEvent));
    let key = decode_event(&RawEvent { state: 0x18 | 0x100, keysym: 0x71, ..raw(KEY_PRESS) });
    match key {
        WindowSystemEvent::KeyPressed(42, k) => {
            assert_eq!(k.key, 0x71);
            assert_eq!(k.mask.bits(), MOD1MASK);
        }
        _ => panic!("not a key press"),
    }
    let b = decode_event(&RawEvent { state: 9, button: 3, x_root: 5, y_root: -1, ..raw(BUTTON_PRESS) });
    match b {
        WindowSystemEvent::ButtonPressed(42, 43, c, 5, y) => {
            assert_eq!(c.button, 3);
            assert_eq!(c.mask.bits(), 9);
            assert_eq!(y, u32::MAX);
        }
        _ => panic!("not a button press"),
    }
    let c = decode_event(&RawEvent { x: 1, y: 2, width: 30, height: 40, border_width: 1, above: 7, detail: 3, value_mask: 15, ..raw(CONFIGURE_REQUEST) });
    match c {
        WindowSystemEvent::ConfigurationRequest(42, ch, 15) => {
            assert_eq!((ch.x, ch.y, ch.width, ch.height, ch.border_width, ch.sibling, ch.stack_mode), (1, 2, 30, 40, 1, 7, 3));
        }
        _ => panic!("not a configure request"),
    }
    assert!(matches!(decode_event(&raw(99)), WindowSystemEvent::UnknownEvent));
}

#[test]
fn screens_and_size_hints() {
    assert_eq!(screen_rectangles(&vec![], 1024, 768), vec![Rectangle(0, 0, 1024, 768)]);
    let infos = vec![
        ScreenInfo { x_org: 0, y_org: 0, width: 800, height: 600 },
        ScreenInfo { x_org: 800, y_org: -10, width: 640, height: 480 },
    ];
    assert_eq!(screen_rectangles(&infos, 1, 1), vec![Rectangle(0, 0, 800, 600), Rectangle(800, -10, 640, 480)]);
    let h = size_hint_from(16 | 32, 10, 20, 10, 20);
    assert!(h.min_size == Some((10, 20)) && h.max_size == Some((10, 20)));
    assert!(h.is_fixed_size());
    let h = size_hint_from(16, 10, 20, 30, 40);
    assert!(h.min_size == Some((10, 20)) && h.max_size.is_none());
    let h = size_hint_from(0, 10, 20, 30, 40);
    assert!(h.min_size.is_none() && h.max_size.is_none());
}

fn no_repeats(v: &Vec<u64>) -> bool {
    let mut seen = v.clone();
    seen.sort();
    seen.dedup();
    seen.len() == v.len()
}

#[test]
fn windows_stay_unique() {
    let w: Workspaces<Rect> = Workspaces::new(tags(4), screens(2));
    let mut a = w.insert_up(1).insert_up(2).insert_up(3);
    a = a.insert_up(2).view(1).insert_up(4).insert_up(1).greedy_view(0);
    assert!(no_repeats(&a.all_windows()));
    a = a.shift_window(3, 2).focus_window(4).swap_up().swap_master().shift_master();
    assert!(no_repeats(&a.all_windows()));
    a = a.delete(4).view(3).insert_up(4).shift(0).focus_up().swap_down();
    assert!(no_repeats(&a.all_windows()));
    let mut all = a.all_windows();
    all.sort();
    assert_eq!(all, vec![1, 2, 3, 4]);
    let deleted = a.delete(3);
    assert_eq!(deleted.all_windows(), a.all_windows().into_iter().filter(|&x| x != 3).collect::<Vec<_>>());
}

#[test]
fn reading_window_ids() {
    assert_eq!(read_window_ids(Ok(vec![(5, 1)])), Ok(vec![(5, 1)]));
    let failed = serde_json::from_str::<Vec<(u64, u32)>>("[[1]]");
    assert!(failed.is_err());
    assert_eq!(read_window_ids(failed), Err(WindowIdsError::Decode));
    assert_eq!(parse_window_ids("[[1]]"), Err(WindowIdsError::Decode));
    assert_eq!(parse_window_ids(" [ [9, 3] ] "), Ok(vec![(9, 3)]));
}

#[test]
fn rescreen_keeps_every_workspace() {
    let mut m: WindowManager<Rect> = WindowManager::new(tags(3), screens(2));
    m.workspaces = m.workspaces.insert_up(1).view(1).insert_up(2);
    let before = m.workspaces.workspaces().iter().map(|w| w.id).collect::<Vec<_>>();
    assert_eq!(before, vec![1, 0, 2]);
    m.rescreen(vec![Rectangle(0, 0, 50, 50), Rectangle(50, 0, 70, 50)]);
    assert_eq!(m.workspaces.workspaces().iter().map(|w| w.id).collect::<Vec<_>>(), before);
    assert_eq!(m.workspaces.current.screen_detail, Rectangle(0, 0, 50, 50));
    assert_eq!(m.workspaces.current.screen_id, 0);
    assert_eq!(m.workspaces.visible[0].screen_id, 1);
    assert_eq!(m.workspaces.visible[0].screen_detail, Rectangle(50, 0, 70, 50));
    // with fewer screens, the workspace of the screen that is gone is hidden
    m.rescreen(vec![Rectangle(0, 0, 100, 100)]);
    assert_eq!(m.workspaces.workspaces().iter().map(|w| w.id).collect::<Vec<_>>(), before);
    assert_eq!(m.workspaces.visible.len(), 0);
    assert_eq!(m.workspaces.hidden.iter().map(|w| w.id).collect::<Vec<_>>(), vec![0, 2]);
    let mut sorted = m.workspaces.all_windows();
    sorted.sort();
    assert_eq!(sorted, vec![1, 2]);
    assert!(m.workspaces.is_well_formed());
    // with more screens, hidden workspaces are shown and no longer hidden
    m.rescreen(screens(4));
    assert_eq!(m.workspaces.workspaces().iter().map(|w| w.id).collect::<Vec<_>>(), before);
    assert_eq!(m.workspaces.visible.len(), 2);
    assert!(m.workspaces.hidden.is_empty());
    assert_eq!(m.workspaces.visible[1].screen_id, 2);
    assert!(m.workspaces.is_well_formed());
}

#[test]
fn shifting_leaves_other_windows() {
    let w: Workspaces<Rect> = Workspaces::new(tags(4), screens(2));
    let a = w.insert_up(1).insert_up(2).view(2).insert_up(3).view(1).insert_up(4).view(0);
    let before: Vec<Option<u32>> = [1, 3, 4].iter().map(|&x| a.find_tag(x)).collect();
    assert_eq!(before, vec![Some(0), Some(2), Some(1)]);
    let s = a.shift_window(3, 2);
    let after: Vec<Option<u32>> = [1, 3, 4].iter().map(|&x| s.find_tag(x)).collect();
    assert_eq!(after, before);
    assert_eq!(s.find_tag(2), Some(3));
}
