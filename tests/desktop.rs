use portfolio_desktop::desktop::{
    window_label, ClickAction, DesktopItem, DesktopItemType, DesktopState, Extent, Point,
    WindowContent,
};

fn ids_of(d: &DesktopState) -> Vec<u64> {
    d.windows.iter().map(|w| w.id).collect()
}

fn order_matches_windows(d: &DesktopState) -> bool {
    let mut a = d.window_order.clone();
    let mut b = ids_of(d);
    a.sort();
    b.sort();
    a == b
}

fn item(kind: DesktopItemType) -> DesktopItem {
    DesktopItem {
        id: "x".to_string(),
        name: "X".to_string(),
        icon: "folder".to_string(),
        position: Point { x: 0, y: 0 },
        item_type: kind,
    }
}

#[test]
fn new_desktop_starts_empty_with_five_icons() {
    let d = DesktopState::new();
    assert!(d.windows.is_empty());
    assert!(d.window_order.is_empty());
    assert_eq!(d.active_window, None);
    assert_eq!(d.next_window_id, 1);
    assert_eq!(d.desktop_items.len(), 5);
    assert_eq!(d.desktop_items[0].item_type, DesktopItemType::Folder("projects".to_string()));
    assert_eq!(d.desktop_items[2].position, Point { x: 50, y: 250 });
    let ids: Vec<&str> = d.desktop_items.iter().map(|i| i.id.as_str()).collect();
    assert_eq!(ids, vec!["projects", "blog", "about", "github", "linkedin"]);
    let names: Vec<&str> = d.desktop_items.iter().map(|i| i.name.as_str()).collect();
    assert_eq!(names, vec!["Projects", "Blog", "About Me", "GitHub", "LinkedIn"]);
    let icons: Vec<&str> = d.desktop_items.iter().map(|i| i.icon.as_str()).collect();
    assert_eq!(icons, vec!["folder", "folder", "document", "link", "link"]);
    assert_eq!(
        d.desktop_items[4].item_type,
        DesktopItemType::Link("https://linkedin.com/in/asheshkaji".to_string())
    );
}

#[test]
fn open_focus_close_scenario() {
    let mut d = DesktopState::new();
    let a = d.open_window(WindowContent::About, "About Me".to_string());
    assert_eq!(window_label(a), "window_1");
    assert_eq!(d.active_window, Some(a));
    let b = d.open_window(WindowContent::BlogList, "Blog".to_string());
    assert_eq!(window_label(b), "window_2");
    assert_eq!(d.active_window, Some(b));
    assert_eq!(d.window_order, vec![a, b]);
    d.focus_window(a);
    assert_eq!(d.window_order, vec![b, a]);
    assert_eq!(d.active_window, Some(a));
    d.close_window(b);
    assert_eq!(ids_of(&d), vec![a]);
    assert_eq!(d.window_order, vec![a]);
    assert_eq!(d.active_window, Some(a));
}

#[test]
fn open_cascades_and_sets_defaults() {
    let mut d = DesktopState::new();
    d.open_window(WindowContent::About, "About Me".to_string());
    d.open_window(WindowContent::Contact, "Contact".to_string());
    let c = d.open_window(WindowContent::Project("p".to_string()), "P".to_string());
    let w = d.get_window(c).unwrap();
    assert_eq!(w.position, Point { x: 210, y: 160 });
    assert_eq!(w.size, Extent { w: 600, h: 400 });
    assert_eq!(w.z_index, 102);
    assert_eq!(w.title, "P");
    assert_eq!(w.content, WindowContent::Project("p".to_string()));
    assert!(!w.is_minimized && !w.is_maximized && !w.is_dragging);
}

#[test]
fn open_puts_new_window_on_top_with_highest_rank() {
    let mut d = DesktopState::new();
    d.open_window(WindowContent::About, "a".to_string());
    d.open_window(WindowContent::Contact, "b".to_string());
    let c = d.open_window(WindowContent::BlogList, "c".to_string());
    assert_eq!(d.active_window, Some(c));
    assert_eq!(*d.window_order.last().unwrap(), c);
    let top = d.get_window(c).unwrap().z_index;
    assert!(d.windows.iter().all(|w| w.z_index <= top));
}

#[test]
fn ids_are_never_reused_after_close() {
    let mut d = DesktopState::new();
    let a = d.open_window(WindowContent::About, "a".to_string());
    let b = d.open_window(WindowContent::About, "b".to_string());
    d.close_window(b);
    d.close_window(a);
    let c = d.open_window(WindowContent::About, "c".to_string());
    assert_eq!(c, 3);
    assert!(c > b && b > a);
    assert_eq!(window_label(c), "window_3");
    assert_eq!(d.next_window_id, 4);
}

#[test]
fn closing_twice_is_a_no_op() {
    let mut d = DesktopState::new();
    let a = d.open_window(WindowContent::About, "a".to_string());
    let b = d.open_window(WindowContent::Contact, "b".to_string());
    d.close_window(a);
    let once = d.clone();
    d.close_window(a);
    assert_eq!(d, once);
    assert_eq!(d.active_window, Some(b));
}

#[test]
fn closing_last_window_clears_focus() {
    let mut d = DesktopState::new();
    let a = d.open_window(WindowContent::About, "a".to_string());
    d.close_window(a);
    assert_eq!(d.active_window, None);
    assert!(d.window_order.is_empty());
}

#[test]
fn closing_a_background_window_focuses_the_top() {
    let mut d = DesktopState::new();
    let a = d.open_window(WindowContent::About, "a".to_string());
    let b = d.open_window(WindowContent::Contact, "b".to_string());
    d.focus_window(a);
    d.close_window(b);
    assert_eq!(d.active_window, Some(a));
}

#[test]
fn order_and_windows_hold_the_same_ids() {
    let mut d = DesktopState::new();
    let a = d.open_window(WindowContent::About, "a".to_string());
    let b = d.open_window(WindowContent::Contact, "b".to_string());
    let c = d.open_window(WindowContent::BlogList, "c".to_string());
    assert!(order_matches_windows(&d));
    d.focus_window(a);
    assert!(order_matches_windows(&d));
    d.close_window(b);
    assert!(order_matches_windows(&d));
    d.minimize_window(c);
    d.toggle_maximize(a);
    assert!(order_matches_windows(&d));
    d.close_window(99);
    assert!(order_matches_windows(&d));
}

#[test]
fn focus_on_topmost_keeps_order() {
    let mut d = DesktopState::new();
    let a = d.open_window(WindowContent::About, "a".to_string());
    let b = d.open_window(WindowContent::Contact, "b".to_string());
    d.focus_window(b);
    assert_eq!(d.window_order, vec![a, b]);
    assert_eq!(d.active_window, Some(b));
    assert_eq!(d.get_window(b).unwrap().z_index, 102);
}

#[test]
fn focus_on_missing_window_changes_nothing() {
    let mut d = DesktopState::new();
    d.open_window(WindowContent::About, "a".to_string());
    let before = d.clone();
    d.focus_window(42);
    d.minimize_window(42);
    d.restore_window(42);
    d.toggle_maximize(42);
    assert_eq!(d, before);
}

#[test]
fn toggle_maximize_uses_fixed_geometry() {
    let mut d = DesktopState::new();
    let a = d.open_window(WindowContent::About, "a".to_string());
    d.toggle_maximize(a);
    let w = d.get_window(a).unwrap();
    assert!(w.is_maximized);
    assert_eq!(w.position, Point { x: 0, y: 0 });
    assert_eq!(w.size, Extent { w: 800, h: 600 });
    d.toggle_maximize(a);
    let w = d.get_window(a).unwrap();
    assert!(!w.is_maximized);
    assert_eq!(w.position, Point { x: 150, y: 100 });
    assert_eq!(w.size, Extent { w: 600, h: 400 });
}

#[test]
fn unmaximize_ignores_a_dragged_position() {
    let mut d = DesktopState::new();
    d.open_window(WindowContent::About, "a".to_string());
    let b = d.open_window(WindowContent::Contact, "b".to_string());
    d.windows[1].position = Point { x: 333, y: 222 };
    d.toggle_maximize(b);
    d.toggle_maximize(b);
    assert_eq!(d.get_window(b).unwrap().position, Point { x: 150, y: 100 });
}

#[test]
fn minimize_and_restore_keep_order_and_focus() {
    let mut d = DesktopState::new();
    let a = d.open_window(WindowContent::About, "a".to_string());
    let b = d.open_window(WindowContent::Contact, "b".to_string());
    d.minimize_window(a);
    assert!(d.get_window(a).unwrap().is_minimized);
    assert_eq!(d.minimized_windows(), vec![a]);
    assert_eq!(d.window_order, vec![a, b]);
    assert_eq!(d.active_window, Some(b));
    d.restore_window(a);
    assert!(!d.get_window(a).unwrap().is_minimized);
    assert!(d.minimized_windows().is_empty());
    assert_eq!(d.active_window, Some(b));
}

#[test]
fn clicking_folders_and_documents_opens_windows() {
    let mut d = DesktopState::new();
    let items = d.desktop_items.clone();
    assert_eq!(d.handle_desktop_item_click(&items[0]), ClickAction::Opened(1));
    assert_eq!(d.get_window(1).unwrap().content, WindowContent::ProjectList);
    assert_eq!(d.get_window(1).unwrap().title, "Projects");
    assert_eq!(d.handle_desktop_item_click(&items[1]), ClickAction::Opened(2));
    assert_eq!(d.get_window(2).unwrap().content, WindowContent::BlogList);
    assert_eq!(d.get_window(2).unwrap().title, "Blog");
    assert_eq!(d.handle_desktop_item_click(&items[2]), ClickAction::Opened(3));
    assert_eq!(d.get_window(3).unwrap().content, WindowContent::About);
    assert_eq!(d.get_window(3).unwrap().title, "About Me");
    assert_eq!(d.active_window, Some(3));
}

#[test]
fn clicking_a_link_hands_back_its_address() {
    let mut d = DesktopState::new();
    let items = d.desktop_items.clone();
    let before = d.clone();
    assert_eq!(
        d.handle_desktop_item_click(&items[3]),
        ClickAction::OpenLink("https://github.com/ashesh8500".to_string())
    );
    assert_eq!(d, before);
}

#[test]
fn clicking_unknown_items_does_nothing() {
    let mut d = DesktopState::new();
    let before = d.clone();
    let kinds = vec![
        DesktopItemType::Folder("music".to_string()),
        DesktopItemType::Document("resume".to_string()),
        DesktopItemType::Application("terminal".to_string()),
    ];
    for k in kinds {
        assert_eq!(d.handle_desktop_item_click(&item(k)), ClickAction::Nothing);
    }
    assert_eq!(d, before);
}

#[test]
fn labels_write_the_id_in_decimal() {
    assert_eq!(window_label(0), "window_0");
    assert_eq!(window_label(7), "window_7");
    assert_eq!(window_label(1203), "window_1203");
    assert_eq!(window_label(u64::MAX), "window_18446744073709551615");
}

#[test]
fn can_open_on_a_fresh_desktop() {
    let d = DesktopState::new();
    assert!(d.can_open());
    let mut full = DesktopState::new();
    full.next_window_id = u64::MAX;
    assert!(!full.can_open());
}
