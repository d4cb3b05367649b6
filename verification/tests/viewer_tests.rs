use omaview::paths::{same_path_bytes, same_path_text};
use omaview::filmstrip::{slot_top, slot_visible, FilmstripCursor, Step, SLOT_HEIGHT};
use omaview::shortcuts::{action_for_key, AppAction, KeyName};
use omaview::viewport::{CropRatio, DoubleClick, ViewportMode};
use omaview::window::{plan_action, Command, TrashOutcome, ViewerStatus, WindowState};

fn paths(names: &[&str]) -> Vec<Vec<u8>> {
    names.iter().map(|n| n.as_bytes().to_vec()).collect()
}

#[test]
fn navigation_stays_inside_the_set() {
    let mut w = WindowState::new();
    assert_eq!(w.go_to_index(3), None);
    assert_eq!(w.current_path(), None);
    w.load_paths(paths(&["a", "b", "c"]), 7);
    assert_eq!(w.current_index(), 2);
    assert_eq!(w.next_target(), None);
    assert_eq!(w.prev_target(), Some(1));
    assert_eq!(w.go_to_index(0), Some(0));
    assert_eq!(w.prev_target(), None);
    assert_eq!(w.next_target(), Some(1));
    assert_eq!(w.go_to_index(99), Some(2));
    assert_eq!(w.current_path(), Some(&b"c".to_vec()));
}

#[test]
fn next_then_previous_returns() {
    let mut w = WindowState::new();
    w.load_paths(paths(&["a", "b", "c", "d"]), 1);
    let start = w.current_index();
    let next = w.next_target().unwrap();
    w.go_to_index(next);
    assert_eq!(w.prev_target(), Some(start));
}

#[test]
fn preload_order() {
    let mut w = WindowState::new();
    w.load_paths(paths(&["a", "b", "c", "d", "e"]), 0);
    assert_eq!(w.preload_targets(0), vec![1, 2]);
    assert_eq!(w.preload_targets(2), vec![3, 1, 4]);
    assert_eq!(w.preload_targets(3), vec![4, 2]);
    assert_eq!(w.preload_targets(4), vec![3]);
}

#[test]
fn trashing_moves_on() {
    let mut w = WindowState::new();
    assert_eq!(w.trash_current(), TrashOutcome::NothingOpen);
    w.load_paths(paths(&["a", "b", "a", "c"]), 2);
    assert_eq!(w.trash_current(), TrashOutcome::ShowIndex(1));
    assert_eq!(w.len(), 2);
    assert_eq!(w.path_at(0), &b"b".to_vec());
    assert_eq!(w.path_at(1), &b"c".to_vec());
    assert_eq!(w.trash_current(), TrashOutcome::ShowIndex(0));
    assert_eq!(w.current_path(), Some(&b"b".to_vec()));
    assert_eq!(w.trash_current(), TrashOutcome::Emptied);
    assert_eq!(w.len(), 0);
    assert_eq!(w.current_index(), 0);
}

#[test]
fn saved_copy_joins_the_set_once() {
    let mut w = WindowState::new();
    w.load_paths(paths(&["a", "b"]), 0);
    assert_eq!(w.add_saved_copy(b"b".to_vec()), 1);
    assert_eq!(w.len(), 2);
    assert_eq!(w.add_saved_copy(b"copy".to_vec()), 2);
    assert_eq!(w.len(), 3);
    assert_eq!(w.path_at(2), &b"copy".to_vec());
}

#[test]
fn zen_and_filmstrip() {
    let mut w = WindowState::new();
    assert!(!w.zen_mode());
    assert!(w.filmstrip_visible());
    assert!(w.save_button_visible(true));
    assert!(!w.save_button_visible(false));
    assert!(w.toggle_zen());
    assert!(!w.save_button_visible(true));
    assert!(!w.toggle_filmstrip());
    assert!(!w.filmstrip_visible());
    assert!(!w.toggle_filmstrip());
    assert!(w.filmstrip_visible());
    assert!(!w.toggle_zen());
    assert!(!w.toggle_filmstrip());
    assert!(w.toggle_filmstrip());
}

#[test]
fn shortcut_table() {
    assert_eq!(action_for_key(KeyName::Space, false, false), Some(AppAction::NextImage));
    assert_eq!(action_for_key(KeyName::BackSpace, false, false), Some(AppAction::PrevImage));
    assert_eq!(action_for_key(KeyName::Up, false, false), None);
    assert_eq!(action_for_key(KeyName::Up, true, false), Some(AppAction::ZoomIn));
    assert_eq!(action_for_key(KeyName::Down, true, false), Some(AppAction::ZoomOut));
    assert_eq!(action_for_key(KeyName::LowerR, false, false), Some(AppAction::RotateCw));
    assert_eq!(action_for_key(KeyName::LowerR, false, true), Some(AppAction::RotateCcw));
    assert_eq!(action_for_key(KeyName::UpperR, false, true), Some(AppAction::RotateCcw));
    assert_eq!(action_for_key(KeyName::UpperR, false, false), None);
    assert_eq!(action_for_key(KeyName::Question, false, true), Some(AppAction::ShowHelp));
    assert_eq!(action_for_key(KeyName::Slash, false, false), None);
    assert_eq!(action_for_key(KeyName::F1, false, false), Some(AppAction::ShowHelp));
    assert_eq!(action_for_key(KeyName::Digit2, false, false), Some(AppAction::CropRatio16_9));
    assert_eq!(action_for_key(KeyName::UpperE, false, true), Some(AppAction::ToggleAdjustments));
    assert_eq!(action_for_key(KeyName::Tab, false, false), Some(AppAction::ToggleZen));
    assert_eq!(action_for_key(KeyName::Delete, false, false), Some(AppAction::Trash));
    assert_eq!(action_for_key(KeyName::Escape, false, false), Some(AppAction::Escape));
    assert_eq!(action_for_key(KeyName::UpperQ, false, false), Some(AppAction::Quit));
    assert_eq!(action_for_key(KeyName::Other, true, true), None);
}

#[test]
fn escape_depends_on_where_one_is() {
    let home = ViewerStatus { on_home: true, crop_mode: false, fullscreen: false };
    let viewer = ViewerStatus { on_home: false, crop_mode: false, fullscreen: false };
    let cropping = ViewerStatus { on_home: false, crop_mode: true, fullscreen: true };
    assert_eq!(plan_action(AppAction::Escape, home), Command::CloseWindow);
    assert_eq!(plan_action(AppAction::Escape, viewer), Command::ShowHome);
    assert_eq!(plan_action(AppAction::Escape, cropping), Command::CancelCrop);
    assert_eq!(plan_action(AppAction::Quit, viewer), Command::CloseWindow);
}

#[test]
fn crop_shortcuts_need_crop_mode() {
    let viewer = ViewerStatus { on_home: false, crop_mode: false, fullscreen: false };
    let cropping = ViewerStatus { on_home: false, crop_mode: true, fullscreen: false };
    assert_eq!(plan_action(AppAction::Zoom100, viewer), Command::ZoomActualSize);
    assert_eq!(plan_action(AppAction::Zoom100, cropping), Command::SelectCropRatio(CropRatio::Freeform));
    assert_eq!(plan_action(AppAction::CropRatioSquare, viewer), Command::Nothing);
    assert_eq!(plan_action(AppAction::CropRatioSquare, cropping), Command::SelectCropRatio(CropRatio::Square));
    assert_eq!(plan_action(AppAction::CropRatio16_9, cropping), Command::SelectCropRatio(CropRatio::SixteenNine));
    assert_eq!(plan_action(AppAction::ApplyCrop, viewer), Command::Nothing);
    assert_eq!(plan_action(AppAction::ApplyCrop, cropping), Command::ApplyCrop);
    assert_eq!(plan_action(AppAction::ToggleCrop, viewer), Command::ToggleCrop);
    assert_eq!(plan_action(AppAction::ToggleFullscreen, viewer), Command::SetFullscreen(true));
    let full = ViewerStatus { on_home: false, crop_mode: false, fullscreen: true };
    assert_eq!(plan_action(AppAction::ToggleFullscreen, full), Command::SetFullscreen(false));
    assert_eq!(plan_action(AppAction::ToggleInfo, viewer), Command::ShowInfo);
}

#[test]
fn crop_ratio_aspects() {
    assert_eq!(CropRatio::Freeform.aspect(), None);
    assert_eq!(CropRatio::Square.aspect(), Some((1, 1)));
    assert_eq!(CropRatio::SixteenNine.aspect(), Some((16, 9)));
    assert_eq!(CropRatio::FourThree.aspect(), Some((4, 3)));
}

#[test]
fn viewport_modes() {
    let mut m = ViewportMode::new();
    assert!(m.is_fit());
    assert!(!m.is_in_crop_mode());
    assert_eq!(m.double_click(), DoubleClick::ActualSize);
    assert!(!m.is_fit());
    assert_eq!(m.double_click(), DoubleClick::Fitted);
    assert!(m.is_fit());
    m.set_crop_ratio(CropRatio::Square);
    assert!(m.toggle_crop());
    assert_eq!(m.crop_ratio(), CropRatio::Freeform);
    assert!(!m.scroll_zoom());
    assert!(m.is_fit());
    m.set_crop_ratio(CropRatio::FourThree);
    assert!(m.apply_crop());
    assert!(!m.apply_crop());
    assert!(m.toggle_crop());
    assert_eq!(m.double_click(), DoubleClick::AppliedCrop);
    assert!(!m.is_in_crop_mode());
    assert!(m.scroll_zoom());
    assert!(!m.is_fit());
    m.zoom_fit();
    assert!(m.is_fit());
    m.zoom_manually();
    assert!(!m.is_fit());
    assert!(m.toggle_crop());
    assert!(!m.toggle_crop());
    m.toggle_crop();
    m.set_image();
    assert!(!m.is_in_crop_mode());
    assert!(m.is_fit());
    m.toggle_crop();
    m.cancel_crop();
    assert!(!m.is_in_crop_mode());
}

#[test]
fn active_slot_is_centred() {
    for height in [0, 1, 300, 777] {
        for active in [0usize, 1, 5, 1000] {
            let top = slot_top(height, active, active);
            assert_eq!(top + SLOT_HEIGHT as i128, height as i128);
            assert_eq!(slot_top(height, active, active + 1), top + 2 * SLOT_HEIGHT as i128);
        }
    }
    // A 600 px strip, third image active: its slot spans 252..348 px.
    assert_eq!(slot_top(600, 2, 2), 504);
    assert_eq!(slot_top(600, 2, 0), 120);
    assert!(slot_visible(600, 2, 0));
    assert!(!slot_visible(600, 9, 0));
    assert!(!slot_visible(600, 0, 9));
    assert!(slot_visible(600, 0, 3));
}

#[test]
fn filmstrip_clicks_pick_the_slot_under_the_pointer() {
    let mut c = FilmstripCursor::new();
    c.set_paths(5, 2);
    // Slot 0 spans 60..156 px, slot 1 156..252, slot 2 252..348 in a 600 px strip.
    assert_eq!(c.click(600, 2 * 300), None);
    assert_eq!(c.click(600, 2 * 100), Some(0));
    assert_eq!(c.active_index(), 0);
    // Now slot 0 is centred: it spans 252..348 and slot 1 starts at 348.
    assert_eq!(c.click(600, 2 * 348), Some(1));
    assert_eq!(c.click(600, 2 * 252 - 1), Some(0));
    assert_eq!(c.click(600, 2 * 252 - 1 - 192 * 3), None);
    c.set_paths(2, 0);
    assert_eq!(c.click(600, 2 * 600), None);
}

#[test]
fn filmstrip_steps() {
    let mut c = FilmstripCursor::new();
    assert_eq!(c.scroll(Step::Next), None);
    assert_eq!(c.press(Step::Previous), None);
    c.set_paths(3, 0);
    assert_eq!(c.scroll(Step::Previous), None);
    assert_eq!(c.scroll(Step::Next), Some(1));
    assert_eq!(c.press(Step::Next), Some(2));
    assert_eq!(c.press(Step::Next), None);
    assert_eq!(c.scroll(Step::Previous), Some(1));
    assert!(!c.set_active_index(1));
    assert!(c.set_active_index(0));
    assert_eq!(c.count(), 3);
    c.set_paths(0, 4);
    assert_eq!(c.scroll(Step::Previous), None);
    assert_eq!(c.press(Step::Previous), Some(3));
}

#[test]
fn saved_copy_into_an_empty_set() {
    let mut w = WindowState::new();
    assert_eq!(w.add_saved_copy(b"/out.png".to_vec()), 0);
    assert_eq!(w.len(), 1);
    assert_eq!(w.current_path(), Some(&b"/out.png".to_vec()));
}

fn ratio(r: CropRatio) -> Option<f64> {
    r.aspect().map(|(w, h)| w as f64 / h as f64)
}

#[test]
fn test_crop_ratios() {
    assert_eq!(ratio(CropRatio::Freeform), None);
    assert!((ratio(CropRatio::Square).unwrap() - 1.0).abs() < 1e-6);
    assert!((ratio(CropRatio::SixteenNine).unwrap() - (16.0 / 9.0)).abs() < 1e-6);
}

#[test]
fn paths_compare_by_components() {
    assert!(same_path_bytes(b"a/./b.png", b"a/b.png"));
    assert!(same_path_bytes(b"/p//q/", b"/p/q"));
    assert!(!same_path_bytes(b"./a", b"a"));
    assert!(!same_path_bytes(b"/a", b"a"));
    assert!(!same_path_bytes(b"a/../b", b"b"));
    assert!(same_path_text("Pictures/", "Pictures"));
    assert!(!same_path_text("Pictures", "Pictur"));
}

#[test]
fn trashing_drops_every_spelling_of_the_path() {
    let mut w = WindowState::new();
    w.load_paths(paths(&["/p/a.png", "/p/b.png", "/p/./a.png"]), 0);
    assert_eq!(w.trash_current(), TrashOutcome::ShowIndex(0));
    assert_eq!(w.len(), 1);
    assert_eq!(w.path_at(0), &b"/p/b.png".to_vec());
    assert_eq!(w.add_saved_copy(b"/p//b.png".to_vec()), 0);
    assert_eq!(w.len(), 1);
}
