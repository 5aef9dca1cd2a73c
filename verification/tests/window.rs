use tinygui::window::{
    default_screen, CreateWindow, Endian, Request, Screen, Window, EVENT_MASK_ALL, EVENT_MASK_BUTTON_1_MOTION,
    EVENT_MASK_BUTTON_2_MOTION, EVENT_MASK_BUTTON_3_MOTION, EVENT_MASK_BUTTON_4_MOTION,
    EVENT_MASK_BUTTON_5_MOTION, EVENT_MASK_BUTTON_MOTION, EVENT_MASK_BUTTON_PRESS,
    EVENT_MASK_BUTTON_RELEASE, EVENT_MASK_COLOR_MAP_CHANGE, EVENT_MASK_ENTER_WINDOW,
    EVENT_MASK_EXPOSURE, EVENT_MASK_FOCUS_CHANGE, EVENT_MASK_KEYMAP_STATE, EVENT_MASK_KEY_PRESS,
    EVENT_MASK_KEY_RELEASE, EVENT_MASK_LEAVE_WINDOW, EVENT_MASK_NO_EVENT,
    EVENT_MASK_OWNER_GRAB_BUTTON, EVENT_MASK_POINTER_MOTION, EVENT_MASK_POINTER_MOTION_HINT,
    EVENT_MASK_PROPERTY_CHANGE, EVENT_MASK_RESIZE_REDIRECT, EVENT_MASK_STRUCTURE_NOTIFY,
    EVENT_MASK_SUBSTRUCTURE_NOTIFY, EVENT_MASK_SUBSTRUCTURE_REDIRECT,
    EVENT_MASK_VISIBILITY_CHANGE,
};

fn screen() -> Screen {
    Screen { root: 0x0000_0123, root_visual: 0x21, white_pixel: 0x00ff_ffff }
}

#[test]
fn construction_requests_the_default_window() {
    let mut window = Window::new(0x0040_0001, screen(), Endian::Little);
    let batch = window.map_and_flush();
    assert_eq!(batch.len(), 2);
    assert_eq!(
        batch[0],
        Request::CreateWindow(CreateWindow {
            depth: 0,
            window: 0x0040_0001,
            parent: 0x0000_0123,
            x: 0,
            y: 0,
            width: 800,
            height: 500,
            border_width: 10,
            class: 1,
            visual: 0x21,
            back_pixel: 0x00ff_ffff,
            event_mask: 0x01ff_ffff,
        })
    );
}

#[test]
fn map_and_flush_maps_behind_what_was_queued() {
    let mut window = Window::new(77, screen(), Endian::Big);
    let batch = window.map_and_flush();
    assert_eq!(batch.len(), 2);
    assert!(matches!(batch[0], Request::CreateWindow(_)));
    assert_eq!(batch[1], Request::MapWindow(77));
}

#[test]
fn second_flush_holds_the_map_request_alone() {
    let mut window = Window::new(77, screen(), Endian::Little);
    window.map_and_flush();
    assert_eq!(window.map_and_flush(), vec![Request::MapWindow(77)]);
    assert_eq!(window.map_and_flush(), vec![Request::MapWindow(77)]);
}

#[test]
fn window_keeps_its_identifier() {
    let mut window = Window::new(u32::MAX, screen(), Endian::Little);
    assert_eq!(window.id(), u32::MAX);
    window.map_and_flush();
    assert_eq!(window.id(), u32::MAX);
}

#[test]
fn every_event_category_is_selected() {
    let union = EVENT_MASK_BUTTON_1_MOTION
        | EVENT_MASK_BUTTON_2_MOTION
        | EVENT_MASK_BUTTON_3_MOTION
        | EVENT_MASK_BUTTON_4_MOTION
        | EVENT_MASK_BUTTON_5_MOTION
        | EVENT_MASK_BUTTON_MOTION
        | EVENT_MASK_BUTTON_PRESS
        | EVENT_MASK_BUTTON_RELEASE
        | EVENT_MASK_COLOR_MAP_CHANGE
        | EVENT_MASK_ENTER_WINDOW
        | EVENT_MASK_EXPOSURE
        | EVENT_MASK_FOCUS_CHANGE
        | EVENT_MASK_KEYMAP_STATE
        | EVENT_MASK_KEY_PRESS
        | EVENT_MASK_KEY_RELEASE
        | EVENT_MASK_LEAVE_WINDOW
        | EVENT_MASK_NO_EVENT
        | EVENT_MASK_OWNER_GRAB_BUTTON
        | EVENT_MASK_POINTER_MOTION
        | EVENT_MASK_POINTER_MOTION_HINT
        | EVENT_MASK_PROPERTY_CHANGE
        | EVENT_MASK_RESIZE_REDIRECT
        | EVENT_MASK_STRUCTURE_NOTIFY
        | EVENT_MASK_SUBSTRUCTURE_NOTIFY
        | EVENT_MASK_SUBSTRUCTURE_REDIRECT
        | EVENT_MASK_VISIBILITY_CHANGE;
    assert_eq!(EVENT_MASK_ALL, union);
    assert_eq!(EVENT_MASK_ALL, 0x01ff_ffff);
    assert_eq!(EVENT_MASK_ALL.count_ones(), 25);
}

#[test]
fn window_keeps_its_byte_order() {
    let mut little = Window::new(1, screen(), Endian::Little);
    let big = Window::new(1, screen(), Endian::Big);
    assert_eq!(little.byte_order(), Endian::Little);
    assert_eq!(big.byte_order(), Endian::Big);
    little.map_and_flush();
    assert_eq!(little.byte_order(), Endian::Little);
}

#[test]
fn default_screen_is_the_one_at_its_position() {
    let first = Screen { root: 1, root_visual: 2, white_pixel: 3 };
    let second = Screen { root: 4, root_visual: 5, white_pixel: 6 };
    let screens = vec![first, second];
    assert_eq!(default_screen(&screens, 0), Some(first));
    assert_eq!(default_screen(&screens, 1), Some(second));
}

#[test]
fn default_screen_is_missing_behind_the_last() {
    let only = Screen { root: 1, root_visual: 2, white_pixel: 3 };
    assert_eq!(default_screen(&vec![only], 1), None);
    assert_eq!(default_screen(&vec![only], usize::MAX), None);
    assert_eq!(default_screen(&Vec::new(), 0), None);
}

#[test]
fn window_is_created_against_the_default_screen() {
    let first = Screen { root: 10, root_visual: 11, white_pixel: 12 };
    let second = Screen { root: 20, root_visual: 21, white_pixel: 22 };
    let picked = default_screen(&vec![first, second], 1).unwrap();
    let batch = Window::new(5, picked, Endian::Little).map_and_flush();
    match batch[0] {
        Request::CreateWindow(create) => {
            assert_eq!(create.parent, 20);
            assert_eq!(create.visual, 21);
            assert_eq!(create.back_pixel, 22);
        }
        _ => panic!("the first request creates the window"),
    }
}
