use pager_theme::menu::{
    menu_rows_fit, menu_width, plan_menu, plan_menu_rows, DismissCue, MenuRect, MenuRow,
};

fn rect(x: u16, y: u16, width: u16, height: u16) -> MenuRect {
    MenuRect { x, y, width, height }
}

#[test]
fn menu_width_is_at_least_the_minimum() {
    assert_eq!(menu_width(&[("Enter", "Start"), ("Esc", "Quit")], 0, 0), 30);
    assert_eq!(menu_width(&[], 0, 0), 30);
}

#[test]
fn menu_width_grows_with_the_widest_item_logo_and_hint() {
    // 12 + 28 + 4-cell gap.
    assert_eq!(menu_width(&[("Ctrl+Shift+P", "Open the command palette now")], 0, 0), 44);
    assert_eq!(menu_width(&[("Enter", "Start")], 0, 50), 50);
    assert_eq!(menu_width(&[("Enter", "Start")], 60, 50), 60);
    assert_eq!(menu_width(&[("Enter", "Start"), ("Ctrl+Shift+P", "Open the command palette now")], 31, 0), 44);
}

#[test]
fn rows_stop_at_the_column_bottom() {
    let column = rect(10, 5, 30, 2);
    let items = [("Enter", "Start"), ("Esc", "Quit"), ("q", "Leave")];
    assert!(menu_rows_fit(column, &items));
    let rows = plan_menu_rows(column, &items, Some(1), None);
    assert_eq!(
        rows,
        vec![
            MenuRow {
                rect: rect(10, 5, 30, 1),
                key_x: 35,
                key_width: 5,
                label_width: 5,
                dismiss: None,
                selected: false,
            },
            MenuRow {
                rect: rect(10, 6, 30, 1),
                key_x: 37,
                key_width: 3,
                label_width: 4,
                dismiss: None,
                selected: true,
            },
        ]
    );
}

#[test]
fn dismiss_affordance_is_found_and_hovered() {
    let column = rect(0, 0, 40, 3);
    let items = [("Ctrl+I [x]", "Import settings")];
    let hovered = plan_menu_rows(column, &items, None, Some((38, 0)));
    assert_eq!(hovered[0].key_x, 30);
    assert_eq!(hovered[0].dismiss, Some(DismissCue { start: 37, hovered: true }));
    let past_end = plan_menu_rows(column, &items, None, Some((40, 0)));
    assert_eq!(past_end[0].dismiss, Some(DismissCue { start: 37, hovered: false }));
    let other_row = plan_menu_rows(column, &items, None, Some((38, 1)));
    assert_eq!(other_row[0].dismiss, Some(DismissCue { start: 37, hovered: false }));
}

#[test]
fn dismiss_affordance_is_the_last_one_in_the_shortcut() {
    let column = rect(0, 0, 40, 1);
    let rows = plan_menu_rows(column, &[("[x] a [x]", "Both")], None, None);
    // Shortcut starts at 40 - 9 = 31; the last `[x]` is at byte 6.
    assert_eq!(rows[0].dismiss, Some(DismissCue { start: 37, hovered: false }));
    let none = plan_menu_rows(column, &[("[x", "Open")], None, None);
    assert_eq!(none[0].dismiss, None);
}

#[test]
fn rows_that_do_not_fit_are_reported() {
    assert!(!menu_rows_fit(rect(0, 0, 3, 1), &[("Enter", "Start")]));
    assert!(!menu_rows_fit(rect(0, 65535, 30, 1), &[("Enter", "Start")]));
    assert!(menu_rows_fit(rect(0, 65535, 30, 1), &[]));
    assert!(!menu_rows_fit(rect(65530, 0, 10, 1), &[("Enter", "Start")]));
}

#[test]
fn plan_menu_centers_the_column() {
    let area = rect(0, 0, 80, 3);
    let plan = plan_menu(area, &[("Enter", "Start"), ("Esc", "Quit")], Some(0), None, 0, 0)
        .expect("menu fits");
    assert_eq!(plan.column, rect(25, 0, 30, 3));
    assert_eq!(plan.rows.len(), 2);
    assert_eq!(plan.rows[0].rect, rect(25, 0, 30, 1));
    assert_eq!(plan.rows[0].key_x, 50);
    assert!(plan.rows[0].selected);
    assert_eq!(plan.rows[1].rect, rect(25, 1, 30, 1));
    assert_eq!(plan.rows[1].key_x, 52);
    assert!(!plan.rows[1].selected);
}

#[test]
fn plan_menu_refuses_a_shortcut_wider_than_the_area() {
    assert!(plan_menu(rect(0, 0, 2, 1), &[("Enter", "Start")], None, None, 0, 0).is_none());
}

#[test]
fn plan_menu_narrows_the_column_to_the_area() {
    let plan = plan_menu(rect(0, 2, 20, 5), &[("Enter", "Start"), ("Esc", "Quit")], None, None, 0, 0)
        .expect("items fit the area");
    assert_eq!(plan.column.width, 20);
    assert_eq!(plan.column.y, 2);
    assert_eq!(plan.column.height, 5);
    assert_eq!(plan.rows.len(), 2);
    assert_eq!(plan.rows[0].key_x, plan.column.x + 20 - 5);
}

#[test]
fn plan_menu_splits_odd_room_within_one_cell() {
    let plan = plan_menu(rect(0, 0, 81, 3), &[("Enter", "Start")], None, None, 0, 0).expect("fits");
    let left = plan.column.x as i32;
    let right = 81 - (plan.column.x as i32 + plan.column.width as i32);
    assert_eq!(plan.column.width, 30);
    assert!((left - right).abs() <= 1);
}
