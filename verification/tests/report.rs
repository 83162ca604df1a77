use bluetooth_mouse::report::{mouse_report_items, InputItem, ItemKind, ItemUsages};

#[test]
fn describes_buttons_padding_and_axes() {
    let items = mouse_report_items();
    assert_eq!(
        items,
        vec![
            InputItem {
                kind: ItemKind::DataVariableAbsolute,
                usages: ItemUsages::Buttons(1, 3),
                logical_minimum: 0,
                logical_maximum: 1,
                size: 1,
                count: 3,
                report_id: 2,
            },
            InputItem {
                kind: ItemKind::Constant,
                usages: ItemUsages::Empty,
                logical_minimum: 0,
                logical_maximum: 1,
                size: 5,
                count: 1,
                report_id: 2,
            },
            InputItem {
                kind: ItemKind::DataVariableRelative,
                usages: ItemUsages::PointerAxes,
                logical_minimum: -127,
                logical_maximum: 127,
                size: 8,
                count: 2,
                report_id: 2,
            },
        ]
    );
    let bits: u32 = items.iter().map(|item| item.size * item.count).sum();
    assert_eq!(bits, 24);
}
