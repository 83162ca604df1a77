//! The layout of the mouse's input report.

use vstd::prelude::*;

verus! {

/// The number of the mouse's report.
pub const MOUSE_REPORT_ID: u8 = 2;

/// How a report's item behaves.
#[derive(Clone, Copy, Debug, PartialEq, Eq, Structural)]
pub enum ItemKind {
    /// Fields that each hold a value of their own.
    DataVariableAbsolute,
    /// Fields that each hold the change of a value since the last report.
    DataVariableRelative,
    /// Padding.
    Constant,
}

/// What the fields of an item stand for.
#[derive(Clone, Copy, Debug, PartialEq, Eq, Structural)]
pub enum ItemUsages {
    /// Nothing.
    Empty,
    /// The buttons from the first number to the last.
    Buttons(u16, u16),
    /// The horizontal axis, then the vertical one.
    PointerAxes,
}

/// An item of an input report: `count` fields of `size` bits each.
#[derive(Clone, Copy, Debug, PartialEq, Eq, Structural)]
pub struct InputItem {
    /// How the item behaves.
    pub kind: ItemKind,
    /// What its fields stand for.
    pub usages: ItemUsages,
    /// The least value that a field may hold.
    pub logical_minimum: i32,
    /// The greatest value that a field may hold.
    pub logical_maximum: i32,
    /// The number of bits in a field.
    pub size: u32,
    /// The number of fields.
    pub count: u32,
    /// The number of the report that the item belongs to.
    pub report_id: u8,
}

/// The items of the mouse's report: three buttons, five bits of padding, and the
/// pointer's movement along two axes.
pub open spec fn mouse_items() -> Seq<InputItem> {
    seq![
        InputItem {
            kind: ItemKind::DataVariableAbsolute,
            usages: ItemUsages::Buttons(1, 3),
            logical_minimum: 0,
            logical_maximum: 1,
            size: 1,
            count: 3,
            report_id: MOUSE_REPORT_ID,
        },
        InputItem {
            kind: ItemKind::Constant,
            usages: ItemUsages::Empty,
            logical_minimum: 0,
            logical_maximum: 1,
            size: 5,
            count: 1,
            report_id: MOUSE_REPORT_ID,
        },
        InputItem {
            kind: ItemKind::DataVariableRelative,
            usages: ItemUsages::PointerAxes,
            logical_minimum: (-127) as i32,
            logical_maximum: 127,
            size: 8,
            count: 2,
            report_id: MOUSE_REPORT_ID,
        },
    ]
}

/// The items of the mouse's report, in the order in which they stand in it.
pub fn mouse_report_items() -> (items: Vec<InputItem>)
    ensures
        items@ == mouse_items(),
{
    let buttons = InputItem {
        kind: ItemKind::DataVariableAbsolute,
        usages: ItemUsages::Buttons(1, 3),
        logical_minimum: 0,
        logical_maximum: 1,
        size: 1,
        count: 3,
        report_id: MOUSE_REPORT_ID,
    };
    let padding = InputItem {
        kind: ItemKind::Constant,
        usages: ItemUsages::Empty,
        logical_minimum: 0,
        logical_maximum: 1,
        size: 5,
        count: 1,
        report_id: MOUSE_REPORT_ID,
    };
    let axes = InputItem {
        kind: ItemKind::DataVariableRelative,
        usages: ItemUsages::PointerAxes,
        logical_minimum: -127,
        logical_maximum: 127,
        size: 8,
        count: 2,
        report_id: MOUSE_REPORT_ID,
    };
    vec![buttons, padding, axes]
}

/// The items whose fields a report fills in, one for each field, in the order of
/// the fields; padding is not filled in.
pub open spec fn data_fields(items: Seq<InputItem>) -> Seq<InputItem>
    decreases items.len(),
{
    if items.len() == 0 {
        seq![]
    } else {
        let fields = data_fields(items.drop_last());
        let item = items.last();
        if item.kind == ItemKind::Constant {
            fields
        } else {
            fields + Seq::new(item.count as nat, |i: int| item)
        }
    }
}

/// The number of bits in a report made of the items.
pub open spec fn report_bits(items: Seq<InputItem>) -> nat
    decreases items.len(),
{
    if items.len() == 0 {
        0
    } else {
        report_bits(items.drop_last()) + items.last().size as nat * items.last().count as nat
    }
}

/// Whether the values fill in a report made of the items: one value for each field,
/// within the field's bounds.
pub open spec fn fills(items: Seq<InputItem>, values: Seq<i32>) -> bool {
    let fields = data_fields(items);
    &&& values.len() == fields.len()
    &&& forall|i: int|
        0 <= i < fields.len() ==> fields[i].logical_minimum <= #[trigger] values[i]
            <= fields[i].logical_maximum
}

/// Whether the field's bits can tell all its values apart.
pub open spec fn bits_suffice(item: InputItem) -> bool {
    item.logical_maximum - item.logical_minimum < vstd::arithmetic::power2::pow2(item.size as nat)
}

/// The mouse's report has five fields to fill in: three buttons, then two axes.
pub proof fn law_mouse_report_fields()
    ensures
        data_fields(mouse_items()) == seq![
            mouse_items()[0],
            mouse_items()[0],
            mouse_items()[0],
            mouse_items()[2],
            mouse_items()[2],
        ],
{
    let items = mouse_items();
    reveal_with_fuel(data_fields, 4);
    assert(items.drop_last() =~= seq![items[0], items[1]]);
    assert(seq![items[0], items[1]].drop_last() =~= seq![items[0]]);
    assert(seq![items[0]].drop_last() =~= Seq::<InputItem>::empty());
    assert(data_fields(items) =~= seq![items[0], items[0], items[0], items[2], items[2]]);
}

/// The mouse's report is three whole bytes, and each field has bits enough for the
/// values that it may hold.
pub proof fn law_mouse_report_is_whole_bytes()
    ensures
        report_bits(mouse_items()) == 3 * 8,
        forall|i: int|
            0 <= i < mouse_items().len() ==> bits_suffice(#[trigger] mouse_items()[i]),
{
    let items = mouse_items();
    reveal_with_fuel(report_bits, 4);
    assert(items.drop_last() =~= seq![items[0], items[1]]);
    assert(seq![items[0], items[1]].drop_last() =~= seq![items[0]]);
    assert(seq![items[0]].drop_last() =~= Seq::<InputItem>::empty());
    assert(items[0].size as nat * items[0].count as nat == 3) by (nonlinear_arith)
        requires
            items[0].size == 1,
            items[0].count == 3,
    ;
    assert(items[1].size as nat * items[1].count as nat == 5) by (nonlinear_arith)
        requires
            items[1].size == 5,
            items[1].count == 1,
    ;
    assert(items[2].size as nat * items[2].count as nat == 16) by (nonlinear_arith)
        requires
            items[2].size == 8,
            items[2].count == 2,
    ;
    vstd::arithmetic::power2::lemma2_to64();
}

} // verus!
