use hypersheet::cell::Cell;
use hypersheet::column::{Column, ColumnManager};
use hypersheet::model::DataModel;
use hypersheet::row::{Row, RowManager};
use hypersheet::scroll::{ScrollBarOption, ScrollBarOrientation, ScrollBarState};
use hypersheet::sheet::HyperSheet;

#[test]
fn test_rows() {
    let mut sheet = HyperSheet::new();
    let mut row1 = Row::new(1);
    row1.set_height(10);
    let mut row2 = Row::new(2);
    row2.set_height(10);
    sheet.update_row_manager(vec![row1, row2]);
    let x = sheet.get_last_visible_row_idx(4010);
    println!("{}", x);
}

#[test]
fn row_heights_and_rejected_zero() {
    let mut row = Row::new(3);
    assert_eq!(row.get_height(), 20);
    row.set_height(40);
    assert_eq!(row.get_height(), 40);
    row.set_height(0);
    assert_eq!(row.get_height(), 40);
}

#[test]
fn row_manager_stores_and_replaces() {
    let mut mgr = RowManager::new();
    assert!(mgr.get_row(3).is_none());
    let mut row = Row::new(3);
    row.set_height(40);
    mgr.set_row(row);
    assert_eq!(mgr.get_row(3).expect("stored").get_height(), 40);
    let mut replacement = Row::new(3);
    replacement.set_height(55);
    mgr.set_row(replacement);
    assert_eq!(mgr.get_row(3).expect("stored").get_height(), 55);
    assert!(mgr.get_row(2).is_none());
}

#[test]
fn rows_within_an_index_bound() {
    let mut mgr = RowManager::new();
    for idx in [5u16, 1, 9] {
        mgr.set_row(Row::new(idx));
    }
    let within = mgr.get_rows_within(5);
    assert_eq!(within.len(), 2);
    assert_eq!(within[0].get_height(), 20);
    let all = mgr.get_rows_within(100);
    assert_eq!(all.len(), 3);
    let none = mgr.get_rows_within(0);
    assert!(none.is_empty());
}

#[test]
fn column_widths_and_rejected_zero() {
    let mut col = Column::new(4);
    assert_eq!(col.get_width(), 20);
    col.set_width(200);
    assert_eq!(col.get_width(), 200);
    col.set_width(0);
    assert_eq!(col.get_width(), 200);
}

#[test]
fn column_manager_stores_and_replaces() {
    let mut mgr = ColumnManager::new();
    let mut col = Column::new(4);
    col.set_width(200);
    mgr.set_column(col);
    assert_eq!(mgr.get_column(4).expect("stored").get_width(), 200);
    assert!(mgr.get_column(3).is_none());
    let mut replacement = Column::new(4);
    replacement.set_width(90);
    mgr.set_column(replacement);
    assert_eq!(mgr.get_column(4).expect("stored").get_width(), 90);
}

#[test]
fn columns_within_an_index_bound() {
    let mut mgr = ColumnManager::new();
    for idx in [7u8, 2, 4] {
        mgr.set_column(Column::new(idx));
    }
    assert_eq!(mgr.get_cols_within(4).len(), 2);
    assert_eq!(mgr.get_cols_within(1).len(), 0);
    assert_eq!(mgr.get_cols_within(255).len(), 3);
}

#[test]
fn cell_names_use_column_letters_and_row_digits() {
    assert_eq!(Cell::new(2, 11).name(), "B11");
    assert_eq!(Cell::new(1, 1).name(), "A1");
    assert_eq!(Cell::new(26, 3).name(), "Z3");
    assert_eq!(Cell::new(27, 3).name(), "AA3");
    assert_eq!(Cell::new(28, 700).name(), "AB700");
    assert_eq!(Cell::new(52, 0).name(), "AZ0");
    assert_eq!(Cell::new(0, 5).name(), "5");
}

#[test]
fn cell_dimensions_are_mutable() {
    let mut cell = Cell::new(3, 9);
    assert_eq!(cell.get_col_idx(), 3);
    assert_eq!(cell.get_row_idx(), 9);
    assert_eq!((cell.get_width(), cell.get_height()), (20, 20));
    cell.set_width(120);
    cell.set_height(44);
    assert_eq!((cell.get_width(), cell.get_height()), (120, 44));
}

#[test]
fn data_model_stores_one_cell_per_address() {
    let mut dm = DataModel::new();
    assert!(dm.get_cell(1, 1).is_none());
    dm.set_cell(Cell::new(1, 1));
    dm.set_cell(Cell::new(2, 3));
    let mut replacement = Cell::new(1, 1);
    replacement.set_width(99);
    dm.set_cell(replacement);
    let stored = dm.get_cell(1, 1).expect("stored");
    assert_eq!(stored.get_width(), 99);
    assert!(dm.get_cell(3, 1).is_none());
}

#[test]
fn data_model_range_queries() {
    let mut dm = DataModel::new();
    dm.set_cell(Cell::new(1, 1));
    dm.set_cell(Cell::new(2, 3));
    dm.set_cell(Cell::new(3, 2));
    let both = dm.get_cells_within(2, 2);
    assert_eq!(both.len(), 1);
    assert_eq!(both[0].name(), "A1");
    let rows = dm.get_cells_within_rows(2);
    assert_eq!(rows.len(), 2);
    assert_eq!(rows[0].name(), "A1");
    assert_eq!(rows[1].name(), "C2");
    let cols = dm.get_cells_within_cols(2);
    assert_eq!(cols.len(), 2);
    assert_eq!(cols[0].name(), "A1");
    assert_eq!(cols[1].name(), "B3");
}

#[test]
fn range_queries_come_in_name_order() {
    // the store iterates by display name, not by address: "AA1"
    // (column 27) precedes "B3" (column 2)
    let mut dm = DataModel::new();
    dm.set_cell(Cell::new(2, 3));
    dm.set_cell(Cell::new(27, 1));
    let named = dm.get_cells_within_rows(3);
    assert_eq!(named.len(), 2);
    assert_eq!(named[0].name(), "AA1");
    assert_eq!(named[1].name(), "B3");
    // and "A10" precedes "A2", as strings order
    let mut dm2 = DataModel::new();
    dm2.set_cell(Cell::new(1, 2));
    dm2.set_cell(Cell::new(1, 10));
    let rows = dm2.get_cells_within_rows(10);
    assert_eq!(rows.len(), 2);
    assert_eq!(rows[0].name(), "A10");
    assert_eq!(rows[1].name(), "A2");
}

#[test]
fn sheet_rows_resolve_scroll_offsets() {
    let mut sheet = HyperSheet::new();
    let mut row1 = Row::new(1);
    row1.set_height(40);
    sheet.update_row_manager(vec![row1]);
    assert_eq!(sheet.get_row_with_idx(1).expect("stored").get_height(), 40);
    assert!(sheet.get_row_with_idx(2).is_none());
    // row 1 spans [0, 40), row 2 spans [40, 60): the zero-based count of
    // rows wholly above the offset
    assert_eq!(sheet.get_last_visible_row_idx(0), 0);
    assert_eq!(sheet.get_last_visible_row_idx(39), 0);
    assert_eq!(sheet.get_last_visible_row_idx(40), 1);
    assert_eq!(sheet.get_last_visible_row_idx(61), 2);
}

#[test]
fn sheet_update_keeps_the_last_entry_per_row() {
    let mut sheet = HyperSheet::new();
    let mut first = Row::new(5);
    first.set_height(30);
    let mut second = Row::new(5);
    second.set_height(70);
    sheet.update_row_manager(vec![first, second]);
    assert_eq!(sheet.get_row_with_idx(5).expect("stored").get_height(), 70);
    sheet.add_cells(vec![Cell::new(1, 1), Cell::new(2, 2)]);
}

#[test]
fn scrollbar_swaps_a_degenerate_range() {
    let mut bar = ScrollBarState::new(ScrollBarOption { index: None, range: Some((10, 5)) });
    assert_eq!(bar.get_range(), (5, 10));
    assert_eq!(bar.content_size, 6);
    bar.set_range(9, 3);
    assert_eq!(bar.get_range(), (3, 9));
    assert_eq!(bar.content_size, 7);
    bar.set_range(2, 8);
    assert_eq!(bar.get_range(), (2, 8));
}

#[test]
fn scrollbar_clamps_the_index_into_range() {
    let mut bar = ScrollBarState::new(ScrollBarOption { index: Some(4), range: Some((3, 9)) });
    assert_eq!(bar.index, 4);
    bar.set_index(100);
    assert_eq!(bar.index, 9);
    bar.set_index(0);
    assert_eq!(bar.index, 3);
    let px = bar.set_index(5);
    assert_eq!(bar.index, 5);
    // (5 - 3) / (9 - 3) rounds down to zero, plus the thumb bound of one
    assert_eq!(px, 1);
}

#[test]
fn scrollbar_orientation_and_wheel() {
    let mut bar = ScrollBarState::new(ScrollBarOption { index: None, range: None });
    assert_eq!(bar.get_range(), (0, 100));
    assert_eq!(bar.get_orientation().as_str(), "Vertical");
    bar.set_orientation(ScrollBarOrientation::Horizontal);
    assert_eq!(bar.get_orientation().as_str(), "Horizontal");
    bar.set_index(7);
    bar.on_wheel();
    assert_eq!(bar.index, 12);
}

#[test]
fn scrollbar_wheel_saturates_at_the_top() {
    let mut bar = ScrollBarState::new(ScrollBarOption {
        index: Some(u32::MAX - 2),
        range: Some((0, u32::MAX - 1)),
    });
    bar.on_wheel();
    assert_eq!(bar.index, u32::MAX);
}
