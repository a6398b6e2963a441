use listare::tabulate::{TabulateOrientation, Tabulator, TextItem};

fn items_from(texts: &[&str]) -> Vec<TextItem> {
    texts
        .iter()
        .map(|t| TextItem::new(t.to_string(), t.chars().count()))
        .collect()
}

#[test]
fn empty_input_renders_empty_string() {
    let items: Vec<TextItem> = Vec::new();
    let tab = Tabulator::new(&items, 80, TabulateOrientation::Columns);
    assert_eq!(tab.render(), "");
    assert!(tab.get_column_config().is_err());
}

#[test]
fn empty_input_is_the_only_error() {
    let items = items_from(&["a"]);
    let tab = Tabulator::new(&items, 80, TabulateOrientation::Columns);
    assert!(tab.get_column_config().is_ok());
}

#[test]
fn three_items_column_major_fits_under_ten() {
    // Widths 1, 2 and 3 with a budget of ten: three columns would need
    // 3 + 4 + 3 = 10 cells, which reaches the budget, so two columns
    // (widths 4 and 3, line length 7) are selected.
    let items = items_from(&["a", "bb", "ccc"]);
    let tab = Tabulator::new(&items, 10, TabulateOrientation::Columns);
    let config = tab.get_column_config().unwrap();
    assert_eq!(config.num_columns, 2);
    assert_eq!(config.col_widths, vec![4, 3]);
    assert_eq!(config.line_len, 7);
    assert!(config.valid);
    assert!(config.line_len < 10);
    // "ccc" sits alone in the last occupied column and is not padded.
    assert_eq!(tab.render(), "a   ccc\nbb  ");
}

#[test]
fn ten_narrow_items_never_get_more_than_three_columns() {
    // A budget of nine with minimum column width three allows at most
    // three candidate columns, however many items there are.
    let texts = ["a", "b", "c", "d", "e", "f", "g", "h", "i", "j"];
    let items = items_from(&texts);
    let tab = Tabulator::new(&items, 9, TabulateOrientation::Columns);
    let config = tab.get_column_config().unwrap();
    assert!(config.num_columns <= 3);
    assert_eq!(config.num_columns, 3);
}

#[test]
fn row_major_fills_left_to_right() {
    let items = items_from(&["a", "bb", "ccc", "dddd"]);
    let tab = Tabulator::new(&items, 12, TabulateOrientation::Rows);
    let config = tab.get_column_config().unwrap();
    assert_eq!(config.num_columns, 2);
    assert_eq!(config.col_widths, vec![5, 4]);
    assert_eq!(config.line_len, 9);
    assert_eq!(tab.render(), "a    bb  \nccc  dddd");
}

#[test]
fn column_major_fills_top_to_bottom() {
    let items = items_from(&["a", "bb", "ccc", "dddd"]);
    let tab = Tabulator::new(&items, 12, TabulateOrientation::Columns);
    let rendered = tab.render();
    // Column-major reads down each column: consecutive items stack
    // vertically until the column is full.
    let rows: Vec<&str> = rendered.split('\n').collect();
    assert_eq!(rows.len(), 2);
    assert!(rows[0].starts_with("a"));
    assert!(rows[1].starts_with("bb"));
}

#[test]
fn oversized_single_item_falls_back_to_one_column() {
    let items = items_from(&["aaaaaaaaaa"]);
    let tab = Tabulator::new(&items, 5, TabulateOrientation::Columns);
    let config = tab.get_column_config().unwrap();
    assert_eq!(config.num_columns, 1);
    assert!(!config.valid);
    assert_eq!(config.line_len, 10);
    // Output is still produced, overflowing the nominal width.
    assert_eq!(tab.render(), "aaaaaaaaaa");
}

#[test]
fn budget_below_minimum_column_width_still_lays_out() {
    let items = items_from(&["x"]);
    let tab = Tabulator::new(&items, 1, TabulateOrientation::Columns);
    let config = tab.get_column_config().unwrap();
    assert_eq!(config.num_columns, 1);
    assert_eq!(config.col_widths, vec![3]);
    // The single cell is padded to the minimum column width.
    assert_eq!(tab.render(), "x  ");
}

#[test]
fn identical_inputs_render_identically() {
    let items = items_from(&["alpha", "beta", "gamma", "delta", "epsilon"]);
    let a = Tabulator::new(&items, 24, TabulateOrientation::Columns).render();
    let b = Tabulator::new(&items, 24, TabulateOrientation::Columns).render();
    assert_eq!(a, b);
    let c = Tabulator::new(&items, 24, TabulateOrientation::Rows).render();
    let d = Tabulator::new(&items, 24, TabulateOrientation::Rows).render();
    assert_eq!(c, d);
}

#[test]
fn every_item_appears_exactly_once() {
    let texts = ["one", "two", "three", "four", "five", "six", "seven"];
    let items = items_from(&texts);
    for orientation in [TabulateOrientation::Columns, TabulateOrientation::Rows] {
        let tab = Tabulator::new(&items, 30, orientation);
        let rendered = tab.render();
        for t in texts.iter() {
            assert_eq!(rendered.matches(t).count(), 1, "{t} missing or repeated");
        }
    }
}

#[test]
fn row_count_is_ceiling_of_items_over_columns() {
    let texts = ["a", "b", "c", "d", "e", "f", "g"];
    let items = items_from(&texts);
    let tab = Tabulator::new(&items, 11, TabulateOrientation::Columns);
    let config = tab.get_column_config().unwrap();
    assert_eq!(config.num_columns, 3);
    let rendered = tab.render();
    // ceil(7 / 3) = 3 rows.
    assert_eq!(rendered.split('\n').count(), 3);
}

#[test]
fn declared_width_drives_padding_not_text_length() {
    // An item may declare a width different from its character count,
    // as colored text does; padding follows the declared width.
    let wide = TextItem::new("ab".to_string(), 2);
    let marked = TextItem::new("[x]".to_string(), 1);
    let items = vec![marked, wide];
    let tab = Tabulator::new(&items, 20, TabulateOrientation::Rows);
    let config = tab.get_column_config().unwrap();
    assert_eq!(config.num_columns, 2);
    // Both columns stay at the minimum width of 3. The first cell's
    // text is three characters but its declared width is 1, so it is
    // padded with two more spaces; the second cell's declared width is
    // 2, so one space follows it.
    assert_eq!(tab.render(), "[x]  ab ");
}

#[test]
fn search_prefers_the_most_columns_that_fit() {
    // With three unit-width items and a budget of seven, both the
    // one-column and the two-column candidates fit; the two-column one
    // is selected.
    let items = items_from(&["a", "b", "c"]);
    let tab = Tabulator::new(&items, 7, TabulateOrientation::Columns);
    let config = tab.get_column_config().unwrap();
    assert_eq!(config.num_columns, 2);
    assert_eq!(config.line_len, 6);
}

#[test]
fn line_len_is_the_sum_of_column_widths() {
    let items = items_from(&["a", "bb", "ccc", "dddd"]);
    for budget in [5, 9, 12, 30] {
        for orientation in [TabulateOrientation::Columns, TabulateOrientation::Rows] {
            let tab = Tabulator::new(&items, budget, orientation);
            let config = tab.get_column_config().unwrap();
            assert_eq!(config.line_len, config.col_widths.iter().sum::<usize>());
        }
    }
}

#[test]
fn tabulator_new_keeps_its_arguments() {
    let items = items_from(&["a", "b"]);
    let tab = Tabulator::new(&items, 42, TabulateOrientation::Rows);
    assert_eq!(tab.max_line_length, 42);
    assert_eq!(tab.data.len(), 2);
}

#[test]
fn config_error_message() {
    let items: Vec<TextItem> = Vec::new();
    let tab = Tabulator::new(&items, 10, TabulateOrientation::Columns);
    let err = tab.get_column_config().unwrap_err();
    assert_eq!(err.message(), "Data is empty");
}

#[test]
fn init_column_configs_counts_candidates() {
    let configs = listare::tabulate::init_column_configs(9, 10, 3);
    assert_eq!(configs.len(), 3);
    for (i, config) in configs.iter().enumerate() {
        assert_eq!(config.num_columns, i + 1);
        assert_eq!(config.col_widths.len(), i + 1);
        assert!(config.col_widths.iter().all(|&w| w == 3));
        assert_eq!(config.line_len, 3 * (i + 1));
        assert!(config.valid);
    }
}

#[test]
fn init_column_configs_clamps_to_item_count() {
    let configs = listare::tabulate::init_column_configs(100, 2, 3);
    assert_eq!(configs.len(), 2);
    let configs = listare::tabulate::init_column_configs(1, 5, 3);
    assert_eq!(configs.len(), 1);
}
