use slick_dataui::db::cells::{render_cell, CellProbes};
use slick_dataui::text::{i32_string, i64_string};

fn no_probes() -> CellProbes {
    CellProbes {
        as_i32: None,
        as_i64: None,
        as_f64_text: None,
        as_text: None,
        as_bool: None,
    }
}

#[test]
fn test_probe_order_prefers_narrow_integer_over_text() {
    let cell = CellProbes {
        as_i32: Some(7),
        as_i64: Some(7),
        as_text: Some("007".to_string()),
        ..no_probes()
    };
    assert_eq!(render_cell(cell), "7");
}

#[test]
fn test_probe_order_prefers_i64_over_float_text() {
    let cell = CellProbes {
        as_i64: Some(9_000_000_000),
        as_f64_text: Some(format!("{}", 9e9_f64)),
        ..no_probes()
    };
    assert_eq!(render_cell(cell), "9000000000");
}

#[test]
fn test_float_text_cell() {
    let cell = CellProbes {
        as_f64_text: Some(format!("{}", 1.5_f64)),
        ..no_probes()
    };
    assert_eq!(render_cell(cell), "1.5");
}

#[test]
fn test_text_before_bool() {
    let cell = CellProbes {
        as_text: Some("true story".to_string()),
        as_bool: Some(true),
        ..no_probes()
    };
    assert_eq!(render_cell(cell), "true story");
}

#[test]
fn test_bool_cells() {
    let t = CellProbes {
        as_bool: Some(true),
        ..no_probes()
    };
    let f = CellProbes {
        as_bool: Some(false),
        ..no_probes()
    };
    assert_eq!(render_cell(t), "true");
    assert_eq!(render_cell(f), "false");
}

#[test]
fn test_undecodable_cell_is_null() {
    assert_eq!(render_cell(no_probes()), "NULL");
}

#[test]
fn test_i32_cell_round_trips_through_parse() {
    for v in [0, 1, -1, 42, -12345, i32::MAX, i32::MIN] {
        let cell = CellProbes {
            as_i32: Some(v),
            ..no_probes()
        };
        let shown = render_cell(cell);
        let parsed: i32 = shown.parse().unwrap();
        assert_eq!(parsed, v);
    }
}

#[test]
fn test_integer_rendering_is_decimal() {
    assert_eq!(i32_string(0), "0");
    assert_eq!(i32_string(-1), "-1");
    assert_eq!(i32_string(i32::MIN), "-2147483648");
    assert_eq!(i32_string(i32::MAX), "2147483647");
    assert_eq!(i64_string(i64::MIN), "-9223372036854775808");
    assert_eq!(i64_string(i64::MAX), "9223372036854775807");
}
