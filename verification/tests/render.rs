use copilot_money_cli::cli::ColorMode;
use copilot_money_cli::client::AmountValue;
use copilot_money_cli::render::{
    columns_setting, csv_line, escape_csv_field, format_money, money_text, shorten_id,
    shorten_id_for_table, should_color, value_to_string,
};

/// The money spelling of an amount, with the two-decimal formatting of the
/// number done the way the program around the library does it.
fn value_to_money_string(v: Option<AmountValue>) -> String {
    match money_text(&v) {
        None => String::new(),
        Some(m) => {
            let formatted = m.numeric.parse::<f64>().ok().map(|n| format!("{:.2}", n.abs()));
            format_money(&m, formatted.as_deref())
        }
    }
}

#[test]
fn money_string_formats_numbers() {
    assert_eq!(value_to_money_string(Some(AmountValue::Text("-57.48".to_string()))), "-$57.48");
    assert_eq!(value_to_money_string(Some(AmountValue::Number("185.4".to_string()))), "$185.40");
    assert_eq!(value_to_money_string(Some(AmountValue::Text("0".to_string()))), "$0.00");
    assert_eq!(value_to_money_string(None), "");
}

#[test]
fn money_string_keeps_text_that_is_not_a_number() {
    assert_eq!(value_to_money_string(Some(AmountValue::Text(" -abc ".to_string()))), "-$abc");
    assert_eq!(value_to_money_string(Some(AmountValue::Text("abc".to_string()))), "$abc");
    assert_eq!(value_to_money_string(Some(AmountValue::Text("   ".to_string()))), "");
    assert_eq!(value_to_money_string(Some(AmountValue::Null)), "");
}

#[test]
fn value_to_string_spells_each_kind() {
    assert_eq!(value_to_string(&None), "");
    assert_eq!(value_to_string(&Some(AmountValue::Null)), "");
    assert_eq!(value_to_string(&Some(AmountValue::Bool(true))), "true");
    assert_eq!(value_to_string(&Some(AmountValue::Number("1.5".to_string()))), "1.5");
    assert_eq!(value_to_string(&Some(AmountValue::Text("x".to_string()))), "x");
    assert_eq!(value_to_string(&Some(AmountValue::Composite("[1]".to_string()))), "[1]");
}

#[test]
fn csv_fields_are_quoted_when_needed() {
    assert_eq!(escape_csv_field("plain"), "plain");
    assert_eq!(escape_csv_field("a,b"), "\"a,b\"");
    assert_eq!(escape_csv_field("say \"hi\""), "\"say \"\"hi\"\"\"");
    assert_eq!(escape_csv_field("two\nlines"), "\"two\nlines\"");
    assert_eq!(escape_csv_field("cr\r"), "\"cr\r\"");
    assert_eq!(escape_csv_field(""), "");
}

#[test]
fn csv_line_joins_escaped_fields() {
    assert_eq!(csv_line(&["a".to_string(), "b,c".to_string(), "".to_string()]), "a,\"b,c\",");
    assert_eq!(csv_line(&[]), "");
}

#[test]
fn ids_are_shortened_for_tables() {
    assert_eq!(shorten_id_for_table("txn_1"), "txn_1");
    assert_eq!(shorten_id_for_table("  abc  "), "abc");
    assert_eq!(shorten_id_for_table("abcdefghijklmnopqrstuvwxyz"), "abcdefgh…uvwxyz");
    // exactly 18 columns stays
    assert_eq!(shorten_id_for_table("abcdefghijklmnopqr"), "abcdefghijklmnopqr");
    assert_eq!(shorten_id(""), Some(String::new()));
}

#[test]
fn shortening_fails_only_where_slicing_would() {
    // byte 8 falls inside the two-byte `é`
    assert_eq!(shorten_id("abcdefgéhijklmnopqrstuvwxyz"), None);
    assert_eq!(shorten_id("abcdefghéijklmnopqrstuvwxyz"), Some("abcdefgh…uvwxyz".to_string()));
}

#[test]
fn shortening_counts_display_columns() {
    // 18 characters, but the four CJK ones take two columns each: 22 columns
    assert_eq!(shorten_id_for_table("abcdefgh一二三四uvwxyz"), "abcdefgh…uvwxyz");
    // 9 characters of two columns each: exactly 18 columns stays
    assert_eq!(shorten_id_for_table("一二三四五六七八九"), "一二三四五六七八九");
}

#[test]
fn color_and_columns_settings() {
    assert!(should_color(ColorMode::Always, false));
    assert!(!should_color(ColorMode::Never, true));
    assert!(should_color(ColorMode::Auto, true));
    assert!(!should_color(ColorMode::Auto, false));
    assert_eq!(columns_setting(Some("120")), Some(120));
    assert_eq!(columns_setting(Some("70000")), None);
    assert_eq!(columns_setting(Some("wide")), None);
    assert_eq!(columns_setting(None), None);
}
