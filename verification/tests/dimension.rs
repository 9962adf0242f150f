use pixtimize::domain::dimension::{parse_dimension, Dimension};

fn chars(s: &str) -> Vec<char> {
    s.chars().collect()
}

fn text(s: &str) -> Result<Option<String>, ()> {
    parse_dimension(&chars(s)).map(|d| d.map(|d| d.to_text()))
}

#[test]
fn dimension_should_read_plain_and_fractional_values() {
    assert_eq!(text("606"), Ok(Some("606".to_owned())));
    assert_eq!(text("0.5"), Ok(Some("0.5".to_owned())));
    assert_eq!(text(".25"), Ok(Some("0.25".to_owned())));
    assert_eq!(text("12."), Ok(Some("12".to_owned())));
    assert_eq!(text("+7"), Ok(Some("7".to_owned())));
    assert_eq!(text("007.500"), Ok(Some("7.5".to_owned())));
}

#[test]
fn dimension_should_read_exponents() {
    assert_eq!(text("1e3"), Ok(Some("1000".to_owned())));
    assert_eq!(text("5E-1"), Ok(Some("0.5".to_owned())));
    assert_eq!(text("2.5e+2"), Ok(Some("250".to_owned())));
    assert_eq!(text("1e-7"), Ok(Some("0.0000001".to_owned())));
}

#[test]
fn dimension_should_ignore_values_above_the_limit() {
    assert_eq!(text("65536"), Ok(None));
    assert_eq!(text("65535.5"), Ok(None));
    assert_eq!(text("inf"), Ok(None));
    assert_eq!(text("Infinity"), Ok(None));
    assert_eq!(text("1e999999999999999999999999"), Ok(None));
    assert_eq!(text("65535"), Ok(Some("65535".to_owned())));
}

#[test]
fn dimension_should_refuse_non_positive_and_malformed_values() {
    for raw in ["0", "0.0", "-0", "-5", "-inf", "nan", "NaN", "abc", "", ".", "1e", "e5", "1.2.3", " 5", "1_000"] {
        assert_eq!(text(raw), Err(()), "value {raw:?}");
    }
}

#[test]
fn dimension_should_refuse_values_an_f64_holds_as_zero() {
    assert_eq!(text("1e-400"), Err(()));
    assert_eq!(text("1e-99999999999999999999999"), Err(()));
}

#[test]
fn dimension_text_should_read_back_as_the_same_value() {
    for raw in ["606", "0.5", "16383", "3.14159", "0.001"] {
        let dim: Dimension = parse_dimension(&chars(raw)).unwrap().unwrap();
        let again = parse_dimension(&chars(&dim.to_text())).unwrap().unwrap();
        assert_eq!(dim, again);
        assert_eq!(dim.to_text().parse::<f64>().unwrap(), raw.parse::<f64>().unwrap());
    }
}

#[test]
fn dimension_should_refuse_exactly_the_values_that_read_as_zero() {
    assert_eq!(text("2e-324"), Err(()));
    assert_eq!(text("2.4703282292062327e-324"), Err(()));
    let half_least = "2.4703282292062327208828439643411068618252990130716238221279284125033775363510437593264991818081799618989828234772285886546332835517796989819938739800539093906315035659515570226392290858392449105184435931802849936536152500319370457678249219365623669863658480757001585769269903706311928279558551332927834338409351978015531246597263579574622766465272827220056374006485499977096599470454020828166226237857393450736339007967761930577506740176324673600968951340535537458516661134223766678604162159680461914467291840300530057530849048765391711386591646239524912623653881879636239373280423891018672348497668235089863388587925628302755995657524455507255189313690836254779186948667994968324049705821028513185451396213837722826145437693412532098591327667236328125e-324";
    assert_eq!(text(half_least), Err(()));
    assert!(text(&half_least.replace("e-324", "1e-324")).unwrap().is_some());
    assert!(text("2.4703282292062328e-324").unwrap().is_some());
    assert!(text("5e-324").unwrap().is_some());
}

#[test]
fn dimension_should_compare_limits_as_the_f64_it_reads_as() {
    assert_eq!(text("65535.0000000000001"), Ok(Some("65535".to_owned())));
    assert_eq!(text("65534.99999999999999"), Ok(Some("65535".to_owned())));
    assert_eq!(text("65535.00000000001"), Ok(None));
    assert_eq!(text("16383.0000000000001"), Ok(Some("16383".to_owned())));
    assert_eq!(text("16383.000000000001"), Ok(Some("16383.000000000001".to_owned())));
    assert_eq!(text("0.99999999999999999"), Ok(Some("1".to_owned())));
    assert_eq!(text("1.0000000000000001"), Ok(Some("1".to_owned())));
    assert_eq!(text("0.9999999999999999"), Ok(Some("0.9999999999999999".to_owned())));
}
