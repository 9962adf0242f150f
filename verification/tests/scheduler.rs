use pixtimize::infrastructure::scheduler::normalize_cron;

#[test]
fn normalize_cron_should_add_seconds_to_five_field_expression() {
    assert_eq!(normalize_cron("0 1 * * 1"), "0 0 1 * * 1");
}

#[test]
fn normalize_cron_should_preserve_six_field_expression() {
    assert_eq!(normalize_cron("30 0 1 * * 1"), "30 0 1 * * 1");
}

#[test]
fn normalize_cron_should_count_fields_across_any_whitespace() {
    assert_eq!(normalize_cron("  0\t1 *  * 1 "), "0   0\t1 *  * 1 ");
    assert_eq!(normalize_cron("0\u{3000}1 * * 1"), "0 0\u{3000}1 * * 1");
}

#[test]
fn normalize_cron_should_be_idempotent() {
    let once = normalize_cron("0 1 * * 1");
    assert_eq!(normalize_cron(&once), once);
}

#[test]
fn normalize_cron_should_keep_short_expressions() {
    assert_eq!(normalize_cron("@weekly"), "@weekly");
    assert_eq!(normalize_cron(""), "");
}
