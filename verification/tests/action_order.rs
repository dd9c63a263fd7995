use report_manager::actions::{normalize_action_items, normalize_menu_action_order, DEFAULT_ACTION_ORDER_JSON};

fn strings(items: &[&str]) -> Vec<String> {
    items.iter().map(|s| s.to_string()).collect()
}

const DEFAULT: [&str; 5] = ["visibility", "period", "rename", "icon", "delete"];

#[test]
fn default_text_reads_as_default_order() {
    assert_eq!(normalize_menu_action_order(DEFAULT_ACTION_ORDER_JSON), strings(&DEFAULT));
}

#[test]
fn malformed_text_reads_as_default_order() {
    assert_eq!(normalize_menu_action_order("not json"), strings(&DEFAULT));
    assert_eq!(normalize_menu_action_order("{\"a\":1}"), strings(&DEFAULT));
    assert_eq!(normalize_menu_action_order("[1,2]"), strings(&DEFAULT));
}

#[test]
fn known_actions_keep_their_place_and_missing_ones_follow() {
    let read = normalize_menu_action_order("[\"rename\",\"bogus\",\"rename\",\"icon\"]");
    assert_eq!(read, strings(&["rename", "icon", "visibility", "period", "delete"]));
}

#[test]
fn normalizing_twice_changes_nothing() {
    let once = normalize_action_items(strings(&["delete", "x", "period", "delete"]));
    let twice = normalize_action_items(once.clone());
    assert_eq!(once, twice);
    assert_eq!(once, strings(&["delete", "period", "visibility", "rename", "icon"]));
}

#[test]
fn a_whole_order_is_kept() {
    let order = strings(&["icon", "delete", "rename", "period", "visibility"]);
    assert_eq!(normalize_action_items(order.clone()), order);
}
