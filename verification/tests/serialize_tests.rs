use itemstore::item::Item;
use itemstore::serialize::items_to_json;

fn item(title: &str, state: &str) -> Item {
    Item { title: title.to_string(), state: state.to_string() }
}

#[test]
fn empty_list_renders_as_empty_array() {
    let items: Vec<Item> = Vec::new();
    assert_eq!(items_to_json(&items), "[]");
}

#[test]
fn one_item_renders_exactly() {
    let items = vec![item("a", "b")];
    assert_eq!(items_to_json(&items), "[{\"title\":\"a\",\"state\":\"b\"}]");
}

#[test]
fn two_items_keep_their_order() {
    let items = vec![item("a", "todo"), item("b", "done")];
    assert_eq!(
        items_to_json(&items),
        "[{\"title\":\"a\",\"state\":\"todo\"},{\"title\":\"b\",\"state\":\"done\"}]"
    );
}

#[test]
fn output_is_valid_json() {
    let items = vec![
        item("quote \" here", "state"),
        item("back \\ slash", "done"),
        item("line\nbreak\ttab", "todo"),
        item("unicode gr\u{00fc}n \u{2713}", "\u{00e9}tat"),
    ];
    let text = items_to_json(&items);
    let value: serde_json::Value = serde_json::from_str(&text).unwrap();
    let arr = value.as_array().unwrap();
    assert_eq!(arr.len(), items.len());
    for (v, it) in arr.iter().zip(items.iter()) {
        assert_eq!(v["title"].as_str().unwrap(), it.title);
        assert_eq!(v["state"].as_str().unwrap(), it.state);
    }
}

#[test]
fn control_characters_are_escaped() {
    let items = vec![item("a\u{0001}b", "s")];
    let text = items_to_json(&items);
    assert_eq!(text, "[{\"title\":\"a\\u0001b\",\"state\":\"s\"}]");
    let value: serde_json::Value = serde_json::from_str(&text).unwrap();
    assert_eq!(value[0]["title"].as_str().unwrap(), "a\u{0001}b");
}
