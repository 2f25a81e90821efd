use nico_api::fields::Fields;
use nico_api::text::{decimal_text, same_text, text_order, TextOrder};
use std::collections::BTreeMap;

fn fields(pairs: &[(&str, &str)]) -> Fields {
    let mut fields = Fields::new();
    for (key, value) in pairs {
        fields.insert(key.to_string(), value.to_string());
    }
    fields
}

fn listed(fields: &Fields) -> Vec<(String, String)> {
    fields.entries().clone()
}

#[test]
fn fields_behave_like_an_ordered_map() {
    let keys = [
        "", "a", "ab", "b", "B", "message", "span_id", "elapsed_ms", "\u{7f}", "\u{80}", "\u{7ff}",
        "\u{800}", "\u{ffff}", "\u{10000}", "z\u{10ffff}", "z\u{e000}", "zz",
    ];
    let mut ours = Fields::default();
    let mut map: BTreeMap<String, String> = BTreeMap::new();
    let mut state: usize = 7;
    for step in 0..2000 {
        state = (state * 1103515245 + 12345) % 2147483648;
        let key = keys[(state >> 8) % keys.len()];
        if (state >> 16) % 3 == 0 {
            assert_eq!(ours.remove(key), map.remove(key));
        } else {
            ours.insert(key.to_string(), step.to_string());
            map.insert(key.to_string(), step.to_string());
        }
        assert_eq!(ours.get(key), map.get(key));
        assert_eq!(ours.contains_key(key), map.contains_key(key));
        assert_eq!(
            listed(&ours),
            map.iter().map(|(k, v)| (k.clone(), v.clone())).collect::<Vec<_>>()
        );
    }
}

#[test]
fn extend_prefers_the_added_values() {
    let mut ours = fields(&[("a", "1"), ("c", "1")]);
    ours.extend(fields(&[("b", "2"), ("c", "2"), ("d", "2")]));
    assert_eq!(
        listed(&ours),
        listed(&fields(&[("a", "1"), ("b", "2"), ("c", "2"), ("d", "2")]))
    );
    ours.extend(Fields::new());
    assert_eq!(ours.entries().len(), 4);
}

#[test]
fn same_pairs_in_any_order_are_listed_alike() {
    let one = fields(&[("b", "2"), ("a", "1"), ("c", "3")]);
    let other = fields(&[("c", "0"), ("a", "1"), ("c", "3"), ("b", "2")]);
    assert_eq!(listed(&one), listed(&other));
    assert_eq!(listed(&one.clone()), listed(&one));
}

#[test]
fn text_is_ordered_by_code_points() {
    assert_eq!(text_order("", ""), TextOrder::Same);
    assert_eq!(text_order("", "a"), TextOrder::Before);
    assert_eq!(text_order("ab", "a"), TextOrder::After);
    assert_eq!(text_order("aZ", "aa"), TextOrder::Before);
    assert_eq!(text_order("\u{ffff}", "\u{10000}"), TextOrder::Before);
    assert!(same_text("span_id", "span_id"));
    assert!(!same_text("span_id", "span_ids"));
}

#[test]
fn numbers_are_written_in_decimal() {
    for n in [0, 9, 10, 99, 100, 1024, u128::MAX] {
        assert_eq!(decimal_text(n), n.to_string());
    }
}
