use murundiri::config::RuleFields;
use murundiri::proxy::fingerprint::lookup_value;
use murundiri::proxy::RequestFields;

fn key_of(fields: &RuleFields, request: &RequestFields) -> String {
    murundiri::proxy::fingerprint::derive(fields, request)
}

fn names(items: &[&str]) -> Vec<String> {
    items.iter().map(|s| s.to_string()).collect()
}

fn pairs(items: &[(&str, &str)]) -> Vec<(String, String)> {
    items.iter().map(|(k, v)| (k.to_string(), v.to_string())).collect()
}

fn request() -> RequestFields {
    RequestFields {
        body: pairs(&[("trx_id", "42"), ("apple_id", "a-7"), ("note", "hello")]),
        query: pairs(&[("ship_id", "s1"), ("reference", "r9")]),
        header: pairs(&[("Authorization", "Bearer x"), ("Content-Type", "application/json")]),
    }
}

#[test]
fn fingerprint_holds_the_selected_values_in_configured_order() {
    let fields = RuleFields {
        body: Some(names(&["trx_id", "apple_id"])),
        query: None,
        header: None,
    };
    assert_eq!(key_of(&fields, &request()), "body::42,a-7,");

    let swapped = RuleFields {
        body: Some(names(&["apple_id", "trx_id"])),
        query: None,
        header: None,
    };
    assert_eq!(key_of(&swapped, &request()), "body::a-7,42,");
}

#[test]
fn fingerprint_has_one_section_for_each_list_that_is_there() {
    let fields = RuleFields {
        body: Some(names(&["trx_id"])),
        query: Some(names(&["ship_id", "reference"])),
        header: Some(names(&["Authorization", "Content-Type"])),
    };
    assert_eq!(
        key_of(&fields, &request()),
        "body::42,query::s1,r9,header::Bearer x,application/json,"
    );
}

#[test]
fn fingerprint_of_the_empty_selector_is_empty() {
    assert_eq!(key_of(&RuleFields::default(), &request()), "");
    let listed_but_empty = RuleFields { body: Some(vec![]), query: None, header: Some(vec![]) };
    assert_eq!(key_of(&listed_but_empty, &request()), "body::header::");
}

#[test]
fn a_missing_field_counts_as_the_empty_text() {
    let fields = RuleFields {
        body: Some(names(&["absent", "trx_id", "gone"])),
        query: Some(names(&["nowhere"])),
        header: None,
    };
    assert_eq!(key_of(&fields, &request()), "body::,42,,query::,");
}

#[test]
fn a_field_is_looked_up_in_its_own_part_only() {
    let fields = RuleFields {
        body: None,
        query: Some(names(&["trx_id"])),
        header: Some(names(&["ship_id"])),
    };
    assert_eq!(key_of(&fields, &request()), "query::,header::,");
}

#[test]
fn the_first_pair_that_bears_a_name_gives_its_value() {
    let found = pairs(&[("a", "1"), ("b", "2"), ("a", "3")]);
    assert_eq!(lookup_value(&found, &"a".to_string()), "1");
    assert_eq!(lookup_value(&found, &"b".to_string()), "2");
    assert_eq!(lookup_value(&found, &"c".to_string()), "");
    assert_eq!(lookup_value(&Vec::new(), &"a".to_string()), "");
}

#[test]
fn the_same_request_always_has_the_same_fingerprint() {
    let fields = RuleFields {
        body: Some(names(&["trx_id", "apple_id"])),
        query: Some(names(&["reference"])),
        header: None,
    };
    let first = key_of(&fields, &request());
    let second = key_of(&fields, &request());
    assert_eq!(first, second);
    assert_eq!(first, "body::42,a-7,query::r9,");
}

#[test]
fn changing_a_selected_value_changes_the_fingerprint() {
    let fields = RuleFields {
        body: Some(names(&["trx_id", "apple_id"])),
        query: None,
        header: Some(names(&["Authorization"])),
    };
    let before = key_of(&fields, &request());

    let mut changed = request();
    changed.body[0].1 = "43".to_string();
    assert_ne!(key_of(&fields, &changed), before);
    assert_eq!(key_of(&fields, &changed), "body::43,a-7,header::Bearer x,");

    let mut changed = request();
    changed.header[0].1 = "Bearer y".to_string();
    assert_ne!(key_of(&fields, &changed), before);
}

#[test]
fn changing_a_value_selected_twice_changes_the_fingerprint() {
    let fields = RuleFields {
        body: Some(names(&["trx_id", "note", "trx_id"])),
        query: None,
        header: None,
    };
    let before = key_of(&fields, &request());
    assert_eq!(before, "body::42,hello,42,");
    let mut changed = request();
    changed.body[0].1 = "4".to_string();
    assert_eq!(key_of(&fields, &changed), "body::4,hello,4,");
}

#[test]
fn changing_an_unselected_value_never_changes_the_fingerprint() {
    let fields = RuleFields {
        body: Some(names(&["trx_id", "apple_id"])),
        query: None,
        header: None,
    };
    let before = key_of(&fields, &request());

    let mut changed = request();
    changed.body[2].1 = "goodbye".to_string();
    changed.query[0].1 = "other".to_string();
    changed.header.clear();
    changed.body.push(("extra".to_string(), "1".to_string()));
    assert_eq!(key_of(&fields, &changed), before);
}

#[test]
fn plain_values_that_differ_never_share_a_fingerprint() {
    let fields = RuleFields {
        body: Some(names(&["a", "b"])),
        query: Some(names(&["c"])),
        header: None,
    };
    let values = ["", "x", "xy", "query::", "body::x"];
    let mut seen: Vec<(String, (usize, usize, usize))> = Vec::new();
    for (i, a) in values.iter().enumerate() {
        for (j, b) in values.iter().enumerate() {
            for (k, c) in values.iter().enumerate() {
                let request = RequestFields {
                    body: pairs(&[("a", a), ("b", b)]),
                    query: pairs(&[("c", c)]),
                    header: vec![],
                };
                let key = key_of(&fields, &request);
                for (other, place) in &seen {
                    assert!(other != &key, "{:?} and {:?} share {}", place, (i, j, k), key);
                }
                seen.push((key, (i, j, k)));
            }
        }
    }
    assert_eq!(seen.len(), 125);
}

#[test]
fn values_that_hold_the_separator_can_share_a_fingerprint() {
    let fields = RuleFields { body: Some(names(&["a", "b"])), query: None, header: None };
    let first = RequestFields {
        body: pairs(&[("a", "x,"), ("b", "y")]),
        query: vec![],
        header: vec![],
    };
    let second = RequestFields {
        body: pairs(&[("a", "x"), ("b", ",y")]),
        query: vec![],
        header: vec![],
    };
    assert_eq!(key_of(&fields, &first), "body::x,,y,");
    assert_eq!(key_of(&fields, &second), "body::x,,y,");
}
