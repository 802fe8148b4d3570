use anchor_discriminator::get_hash;
use anchor_discriminator::hasher::{
    build_preimage, effective_namespace, normalize_name, snake_case_is_settled, truncate_digest,
    EVENT_NAMESPACE, GLOBAL_NAMESPACE,
};

#[test]
fn test_get_hash_global_namespace() {
    let hash = get_hash("global", "my_name", false);
    assert_eq!(hash, [181, 16, 140, 34, 85, 113, 210, 20]);
}

#[test]
fn test_get_hash_event_namespace() {
    let hash = get_hash("event", "BuyEvent", true);
    assert_eq!(hash, [103, 244, 82, 31, 44, 245, 119, 119]);
}

#[test]
fn test_get_hash_custom_namespace() {
    let hash = get_hash("my_namespace", "my_name", false);
    assert_eq!(hash, [183, 58, 214, 211, 174, 61, 243, 178]);
}

#[test]
fn test_get_hash_snake_case_conversion() {
    let hash1 = get_hash("global", "createOrder", false);
    let hash2 = get_hash("global", "create_order", false);
    assert_eq!(hash1, hash2);
}

#[test]
fn test_get_hash_event_order_created() {
    let hash = get_hash("event", "OrderCreated", true);
    assert_eq!(hash, [224, 1, 229, 63, 254, 60, 190, 159]);
}

#[test]
fn test_get_hash_event_order_cancelled() {
    let hash = get_hash("event", "OrderCancelled", true);
    assert_eq!(hash, [108, 56, 128, 68, 168, 113, 168, 239]);
}

#[test]
fn test_event_vs_non_event_namespace() {
    let hash_event = get_hash("event", "MyEvent", true);
    let hash_global = get_hash("global", "MyEvent", false);
    // The event name is hashed as written, the other in snake case.
    assert_ne!(hash_event, hash_global);
}

#[test]
fn snake_case_conversion_has_exact_value() {
    assert_eq!(
        get_hash("global", "createOrder", false),
        [141, 54, 37, 207, 237, 210, 250, 215]
    );
    assert_eq!(
        get_hash("global", "XMLHttpRequest", false),
        [57, 73, 176, 241, 92, 77, 221, 59]
    );
}

#[test]
fn repeated_calls_agree() {
    for (namespace, name, event) in [
        ("global", "createOrder", false),
        ("event", "BuyEvent", true),
        ("", "", false),
        ("custom", "TransferDone", true),
    ] {
        assert_eq!(get_hash(namespace, name, event), get_hash(namespace, name, event));
    }
}

#[test]
fn hashing_the_snake_case_form_changes_nothing() {
    for name in ["createOrder", "create_order", "XMLHttpRequest", "Buy Event", "abc123Def456"] {
        assert!(snake_case_is_settled(name));
        let normalized = normalize_name(name, false);
        assert_eq!(get_hash("global", name, false), get_hash("global", &normalized, false));
        assert_eq!(get_hash("other", name, false), get_hash("other", &normalized, false));
    }
}

#[test]
fn snake_case_of_dotted_capital_i_is_not_settled() {
    // Lower-casing U+0130 leaves a combining dot, at which a second
    // conversion splits the word.
    let name = "\u{130}x";
    let once = normalize_name(name, false);
    assert_eq!(once, "i\u{307}x");
    assert_eq!(normalize_name(&once, false), "i_x");
    assert!(!snake_case_is_settled(name));
    assert_eq!(get_hash("global", name, false), [85, 1, 174, 24, 91, 250, 207, 35]);
    assert_eq!(get_hash("global", &once, false), [64, 187, 59, 148, 204, 139, 22, 16]);
}

#[test]
fn event_names_are_hashed_verbatim() {
    assert_eq!(normalize_name("BuyEvent", true), "BuyEvent");
    assert_eq!(normalize_name("Buy Event!", true), "Buy Event!");
    assert_eq!(get_hash("event", "buyevent", true), [248, 160, 95, 126, 93, 95, 54, 29]);
    assert_ne!(get_hash("event", "BuyEvent", true), get_hash("event", "buyevent", true));
    assert_ne!(get_hash("event", "BuyEvent", true), get_hash("event", "buy_event", true));
}

#[test]
fn normal_form_name_hashes_alike_with_and_without_flag() {
    assert_eq!(normalize_name("my_event", false), "my_event");
    assert_eq!(get_hash("event", "my_event", true), get_hash("event", "my_event", false));
    assert_eq!(get_hash("event", "my_event", true), [143, 136, 152, 17, 59, 132, 199, 63]);
}

#[test]
fn flag_decides_normalisation_whatever_the_namespace() {
    assert_eq!(get_hash("custom", "TransferDone", true), [204, 184, 212, 137, 153, 110, 149, 160]);
    assert_eq!(get_hash("custom", "TransferDone", false), [37, 24, 6, 118, 81, 205, 118, 111]);
    assert_eq!(get_hash("event", "MyEvent", false), get_hash("event", "my_event", true));
    assert_eq!(get_hash("global", "MyEvent", true), get_hash("global", "MyEvent", true));
    assert_ne!(get_hash("global", "MyEvent", true), get_hash("global", "MyEvent", false));
}

#[test]
fn namespace_changes_the_hash() {
    assert_eq!(get_hash("global", "buy", false), [102, 6, 61, 18, 1, 218, 235, 234]);
    assert_eq!(get_hash("event", "buy", false), [163, 79, 75, 249, 71, 41, 138, 97]);
    assert_ne!(get_hash("global", "my_name", false), get_hash("event", "my_name", false));
    assert_eq!(get_hash("event", "my_name", false), [32, 219, 154, 242, 225, 88, 187, 213]);
}

#[test]
fn empty_inputs_are_hashed() {
    assert_eq!(get_hash("", "", false), [231, 172, 7, 134, 102, 142, 15, 240]);
    assert_eq!(get_hash("", "", true), [231, 172, 7, 134, 102, 142, 15, 240]);
    assert_eq!(get_hash("global", "", false), [193, 76, 24, 19, 16, 206, 80, 69]);
}

#[test]
fn output_is_eight_bytes_for_long_input() {
    let long = "a".repeat(10_000);
    let hash = get_hash(&long, &long, true);
    assert_eq!(hash.len(), 8);
    assert_eq!(hash, get_hash(&long, &long, false));
}

#[test]
fn normalize_name_gives_snake_case() {
    assert_eq!(normalize_name("createOrder", false), "create_order");
    assert_eq!(normalize_name("XMLHttpRequest", false), "xml_http_request");
    assert_eq!(normalize_name("hello__world", false), "hello_world");
    assert_eq!(normalize_name("", false), "");
    assert_eq!(normalize_name("createOrder", true), "createOrder");
}

#[test]
fn preimage_joins_with_a_colon() {
    assert_eq!(build_preimage("global", "my_name"), "global:my_name");
    assert_eq!(build_preimage("", ""), ":");
    assert_eq!(build_preimage("a:b", "c"), "a:b:c");
    assert_ne!(build_preimage("global", "x"), build_preimage("event", "x"));
}

#[test]
fn truncation_keeps_the_leading_eight_bytes() {
    let mut digest = [0u8; 32];
    for (i, byte) in digest.iter_mut().enumerate() {
        *byte = (i * 7) as u8;
    }
    assert_eq!(truncate_digest(&digest), [0, 7, 14, 21, 28, 35, 42, 49]);
}

#[test]
fn event_flag_overrides_the_requested_namespace() {
    assert_eq!(GLOBAL_NAMESPACE, "global");
    assert_eq!(EVENT_NAMESPACE, "event");
    assert_eq!(effective_namespace(Some("custom"), true), "event");
    assert_eq!(effective_namespace(None, true), "event");
    assert_eq!(effective_namespace(Some("custom"), false), "custom");
    assert_eq!(effective_namespace(Some("global"), false), "global");
    assert_eq!(effective_namespace(None, false), "global");
}
