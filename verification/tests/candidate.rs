use spawn_protocol::candidate::{is_configuration_interface, text_sorts_before, usable_interfaces};
use spawn_protocol::Candidate;

#[test]
fn candidate_falls_back_to_ids_without_a_product_string() {
    let c = Candidate {
        path: "x".into(),
        vid: 0x0C45,
        pid: 0x8A01,
        usage_page: 0xFF67,
        product: String::new(),
    };
    assert_eq!(c.display_name(), "0C45:8A01");
}

#[test]
fn candidate_prefers_the_product_string() {
    let c = Candidate {
        path: "x".into(),
        vid: 0x0C45,
        pid: 0x8A01,
        usage_page: 0xFF67,
        product: "SPAWN".into(),
    };
    assert_eq!(c.display_name(), "SPAWN");
}

fn found(path: &str, vid: u16, usage_page: u16, product: &str) -> Candidate {
    Candidate {
        path: path.into(),
        vid,
        pid: 0x8A01,
        usage_page,
        product: product.into(),
    }
}

#[test]
fn only_configuration_interfaces_are_offered_sorted_and_once() {
    let all = vec![
        found("/dev/hidraw3", 0x0C45, 0xFF67, "third"),
        found("/dev/hidraw1", 0x0C45, 0x0001, "boot keyboard"),
        found("/dev/hidraw2", 0x0C45, 0xFF60, "second"),
        found("/dev/hidraw3", 0x0C45, 0xFF68, "third again"),
        found("/dev/hidraw0", 0x1234, 0xFF67, "other vendor"),
        found("/dev/hidraw10", 0x0C45, 0xFF1B, "tenth"),
    ];
    let usable = usable_interfaces(&all);
    let paths: Vec<&str> = usable.iter().map(|c| c.path.as_str()).collect();
    assert_eq!(paths, vec!["/dev/hidraw10", "/dev/hidraw2", "/dev/hidraw3"]);
    assert_eq!(usable[2].product, "third", "the first report of a path is kept");
    assert!(usable_interfaces(&Vec::new()).is_empty());
}

#[test]
fn paths_sort_as_strings_do() {
    assert!(text_sorts_before("a", "b"));
    assert!(text_sorts_before("ab", "abc"));
    assert!(!text_sorts_before("abc", "ab"));
    assert!(!text_sorts_before("same", "same"));
    assert!(text_sorts_before("Z", "a"));
    assert!(text_sorts_before("", "x"));
    assert!(text_sorts_before("é", "\u{2014}"));
}

#[test]
fn the_configuration_interface_is_recognised_by_vendor_and_page() {
    assert!(is_configuration_interface(0x0C45, 0xFF67));
    assert!(is_configuration_interface(0x0C45, 0xFF1B));
    assert!(!is_configuration_interface(0x0C45, 0x0001));
    assert!(!is_configuration_interface(0x1234, 0xFF67));
}
