use spawn_protocol::descriptor::{output_report_len, output_report_len_or_default};
use spawn_protocol::DEFAULT_PACKET_LEN;

/// Vendor collection declaring 32-byte input and output reports.
fn desc_32() -> Vec<u8> {
    vec![
        0x06, 0x67, 0xFF, // Usage Page (0xFF67)
        0x09, 0x01, // Usage (1)
        0xA1, 0x01, // Collection (Application)
        0x09, 0x02, //   Usage (2)
        0x15, 0x00, //   Logical Min (0)
        0x26, 0xFF, 0x00, //   Logical Max (255)
        0x75, 0x08, //   Report Size (8)
        0x95, 0x20, //   Report Count (32)
        0x81, 0x02, //   Input
        0x09, 0x03, //   Usage (3)
        0x75, 0x08, //   Report Size (8)
        0x95, 0x20, //   Report Count (32)
        0x91, 0x02, //   Output
        0xC0, // End Collection
    ]
}

#[test]
fn reads_thirty_two_byte_output() {
    assert_eq!(output_report_len(&desc_32()), Some(32));
    assert_eq!(output_report_len_or_default(&desc_32()), 32);
}

#[test]
fn reads_sixty_four_byte_output() {
    let mut d = desc_32();
    // Bump only the output report count (the second 0x95 item).
    let pos = d
        .windows(2)
        .enumerate()
        .filter(|(_, w)| w[0] == 0x95)
        .nth(1)
        .map(|(i, _)| i + 1)
        .unwrap();
    d[pos] = 0x40;
    assert_eq!(output_report_len(&d), Some(64));
}

#[test]
fn descriptor_without_output_yields_none() {
    let d = vec![
        0x06, 0x67, 0xFF, 0x09, 0x01, 0xA1, 0x01, 0x75, 0x08, 0x95, 0x20, 0x81, 0x02, 0xC0,
    ];
    assert_eq!(output_report_len(&d), None);
    assert_eq!(output_report_len_or_default(&d), DEFAULT_PACKET_LEN);
}

#[test]
fn implausible_size_falls_back() {
    // 8-byte boot keyboard output report: not our vendor collection.
    let d = vec![0x75, 0x08, 0x95, 0x08, 0x91, 0x02];
    assert_eq!(output_report_len(&d), Some(8));
    assert_eq!(output_report_len_or_default(&d), DEFAULT_PACKET_LEN);
}

#[test]
fn truncated_descriptor_does_not_panic() {
    for cut in 0..desc_32().len() {
        let _ = output_report_len(&desc_32()[..cut]);
    }
}

#[test]
fn long_items_are_skipped() {
    let mut d = vec![0xFE, 0x02, 0x00, 0xAA, 0xBB];
    d.extend_from_slice(&desc_32());
    assert_eq!(output_report_len(&d), Some(32));
}

#[test]
fn output_items_of_one_report_add_up() {
    // Five 1-bit LED fields and three bits of padding: one byte.
    let d = vec![
        0x75, 0x01, 0x95, 0x05, 0x91, 0x02, 0x75, 0x03, 0x95, 0x01, 0x91, 0x01,
    ];
    assert_eq!(output_report_len(&d), Some(1));
}

#[test]
fn each_report_id_starts_a_new_report() {
    let d = vec![
        0x85, 0x01, // Report ID (1)
        0x75, 0x08, 0x95, 0x10, 0x91, 0x02, // 16 bytes
        0x95, 0x08, 0x91, 0x02, // 8 more bytes of the same report
        0x85, 0x02, // Report ID (2)
        0x95, 0x20, 0x91, 0x02, // 32 bytes
        0x85, 0x03, // Report ID (3)
        0x95, 0x04, 0x91, 0x02, // 4 bytes
    ];
    assert_eq!(output_report_len(&d), Some(32));
    let mut shorter = d.clone();
    shorter[15] = 0x10; // report 2 carries 16 bytes, report 1 still 24
    assert_eq!(output_report_len(&shorter), Some(24));
}

#[test]
fn a_report_under_a_byte_is_not_counted() {
    let d = vec![0x75, 0x01, 0x95, 0x05, 0x91, 0x02];
    assert_eq!(output_report_len(&d), None);
}
