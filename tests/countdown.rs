use httpls::countdown::{countdown_body, countdown_body_length, countdown_line_bytes};

#[test]
fn countdown_lines_are_exact() {
    assert_eq!(countdown_line_bytes(3), b"3...\r\n".to_vec());
    assert_eq!(countdown_line_bytes(10), b"10...\r\n".to_vec());
}

#[test]
fn countdown_length_matches_body() {
    for count in [0u32, 1, 9, 10, 11, 100, 250] {
        let body = countdown_body(count, b"Hello world!");
        assert_eq!(countdown_body_length(count, 12), body.len() as u64);
    }
    assert_eq!(countdown_body(2, b"Hi"), b"2...\r\n1...\r\nHi\r\n".to_vec());
    assert_eq!(countdown_body_length(10, 12), 9 * 6 + 7 + 14);
}
