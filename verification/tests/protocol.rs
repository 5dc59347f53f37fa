use chunkfetch::chunk_range;
use chunkfetch::content_length_of;
use chunkfetch::digest_hex;
use chunkfetch::extract_body;
use chunkfetch::has_separator;
use chunkfetch::hex_string;
use chunkfetch::WINDOW;

#[test]
fn range_starts_at_offset() {
    assert_eq!(chunk_range(0), (0, WINDOW - 1));
    assert_eq!(chunk_range(0), (0, 65535));
}

#[test]
fn range_covers_one_window() {
    let (start, end) = chunk_range(131072);
    assert_eq!(start, 131072);
    assert_eq!(end, 131072 + 65535);
    assert_eq!(end - start + 1, WINDOW);
}

#[test]
fn splitter_returns_bytes_after_first_separator() {
    let response = b"HTTP/1.1 200 OK\r\nContent-Length: 5\r\n\r\nhello".to_vec();
    assert_eq!(extract_body(&response), b"hello".to_vec());
}

#[test]
fn splitter_on_leading_separator() {
    let response = b"\r\n\r\nrest of it".to_vec();
    assert_eq!(extract_body(&response), b"rest of it".to_vec());
}

#[test]
fn splitter_first_match_wins() {
    let response = b"a\r\n\r\nbody\r\n\r\nmore".to_vec();
    assert_eq!(extract_body(&response), b"body\r\n\r\nmore".to_vec());
}

#[test]
fn splitter_separator_at_end_gives_empty_body() {
    let response = b"HTTP/1.1 204 No Content\r\n\r\n".to_vec();
    assert_eq!(extract_body(&response), Vec::<u8>::new());
}

#[test]
fn splitter_without_separator_gives_empty() {
    let response = b"HTTP/1.1 200 OK\r\nContent-Length: 5\r\n".to_vec();
    assert_eq!(extract_body(&response), Vec::<u8>::new());
    assert_eq!(extract_body(&b"".to_vec()), Vec::<u8>::new());
    assert_eq!(extract_body(&b"\r\n\r".to_vec()), Vec::<u8>::new());
}

#[test]
fn separator_detection() {
    assert!(has_separator(&b"x\r\n\r\ny".to_vec()));
    assert!(has_separator(&b"\r\n\r\n".to_vec()));
    assert!(!has_separator(&b"\r\n\r".to_vec()));
    assert!(!has_separator(&b"".to_vec()));
    assert!(!has_separator(&b"\r\n \r\n".to_vec()));
}

#[test]
fn content_length_plain() {
    let h = b"HTTP/1.1 200 OK\r\nContent-Length: 1234\r\nServer: x\r\n\r\n".to_vec();
    assert_eq!(content_length_of(&h), Some(1234));
}

#[test]
fn content_length_case_insensitive() {
    let h = b"HTTP/1.1 200 OK\r\nCONTENT-LENGTH: 42\r\n\r\n".to_vec();
    assert_eq!(content_length_of(&h), Some(42));
    let h2 = b"cOnTeNt-LeNgTh:8\r\n\r\n".to_vec();
    assert_eq!(content_length_of(&h2), Some(8));
}

#[test]
fn content_length_value_is_trimmed() {
    let h = b"Content-Length:   77  \r\n\r\n".to_vec();
    assert_eq!(content_length_of(&h), Some(77));
}

#[test]
fn content_length_missing() {
    let h = b"HTTP/1.1 200 OK\r\nServer: x\r\n\r\n".to_vec();
    assert_eq!(content_length_of(&h), None);
    assert_eq!(content_length_of(&b"".to_vec()), None);
}

#[test]
fn content_length_must_start_a_line() {
    let h = b"X-content-length: 5\r\n\r\n".to_vec();
    assert_eq!(content_length_of(&h), None);
}

#[test]
fn content_length_first_matching_line_decides() {
    let h = b"Content-Length: 10\r\nContent-Length: 20\r\n\r\n".to_vec();
    assert_eq!(content_length_of(&h), Some(10));
    let bad_first = b"Content-Length: ten\r\nContent-Length: 20\r\n\r\n".to_vec();
    assert_eq!(content_length_of(&bad_first), None);
}

#[test]
fn content_length_non_numeric_value() {
    assert_eq!(content_length_of(&b"Content-Length: ten\r\n\r\n".to_vec()), None);
    assert_eq!(content_length_of(&b"Content-Length:\r\n\r\n".to_vec()), None);
    assert_eq!(content_length_of(&b"Content-Length: -5\r\n\r\n".to_vec()), None);
    assert_eq!(content_length_of(&b"Content-Length: 1 2\r\n\r\n".to_vec()), None);
}

#[test]
fn content_length_accepts_leading_plus() {
    assert_eq!(content_length_of(&b"Content-Length: +7\r\n\r\n".to_vec()), Some(7));
    assert_eq!(content_length_of(&b"Content-Length: ++7\r\n\r\n".to_vec()), None);
    assert_eq!(content_length_of(&b"Content-Length: +\r\n\r\n".to_vec()), None);
}

#[test]
fn content_length_zero_and_huge() {
    assert_eq!(content_length_of(&b"Content-Length: 0\r\n\r\n".to_vec()), Some(0));
    let huge = b"Content-Length: 99999999999999999999999999\r\n\r\n".to_vec();
    assert_eq!(content_length_of(&huge), None);
}

#[test]
fn content_length_stops_at_second_colon() {
    let h = b"Content-Length: 5:9\r\n\r\n".to_vec();
    assert_eq!(content_length_of(&h), Some(5));
}

#[test]
fn decimal_rendering() {
    assert_eq!(chunkfetch::decimal_of(0), b"0".to_vec());
    assert_eq!(chunkfetch::decimal_of(7), b"7".to_vec());
    assert_eq!(chunkfetch::decimal_of(1000), b"1000".to_vec());
    assert_eq!(chunkfetch::decimal_of(1234567890), b"1234567890".to_vec());
}

#[test]
fn rendered_length_reads_back() {
    let mut h = b"Content-Length: ".to_vec();
    h.extend(chunkfetch::decimal_of(987654));
    h.extend(b"\r\n\r\n");
    assert_eq!(content_length_of(&h), Some(987654));
}

#[test]
fn range_text_spells_one_window() {
    assert_eq!(chunkfetch::range_text(0), b"0-65535".to_vec());
    assert_eq!(chunkfetch::range_text(65536), b"65536-131071".to_vec());
    assert_eq!(chunkfetch::range_text(90), b"90-65625".to_vec());
}

#[test]
fn hex_rendering_is_two_digits_per_byte() {
    assert_eq!(hex_string(&vec![0x00u8, 0xff, 0x1a]), "00ff1a".to_string());
    assert_eq!(hex_string(&Vec::new()), "".to_string());
}

#[test]
fn digest_of_empty_input() {
    let d = digest_hex(&Vec::new());
    assert_eq!(d, "e3b0c44298fc1c149afbf4c8996fb92427ae41e4649b934ca495991b7852b855");
}

#[test]
fn digest_of_known_input() {
    let d = digest_hex(&b"abc".to_vec());
    assert_eq!(d, "ba7816bf8f01cfea414140de5dae2223b00361a396177a9cb410ff61f20015ad");
}
