use logstreamer::wire::{write_contents, write_string, write_strings, write_u32, Buffer};
use logstreamer::Content;

#[test]
fn u32_is_written_most_significant_byte_first() {
    let mut bytes = vec![9];
    write_u32(&mut bytes, 0);
    write_u32(&mut bytes, 1);
    write_u32(&mut bytes, 0x1234_5678);
    write_u32(&mut bytes, u32::MAX);
    assert_eq!(
        bytes,
        vec![9, 0, 0, 0, 0, 0, 0, 0, 1, 0x12, 0x34, 0x56, 0x78, 255, 255, 255, 255]
    );
}

#[test]
fn u32_is_written_as_std_writes_it() {
    for value in [0u32, 1, 255, 256, 65_535, 65_536, 16_777_215, 16_777_216, 0xdead_beef, u32::MAX]
    {
        let mut bytes = Vec::new();
        write_u32(&mut bytes, value);
        assert_eq!(bytes, value.to_be_bytes().to_vec());
        let mut reader = Buffer::new(&bytes);
        assert_eq!(reader.read_u32(), Some(value));
        assert!(reader.finished_read());
    }
}

#[test]
fn string_is_written_with_its_byte_length() {
    let mut bytes = Vec::new();
    write_string(&mut bytes, &String::from("abc"));
    write_string(&mut bytes, &String::new());
    write_string(&mut bytes, &String::from("\u{20ac}"));
    assert_eq!(bytes, vec![0, 0, 0, 3, b'a', b'b', b'c', 0, 0, 0, 0, 0, 0, 0, 3, 0xe2, 0x82, 0xac]);
}

#[test]
fn lists_are_written_one_string_after_the_other() {
    let mut bytes = Vec::new();
    write_strings(&mut bytes, &vec![String::from("a"), String::from("bc")]);
    assert_eq!(bytes, vec![0, 0, 0, 1, b'a', 0, 0, 0, 2, b'b', b'c']);
    let mut same = Vec::new();
    write_contents(
        &mut same,
        &vec![Content::new(String::from("a")), Content::new(String::from("bc"))],
    );
    assert_eq!(same, bytes);
    let mut nothing = vec![1, 2];
    write_strings(&mut nothing, &Vec::new());
    assert_eq!(nothing, vec![1, 2]);
}

#[test]
fn reader_moves_through_the_buffer() {
    let bytes = [7u8, 0, 0, 1, 0, 0, 0, 0, 2, b'h', b'i', 5];
    let mut reader = Buffer::new(&bytes);
    assert!(!reader.finished_read());
    assert_eq!(reader.read_u8(), Some(7));
    assert_eq!(reader.read_u32(), Some(256));
    assert_eq!(reader.read_string(), Some(String::from("hi")));
    assert!(!reader.finished_read());
    assert_eq!(reader.read_u8(), Some(5));
    assert!(reader.finished_read());
    assert_eq!(reader.read_u8(), None);
    assert_eq!(reader.read_u32(), None);
    assert_eq!(reader.read_string(), None);
}

#[test]
fn reader_of_nothing_is_finished() {
    let mut reader = Buffer::new(&[]);
    assert!(reader.finished_read());
    assert_eq!(reader.read_u8(), None);
    assert_eq!(reader.read_strings(0), Some(Vec::new()));
    assert_eq!(reader.read_contents(0), Some(Vec::new()));
    assert_eq!(reader.read_strings(1), None);
}

#[test]
fn reader_reads_lists() {
    let bytes = [0u8, 0, 0, 1, b'a', 0, 0, 0, 0, 0, 0, 0, 2, b'b', b'c'];
    let mut reader = Buffer::new(&bytes);
    assert_eq!(
        reader.read_strings(3),
        Some(vec![String::from("a"), String::new(), String::from("bc")])
    );
    assert!(reader.finished_read());
    let mut reader = Buffer::new(&bytes);
    assert_eq!(
        reader.read_contents(2),
        Some(vec![Content::new(String::from("a")), Content::new(String::new())])
    );
    assert!(!reader.finished_read());
    let mut reader = Buffer::new(&bytes);
    assert_eq!(reader.read_strings(4), None);
    let mut reader = Buffer::new(&bytes);
    assert_eq!(reader.read_contents(u32::MAX), None);
}

#[test]
fn reader_stops_at_a_string_that_runs_past_the_end() {
    let bytes = [0u8, 0, 0, 3, b'a', b'b'];
    let mut reader = Buffer::new(&bytes);
    assert_eq!(reader.read_string(), None);
    let bytes = [255u8, 255, 255, 255, b'a'];
    let mut reader = Buffer::new(&bytes);
    assert_eq!(reader.read_string(), None);
    let bytes = [0u8, 0, 1];
    let mut reader = Buffer::new(&bytes);
    assert_eq!(reader.read_u32(), None);
}
