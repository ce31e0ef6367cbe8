use swd::{load, Breakpoint, DecodeError, Swd, SwdReader, Tag};

fn header(version: u8) -> Vec<u8> {
    vec![b'F', b'W', b'D', version]
}

fn push_u32(out: &mut Vec<u8>, v: u32) {
    out.extend_from_slice(&v.to_le_bytes());
}

fn push_u16(out: &mut Vec<u8>, v: u16) {
    out.extend_from_slice(&v.to_le_bytes());
}

fn source_file(out: &mut Vec<u8>, index: u32, name: &str, src: &str) {
    push_u32(out, 0);
    push_u32(out, index);
    push_u32(out, 0);
    out.extend_from_slice(name.as_bytes());
    out.push(0);
    out.extend_from_slice(src.as_bytes());
    out.push(0);
}

fn offset_map(out: &mut Vec<u8>, index: u32, line: u32, offset: u32) {
    push_u32(out, 1);
    push_u32(out, index);
    push_u32(out, line);
    push_u32(out, offset);
}

fn set_breakpoint(out: &mut Vec<u8>, index: u16, line: u16) {
    push_u32(out, 2);
    push_u16(out, index);
    push_u16(out, line);
}

fn load_ok(bytes: Vec<u8>) -> Swd {
    match load(bytes) {
        Ok(swd) => swd,
        Err(e) => panic!("load failed: {:?}", e),
    }
}

fn load_err(bytes: Vec<u8>) -> DecodeError {
    match load(bytes) {
        Ok(_) => panic!("load succeeded"),
        Err(e) => e,
    }
}

#[test]
fn version_is_fourth_byte() {
    assert_eq!(load_ok(header(7)).version, 7);
    let mut bytes = header(200);
    source_file(&mut bytes, 1, "a.as", "trace(1);");
    offset_map(&mut bytes, 1, 1, 16);
    assert_eq!(load_ok(bytes).version, 200);
}

#[test]
fn bad_magic_is_rejected() {
    assert_eq!(load_err(vec![b'A', b'B', b'C', 1]), DecodeError::InvalidMagic);
    assert_eq!(load_err(vec![b'F', b'W', b'E', 1, 0, 0, 0, 0]), DecodeError::InvalidMagic);
    assert_eq!(load_err(vec![]), DecodeError::InvalidMagic);
    assert_eq!(load_err(vec![b'F', b'W']), DecodeError::InvalidMagic);
}

#[test]
fn missing_version_is_eof() {
    assert_eq!(load_err(vec![b'F', b'W', b'D']), DecodeError::UnexpectedEof);
}

#[test]
fn resolve_line_round_trip() {
    let mut bytes = header(1);
    source_file(&mut bytes, 1, "main.as", "stop();");
    offset_map(&mut bytes, 1, 10, 100);
    let swd = load_ok(bytes);
    assert_eq!(swd.resolve_line(1, 10), Some(100));
    assert_eq!(swd.resolve_line(1, 11), None);
    assert_eq!(swd.resolve_line(2, 10), None);
    let file = swd.file(1).unwrap();
    assert_eq!(file.resolve_line(10), Some(100));
    assert_eq!(file.resolve_line(11), None);
}

#[test]
fn add_breakpoint_is_idempotent() {
    let mut bytes = header(1);
    source_file(&mut bytes, 1, "main.as", "stop();");
    offset_map(&mut bytes, 1, 10, 100);
    let mut swd = load_ok(bytes);
    assert_eq!(swd.resolve_breakpoint(100), None);
    swd.add_breakpoint(1, 10);
    let once = swd.resolve_breakpoint(100);
    swd.add_breakpoint(1, 10);
    assert_eq!(swd.resolve_breakpoint(100), once);
    assert_eq!(once, Some(Breakpoint { line: 10, file: 1 }));
}

#[test]
fn remove_absent_breakpoint_is_noop() {
    let mut bytes = header(1);
    source_file(&mut bytes, 1, "main.as", "stop();");
    offset_map(&mut bytes, 1, 10, 100);
    offset_map(&mut bytes, 1, 20, 200);
    let mut swd = load_ok(bytes);
    swd.add_breakpoint(1, 20);
    swd.remove_breakpoint(1, 10);
    swd.remove_breakpoint(1, 30);
    swd.remove_breakpoint(9, 10);
    assert_eq!(swd.resolve_breakpoint(100), None);
    assert_eq!(swd.resolve_breakpoint(200), Some(Breakpoint { line: 20, file: 1 }));
    swd.remove_breakpoint(1, 20);
    assert_eq!(swd.resolve_breakpoint(200), None);
}

#[test]
fn add_breakpoint_on_unknown_line_is_noop() {
    let mut bytes = header(1);
    source_file(&mut bytes, 1, "main.as", "stop();");
    offset_map(&mut bytes, 1, 10, 100);
    let mut swd = load_ok(bytes);
    swd.add_breakpoint(1, 11);
    swd.add_breakpoint(2, 10);
    assert_eq!(swd.resolve_breakpoint(100), None);
}

#[test]
fn set_breakpoint_after_offset_map() {
    let mut bytes = header(1);
    source_file(&mut bytes, 1, "main.as", "stop();");
    offset_map(&mut bytes, 1, 5, 50);
    set_breakpoint(&mut bytes, 1, 5);
    let swd = load_ok(bytes);
    assert_eq!(swd.resolve_breakpoint(50), Some(Breakpoint { line: 5, file: 1 }));
}

#[test]
fn set_breakpoint_before_offset_map() {
    let mut bytes = header(1);
    source_file(&mut bytes, 1, "main.as", "stop();");
    set_breakpoint(&mut bytes, 1, 5);
    offset_map(&mut bytes, 1, 5, 50);
    let swd = load_ok(bytes);
    assert_eq!(swd.resolve_breakpoint(50), None);
    assert_eq!(swd.resolve_line(1, 5), Some(50));
}

#[test]
fn truncated_source_file_is_eof() {
    for extra in 0..8usize {
        let mut bytes = header(1);
        push_u32(&mut bytes, 0);
        for k in 0..extra {
            bytes.push(k as u8 + 1);
        }
        assert_eq!(load_err(bytes), DecodeError::UnexpectedEof);
    }
}

#[test]
fn truncated_offset_map_is_eof() {
    let mut bytes = header(1);
    source_file(&mut bytes, 1, "main.as", "stop();");
    push_u32(&mut bytes, 1);
    push_u32(&mut bytes, 1);
    push_u32(&mut bytes, 10);
    bytes.push(3);
    assert_eq!(load_err(bytes), DecodeError::UnexpectedEof);
}

#[test]
fn partial_discriminant_is_eof() {
    let mut bytes = header(1);
    bytes.push(1);
    bytes.push(0);
    assert_eq!(load_err(bytes), DecodeError::UnexpectedEof);
}

#[test]
fn unknown_discriminant_is_rejected() {
    let mut bytes = header(1);
    push_u32(&mut bytes, 99);
    assert_eq!(load_err(bytes.clone()), DecodeError::UnknownTag(99));
    bytes.extend_from_slice(&[1, 2, 3]);
    assert_eq!(load_err(bytes), DecodeError::UnknownTag(99));
    let mut bytes = header(1);
    push_u32(&mut bytes, 4);
    assert_eq!(load_err(bytes), DecodeError::UnknownTag(4));
}

#[test]
fn unknown_discriminant_reads_no_body() {
    let mut bytes = header(1);
    push_u32(&mut bytes, 99);
    source_file(&mut bytes, 1, "a", "b");
    let mut reader = SwdReader::new(bytes);
    assert_eq!(reader.read_magic(), Ok(()));
    assert_eq!(reader.read_version(), Ok(1));
    assert!(matches!(reader.read_tag(), Some(Err(DecodeError::UnknownTag(99)))));
    match reader.read_tag() {
        Some(Ok(Tag::SourceFile { file_index, name, src, .. })) => {
            assert_eq!(file_index, 1);
            assert_eq!(name, "a");
            assert_eq!(src, "b");
        }
        other => panic!("unexpected {:?}", other),
    }
    assert!(reader.read_tag().is_none());
}

#[test]
fn empty_stream_loads_empty_model() {
    let mut swd = load_ok(header(3));
    assert_eq!(swd.version, 3);
    assert!(swd.file(0).is_none());
    assert!(swd.file(1).is_none());
    assert_eq!(swd.resolve_breakpoint(0), None);
    swd.add_breakpoint(0, 0);
    assert_eq!(swd.resolve_breakpoint(0), None);
}

#[test]
fn invalid_utf8_is_rejected() {
    let mut bytes = header(1);
    push_u32(&mut bytes, 0);
    push_u32(&mut bytes, 1);
    push_u32(&mut bytes, 0);
    bytes.extend_from_slice(&[0xff, 0xfe, 0]);
    bytes.extend_from_slice(b"x\0");
    assert_eq!(load_err(bytes), DecodeError::InvalidEncoding);
}

#[test]
fn unterminated_string_is_eof() {
    let mut bytes = header(1);
    push_u32(&mut bytes, 0);
    push_u32(&mut bytes, 1);
    push_u32(&mut bytes, 0);
    bytes.extend_from_slice(b"main.as\0trace");
    assert_eq!(load_err(bytes), DecodeError::UnexpectedEof);
}

#[test]
fn file_accessors() {
    let mut bytes = header(1);
    source_file(&mut bytes, 4, "caf\u{e9}.as", "x = 1;\ny = 2;");
    let swd = load_ok(bytes);
    let file = swd.file(4).unwrap();
    assert_eq!(file.id(), 4);
    assert_eq!(file.name(), "caf\u{e9}.as");
    assert_eq!(file.src_code(), "x = 1;\ny = 2;");
    assert!(swd.file(1).is_none());
}

#[test]
fn offset_map_without_file_is_dropped() {
    let mut bytes = header(1);
    offset_map(&mut bytes, 1, 10, 100);
    source_file(&mut bytes, 1, "main.as", "");
    let swd = load_ok(bytes);
    assert_eq!(swd.resolve_line(1, 10), None);
}

#[test]
fn later_offset_overwrites_earlier() {
    let mut bytes = header(1);
    source_file(&mut bytes, 1, "main.as", "");
    offset_map(&mut bytes, 1, 10, 100);
    offset_map(&mut bytes, 1, 10, 0x0102_0304);
    let swd = load_ok(bytes);
    assert_eq!(swd.resolve_line(1, 10), Some(0x0102_0304));
}

#[test]
fn redefined_file_starts_empty() {
    let mut bytes = header(1);
    source_file(&mut bytes, 1, "old.as", "");
    offset_map(&mut bytes, 1, 10, 100);
    source_file(&mut bytes, 1, "new.as", "z");
    let swd = load_ok(bytes);
    assert_eq!(swd.resolve_line(1, 10), None);
    assert_eq!(swd.file(1).unwrap().name(), "new.as");
}

#[test]
fn set_breakpoint_widens_indices() {
    let mut bytes = header(1);
    source_file(&mut bytes, 0x1234, "main.as", "");
    offset_map(&mut bytes, 0x1234, 0x0201, 77);
    set_breakpoint(&mut bytes, 0x1234, 0x0201);
    let swd = load_ok(bytes);
    assert_eq!(swd.resolve_breakpoint(77), Some(Breakpoint { line: 0x0201, file: 0x1234 }));
}

#[test]
fn id_tag_is_skipped() {
    let mut bytes = header(1);
    push_u32(&mut bytes, 3);
    bytes.extend_from_slice(&[9u8; 16]);
    source_file(&mut bytes, 1, "main.as", "");
    offset_map(&mut bytes, 1, 2, 3);
    let swd = load_ok(bytes);
    assert_eq!(swd.resolve_line(1, 2), Some(3));
}

#[test]
fn id_tag_is_read_whole() {
    let mut bytes = header(1);
    push_u32(&mut bytes, 3);
    let id: Vec<u8> = (1..=16).collect();
    bytes.extend_from_slice(&id);
    let mut reader = SwdReader::new(bytes);
    assert_eq!(reader.read_magic(), Ok(()));
    assert_eq!(reader.read_version(), Ok(1));
    match reader.read_tag() {
        Some(Ok(Tag::Id(got))) => assert_eq!(got.to_vec(), id),
        other => panic!("unexpected {:?}", other),
    }
    assert!(reader.read_tag().is_none());
}

#[test]
fn truncated_id_is_eof() {
    let mut bytes = header(1);
    push_u32(&mut bytes, 3);
    bytes.extend_from_slice(&[0u8; 15]);
    assert_eq!(load_err(bytes), DecodeError::UnexpectedEof);
}

#[test]
fn reader_reads_fields_in_order() {
    let mut bytes = header(9);
    offset_map(&mut bytes, 0x0a0b_0c0d, 2, 3);
    set_breakpoint(&mut bytes, 0x0102, 0x0304);
    bytes.extend_from_slice(b"hello\0");
    let mut reader = SwdReader::new(bytes);
    assert_eq!(reader.read_magic(), Ok(()));
    assert_eq!(reader.read_version(), Ok(9));
    match reader.read_tag() {
        Some(Ok(Tag::OffsetMap { file_index, line, offset })) => {
            assert_eq!((file_index, line, offset), (0x0a0b_0c0d, 2, 3));
        }
        other => panic!("unexpected {:?}", other),
    }
    match reader.read_tag() {
        Some(Ok(Tag::SetBreakpoint { file_index, line })) => {
            assert_eq!((file_index, line), (0x0102, 0x0304));
        }
        other => panic!("unexpected {:?}", other),
    }
    assert_eq!(reader.read_string(), Ok("hello".to_string()));
    assert!(reader.read_tag().is_none());
    assert_eq!(reader.read_version(), Err(DecodeError::UnexpectedEof));
}

#[test]
fn reader_read_decodes_whole_stream() {
    let mut bytes = header(2);
    source_file(&mut bytes, 1, "main.as", "stop();");
    offset_map(&mut bytes, 1, 1, 8);
    let mut reader = SwdReader::new(bytes);
    let swd = reader.read().unwrap();
    assert_eq!(swd.version, 2);
    assert_eq!(swd.resolve_line(1, 1), Some(8));
}

#[test]
fn read_magic_rejects_short_input() {
    let mut reader = SwdReader::new(vec![b'F']);
    assert_eq!(reader.read_magic(), Err(DecodeError::InvalidMagic));
}
