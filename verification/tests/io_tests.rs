use inko_core::io::BufferStream;
use inko_core::io::FileProto;
use inko_core::io::IoValue;
use inko_core::io::OpenOpts;
use inko_core::io::RtError;
use inko_core::io::SeekOffset;
use inko_core::io::Stream;
use inko_core::io::buffer_to_write;
use inko_core::io::file_size;
use inko_core::io::file_time;
use inko_core::io::file_type;
use inko_core::io::flush_file;
use inko_core::io::io_read;
use inko_core::io::io_write;
use inko_core::io::list_directory;
use inko_core::io::open_file;
use inko_core::io::options_for_integer;
use inko_core::io::prototype_for_open_mode;
use inko_core::io::read_file;
use inko_core::io::remove_file;
use inko_core::io::seek_file;
use inko_core::io::write_file;

fn buffer_stream() -> Stream {
    Stream::Buffer(BufferStream { data: Vec::new(), rpos: 0 })
}

fn temp_path(name: &str) -> String {
    format!("/tmp/inko_core_io_test_{}", name)
}

#[test]
fn open_options_follow_the_mode_table() {
    assert_eq!(
        options_for_integer(0).unwrap(),
        OpenOpts { read: true, write: false, append: false, truncate: false, create: false }
    );
    assert_eq!(
        options_for_integer(1).unwrap(),
        OpenOpts { read: false, write: true, append: false, truncate: true, create: true }
    );
    assert_eq!(
        options_for_integer(2).unwrap(),
        OpenOpts { read: false, write: false, append: true, truncate: false, create: true }
    );
    assert_eq!(
        options_for_integer(3).unwrap(),
        OpenOpts { read: true, write: true, append: false, truncate: false, create: true }
    );
    assert_eq!(
        options_for_integer(4).unwrap(),
        OpenOpts { read: true, write: false, append: true, truncate: false, create: true }
    );
    assert!(matches!(options_for_integer(5), Err(RtError::Panic(_))));
    assert!(matches!(options_for_integer(-1), Err(RtError::Panic(_))));
}

#[test]
fn prototypes_follow_the_mode_table() {
    assert_eq!(prototype_for_open_mode(0).unwrap(), FileProto::ReadOnly);
    assert_eq!(prototype_for_open_mode(1).unwrap(), FileProto::WriteOnly);
    assert_eq!(prototype_for_open_mode(2).unwrap(), FileProto::WriteOnly);
    assert_eq!(prototype_for_open_mode(3).unwrap(), FileProto::ReadWrite);
    assert_eq!(prototype_for_open_mode(4).unwrap(), FileProto::ReadWrite);
    assert!(matches!(prototype_for_open_mode(9), Err(RtError::Panic(_))));
}

#[test]
fn a_string_writes_its_utf8_bytes() {
    let bytes = buffer_to_write(&IoValue::Str(String::from("hé"))).unwrap();
    assert_eq!(bytes, vec![0x68, 0xc3, 0xa9]);
    let raw = buffer_to_write(&IoValue::Bytes(vec![1, 2, 3])).unwrap();
    assert_eq!(raw, vec![1, 2, 3]);
    assert!(matches!(buffer_to_write(&IoValue::Int(1)), Err(RtError::Panic(_))));
    assert!(matches!(buffer_to_write(&IoValue::Nil), Err(RtError::Panic(_))));
}

#[test]
fn write_returns_the_utf8_byte_length() {
    let mut stream = buffer_stream();
    let written = io_write(&mut stream, &IoValue::Str(String::from("héllo"))).unwrap();
    assert_eq!(written, 6);
    match &stream {
        Stream::Buffer(b) => assert_eq!(b.data.len(), 6),
        _ => panic!("expected the buffer stream"),
    }
}

#[test]
fn buffer_stream_reads_back_what_was_written() {
    let mut stream = buffer_stream();
    io_write(&mut stream, &IoValue::Bytes(vec![10, 20, 30, 40])).unwrap();
    let mut out = Vec::new();
    let n = io_read(&mut stream, &mut out, Some(3)).unwrap();
    assert_eq!(n, 3);
    assert_eq!(out, vec![10, 20, 30]);
    let n = io_read(&mut stream, &mut out, None).unwrap();
    assert_eq!(n, 1);
    assert_eq!(out, vec![10, 20, 30, 40]);
    let n = io_read(&mut stream, &mut out, None).unwrap();
    assert_eq!(n, 0);
}

#[test]
fn invalid_open_mode_creates_no_file() {
    let path = temp_path("invalid_mode");
    let _ = remove_file(&path);
    assert!(matches!(open_file(&path, 9), Err(RtError::Panic(_))));
    // Read mode never creates; an I/O failure here shows nothing exists.
    assert!(matches!(open_file(&path, 0), Err(RtError::Io(_))));
    assert_eq!(file_type(&path), 0);
}

#[test]
fn seek_validates_offsets_and_returns_the_cursor() {
    let path = temp_path("seek");
    let mut file = open_file(&path, 1).unwrap();
    assert!(matches!(seek_file(&mut file, SeekOffset::Int(-1)), Err(RtError::Panic(_))));
    assert!(matches!(
        seek_file(
            &mut file,
            SeekOffset::Big { negative: false, magnitude: (u64::MAX as u128) + 1 },
        ),
        Err(RtError::Panic(_))
    ));
    assert!(matches!(
        seek_file(&mut file, SeekOffset::Big { negative: true, magnitude: 1 }),
        Err(RtError::Panic(_))
    ));
    assert_eq!(seek_file(&mut file, SeekOffset::Int(0)).unwrap(), 0);
    assert_eq!(seek_file(&mut file, SeekOffset::Int(5)).unwrap(), 5);
    assert_eq!(
        seek_file(&mut file, SeekOffset::Big { negative: false, magnitude: 2 }).unwrap(),
        2
    );
    remove_file(&path).unwrap();
}

#[test]
fn write_flush_and_size_on_disk() {
    let path = temp_path("write_flush");
    let mut file = open_file(&path, 1).unwrap();
    match &file {
        Stream::File(f) => assert_eq!(f.proto, FileProto::WriteOnly),
        _ => panic!("expected a file stream"),
    }
    let written = write_file(&mut file, &IoValue::Str(String::from("hi"))).unwrap();
    assert_eq!(written, 2);
    assert_eq!(flush_file(&mut file).unwrap(), IoValue::Nil);
    drop(file);
    assert_eq!(file_size(&path).unwrap(), 2);
    assert_eq!(file_type(&path), 1);
    remove_file(&path).unwrap();
    assert!(matches!(file_size(&path), Err(RtError::Io(_))));
}

#[test]
fn read_back_a_written_file() {
    let path = temp_path("read_back");
    let mut file = open_file(&path, 1).unwrap();
    write_file(&mut file, &IoValue::Bytes(vec![7, 8, 9])).unwrap();
    drop(file);
    let mut file = open_file(&path, 0).unwrap();
    match &file {
        Stream::File(f) => assert_eq!(f.proto, FileProto::ReadOnly),
        _ => panic!("expected a file stream"),
    }
    let mut out = Vec::new();
    let n = read_file(&mut file, &mut out, None).unwrap();
    assert_eq!(n, 3);
    assert_eq!(out, vec![7, 8, 9]);
    drop(file);
    // An exact amount reads just that many bytes.
    let mut file = open_file(&path, 0).unwrap();
    let mut out = Vec::new();
    let n = read_file(&mut file, &mut out, Some(2)).unwrap();
    assert_eq!(n, 2);
    assert_eq!(out, vec![7, 8]);
    remove_file(&path).unwrap();
}

#[test]
fn append_mode_keeps_existing_content() {
    let path = temp_path("append");
    let mut file = open_file(&path, 1).unwrap();
    write_file(&mut file, &IoValue::Str(String::from("ab"))).unwrap();
    drop(file);
    let mut file = open_file(&path, 2).unwrap();
    write_file(&mut file, &IoValue::Str(String::from("cd"))).unwrap();
    drop(file);
    assert_eq!(file_size(&path).unwrap(), 4);
    remove_file(&path).unwrap();
}

#[test]
fn file_time_kinds_are_validated() {
    let path = temp_path("time");
    let mut file = open_file(&path, 1).unwrap();
    write_file(&mut file, &IoValue::Str(String::from("x"))).unwrap();
    drop(file);
    assert!(file_time(&path, 0).unwrap() > 0);
    assert!(file_time(&path, 1).unwrap() > 0);
    assert!(file_time(&path, 2).unwrap() > 0);
    assert!(matches!(file_time(&path, 3), Err(RtError::Panic(_))));
    assert!(matches!(file_time(&path, -1), Err(RtError::Panic(_))));
    remove_file(&path).unwrap();
}

#[test]
fn listing_a_directory_finds_a_created_file() {
    let name = temp_path("listed_entry");
    let mut file = open_file(&name, 1).unwrap();
    write_file(&mut file, &IoValue::Str(String::from("x"))).unwrap();
    drop(file);
    let here = String::from("/tmp");
    let names = list_directory(&here).unwrap();
    assert!(names.iter().any(|n| format!("/tmp/{}", n) == name));
    assert!(!names.iter().any(|n| n == "." || n == ".."));
    remove_file(&name).unwrap();
}

#[test]
fn failure_messages_carry_the_offending_value() {
    match open_file(&temp_path("mode_message"), 9) {
        Err(RtError::Panic(msg)) => assert_eq!(msg, "Invalid file open mode: 9"),
        _ => panic!("expected a mode panic"),
    }
    let path = temp_path("offset_message");
    let mut file = open_file(&path, 1).unwrap();
    match seek_file(&mut file, SeekOffset::Int(-1)) {
        Err(RtError::Panic(msg)) => assert_eq!(msg, "-1 is not a valid seek offset"),
        other => panic!("expected an offset panic, got {:?}", other),
    }
    match seek_file(
        &mut file,
        SeekOffset::Big { negative: false, magnitude: (u64::MAX as u128) + 1 },
    ) {
        Err(RtError::Panic(msg)) => {
            assert_eq!(msg, "18446744073709551616 is not a valid seek offset")
        }
        other => panic!("expected an offset panic, got {:?}", other),
    }
    remove_file(&path).unwrap();
}
