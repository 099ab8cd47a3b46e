use bytes::Bytes;
use runner::memory_pipe::{Emission, MemoryOutputPipe, StreamFault};

#[test]
fn new_stream_is_empty_and_open() {
    let mut pipe = MemoryOutputPipe::new(1024, false, 7);
    assert_eq!(pipe.contents().len(), 0);
    assert_eq!(pipe.contents_string(), Ok(String::new()));
    assert_eq!(pipe.check_write(), Ok(1024));
    assert!(!pipe.isatty());
}

#[test]
fn write_hands_out_the_chunk_and_empties_the_buffer() {
    let mut pipe = MemoryOutputPipe::new(1024, false, 7);
    let chunk = pipe.write(Bytes::from_static(b"hello\n")).unwrap();
    assert_eq!(chunk, Emission { text: String::from("hello\n"), echo: None });
    assert_eq!(pipe.contents().len(), 0);
    assert_eq!(pipe.check_write(), Ok(1024));
}

#[test]
fn write_decodes_text_of_more_than_one_byte_per_character() {
    let mut pipe = MemoryOutputPipe::new(1024, false, 7);
    let chunk = pipe.write(Bytes::from("héllo \u{1F600}".as_bytes().to_vec())).unwrap();
    assert_eq!(chunk.text, "héllo \u{1F600}");
}

#[test]
fn write_of_nothing_hands_out_an_empty_chunk() {
    let mut pipe = MemoryOutputPipe::new(1024, false, 7);
    let chunk = pipe.write(Bytes::new()).unwrap();
    assert_eq!(chunk.text, "");
}

#[test]
fn write_of_one_byte_too_many_is_refused() {
    let mut pipe = MemoryOutputPipe::new(1024, false, 7);
    let refused = pipe.write(Bytes::from(vec![b'a'; 1025]));
    assert_eq!(refused, Err(StreamFault::BeyondCapacity));
    assert_eq!(pipe.contents().len(), 0);
    assert_eq!(pipe.check_write(), Ok(1024));
}

#[test]
fn write_of_exactly_the_capacity_is_taken() {
    let mut pipe = MemoryOutputPipe::new(1024, false, 7);
    let chunk = pipe.write(Bytes::from(vec![b'a'; 1024])).unwrap();
    assert_eq!(chunk.text.len(), 1024);
    assert_eq!(pipe.check_write(), Ok(1024));
}

#[test]
fn total_output_is_not_bounded_by_the_capacity() {
    let mut pipe = MemoryOutputPipe::new(4, false, 7);
    let mut all = String::new();
    for _ in 0..10 {
        all.push_str(&pipe.write(Bytes::from_static(b"abcd")).unwrap().text);
    }
    assert_eq!(all.len(), 40);
    assert_eq!(pipe.check_write(), Ok(4));
}

#[test]
fn stream_of_no_capacity_takes_the_empty_write_only() {
    let mut pipe = MemoryOutputPipe::new(0, false, 7);
    assert_eq!(pipe.check_write(), Err(StreamFault::Closed));
    assert_eq!(pipe.write(Bytes::from_static(b"a")), Err(StreamFault::BeyondCapacity));
    assert_eq!(pipe.write(Bytes::new()).unwrap().text, "");
}

#[test]
fn bytes_that_do_not_decode_stay_in_the_buffer() {
    let mut pipe = MemoryOutputPipe::new(4, false, 7);
    assert_eq!(pipe.write(Bytes::from_static(&[0xff, 0xfe])), Err(StreamFault::Undecodable));
    assert_eq!(pipe.contents(), Bytes::from_static(&[0xff, 0xfe]));
    assert_eq!(pipe.contents_string(), Err(StreamFault::Undecodable));
    assert_eq!(pipe.poll_contents(), Err(StreamFault::Undecodable));
    assert_eq!(pipe.check_write(), Ok(2));
    assert_eq!(pipe.flush(), Err(StreamFault::Undecodable));
    assert_eq!(pipe.write(Bytes::from_static(b"abc")), Err(StreamFault::BeyondCapacity));
    assert_eq!(pipe.write(Bytes::from_static(b"ab")), Err(StreamFault::Undecodable));
    assert_eq!(pipe.contents(), Bytes::from_static(&[0xff, 0xfe, b'a', b'b']));
    assert_eq!(pipe.check_write(), Err(StreamFault::Closed));
}

#[test]
fn first_half_of_a_character_is_completed_by_the_next_write() {
    let mut pipe = MemoryOutputPipe::new(1024, false, 7);
    let bytes = "é".as_bytes();
    assert_eq!(pipe.write(Bytes::from(vec![bytes[0]])), Err(StreamFault::Undecodable));
    assert_eq!(pipe.poll_contents(), Err(StreamFault::Undecodable));
    let chunk = pipe.write(Bytes::from(vec![bytes[1]])).unwrap();
    assert_eq!(chunk.text, "é");
    assert_eq!(pipe.contents().len(), 0);
}

#[test]
fn flush_of_an_empty_buffer_hands_out_nothing() {
    let mut pipe = MemoryOutputPipe::new(1024, true, 7);
    assert_eq!(pipe.flush(), Ok(None));
    pipe.write(Bytes::from_static(b"x")).unwrap();
    assert_eq!(pipe.flush(), Ok(None));
}

#[test]
fn poll_shows_nothing_where_the_buffer_is_empty() {
    let mut pipe = MemoryOutputPipe::new(1024, false, 7);
    assert_eq!(pipe.poll_contents(), Ok(None));
    pipe.write(Bytes::from_static(b"x")).unwrap();
    assert_eq!(pipe.poll_contents(), Ok(None));
}

#[test]
fn giving_up_the_stream_yields_its_buffer() {
    let mut pipe = MemoryOutputPipe::new(8, false, 7);
    assert_eq!(pipe.write(Bytes::from_static(&[0x80])), Err(StreamFault::Undecodable));
    let inner = pipe.try_into_inner().unwrap();
    assert_eq!(&inner[..], &[0x80]);
    let empty = MemoryOutputPipe::new(8, false, 7).try_into_inner().unwrap();
    assert!(empty.is_empty());
}

#[test]
fn echo_line_carries_the_hyphenated_id() {
    let id: u128 = 0x67e5504410b1426f9247bb680e5fe0c8;
    let mut pipe = MemoryOutputPipe::new(1024, true, id);
    let chunk = pipe.write(Bytes::from_static(b"hi")).unwrap();
    assert_eq!(chunk.text, "hi");
    assert_eq!(
        chunk.echo,
        Some(String::from("\x1b[32mpython 67e55044-10b1-426f-9247-bb680e5fe0c8:\x1b[0m hi"))
    );
}

#[test]
fn echo_line_of_the_smallest_and_the_largest_id() {
    let mut low = MemoryOutputPipe::new(16, true, 0);
    assert_eq!(
        low.write(Bytes::from_static(b"a")).unwrap().echo.unwrap(),
        "\x1b[32mpython 00000000-0000-0000-0000-000000000000:\x1b[0m a"
    );
    let mut high = MemoryOutputPipe::new(16, true, u128::MAX);
    assert_eq!(
        high.write(Bytes::from_static(b"a")).unwrap().echo.unwrap(),
        "\x1b[32mpython ffffffff-ffff-ffff-ffff-ffffffffffff:\x1b[0m a"
    );
    let mut mixed = MemoryOutputPipe::new(16, true, 0x0123456789abcdef_fedcba9876543210);
    assert_eq!(
        mixed.write(Bytes::from_static(b"")).unwrap().echo.unwrap(),
        "\x1b[32mpython 01234567-89ab-cdef-fedc-ba9876543210:\x1b[0m "
    );
}

#[test]
fn echo_is_left_out_where_it_is_switched_off() {
    let mut pipe = MemoryOutputPipe::new(1024, false, 1);
    assert_eq!(pipe.write(Bytes::from_static(b"hi")).unwrap().echo, None);
}

#[test]
fn faults_in_words() {
    assert_eq!(StreamFault::BeyondCapacity.message(), "write beyond capacity of MemoryOutputPipe");
    assert_eq!(StreamFault::Closed.message(), "stream is closed");
    assert_eq!(StreamFault::Undecodable.message(), "captured bytes are not valid text");
}

#[test]
fn two_streams_do_not_see_each_other() {
    let mut a = MemoryOutputPipe::new(8, false, 1);
    let mut b = MemoryOutputPipe::new(8, false, 2);
    let mut seen_a = Vec::new();
    let mut seen_b = Vec::new();
    seen_a.push(a.write(Bytes::from_static(b"a1")));
    seen_b.push(b.write(Bytes::from_static(b"b1")));
    seen_b.push(b.write(Bytes::from_static(&[0xff])));
    seen_a.push(a.write(Bytes::from_static(b"a2")));
    seen_b.push(b.write(Bytes::from_static(b"123456789")));
    seen_a.push(a.write(Bytes::from_static(b"a3")));

    let mut alone_a = MemoryOutputPipe::new(8, false, 1);
    let alone: Vec<_> = [&b"a1"[..], &b"a2"[..], &b"a3"[..]]
        .into_iter()
        .map(|chunk| alone_a.write(Bytes::copy_from_slice(chunk)))
        .collect();
    assert_eq!(seen_a, alone);
    let texts: Vec<String> = seen_a.into_iter().map(|r| r.unwrap().text).collect();
    assert_eq!(texts, vec!["a1", "a2", "a3"]);
    assert_eq!(seen_b[0].as_ref().unwrap().text, "b1");
    assert_eq!(seen_b[1], Err(StreamFault::Undecodable));
    assert_eq!(seen_b[2], Err(StreamFault::BeyondCapacity));
}
