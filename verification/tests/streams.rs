use audio_ext::pipe::BytesPipe;
use audio_ext::reader::{BufferBlockingRead, FetchAction, FetchEvent, READ_CHUNK};

#[test]
fn pipe_is_first_in_first_out() {
    let mut pipe = BytesPipe::new();
    assert_eq!(pipe.poll_write(&[1, 2, 3]), 3);
    assert_eq!(pipe.poll_write(&[4]), 1);
    let mut buf = [9u8; 3];
    assert_eq!(pipe.poll_read(0, &mut buf), Some(3));
    assert_eq!(buf, [1, 2, 3]);
    assert_eq!(pipe.poll_read(0, &mut buf), Some(1));
    assert_eq!(buf, [4, 2, 3]);
    assert_eq!(pipe.poll_read(0, &mut buf), None);
    assert_eq!(buf, [4, 2, 3]);
}

#[test]
fn empty_pipe_remembers_its_reader() {
    let mut pipe: BytesPipe<&str> = BytesPipe::new();
    assert_eq!(pipe.poll_flush(), None);
    let mut buf = [0u8; 1];
    assert_eq!(pipe.poll_read("a", &mut buf), None);
    assert_eq!(pipe.poll_write(&[5]), 1);
    assert_eq!(pipe.poll_flush(), Some("a"));
    assert_eq!(pipe.poll_flush(), None);
    assert_eq!(pipe.poll_read("b", &mut buf), Some(1));
    assert_eq!(pipe.poll_close(), None);
    assert_eq!(pipe.poll_read("c", &mut buf), None);
    assert_eq!(pipe.poll_close(), Some("c"));
    assert_eq!(pipe.poll_close(), None);
}

#[test]
fn latest_reader_is_woken_once() {
    let mut pipe: BytesPipe<u8> = BytesPipe::new();
    let mut buf = [0u8; 2];
    assert_eq!(pipe.poll_read(1, &mut buf), None);
    assert_eq!(pipe.poll_read(2, &mut buf), None);
    assert_eq!(pipe.poll_write(&[7, 8, 9]), 3);
    assert_eq!(pipe.poll_read(3, &mut buf), Some(2));
    assert_eq!(pipe.poll_flush(), Some(2));
    assert_eq!(pipe.poll_flush(), None);
    assert_eq!(pipe.poll_read(4, &mut buf), Some(1));
    assert_eq!(buf, [9, 8]);
}

#[test]
fn reading_without_room_waits() {
    let mut pipe: BytesPipe<u8> = BytesPipe::new();
    assert_eq!(pipe.poll_write(&[5]), 1);
    let mut buf: [u8; 0] = [];
    assert_eq!(pipe.poll_read(1, &mut buf), None);
    assert_eq!(pipe.poll_flush(), Some(1));
}

#[test]
fn reader_asks_once_and_then_waits() {
    let mut reader = BufferBlockingRead::new();
    let mut buf = [0u8; 4];
    assert_eq!(reader.next_fetch(), FetchAction::Start(READ_CHUNK));
    assert_eq!(reader.poll_read(&FetchEvent::Pending, 0, &mut buf), None);
    assert_eq!(reader.next_fetch(), FetchAction::Await);
    assert_eq!(
        reader.poll_read(&FetchEvent::Data(vec![1, 2, 3, 4, 5]), 0, &mut buf),
        Some(4)
    );
    assert_eq!(buf, [1, 2, 3, 4]);
    assert_eq!(reader.next_fetch(), FetchAction::Start(READ_CHUNK));
    assert_eq!(reader.poll_read(&FetchEvent::Pending, 0, &mut buf), Some(1));
    assert_eq!(buf, [5, 2, 3, 4]);
    assert_eq!(reader.next_fetch(), FetchAction::Await);
}

#[test]
fn empty_chunk_ends_the_source() {
    let mut reader = BufferBlockingRead::new();
    let mut buf = [0u8; 4];
    assert_eq!(
        reader.poll_read(&FetchEvent::Data(vec![1, 2, 3, 4, 5]), 0, &mut buf),
        Some(4)
    );
    assert_eq!(reader.poll_read(&FetchEvent::Data(vec![]), 0, &mut buf), Some(1));
    assert_eq!(reader.next_fetch(), FetchAction::Skip);
    assert_eq!(reader.poll_read(&FetchEvent::Skipped, 0, &mut buf), Some(0));
    assert_eq!(reader.poll_read(&FetchEvent::Skipped, 0, &mut buf), Some(0));
}

#[test]
fn failure_ends_the_source() {
    let mut reader = BufferBlockingRead::new();
    let mut buf = [0u8; 4];
    assert_eq!(reader.poll_read(&FetchEvent::Failed, 0, &mut buf), Some(0));
    assert_eq!(reader.next_fetch(), FetchAction::Skip);
}

#[test]
fn full_buffer_asks_for_nothing() {
    let mut reader = BufferBlockingRead::new();
    let mut buf = [0u8; 1];
    assert_eq!(
        reader.poll_read(&FetchEvent::Data(vec![8; READ_CHUNK]), 0, &mut buf),
        Some(1)
    );
    assert_eq!(reader.next_fetch(), FetchAction::Start(READ_CHUNK));
    let mut none: [u8; 0] = [];
    assert_eq!(reader.poll_read(&FetchEvent::Data(vec![9]), 0, &mut none), None);
    assert_eq!(reader.next_fetch(), FetchAction::Skip);
    assert_eq!(reader.poll_read(&FetchEvent::Skipped, 0, &mut buf), Some(1));
    assert_eq!(reader.next_fetch(), FetchAction::Start(READ_CHUNK));
}

#[test]
fn stream_is_faithful() {
    let mut reader = BufferBlockingRead::new();
    let mut out = Vec::new();
    let mut sent = Vec::new();
    for round in 0..20u8 {
        let chunk: Vec<u8> = (0..round + 1).map(|i| i.wrapping_mul(round)).collect();
        sent.extend_from_slice(&chunk);
        let mut buf = vec![0u8; 7];
        let event = if reader.next_fetch() == FetchAction::Skip {
            FetchEvent::Skipped
        } else {
            FetchEvent::Data(chunk)
        };
        if let Some(n) = reader.poll_read(&event, 0, &mut buf) {
            out.extend_from_slice(&buf[..n]);
        }
    }
    let mut buf = vec![0u8; 1000];
    let n = reader.poll_read(&FetchEvent::Data(vec![]), 0, &mut buf).unwrap();
    out.extend_from_slice(&buf[..n]);
    assert_eq!(out, sent);
}

#[test]
fn pending_poll_is_woken() {
    let mut reader: BufferBlockingRead<u8> = BufferBlockingRead::new();
    let mut buf = [0u8; 4];
    assert_eq!(reader.waiter(), None);
    assert_eq!(reader.poll_read(&FetchEvent::Pending, 1, &mut buf), None);
    assert_eq!(reader.poll_read(&FetchEvent::Pending, 2, &mut buf), None);
    assert_eq!(reader.waiter(), Some(&2));
    assert_eq!(reader.next_fetch(), FetchAction::Await);
    assert_eq!(reader.poll_read(&FetchEvent::Data(vec![7]), 3, &mut buf), Some(1));
    assert_eq!(reader.waiter(), None);
    assert_eq!(reader.poll_read(&FetchEvent::Pending, 4, &mut buf), None);
    assert_eq!(reader.waiter(), Some(&4));
    assert_eq!(reader.poll_read(&FetchEvent::Failed, 5, &mut buf), Some(0));
    assert_eq!(reader.waiter(), None);
}

#[test]
fn pipe_is_faithful() {
    let mut pipe: BytesPipe<u8> = BytesPipe::new();
    let mut sent = Vec::new();
    let mut out = Vec::new();
    for round in 0..20u8 {
        let data: Vec<u8> = (0..round).map(|i| i.wrapping_mul(round)).collect();
        sent.extend_from_slice(&data);
        assert_eq!(pipe.poll_write(&data), data.len());
        let mut buf = [0u8; 7];
        if let Some(n) = pipe.poll_read(round, &mut buf) {
            out.extend_from_slice(&buf[..n]);
        }
    }
    let mut buf = [0u8; 1000];
    let n = pipe.poll_read(0, &mut buf).unwrap();
    out.extend_from_slice(&buf[..n]);
    assert_eq!(out, sent);
}

#[test]
fn reader_is_bounded() {
    let mut reader: BufferBlockingRead<u8> = BufferBlockingRead::new();
    let mut none: [u8; 0] = [];
    let first = FetchEvent::Data(vec![1; READ_CHUNK - 1]);
    assert_eq!(reader.poll_read(&first, 0, &mut none), None);
    assert_eq!(reader.next_fetch(), FetchAction::Start(READ_CHUNK));
    let second = FetchEvent::Data(vec![2; READ_CHUNK]);
    assert_eq!(reader.poll_read(&second, 0, &mut none), None);
    assert_eq!(reader.next_fetch(), FetchAction::Skip);
    let mut all = vec![0u8; 3 * READ_CHUNK];
    assert_eq!(reader.poll_read(&FetchEvent::Skipped, 0, &mut all), Some(131071));
}
