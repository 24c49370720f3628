use dataflowgrid::cursedbuffer::{CursedBuffer, CursedBufferError};
use dataflowgrid::readers::CursedBufferReadable;

#[test]
fn mod_it_works() {
    let mut b = CursedBuffer::<u8>::new();
    b.write(vec![1, 2, 3, 4, 5]).unwrap();
    let r = b.reader(0);
    let x = r.next_chunk(&mut b);
    println!("{:?}", x);
    let x = r.next_chunk(&mut b);
    println!("{:?}", x);
    b.write(vec![1, 2, 3]).unwrap();
    let x = r.next_chunk(&mut b);
    println!("{:?}", x);
    b.write(vec![1, 2, 3, 4]).unwrap();
    r.skip(&mut b, 5);
    b.write(vec![1, 2, 3, 5]).unwrap();
    let x = r.next_chunk(&mut b);
    println!("{:?}", x.unwrap().as_slice());
    let x = r.next_chunk(&mut b);
    println!("{:?}", x);
}

#[test]
fn test_close() {
    let mut b = CursedBuffer::<u8>::new();
    b.write(vec![1, 2, 3, 4, 5]).expect("");
    b.close();
    b.write(vec![1, 2, 3, 4, 5]).expect_err("");
}

#[test]
fn test_callback() {
    let mut b = CursedBuffer::<u8>::new();
    b.set_callback();
    let _ = b.write(vec![1, 2, 3, 4, 5]);
    let r = b.reader(0);
    let x = r.next_chunk(&mut b);
    println!("{:?}", x);
    assert_eq!(b.callback_calls(), 1);
}

#[test]
fn test_cursedbuffer_readable1() {
    let mut buffer = CursedBuffer::<u8>::new();
    buffer.write(vec![1, 2, 3, 4, 5, 6, 7, 8, 9, 10]).unwrap();
    let reader = buffer.reader(0);
    let mut readable = CursedBufferReadable::new(reader);

    readable.skip(&mut buffer, 2).unwrap();
    assert_eq!(readable.read_next(&mut buffer).unwrap(), 3);
    assert_eq!(readable.read_next(&mut buffer).unwrap(), 4);
    readable.skip(&mut buffer, 2).unwrap();
    assert_eq!(readable.read_next(&mut buffer).unwrap(), 7);
    assert_eq!(readable.read_next(&mut buffer).unwrap(), 8);
}

#[test]
fn test_cursedbuffer_readable2() {
    let mut buffer = CursedBuffer::<u8>::new();
    buffer.write(vec![1, 2, 3, 4, 5, 6, 7, 8, 9, 10]).unwrap();
    let reader = buffer.reader(0);
    let mut readable = CursedBufferReadable::new(reader);

    readable.skip(&mut buffer, 2).unwrap();
    assert_eq!(readable.read_next(&mut buffer).unwrap(), 3);
    let b = readable.read_chunk(&mut buffer).unwrap();
    assert_eq!(b.len, 10);
    assert_eq!(b.pos, 3);
    assert_eq!(b.chunk[b.pos], 4);
}

#[test]
fn test_cursedbuffer_readable3() {
    let mut buffer = CursedBuffer::<u8>::new();
    buffer.write(vec![1, 2]).unwrap();
    let reader = buffer.reader(0);
    let mut readable = CursedBufferReadable::new(reader);

    readable.skip(&mut buffer, 2).unwrap();
    buffer.write(vec![3, 4, 5, 6, 7, 8, 9, 10]).unwrap();

    assert_eq!(readable.read_next(&mut buffer).unwrap(), 3);
    let b = readable.read_chunk(&mut buffer).unwrap();
    assert_eq!(b.len, 8);
    assert_eq!(b.pos, 1);
    assert_eq!(b.chunk[b.pos], 4);
}

#[test]
fn chunk_fetch_scenario() {
    let mut b = CursedBuffer::<u8>::new();
    b.write(vec![1, 2, 3, 4, 5]).unwrap();
    let r = b.reader(0);

    let c = r.next_chunk(&mut b).unwrap();
    assert_eq!(c.pos, 0);
    assert_eq!(c.len, 5);
    assert_eq!(c.as_slice(), &[1, 2, 3, 4, 5]);
    assert_eq!(r.pos(&b), 5);

    let e = r.next_chunk(&mut b);
    assert_eq!(e.unwrap_err(), CursedBufferError::NotEnoughData);

    b.write(vec![6, 7, 8]).unwrap();
    let c = r.next_chunk(&mut b).unwrap();
    assert_eq!(c.pos, 0);
    assert_eq!(c.len, 3);
    assert_eq!(c.as_slice(), &[6, 7, 8]);
}

#[test]
fn callback_batching_scenario() {
    let mut b = CursedBuffer::<u8>::new();
    b.set_callback();
    b.write(vec![1, 2]).unwrap();
    b.write(vec![3, 4]).unwrap();
    b.write(vec![5, 6]).unwrap();
    let r = b.reader(0);
    assert_eq!(b.callback_calls(), 0);
    r.skip(&mut b, 6);
    assert_eq!(b.callback_calls(), 1);
    assert_eq!(b.retained_chunks(), 0);
}

#[test]
fn callback_on_reader_destruction() {
    let mut b = CursedBuffer::<u8>::new();
    b.set_callback();
    b.write(vec![1, 2, 3]).unwrap();
    let r = b.reader(0);
    let c = r.next_chunk(&mut b).unwrap();
    assert_eq!(c.len, 3);
    assert_eq!(b.callback_calls(), 1);
    r.destroy(&mut b);
    assert_eq!(b.callback_calls(), 1);
    assert_eq!(b.retained_chunks(), 0);
}

#[test]
fn zero_reader_fast_reclaim() {
    let mut b = CursedBuffer::<u8>::new();
    b.write(vec![1, 2]).unwrap();
    b.write(vec![3]).unwrap();
    b.write(vec![4, 5, 6]).unwrap();
    assert_eq!(b.retained_chunks(), 3);
    let r = b.reader(0);
    r.destroy(&mut b);
    assert_eq!(b.retained_chunks(), 0);
    assert_eq!(b.base_offset(), b.total_written());
    assert_eq!(b.base_offset(), 6);
}

#[test]
fn base_offset_monotonic() {
    let mut b = CursedBuffer::<u8>::new();
    let mut last_base = b.base_offset();
    b.write(vec![1, 2, 3]).unwrap();
    assert!(b.base_offset() >= last_base);
    last_base = b.base_offset();
    let r1 = b.reader(0);
    let r2 = b.reader(1);
    r1.skip(&mut b, 3);
    assert!(b.base_offset() >= last_base);
    last_base = b.base_offset();
    assert!(b.base_offset() <= 1);
    r2.skip(&mut b, 2);
    assert!(b.base_offset() >= last_base);
    last_base = b.base_offset();
    assert_eq!(b.base_offset(), 3);
    r2.destroy(&mut b);
    assert!(b.base_offset() >= last_base);
    r1.destroy(&mut b);
    assert_eq!(b.base_offset(), 3);
}

#[test]
fn shared_chunk_survives_eviction() {
    let mut b = CursedBuffer::<u8>::new();
    b.write(vec![9, 8, 7]).unwrap();
    let r = b.reader(0);
    let c = r.next_chunk(&mut b).unwrap();
    // consuming the chunk evicted it from the buffer's own list
    assert_eq!(b.retained_chunks(), 0);
    assert_eq!(b.base_offset(), 3);
    // the handed-out chunk is still valid and unchanged
    assert_eq!(c.as_slice(), &[9, 8, 7]);
    b.write(vec![1]).unwrap();
    r.skip(&mut b, 1);
    assert_eq!(c.as_slice(), &[9, 8, 7]);
}

#[test]
fn data_before_close_stays_readable() {
    let mut b = CursedBuffer::<u8>::new();
    b.write(vec![1, 2, 3]).unwrap();
    b.close();
    assert_eq!(b.write(vec![4]).unwrap_err(), CursedBufferError::BufferClosed);
    let r = b.reader(0);
    let c = r.next_chunk(&mut b).unwrap();
    assert_eq!(c.as_slice(), &[1, 2, 3]);
}
