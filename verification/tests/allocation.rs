use catalyze::allocation::{Lengths, Segment, SlicesRead, SlicesWrite};

#[test]
fn syntax() {
    let lengths = Lengths::new()
        .and(1, 1, 19)
        .unwrap()
        .and(24, 8, 10)
        .unwrap()
        .and(8, 4, 7)
        .unwrap();
    let allocation: Vec<u8> = lengths.backing();
    assert_eq!(allocation.len(), 322);
    let slices = lengths.write(&allocation);
    let (nums, slices): (Segment, SlicesWrite) = slices.next();
    let (strings, slices): (Segment, SlicesWrite) = slices.next();
    let (bytes, _): (Segment, SlicesWrite) = slices.next();

    assert_eq!(nums.len(), 7);
    assert_eq!(strings.len(), 10);
    assert_eq!(bytes.len(), 19);
}

#[test]
fn backing_is_sized_with_padding_and_slack() {
    // 3 one-byte elements, then 2 four-byte elements aligned to 4.  The
    // later array sits in front of the older block (8 + 3 = 11 bytes),
    // and the combined alignment of 4 adds 3 bytes of slack.
    let lengths = Lengths::new().and(1, 1, 3).unwrap().and(4, 4, 2).unwrap();
    assert_eq!(lengths.backing().len(), 14);

    // A single unaligned array has no padding and no slack.
    let lengths = Lengths::new().and(3, 1, 5).unwrap();
    assert_eq!(lengths.backing().len(), 15);
}

#[test]
fn and_rejects_overflowing_layouts() {
    assert!(Lengths::new().and(usize::MAX, 1, 2).is_err());
    assert!(Lengths::new().and(8, 8, usize::MAX / 4).is_err());
    // The same request at a sane size is accepted.
    assert!(Lengths::new().and(8, 8, 4).is_ok());
}

#[test]
fn write_then_read_roundtrips() {
    let lengths = Lengths::new().and(2, 2, 3).unwrap().and(4, 4, 2).unwrap();
    let mut buf = lengths.backing();

    let writer = lengths.write(&buf);
    let (quads, writer): (Segment, SlicesWrite) = writer.next();
    let (pairs, _): (Segment, SlicesWrite) = writer.next();

    quads.set(&mut buf, 0, &[1, 2, 3, 4]);
    quads.set(&mut buf, 1, &[5, 6, 7, 8]);
    pairs.set(&mut buf, 0, &[9, 10]);
    pairs.set(&mut buf, 1, &[11, 12]);
    pairs.set(&mut buf, 2, &[13, 14]);

    let reader = lengths.read(&buf);
    let (quads_r, reader): (Segment, SlicesRead) = reader.next();
    let (pairs_r, _): (Segment, SlicesRead) = reader.next();

    assert_eq!(quads_r.get(&buf, 0), vec![1, 2, 3, 4]);
    assert_eq!(quads_r.get(&buf, 1), vec![5, 6, 7, 8]);
    assert_eq!(pairs_r.get(&buf, 0), vec![9, 10]);
    assert_eq!(pairs_r.get(&buf, 1), vec![11, 12]);
    assert_eq!(pairs_r.get(&buf, 2), vec![13, 14]);
}

#[test]
fn writes_to_one_array_leave_the_others_alone() {
    let lengths = Lengths::new().and(1, 1, 4).unwrap().and(2, 2, 2).unwrap();
    let mut buf = lengths.backing();

    let writer = lengths.write(&buf);
    let (pairs, writer) = writer.next();
    let (bytes, _) = writer.next();

    for i in 0..4 {
        bytes.set(&mut buf, i, &[0xAA]);
    }
    pairs.set(&mut buf, 0, &[1, 2]);
    pairs.set(&mut buf, 1, &[3, 4]);

    let reader = lengths.read(&buf);
    let (pairs_r, reader) = reader.next();
    let (bytes_r, _) = reader.next();
    for i in 0..4 {
        assert_eq!(bytes_r.get(&buf, i), vec![0xAA]);
    }
    assert_eq!(pairs_r.get(&buf, 0), vec![1, 2]);
    assert_eq!(pairs_r.get(&buf, 1), vec![3, 4]);
}
