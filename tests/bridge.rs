use heimdall::bridge::{HandleTable, ERR_INVALID_HANDLE};

fn bytes(n: usize) -> Vec<u8> {
    (0..n).map(|i| (i * 7 % 256) as u8).collect()
}

#[test]
fn handles_count_up_from_zero() {
    let mut t = HandleTable::new();
    assert_eq!(t.push(vec![1]), 0);
    assert_eq!(t.push(vec![2]), 1);
    assert_eq!(t.push(vec![3]), 2);
}

#[test]
fn reads_page_through_a_response() {
    let data = bytes(10);
    let mut t = HandleTable::new();
    let h = t.push(data.clone());
    let mut chunks = Vec::new();
    loop {
        let (c, more) = t.read_chunk(h, 4).unwrap();
        chunks.push(c);
        if !more {
            break;
        }
    }
    assert_eq!(chunks.len(), 3);
    assert_eq!(chunks[0].len(), 4);
    assert_eq!(chunks[1].len(), 4);
    assert_eq!(chunks[2].len(), 2);
    assert_eq!(chunks.concat(), data);
    assert_eq!(t.close(h), Ok(()));
    assert_eq!(t.read(h, 4), Err(ERR_INVALID_HANDLE));
}

#[test]
fn exact_multiple_ends_with_an_empty_read() {
    let data = bytes(8);
    let mut t = HandleTable::new();
    let h = t.push(data.clone());
    let (a, more_a) = t.read_chunk(h, 4).unwrap();
    let (b, more_b) = t.read_chunk(h, 4).unwrap();
    let (c, more_c) = t.read_chunk(h, 4).unwrap();
    assert_eq!((a.len(), more_a), (4, true));
    assert_eq!((b.len(), more_b), (4, true));
    assert_eq!((c.len(), more_c), (0, false));
    assert_eq!([a, b].concat(), data);
}

#[test]
fn read_to_end_returns_everything_and_closes() {
    let data = bytes(10_000);
    let mut t = HandleTable::new();
    let h = t.push(data.clone());
    assert_eq!(t.read_to_end(h, 4096), Ok(data));
    assert_eq!(t.close(h), Err(ERR_INVALID_HANDLE));
}

#[test]
fn read_to_end_takes_what_is_left() {
    let data = bytes(9);
    let mut t = HandleTable::new();
    let h = t.push(data.clone());
    assert_eq!(t.read(h, 5), Ok(data[..5].to_vec()));
    assert_eq!(t.read_to_end(h, 2), Ok(data[5..].to_vec()));
}

#[test]
fn unknown_handle_is_invalid() {
    let mut t = HandleTable::new();
    assert_eq!(t.read(3, 8), Err(ERR_INVALID_HANDLE));
    assert_eq!(t.read_chunk(3, 8), Err(ERR_INVALID_HANDLE));
    assert_eq!(t.close(3), Err(ERR_INVALID_HANDLE));
    assert_eq!(t.read_to_end(3, 8), Err(ERR_INVALID_HANDLE));
}

#[test]
fn empty_response_reads_empty_without_more() {
    let mut t = HandleTable::new();
    let h = t.push(Vec::new());
    assert_eq!(t.read_chunk(h, 16), Ok((Vec::new(), false)));
}

#[test]
fn handles_are_independent() {
    let mut t = HandleTable::new();
    let a = t.push(vec![1, 2, 3]);
    let b = t.push(vec![9, 8]);
    assert_eq!(t.read(a, 2), Ok(vec![1, 2]));
    assert_eq!(t.read(b, 5), Ok(vec![9, 8]));
    assert_eq!(t.close(b), Ok(()));
    assert_eq!(t.read(a, 2), Ok(vec![3]));
}
