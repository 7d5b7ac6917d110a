use slotdb::page::Page;
use slotdb::page::PageError;
use slotdb::page::Slot;
use slotdb::page::TupleHeader;
use slotdb::page::DATA_OFFSET;
use slotdb::page::DATA_SIZE;
use slotdb::page::MAX_SLOTS;
use slotdb::page::PAGE_SIZE;
use slotdb::page::TUPLE_HEADER_SIZE;

/// Builds the serialized form of a page directly, from its fields.
fn build_page_bytes(
    id: u64,
    free_space: u16,
    total_free_slots: u16,
    slots: &[(u16, u16, u8)],
    data: &[u8],
) -> Vec<u8> {
    assert_eq!(slots.len(), MAX_SLOTS);
    assert_eq!(data.len(), DATA_SIZE);
    let mut buf = Vec::with_capacity(PAGE_SIZE);
    buf.extend_from_slice(&id.to_le_bytes());
    buf.extend_from_slice(&free_space.to_le_bytes());
    buf.extend_from_slice(&total_free_slots.to_le_bytes());
    for &(offset, length, is_used) in slots {
        buf.extend_from_slice(&offset.to_le_bytes());
        buf.extend_from_slice(&length.to_le_bytes());
        buf.push(is_used);
        buf.push(0);
    }
    buf.extend_from_slice(data);
    assert_eq!(buf.len(), PAGE_SIZE);
    buf
}

#[test]
fn test_layout_constants() {
    assert_eq!(PAGE_SIZE, 8192);
    assert_eq!(MAX_SLOTS, 256);
    assert_eq!(TUPLE_HEADER_SIZE, 32);
    assert_eq!(DATA_OFFSET, 8 + 4 + 6 * 256);
    assert_eq!(DATA_SIZE, PAGE_SIZE - DATA_OFFSET);
}

#[test]
fn test_new_page_is_empty() {
    let p = Page::new(7);
    assert_eq!(p.id, 7);
    assert_eq!(p.header.free_space as usize, DATA_SIZE);
    assert_eq!(p.header.total_free_slots as usize, MAX_SLOTS);
    assert_eq!(p.slots.len(), MAX_SLOTS);
    assert!(p.slots.iter().all(|s| s.is_used == 0 && s.offset == 0 && s.length == 0));
    assert_eq!(p.data.len(), DATA_SIZE);
    assert!(p.data.iter().all(|b| *b == 0));
}

#[test]
fn test_visibility_no_xmax() {
    let h = TupleHeader { xmin: 5, xmax: 0, page_no: 0, slot_no: 0 };
    assert!(h.is_visible(5));
    assert!(h.is_visible(6));
    assert!(h.is_visible(100));
    assert!(!h.is_visible(4));
}

#[test]
fn test_visibility_with_xmax() {
    let h = TupleHeader { xmin: 5, xmax: 10, page_no: 0, slot_no: 0 };
    for txid in 5..10 {
        assert!(h.is_visible(txid));
    }
    assert!(!h.is_visible(4));
    assert!(!h.is_visible(10));
    assert!(!h.is_visible(11));
    assert!(!h.is_visible(1000));
}

#[test]
fn test_tuple_header_round_trip() {
    let h = TupleHeader { xmin: 17, xmax: 930001, page_no: 12, slot_no: 255 };
    let bytes = h.to_bytes();
    assert_eq!(bytes.len(), TUPLE_HEADER_SIZE);
    let back = TupleHeader::from_bytes(&bytes).expect("a 32-byte buffer decodes");
    assert_eq!(back, h);
    assert!(TupleHeader::from_bytes(&bytes[..31]).is_none());
}

#[test]
fn test_insert_and_scan() {
    let mut p = Page::new(3);
    let idx = p.insert_tuple(1, 0, 3, b"hello").expect("insert into empty page succeeds");
    assert_eq!(idx, 0);

    let visible = p.scan_page(1);
    assert_eq!(visible.len(), 1);
    let (header, payload) = &visible[0];
    assert_eq!(header.xmin, 1);
    assert_eq!(header.xmax, 0);
    assert_eq!(header.page_no, 3);
    assert_eq!(header.slot_no, 0);
    assert_eq!(payload.as_slice(), b"hello");

    let invisible = p.scan_page(0);
    assert_eq!(invisible.len(), 0);
}

#[test]
fn test_first_fit_offsets() {
    let mut p = Page::new(0);
    let a = p.insert_tuple(1, 0, 0, b"aaaa").unwrap();
    let b = p.insert_tuple(1, 0, 0, b"bb").unwrap();
    let c = p.insert_tuple(1, 0, 0, b"").unwrap();
    assert_eq!((a, b, c), (0, 1, 2));
    assert_eq!(p.slots[0].offset, 0);
    assert_eq!(p.slots[0].length as usize, TUPLE_HEADER_SIZE + 4);
    assert_eq!(p.slots[1].offset as usize, TUPLE_HEADER_SIZE + 4);
    assert_eq!(p.slots[1].length as usize, TUPLE_HEADER_SIZE + 2);
    assert_eq!(p.slots[2].offset as usize, 2 * TUPLE_HEADER_SIZE + 6);
    assert_eq!(p.slots[2].length as usize, TUPLE_HEADER_SIZE);
}

#[test]
fn test_used_ranges_disjoint() {
    let mut p = Page::new(0);
    for payload in [&b"one"[..], b"twotwo", b"", b"fourfourfour"] {
        p.insert_tuple(2, 0, 0, payload).unwrap();
    }
    let used: Vec<&Slot> = p.slots.iter().filter(|s| s.is_used != 0).collect();
    assert_eq!(used.len(), 4);
    for (i, a) in used.iter().enumerate() {
        for b in used.iter().skip(i + 1) {
            let (a0, a1) = (a.offset as usize, a.offset as usize + a.length as usize);
            let (b0, b1) = (b.offset as usize, b.offset as usize + b.length as usize);
            assert!(a1 <= b0 || b1 <= a0, "ranges overlap: {a0}..{a1} and {b0}..{b1}");
        }
    }
}

#[test]
fn test_space_accounting() {
    let mut p = Page::new(9);
    let lengths: [usize; 4] = [5, 0, 100, 1];
    for l in lengths {
        let payload = vec![0xabu8; l];
        p.insert_tuple(4, 0, 9, &payload).unwrap();
    }
    let claimed: usize = lengths.iter().map(|l| TUPLE_HEADER_SIZE + l).sum();
    assert_eq!(p.header.free_space as usize, DATA_SIZE - claimed);
    assert_eq!(p.header.total_free_slots as usize, MAX_SLOTS - lengths.len());
}

#[test]
fn test_oversized_insert_rejected_page_unchanged() {
    let mut p = Page::new(1);
    p.insert_tuple(1, 0, 1, b"seed").unwrap();
    let before = p.to_bytes();

    let free = p.header.free_space as usize;
    let payload = vec![0u8; free - TUPLE_HEADER_SIZE + 1];
    let err = p.insert_tuple(1, 0, 1, &payload).unwrap_err();
    assert_eq!(err, PageError::NotEnoughFreeSpace);
    assert_eq!(p.to_bytes(), before);

    let huge = vec![0u8; DATA_SIZE + 1];
    let err = p.insert_tuple(1, 0, 1, &huge).unwrap_err();
    assert_eq!(err, PageError::NotEnoughFreeSpace);
    assert_eq!(p.to_bytes(), before);
}

#[test]
fn test_capacity_exhaustion_no_free_slots() {
    // A page whose 256 slots are all used while free bytes remain: every
    // used slot owns an empty byte range, so the directory, not the data
    // region, is what is exhausted.
    let slots = [(0u16, 0u16, 1u8); 256];
    let data = [0u8; 8192 - (8 + 4 + 6 * 256)];
    let bytes = build_page_bytes(5, DATA_SIZE as u16, 0, &slots, &data);
    let mut p = Page::from_bytes(&bytes).unwrap();
    assert_eq!(p.header.free_space as usize, DATA_SIZE);

    let err = p.insert_tuple(1, 0, 5, b"x").unwrap_err();
    assert_eq!(err, PageError::NoFreeSlots);
    assert_eq!(p.to_bytes(), bytes);
}

#[test]
fn test_fragmented_page_no_free_data_space() {
    // Three used ranges leave a 32-byte gap and a 20-byte gap: 52 free bytes
    // in all, but no single gap can hold a 33-byte tuple.
    let mut slots = [(0u16, 0u16, 0u8); 256];
    slots[0] = (0, 1000, 1);
    slots[1] = (1032, 1968, 1);
    slots[2] = (3020, (DATA_SIZE - 3020) as u16, 1);
    let used: usize = 1000 + 1968 + (DATA_SIZE - 3020);
    let free_space = (DATA_SIZE - used) as u16;
    assert_eq!(free_space, 52);
    let data = [0u8; 8192 - (8 + 4 + 6 * 256)];
    let bytes = build_page_bytes(6, free_space, 253, &slots, &data);
    let mut p = Page::from_bytes(&bytes).unwrap();

    let err = p.insert_tuple(1, 0, 6, b"x").unwrap_err();
    assert_eq!(err, PageError::NoFreeDataSpace);
    assert_eq!(p.to_bytes(), bytes);

    // A tuple that does fit into the first gap lands exactly there.
    let idx = p.insert_tuple(1, 0, 6, b"").unwrap();
    assert_eq!(idx, 3);
    assert_eq!(p.slots[3].offset, 1000);
    assert_eq!(p.slots[3].length as usize, TUPLE_HEADER_SIZE);
}

#[test]
fn test_page_round_trip() {
    let mut p = Page::new(42);
    p.insert_tuple(3, 0, 42, b"first tuple").unwrap();
    p.insert_tuple(4, 9, 42, b"").unwrap();
    p.insert_tuple(5, 0, 42, &[0xffu8; 300]).unwrap();

    let bytes = p.to_bytes();
    assert_eq!(bytes.len(), PAGE_SIZE);
    let q = Page::from_bytes(&bytes).unwrap();

    assert_eq!(q.id, p.id);
    assert_eq!(q.header, p.header);
    assert_eq!(q.slots.len(), p.slots.len());
    for i in 0..MAX_SLOTS {
        assert_eq!(q.slots[i], p.slots[i]);
    }
    assert_eq!(q.data, p.data);
}

#[test]
fn test_from_bytes_wrong_size() {
    let short = vec![0u8; PAGE_SIZE - 1];
    assert_eq!(Page::from_bytes(&short).unwrap_err(), PageError::InvalidPageSize);
    let long = vec![0u8; PAGE_SIZE + 1];
    assert_eq!(Page::from_bytes(&long).unwrap_err(), PageError::InvalidPageSize);
}

#[test]
fn test_read_slot() {
    let mut p = Page::new(8);
    p.insert_tuple(2, 7, 8, b"payload bytes").unwrap();

    let (header, payload) = p.read_slot(0).expect("slot 0 is used");
    assert_eq!(header.xmin, 2);
    assert_eq!(header.xmax, 7);
    assert_eq!(header.page_no, 8);
    assert_eq!(header.slot_no, 0);
    assert_eq!(payload.as_slice(), b"payload bytes");

    assert!(p.read_slot(1).is_none());
    assert!(p.read_slot(MAX_SLOTS).is_none());
}

#[test]
fn test_read_all_slots_ignores_visibility() {
    let mut p = Page::new(0);
    p.insert_tuple(10, 0, 0, b"late").unwrap();
    p.insert_tuple(1, 2, 0, b"dead").unwrap();
    assert_eq!(p.scan_page(3).len(), 0);

    let all = p.read_all_slots();
    assert_eq!(all.len(), 2);
    assert_eq!(all[0].0, 0);
    assert_eq!(all[0].2.as_slice(), b"late");
    assert_eq!(all[1].0, 1);
    assert_eq!(all[1].2.as_slice(), b"dead");
}

#[test]
fn test_slot_too_short_for_a_tuple_is_skipped() {
    // A used slot whose recorded range is shorter than a tuple header can
    // arise only from a hand-crafted buffer; reading it yields nothing
    // rather than a truncated decode.
    let mut slots = [(0u16, 0u16, 0u8); 256];
    slots[0] = (0, 10, 1);
    let data = [0u8; 8192 - (8 + 4 + 6 * 256)];
    let bytes = build_page_bytes(4, (DATA_SIZE - 10) as u16, 255, &slots, &data);
    let p = Page::from_bytes(&bytes).unwrap();
    assert!(p.read_slot(0).is_none());
    assert_eq!(p.scan_page(0).len(), 0);
    assert_eq!(p.read_all_slots().len(), 0);
}

#[test]
fn test_insert_fills_page_to_capacity() {
    // Tuples of 32 bytes (empty payload) fit DATA_SIZE / 32 times at most;
    // the next insert must be refused for want of free bytes.
    let mut p = Page::new(2);
    let max_tuples = DATA_SIZE / TUPLE_HEADER_SIZE;
    for k in 0..max_tuples {
        assert_eq!(p.insert_tuple(1, 0, 2, b"").unwrap(), k);
    }
    assert_eq!(p.header.free_space as usize, DATA_SIZE % TUPLE_HEADER_SIZE);
    let err = p.insert_tuple(1, 0, 2, b"").unwrap_err();
    assert_eq!(err, PageError::NotEnoughFreeSpace);
}
