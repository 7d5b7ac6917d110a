use slotdb::io_manager::appended_page_no;
use slotdb::io_manager::flush_page;
use slotdb::io_manager::insert_page;
use slotdb::io_manager::page_file_offset;
use slotdb::io_manager::read_page;
use slotdb::io_manager::IOManager;
use slotdb::page::Page;
use slotdb::page::PAGE_SIZE;

#[test]
fn test_table_file_path() {
    let manager = IOManager::new(String::from("/var/data/tables"));
    assert_eq!(manager.table_file_path("users"), "/var/data/tables/users.tbl");
    assert_eq!(manager.table_file_path("t"), "/var/data/tables/t.tbl");
}

#[test]
fn test_page_file_offset() {
    assert_eq!(page_file_offset(0), 0);
    assert_eq!(page_file_offset(1), PAGE_SIZE as u64);
    assert_eq!(page_file_offset(5), 5 * PAGE_SIZE as u64);
}

#[test]
fn test_appended_page_no() {
    assert_eq!(appended_page_no(PAGE_SIZE as u64), 0);
    assert_eq!(appended_page_no(3 * PAGE_SIZE as u64), 2);
}

#[test]
fn test_insert_page_numbers() {
    // Appending into an empty table file yields page number 0; the next
    // append yields 1.
    let mut file: Vec<u8> = Vec::new();
    let first = Page::new(0).to_bytes();
    assert_eq!(insert_page(&mut file, &first), 0);
    assert_eq!(file.len(), PAGE_SIZE);

    let second = Page::new(1).to_bytes();
    assert_eq!(insert_page(&mut file, &second), 1);
    assert_eq!(file.len(), 2 * PAGE_SIZE);

    assert_eq!(&file[..PAGE_SIZE], first.as_slice());
    assert_eq!(&file[PAGE_SIZE..], second.as_slice());
}

#[test]
fn test_flush_then_read_page_round_trip() {
    // A page flushed over slot 2 of a three-page file reads back identical.
    let mut file: Vec<u8> = Vec::new();
    for id in 0..3u64 {
        insert_page(&mut file, &Page::new(id).to_bytes());
    }

    let mut page = Page::new(2);
    page.insert_tuple(11, 0, 2, b"flushed tuple").unwrap();
    flush_page(&mut file, &page);
    assert_eq!(file.len(), 3 * PAGE_SIZE);

    let back = read_page(&file, 2).expect("page 2 lies inside the file");
    assert_eq!(back.id, page.id);
    assert_eq!(back.header, page.header);
    assert_eq!(back.slots, page.slots);
    assert_eq!(back.data, page.data);
    assert_eq!(back.to_bytes(), page.to_bytes());

    // The other two pages kept their bytes.
    assert_eq!(read_page(&file, 0).unwrap().to_bytes(), Page::new(0).to_bytes());
    assert_eq!(read_page(&file, 1).unwrap().to_bytes(), Page::new(1).to_bytes());
}

#[test]
fn test_flush_extends_short_file_with_zeros() {
    let mut file: Vec<u8> = Vec::new();
    let page = Page::new(2);
    flush_page(&mut file, &page);
    assert_eq!(file.len(), 3 * PAGE_SIZE);
    assert!(file[..2 * PAGE_SIZE].iter().all(|b| *b == 0));
    assert_eq!(&file[2 * PAGE_SIZE..], page.to_bytes().as_slice());
}

#[test]
fn test_read_page_past_end() {
    let mut file: Vec<u8> = Vec::new();
    insert_page(&mut file, &Page::new(0).to_bytes());
    assert!(read_page(&file, 1).is_none());
    assert!(read_page(&[], 0).is_none());

    let short = vec![0u8; PAGE_SIZE - 1];
    assert!(read_page(&short, 0).is_none());
}
