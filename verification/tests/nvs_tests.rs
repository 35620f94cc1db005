use esp_nvs::serde::de::ValueDeserializer as FieldReader;
use esp_nvs::serde::ser::ValueSerializer as FieldWriter;
use std::cell::Cell;

use esp_nvs::nvs::{partition_sectors, EntryStatistics, Nvs, PageStatistics, Tables, MAX_PAGES};
use esp_nvs::page::{ThinPage, ThinPageState, ENTRIES_PER_PAGE, FLASH_SECTOR_SIZE};
use esp_nvs::{Error, Key};

fn loaded(sectors_seen: &Cell<u16>) -> impl FnOnce(&mut u32, usize, u16, Tables) -> (Tables, Result<(), Error>) + '_ {
    move |hal: &mut u32, _base: usize, sectors: u16, mut tables: Tables| {
        *hal += 1;
        sectors_seen.set(sectors);
        tables.insert_namespace(&Key::from_str("app"), 1);
        (tables, Ok(()))
    }
}

fn open_store() -> Nvs<u32> {
    let seen = Cell::new(0);
    Nvs::new(0, 2 * FLASH_SECTOR_SIZE, 0u32, loaded(&seen)).unwrap()
}

#[test]
fn geometry_is_checked() {
    assert_eq!(partition_sectors(0, 3 * 4096), Ok(3));
    assert_eq!(partition_sectors(1, 4096), Err(Error::InvalidPartitionOffset));
    assert_eq!(partition_sectors(4096, 4095), Err(Error::InvalidPartitionSize));
    assert_eq!(partition_sectors(4096, 65535 * 4096), Ok(65535));
    assert_eq!(partition_sectors(0, 65536 * 4096), Err(Error::InvalidPartitionSize));
    assert_eq!(partition_sectors(3, 5), Err(Error::InvalidPartitionOffset));
}

#[test]
fn new_rejects_bad_geometry_without_scanning() {
    let called = Cell::new(false);
    let res = Nvs::new(100, 4096, 0u32, |_: &mut u32, _: usize, _: u16, t: Tables| {
        called.set(true);
        (t, Ok(()))
    });
    assert!(matches!(res, Err(Error::InvalidPartitionOffset)));
    let res = Nvs::new(0, 100, 0u32, |_: &mut u32, _: usize, _: u16, t: Tables| {
        called.set(true);
        (t, Ok(()))
    });
    assert!(matches!(res, Err(Error::InvalidPartitionSize)));
    assert!(!called.get());
}

#[test]
fn new_scans_and_keeps_the_tables() {
    let seen = Cell::new(0);
    let nvs = Nvs::new(8192, 3 * 4096, 0u32, loaded(&seen)).unwrap();
    assert_eq!(seen.get(), 3);
    assert_eq!(nvs.sectors(), 3);
    assert_eq!(nvs.base_address(), 8192);
    assert!(!nvs.is_faulted());
    assert_eq!(nvs.tables().namespace_index(&Key::from_str("app")), Some(1));
}

#[test]
fn new_reports_scan_errors() {
    let res = Nvs::new(0, 4096, 0u32, |_: &mut u32, _: usize, _: u16, t: Tables| (t, Err(Error::FlashError)));
    assert!(matches!(res, Err(Error::FlashError)));
    let res = Nvs::new(0, 4096, 0u32, |_: &mut u32, _: usize, _: u16, t: Tables| (t, Err(Error::KeyNotFound)));
    assert!(matches!(res, Err(Error::KeyNotFound)));
}

#[test]
fn get_passes_the_outcome_and_marks_flash_errors() {
    let mut nvs = open_store();
    let ns = Key::from_str("app");
    let key = Key::from_str("counter");
    let v: Result<u32, Error> = nvs.get(&ns, &key, |_: &mut u32, t: Tables, n: Key, k: Key| {
        assert!(n == Key::from_str("app"));
        assert!(k == Key::from_str("counter"));
        (t, Ok(42u32))
    });
    assert_eq!(v, Ok(42));
    let v: Result<u32, Error> = nvs.get(&ns, &key, |_: &mut u32, t: Tables, _: Key, _: Key| (t, Err(Error::KeyNotFound)));
    assert_eq!(v, Err(Error::KeyNotFound));
    assert!(!nvs.is_faulted());
    let v: Result<u32, Error> = nvs.get(&ns, &key, |_: &mut u32, t: Tables, _: Key, _: Key| (t, Err(Error::FlashError)));
    assert_eq!(v, Err(Error::FlashError));
    assert!(nvs.is_faulted());
    // reads still run once faulted, and do not clear the fault
    let v: Result<u32, Error> = nvs.get(&ns, &key, |_: &mut u32, t: Tables, _: Key, _: Key| (t, Ok(7)));
    assert_eq!(v, Ok(7));
    assert!(nvs.is_faulted());
}

#[test]
fn set_is_refused_once_faulted() {
    let mut nvs = open_store();
    let ns = Key::from_str("app");
    let key = Key::from_str("k");
    let written = Cell::new(0u8);
    let r = nvs.set(&ns, &key, 5u8, |_: &mut u32, t: Tables, _: Key, _: Key, v: u8| {
        written.set(v);
        (t, Ok(()))
    });
    assert_eq!(r, Ok(()));
    assert_eq!(written.get(), 5);
    let r = nvs.set(&ns, &key, 6u8, |_: &mut u32, t: Tables, _: Key, _: Key, _: u8| (t, Err(Error::FlashError)));
    assert_eq!(r, Err(Error::FlashError));
    assert!(nvs.is_faulted());
    let r = nvs.set(&ns, &key, 9u8, |_: &mut u32, t: Tables, _: Key, _: Key, v: u8| {
        written.set(v);
        (t, Ok(()))
    });
    assert_eq!(r, Err(Error::FlashError));
    assert_eq!(written.get(), 5);
}

#[test]
fn set_passes_other_errors_without_faulting() {
    let mut nvs = open_store();
    let r = nvs.set(&Key::from_str("app"), &Key::from_str("k"), (), |_: &mut u32, t: Tables, _: Key, _: Key, _: ()| {
        (t, Err(Error::NamespaceNotFound))
    });
    assert_eq!(r, Err(Error::NamespaceNotFound));
    assert!(!nvs.is_faulted());
}

#[test]
fn check_key_exists_looks_up_the_namespace() {
    let mut nvs = open_store();
    let key = Key::from_str("k");
    let r = nvs.check_key_exists(&Key::from_str("other"), &key, |_: &mut u32, t: Tables, _: u8, _: Key| {
        (t, Ok::<(), Error>(()))
    });
    assert_eq!(r, Err(Error::NamespaceNotFound));
    let idx = Cell::new(0u8);
    let r = nvs.check_key_exists(&Key::from_str("app"), &key, |_: &mut u32, t: Tables, i: u8, _: Key| {
        idx.set(i);
        (t, Ok::<u32, Error>(3))
    });
    assert_eq!(r, Ok(true));
    assert_eq!(idx.get(), 1);
    let r = nvs.check_key_exists(&Key::from_str("app"), &key, |_: &mut u32, t: Tables, _: u8, _: Key| {
        (t, Err::<u32, Error>(Error::KeyNotFound))
    });
    assert_eq!(r, Ok(false));
    let r = nvs.check_key_exists(&Key::from_str("app"), &key, |_: &mut u32, t: Tables, _: u8, _: Key| {
        (t, Err::<u32, Error>(Error::FlashError))
    });
    assert_eq!(r, Ok(false));
    assert!(!nvs.is_faulted());
}

#[test]
fn delete_ignores_missing_namespaces_and_keys() {
    let mut nvs = open_store();
    let key = Key::from_str("k");
    let called = Cell::new(false);
    let r = nvs.delete(&Key::from_str("other"), &key, |_: &mut u32, t: Tables, _: u8, _: Key| {
        called.set(true);
        (t, Ok(()))
    });
    assert_eq!(r, Ok(()));
    assert!(!called.get());
    let r = nvs.delete(&Key::from_str("app"), &key, |_: &mut u32, t: Tables, _: u8, _: Key| (t, Err(Error::KeyNotFound)));
    assert_eq!(r, Ok(()));
    let r = nvs.delete(&Key::from_str("app"), &key, |_: &mut u32, t: Tables, _: u8, _: Key| (t, Err(Error::NamespaceNotFound)));
    assert_eq!(r, Err(Error::NamespaceNotFound));
    assert!(!nvs.is_faulted());
}

#[test]
fn delete_marks_flash_errors_and_then_refuses() {
    let mut nvs = open_store();
    let key = Key::from_str("k");
    let r = nvs.delete(&Key::from_str("app"), &key, |_: &mut u32, t: Tables, _: u8, _: Key| (t, Err(Error::FlashError)));
    assert_eq!(r, Err(Error::FlashError));
    assert!(nvs.is_faulted());
    let r = nvs.delete(&Key::from_str("other"), &key, |_: &mut u32, t: Tables, _: u8, _: Key| (t, Ok(())));
    assert_eq!(r, Err(Error::FlashError));
}

fn page(address: usize, state: ThinPageState, e: u32, w: u32, er: u32, il: u32) -> ThinPage {
    ThinPage::new(address, state, e, w, er, il)
}

#[test]
fn statistics_orders_pages_and_counts_states() {
    let mut nvs = Nvs::new(0, 5 * 4096, 0u32, |_: &mut u32, _: usize, _: u16, mut t: Tables| {
        let pages = vec![
            page(8192, ThinPageState::Full, 0, 120, 6, 0),
            page(0, ThinPageState::Active, 100, 20, 5, 1),
            page(16384, ThinPageState::Corrupt, 30, 30, 30, 36),
        ];
        let free = vec![page(12288, ThinPageState::Uninitialized, 126, 0, 0, 0), page(4096, ThinPageState::Invalid, 1, 2, 3, 120)];
        assert!(t.set_pages(pages, free));
        (t, Ok(()))
    })
    .unwrap();
    let stats = nvs.statistics().unwrap();
    assert_eq!(stats.pages, PageStatistics { empty: 1, active: 1, full: 1, erasing: 0, corrupted: 2 });
    assert_eq!(
        stats.entries_per_page,
        vec![
            EntryStatistics { empty: 100, written: 20, erased: 5, illegal: 1 },
            EntryStatistics { empty: 1, written: 2, erased: 3, illegal: 120 },
            EntryStatistics { empty: 0, written: 120, erased: 6, illegal: 0 },
            EntryStatistics { empty: 126, written: 0, erased: 0, illegal: 0 },
            EntryStatistics { empty: 0, written: 0, erased: 0, illegal: ENTRIES_PER_PAGE },
        ]
    );
    assert_eq!(stats.entries_overall, EntryStatistics { empty: 227, written: 142, erased: 14, illegal: 247 });
}

#[test]
fn statistics_of_an_empty_store() {
    let mut nvs = open_store();
    let stats = nvs.statistics().unwrap();
    assert_eq!(stats.pages, PageStatistics { empty: 0, active: 0, full: 0, erasing: 0, corrupted: 0 });
    assert!(stats.entries_per_page.is_empty());
    assert_eq!(stats.entries_overall, EntryStatistics { empty: 0, written: 0, erased: 0, illegal: 0 });
}

#[test]
fn statistics_counts_freeing_pages_as_erasing() {
    let mut nvs = Nvs::new(0, 4096, 0u32, |_: &mut u32, _: usize, _: u16, mut t: Tables| {
        assert!(t.set_pages(vec![page(0, ThinPageState::Freeing, 0, 0, 126, 0)], vec![]));
        (t, Ok(()))
    })
    .unwrap();
    let stats = nvs.statistics().unwrap();
    assert_eq!(stats.pages.erasing, 1);
    assert_eq!(stats.entries_overall.erased, 126);
}

#[test]
fn statistics_refused_once_faulted() {
    let mut nvs = open_store();
    let _ = nvs.delete(&Key::from_str("app"), &Key::from_str("k"), |_: &mut u32, t: Tables, _: u8, _: Key| {
        (t, Err(Error::FlashError))
    });
    assert!(matches!(nvs.statistics(), Err(Error::FlashError)));
}

#[test]
fn tables_limit_the_number_of_pages() {
    let mut t = Tables::empty();
    let many = vec![page(0, ThinPageState::Active, 126, 0, 0, 0); MAX_PAGES];
    assert!(!t.set_pages(many.clone(), vec![page(0, ThinPageState::Active, 126, 0, 0, 0)]));
    assert_eq!(t.page_count(), 0);
    assert!(t.set_pages(many, vec![]));
    assert_eq!(t.page_count(), MAX_PAGES);
}

#[test]
fn namespace_table_maps_names_to_indices() {
    let mut t = Tables::empty();
    assert_eq!(t.namespace_index(&Key::from_str("a")), None);
    t.insert_namespace(&Key::from_str("a"), 3);
    t.insert_namespace(&Key::from_str("b"), 4);
    t.insert_namespace(&Key::from_str("a"), 5);
    assert_eq!(t.namespace_index(&Key::from_str("a")), Some(5));
    assert_eq!(t.namespace_index(&Key::from_str("b")), Some(4));
    assert_eq!(t.namespace_index(&Key::from_str("c")), None);
}

#[test]
fn value_writer_and_reader_go_through_the_store() {
    let mut nvs = open_store();
    let ns = Key::from_str("app");
    let writer = FieldWriter::new(&ns, "count");
    let seen = Cell::new((false, false));
    let r = writer.write_value(&mut nvs, 9u16, |_: &mut u32, t: Tables, n: Key, k: Key, v: u16| {
        seen.set((n == Key::from_str("app"), k == Key::from_str("count")));
        assert_eq!(v, 9);
        (t, Ok(()))
    });
    assert_eq!(r, Ok(()));
    assert_eq!(seen.get(), (true, true));
    let reader = FieldReader::new(&ns, Key::from_str("count"));
    let v: Result<u16, Error> = reader.read_value(&mut nvs, |_: &mut u32, t: Tables, _: Key, _: Key| (t, Ok(9u16)));
    assert_eq!(v, Ok(9));
    assert!(matches!(reader.is_present(&mut nvs, |_: &mut u32, t: Tables, _: u8, _: Key| (t, Ok::<(), Error>(()))), Ok(true)));
    let other = FieldReader::new(&Key::from_str("nope"), Key::from_str("count"));
    assert!(matches!(
        other.is_present(&mut nvs, |_: &mut u32, t: Tables, _: u8, _: Key| (t, Ok::<(), Error>(()))),
        Err(esp_nvs::serde::SerdeError::NvsError(Error::NamespaceNotFound))
    ));
    let r = writer.write_value(&mut nvs, 1u16, |_: &mut u32, t: Tables, _: Key, _: Key, _: u16| (t, Err(Error::FlashError)));
    assert_eq!(r, Err(Error::FlashError));
    assert!(nvs.is_faulted());
}

#[test]
fn statistics_keep_the_order_of_pages_at_one_address() {
    let mut nvs = Nvs::new(0, 3 * 4096, 0u32, |_: &mut u32, _: usize, _: u16, mut t: Tables| {
        let pages = vec![page(0, ThinPageState::Active, 1, 125, 0, 0), page(0, ThinPageState::Full, 2, 124, 0, 0)];
        let free = vec![page(0, ThinPageState::Uninitialized, 3, 123, 0, 0)];
        assert!(t.set_pages(pages, free));
        (t, Ok(()))
    })
    .unwrap();
    let first = nvs.statistics().unwrap();
    let empties: Vec<u32> = first.entries_per_page.iter().map(|e| e.empty).collect();
    assert_eq!(empties, vec![1, 2, 3]);
    let second = nvs.statistics().unwrap();
    assert_eq!(first, second);
}

#[test]
fn every_page_row_covers_all_its_entries() {
    let mut nvs = Nvs::new(0, 2 * 4096, 0u32, |_: &mut u32, _: usize, _: u16, mut t: Tables| {
        let pages = vec![page(4096, ThinPageState::Corrupt, 126, 0, 0, 0)];
        let free = vec![page(0, ThinPageState::Active, 50, 50, 20, 6)];
        assert!(t.set_pages(pages, free));
        (t, Ok(()))
    })
    .unwrap();
    let stats = nvs.statistics().unwrap();
    for e in &stats.entries_per_page {
        assert_eq!(e.empty + e.written + e.erased + e.illegal, ENTRIES_PER_PAGE);
    }
    let o = stats.entries_overall;
    assert_eq!(o.empty + o.written + o.erased + o.illegal, 2 * ENTRIES_PER_PAGE);
}

#[test]
fn refused_operations_leave_the_flash_alone() {
    let mut nvs = open_store();
    let hal_calls = Cell::new(0u32);
    let _ = nvs.delete(&Key::from_str("app"), &Key::from_str("k"), |_: &mut u32, t: Tables, _: u8, _: Key| {
        (t, Err(Error::FlashError))
    });
    let r = nvs.set(&Key::from_str("app"), &Key::from_str("k"), 1u8, |h: &mut u32, t: Tables, _: Key, _: Key, _: u8| {
        *h += 100;
        hal_calls.set(hal_calls.get() + 1);
        (t, Ok(()))
    });
    assert_eq!(r, Err(Error::FlashError));
    let r = nvs.delete(&Key::from_str("app"), &Key::from_str("k"), |h: &mut u32, t: Tables, _: u8, _: Key| {
        *h += 100;
        hal_calls.set(hal_calls.get() + 1);
        (t, Ok(()))
    });
    assert_eq!(r, Err(Error::FlashError));
    assert_eq!(hal_calls.get(), 0);
}
