use dbgen::progress::{progress_update, ProgressUpdate, SizeEstimate, WriteCountWrapper};

#[test]
fn bytes_are_counted_and_committed() {
    let mut writer = WriteCountWrapper::new("inner");
    assert_eq!(writer.count, 0);
    assert_eq!(writer.record_write::<()>(Ok(10)), Ok(10));
    assert_eq!(writer.record_write(Err("full")), Err("full"));
    assert_eq!(writer.record_write::<()>(Ok(0)), Ok(0));
    assert_eq!(writer.record_write::<()>(Ok(7)), Ok(7));
    assert_eq!(writer.count, 17);
    assert_eq!(writer.commit_bytes_written(), 17);
    assert_eq!(writer.count, 0);
    assert_eq!(writer.commit_bytes_written(), 0);
    assert_eq!(writer.inner, "inner");
}

#[test]
fn no_size_is_shown_before_the_first_row() {
    assert_eq!(
        progress_update(100, 0, 55),
        ProgressUpdate {
            rows: 0,
            size: None,
        }
    );
}

#[test]
fn size_is_estimated_and_rounded() {
    let total = |total_rows, rows, written| progress_update(total_rows, rows, written).size.unwrap().total;
    assert_eq!(
        progress_update(10, 3, 100),
        ProgressUpdate {
            rows: 3,
            size: Some(SizeEstimate {
                written: 100,
                total: 333,
            }),
        }
    );
    assert_eq!(total(5, 2, 3), 8);
    assert_eq!(total(4, 3, 5), 7);
    assert_eq!(total(u64::MAX, 1, u64::MAX), u64::MAX);
    assert_eq!(total(u64::MAX, u64::MAX, 12345), 12345);
    assert_eq!(total(u64::MAX, 2, 2), u64::MAX);
}

#[test]
fn estimate_ends_at_the_size_written() {
    for rows in [1u64, 2, 3, 1000, u64::MAX] {
        for written in [0u64, 1, 99, u64::MAX] {
            let size = progress_update(rows, rows, written).size.unwrap();
            assert_eq!(size.total, written);
        }
    }
}
