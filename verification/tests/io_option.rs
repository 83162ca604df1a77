use bluetooth_mouse::io_option::IOOption;

#[test]
fn wraps_and_unwraps() {
    assert_eq!(IOOption::new(Some(3u32)).inner(), Some(3));
    assert_eq!(IOOption::new(None::<u32>).inner(), None);
    assert_eq!(IOOption::new_some(4u32).unwrap(), 4);
    assert_eq!(IOOption::<u32>::new_none().inner(), None);
    assert_eq!(IOOption::<u32>::default().inner(), None);
    assert_eq!(IOOption::new_some(5u32), IOOption::new(Some(5u32)));
}

#[test]
fn tells_whether_there_is_a_stream() {
    let empty: IOOption<u32> = IOOption::new_none();
    assert!(empty.is_none());
    assert!(!empty.is_some());
    let full = IOOption::new_some(1u32);
    assert!(full.is_some());
    assert!(!full.is_none());
}

#[test]
fn borrows_what_is_inside() {
    let mut option = IOOption::new_some(1u32);
    assert_eq!(*option.inner_ref(), Some(1));
    assert_eq!(*option.unwrap_ref(), 1);
    *option.unwrap_mut() = 2;
    assert_eq!(option.inner(), Some(2));
    *option.inner_mut() = None;
    assert!(option.is_none());
}

#[test]
fn replace_gives_back_what_was_there() {
    let mut option: IOOption<u32> = IOOption::new_none();
    assert_eq!(option.replace(1).inner(), None);
    assert_eq!(option.replace(2).inner(), Some(1));
    assert_eq!(option.inner(), Some(2));
}

#[test]
fn reads_wait_without_a_stream() {
    let mut option: IOOption<u32> = IOOption::new_none();
    assert_eq!(option.poll_read(), None);
    option.replace(7);
    *option.poll_read().unwrap() = 8;
    assert_eq!(option.inner(), Some(8));
}

#[test]
fn writes_fail_without_a_stream() {
    let mut option: IOOption<u32> = IOOption::new_none();
    assert_eq!(option.poll_write(), Err(libc::EBADF));
    assert_eq!(option.poll_flush(), Err(9));
    assert_eq!(option.poll_shutdown(), Err(9));
    assert!(option.is_none());
    option.replace(1);
    *option.poll_write().unwrap() += 1;
    *option.poll_flush().unwrap() += 1;
    *option.poll_shutdown().unwrap() += 1;
    assert_eq!(option.inner(), Some(4));
}
