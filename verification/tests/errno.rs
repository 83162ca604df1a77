use bluetooth_mouse::errno::{class_write_outcome, classify_class_write, ClassWriteOutcome};

#[test]
fn sorts_class_writes_by_a_given_code() {
    assert_eq!(classify_class_write(Ok(()), 110), ClassWriteOutcome::Written);
    assert_eq!(classify_class_write(Err(Some(110)), 110), ClassWriteOutcome::TimedOut);
    assert_eq!(classify_class_write(Err(Some(110)), 145), ClassWriteOutcome::Failed);
    assert_eq!(classify_class_write(Err(None), 110), ClassWriteOutcome::Failed);
}

#[test]
fn sorts_class_writes_by_the_code_of_this_machine() {
    assert_eq!(class_write_outcome(Ok(())), ClassWriteOutcome::Written);
    assert_eq!(class_write_outcome(Err(Some(libc::ETIMEDOUT))), ClassWriteOutcome::TimedOut);
    assert_eq!(class_write_outcome(Err(Some(libc::EPERM))), ClassWriteOutcome::Failed);
    assert_eq!(class_write_outcome(Err(None)), ClassWriteOutcome::Failed);
    assert!([60, 110, 145].contains(&libc::ETIMEDOUT));
}
