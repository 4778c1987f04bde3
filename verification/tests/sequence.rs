use nexus_linux::sequence::{bump_sequence_number, sequence_number, SequenceCounter};

#[test]
fn sequence_number_increments() {
    let mut counter = SequenceCounter::new();
    let a = bump_sequence_number(&mut counter);
    let b = bump_sequence_number(&mut counter);
    assert!(b > a);
}

#[test]
fn sequence_starts_at_one_and_reading_does_not_advance() {
    let mut counter = SequenceCounter::new();
    assert_eq!(sequence_number(&counter), 1);
    assert_eq!(sequence_number(&counter), 1);
    assert_eq!(bump_sequence_number(&mut counter), 2);
    assert_eq!(sequence_number(&counter), 2);
    assert_eq!(bump_sequence_number(&mut counter), 3);
}
