use learn_libp2p::dialer::hello;
use learn_libp2p::greeting::{greeting, is_greeting, ExactRead, ReadProgress, GREETING_LEN};

#[test]
fn greeting_is_one_two_three() {
    assert_eq!(greeting(), vec![1u8, 2, 3]);
    assert_eq!(GREETING_LEN, 3);
}

#[test]
fn is_greeting_checks_exact_bytes() {
    assert!(is_greeting(&[1, 2, 3]));
    assert!(!is_greeting(&[1, 2, 4]));
    assert!(!is_greeting(&[1, 2]));
    assert!(!is_greeting(&[1, 2, 3, 4]));
    assert!(!is_greeting(&[]));
}

#[test]
fn greeting_in_one_read_completes() {
    let mut r = ExactRead::new(GREETING_LEN);
    assert_eq!(r.remaining(), 3);
    assert_eq!(r.on_read(&greeting()), ReadProgress::Complete(vec![1, 2, 3]));
    assert_eq!(r.remaining(), 0);
    assert_eq!(r.finished(), Some(vec![1, 2, 3]));
}

#[test]
fn greeting_split_across_reads_completes_on_last_piece() {
    let mut r = ExactRead::new(GREETING_LEN);
    assert_eq!(r.on_read(&[1]), ReadProgress::Partial);
    assert_eq!(r.finished(), None);
    assert_eq!(r.remaining(), 2);
    assert_eq!(r.on_read(&[2]), ReadProgress::Partial);
    let done = r.on_read(&[3]);
    assert_eq!(done, ReadProgress::Complete(vec![1, 2, 3]));
    if let ReadProgress::Complete(buf) = done {
        assert!(is_greeting(&buf));
    }
}

#[test]
fn end_of_stream_before_full_is_unexpected() {
    let mut r = ExactRead::new(GREETING_LEN);
    assert_eq!(r.on_read(&[1, 2]), ReadProgress::Partial);
    assert_eq!(r.on_read(&[]), ReadProgress::UnexpectedEof);
    assert_eq!(r.remaining(), 1);
}

#[test]
fn hello_is_not_the_greeting() {
    let mut r = ExactRead::new(GREETING_LEN);
    let h = hello();
    match r.on_read(&h[..3]) {
        ReadProgress::Complete(buf) => {
            assert_eq!(buf, b"hel".to_vec());
            assert!(!is_greeting(&buf));
        }
        other => panic!("unexpected {:?}", other),
    }
}

#[test]
fn zero_length_read_is_finished_at_once() {
    let r = ExactRead::new(0);
    assert_eq!(r.remaining(), 0);
    assert_eq!(r.finished(), Some(vec![]));
}
