use just_proxy_lib::ext::{OnlyFirstStream, Polled};

fn ready(p: &Polled<u32>) -> Option<Option<u32>> {
    match p {
        Polled::Ready(i) => Some(*i),
        _ => None,
    }
}

#[test]
fn only_the_first_item_passes() {
    let mut s = OnlyFirstStream::new("inner");
    assert!(!s.first_taken);
    assert!(matches!(s.poll::<u32>(Polled::NotReady), Polled::NotReady));
    assert!(!s.first_taken);
    assert!(matches!(s.poll::<u32>(Polled::Failed), Polled::Failed));
    assert_eq!(ready(&s.poll(Polled::Ready(Some(7)))), Some(Some(7)));
    assert!(s.first_taken);
    assert_eq!(ready(&s.poll(Polled::Ready(Some(8)))), Some(None));
    assert_eq!(ready(&s.poll::<u32>(Polled::NotReady)), Some(None));
    assert_eq!(ready(&s.poll::<u32>(Polled::Failed)), Some(None));
    assert_eq!(s.inner, "inner");
}

#[test]
fn an_empty_inner_stream_ends_at_once() {
    let mut s = OnlyFirstStream::new(());
    assert_eq!(ready(&s.poll::<u32>(Polled::Ready(None))), Some(None));
    assert!(s.first_taken);
    assert_eq!(ready(&s.poll(Polled::Ready(Some(1)))), Some(None));
}
