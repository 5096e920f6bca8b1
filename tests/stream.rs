use async_tutorial::stream::MockStream;

#[test]
fn test_mock_stream() {
    let mut stream = MockStream::new(vec![1, 2, 3]);
    let result = stream.collect();
    assert_eq!(result, vec![1, 2, 3]);
}

#[test]
fn mock_stream_yields_in_order_then_ends() {
    let mut stream = MockStream::new(vec![4, 5]);
    assert_eq!(stream.poll_next(), Some(4));
    assert_eq!(stream.poll_next(), Some(5));
    assert_eq!(stream.poll_next(), None);
    assert_eq!(stream.poll_next(), None);
    assert_eq!(stream.collect(), Vec::<i32>::new());
}

#[test]
fn empty_mock_stream_ends_at_once() {
    let mut stream = MockStream::new(Vec::new());
    assert_eq!(stream.poll_next(), None);
}
