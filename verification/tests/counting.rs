use http_metrics::counting::{counted, ByteCounter, CountingBody, Polled};

#[test]
fn counter_counts() {
    let counter = ByteCounter::new();
    assert_eq!(counter.load(), 0);
    counter.inc(5);
    counter.inc(0);
    counter.inc(32);
    assert_eq!(counter.load(), 37);
    assert_eq!(counter.load(), 37);
}

#[test]
fn clones_share_the_count() {
    let c = ByteCounter::new();
    let d = c.clone();
    c.inc(3);
    d.inc(4);
    assert_eq!(c.load(), 7);
    assert_eq!(d.load(), 7);
    assert_eq!(c.load(), 7);
    let fresh = ByteCounter::new();
    assert_eq!(fresh.load(), 0);
}

#[test]
fn counter_goes_round_at_the_top() {
    let counter = ByteCounter::new();
    counter.inc(usize::MAX);
    assert_eq!(counter.load(), usize::MAX);
    counter.inc(2);
    assert_eq!(counter.load(), 1);
}

#[test]
fn body_shares_the_counter_it_was_given() {
    let c = ByteCounter::new();
    c.inc(2);
    let mut body = CountingBody::new("inner", c.clone());
    assert_eq!(c.load(), 2);
    assert_eq!(body.counter().load(), 2);
    assert_eq!(body.record(&Polled::Data(10)), 10);
    assert_eq!(c.load(), 12);
    c.inc(1);
    assert_eq!(body.counter().load(), 13);
    assert_eq!(*body.inner(), "inner");
}

#[test]
fn polls_of_hello_world() {
    let frames: [&[u8]; 3] = [b"hello", b"", b" world!"];
    let c = ByteCounter::new();
    let mut body = CountingBody::new(frames.to_vec(), c.clone());
    let mut seen = Vec::new();
    let mut yielded: Vec<&[u8]> = Vec::new();
    for i in 0..4 {
        let frame = body.inner().get(i).copied();
        let polled = match frame {
            Some(data) => Polled::Data(data.len()),
            None => Polled::Finished,
        };
        body.record(&polled);
        if let Some(data) = frame {
            yielded.push(data);
        }
        seen.push(c.load());
    }
    assert_eq!(seen, vec![5, 5, 12, 12]);
    assert_eq!(yielded, frames.to_vec());
    assert_eq!(body.counter().load(), c.load());
}

#[test]
fn body_is_handed_through() {
    let body = vec![1u8, 2, 3];
    let mut wrapped = CountingBody::new(body.clone(), ByteCounter::new());
    assert_eq!(wrapped.inner(), &body);
    assert_eq!(wrapped.counter().load(), 0);
    wrapped.record(&Polled::Data(3));
    assert_eq!(wrapped.inner(), &body);
    wrapped.inner_mut().push(4);
    assert_eq!(wrapped.counter().load(), 3);
    let (inner, counter) = wrapped.into_parts();
    assert_eq!(inner, vec![1, 2, 3, 4]);
    assert_eq!(counter.load(), 3);
}

#[test]
fn only_data_counts() {
    let mut wrapped = CountingBody::new((), ByteCounter::new());
    let mut added = Vec::new();
    for polled in [
        Polled::Pending,
        Polled::Data(10),
        Polled::Trailers,
        Polled::Pending,
        Polled::Data(0),
        Polled::Data(27),
        Polled::Failed,
        Polled::Finished,
    ] {
        assert_eq!(counted(&polled), wrapped.record(&polled));
        added.push(counted(&polled));
    }
    assert_eq!(added, vec![0, 10, 0, 0, 0, 27, 0, 0]);
    assert_eq!(wrapped.counter().load(), 37);
}

#[test]
fn chunk_boundaries_do_not_matter() {
    let body: Vec<u8> = (0..1000u32).map(|i| i as u8).collect();
    for chunk in [1usize, 2, 7, 64, 999, 1000, 5000] {
        let kept = ByteCounter::new();
        let mut wrapped = CountingBody::new((), kept.clone());
        let mut forwarded = 0;
        for piece in body.chunks(chunk) {
            wrapped.record(&Polled::Pending);
            wrapped.record(&Polled::Data(piece.len()));
            forwarded += piece.len();
        }
        wrapped.record(&Polled::Finished);
        assert_eq!(kept.load(), 1000);
        assert_eq!(wrapped.counter().load(), 1000);
        assert_eq!(forwarded, 1000);
    }
}

#[test]
fn error_in_place_of_a_chunk_is_not_counted() {
    let kept = ByteCounter::new();
    let mut wrapped = CountingBody::new((), kept.clone());
    wrapped.record(&Polled::Data(10));
    wrapped.record(&Polled::Failed);
    assert_eq!(kept.load(), 10);
}
