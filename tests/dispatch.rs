use indexer::dispatch::Dispatcher;

#[test]
fn never_more_than_capacity_running() {
    for capacity in 1..5usize {
        let mut d = Dispatcher::new(capacity);
        // Remaining ticks of each running worker; durations vary by record.
        let mut running: Vec<usize> = Vec::new();
        let mut peak = 0usize;
        for record in 0..12usize {
            while !d.can_start() {
                for t in running.iter_mut() {
                    *t -= 1;
                }
                let before = running.len();
                running.retain(|t| *t > 0);
                for _ in running.len()..before {
                    d.complete(Ok(()));
                }
            }
            d.start();
            running.push(1 + (record * 7) % 4);
            peak = peak.max(running.len());
            assert!(running.len() <= capacity);
        }
        while !d.is_idle() {
            d.complete(Ok(()));
            running.pop();
        }
        assert!(running.is_empty());
        assert_eq!(peak, capacity);
        assert!(d.failures_seen().is_empty());
    }
}

#[test]
fn failure_does_not_block_siblings() {
    let mut d = Dispatcher::new(2);
    d.start();
    d.start();
    assert!(!d.can_start());
    d.complete(Err("foo: network error".to_string()));
    assert!(d.can_start());
    d.start();
    d.complete(Ok(()));
    d.complete(Ok(()));
    assert!(d.is_idle());
    assert_eq!(d.failures_seen(), &vec!["foo: network error".to_string()]);
}
