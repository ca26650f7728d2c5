use coderouter_proxy::metrics::latency_percentiles;

#[test]
fn latency_percentiles_nearest_rank() {
    assert!(latency_percentiles(&vec![]).is_none());
    let one = latency_percentiles(&vec![7]).unwrap();
    assert_eq!((one.p50, one.p95), (7, 7));
    let v: Vec<i64> = (1..=20).map(|x| x * 10).collect();
    let p = latency_percentiles(&v).unwrap();
    assert_eq!(p.p50, 100);
    assert_eq!(p.p95, 190);
    let odd: Vec<i64> = (1..=21).collect();
    let q = latency_percentiles(&odd).unwrap();
    assert_eq!(q.p50, 11);
    assert_eq!(q.p95, 20);
    for n in 1..200usize {
        let xs: Vec<i64> = (0..n as i64).collect();
        let p = latency_percentiles(&xs).unwrap();
        let p50 = ((n as f64 * 0.50).ceil() as usize - 1).min(n - 1);
        let p95 = ((n as f64 * 0.95).ceil() as usize - 1).min(n - 1);
        assert_eq!((p.p50, p.p95), (xs[p50], xs[p95]), "n = {n}");
    }
}
