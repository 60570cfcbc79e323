//! Tests of `release_096`.

use pg_trickle::api::release_096::auto_workers;

#[test]
fn worker_admission_respects_cpu_and_postgres_bounds() {
    let cpu = 8;
    assert_eq!(auto_workers(Some(2), cpu), 2);
    assert_eq!(auto_workers(Some(128), cpu), cpu.clamp(1, 32));
    assert!((1..=32).contains(&auto_workers(None, cpu)));
}
