use freezeit_daemon::app::scheduler::FreezeScheduler;

#[test]
fn due_jobs_are_claimed_once() {
    let mut scheduler = FreezeScheduler::default();
    scheduler.schedule_background("com.example.app", 10_123, 100, 5_000);

    assert_eq!(scheduler.due_at(5_100).len(), 1);
    assert!(scheduler.due_at(5_101).is_empty());
}

#[test]
fn due_jobs_come_in_order_and_the_others_stay() {
    let mut scheduler = FreezeScheduler::default();
    scheduler.schedule_background("com.example.b", 10_124, 0, 500);
    scheduler.schedule_background("com.example.a", 10_123, 0, 1_000);
    scheduler.schedule_background("com.example.c", 10_125, 0, 1_001);

    let due: Vec<(String, u32, u128)> = scheduler
        .due_at(1_000)
        .into_iter()
        .map(|job| (job.package_name, job.uid, job.due_at_ms))
        .collect();
    assert_eq!(
        due,
        vec![
            ("com.example.a".to_owned(), 10_123, 1_000),
            ("com.example.b".to_owned(), 10_124, 500),
        ]
    );
    assert!(scheduler.due_at(1_000).is_empty());
    assert_eq!(scheduler.due_at(1_001).len(), 1);
    assert!(scheduler.due_at(u128::MAX).is_empty());
}
