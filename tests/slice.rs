use paint::slice::{
    create_fixed_slice_jobs, get_or_schedule, schedule_unless_exact, CacheHit, CacheSettings, DynamicJobs, Job, Kind,
    Slice, SliceStore, WorkerQueue, WorkerStep, TICKS_PER_TURN,
};

const K: Kind = Kind::OkhsvHueSlice;

fn slice(constant: u64, asset: &'static str) -> Slice<&'static str> {
    Slice { constant, asset }
}

fn store_with(fixed: &[(u64, &'static str)]) -> SliceStore<&'static str> {
    let mut store = SliceStore::new();
    for &(c, a) in fixed {
        store.insert_fixed(K, slice(c, a));
    }
    store
}

fn settings(n: u32) -> CacheSettings {
    CacheSettings {
        width: 256,
        height: 256,
        num_fixed_slices: n,
    }
}

#[test]
fn empty_store_finds_nothing() {
    let store: SliceStore<u64> = SliceStore::new();
    assert!(store.get(K, 0).is_none());
}

#[test]
fn completed_fixed_job_is_exact() {
    let store = store_with(&[(100, "a"), (300, "b")]);
    match store.get(K, 300) {
        Some(CacheHit::Exact { asset }) => assert_eq!(asset, "b"),
        _ => panic!("expected an exact hit"),
    }
}

#[test]
fn between_two_fixed_slices_interpolates() {
    let store = store_with(&[(0, "zero"), (4, "one")]);
    match store.get(K, 1) {
        Some(CacheHit::Interpolated {
            asset_a,
            asset_b,
            alpha,
        }) => {
            assert_eq!(asset_a, "zero");
            assert_eq!(asset_b, "one");
            assert_eq!(alpha.numerator, 1);
            assert_eq!(alpha.denominator, 4);
        }
        _ => panic!("expected an interpolation"),
    }
}

#[test]
fn quarter_turn_interpolates_with_a_quarter() {
    let store = store_with(&[(TICKS_PER_TURN, "one"), (0, "zero")]);
    match store.get(K, TICKS_PER_TURN / 4) {
        Some(CacheHit::Interpolated {
            asset_a,
            asset_b,
            alpha,
        }) => {
            assert_eq!((asset_a, asset_b), ("zero", "one"));
            let weight = alpha.numerator as f32 / alpha.denominator as f32;
            assert_eq!(weight, 0.25);
        }
        _ => panic!("expected an interpolation"),
    }
}

#[test]
fn outside_fixed_range_finds_nothing() {
    let store = store_with(&[(10, "a"), (20, "b")]);
    assert!(store.get(K, 5).is_none());
    assert!(store.get(K, 21).is_none());
}

#[test]
fn dynamic_slice_answers_its_constant() {
    let mut store = store_with(&[(10, "a"), (20, "b")]);
    store.insert_dynamic(K, slice(15, "dyn"));
    assert!(matches!(store.get(K, 15), Some(CacheHit::Exact { asset: "dyn" })));
    assert!(matches!(store.get(K, 5), None));
    store.insert_dynamic(K, slice(5, "dyn2"));
    assert!(matches!(store.get(K, 5), Some(CacheHit::Exact { asset: "dyn2" })));
    assert!(matches!(
        store.get(K, 15),
        Some(CacheHit::Interpolated { .. })
    ));
}

#[test]
fn later_fixed_slice_at_same_constant_wins() {
    let store = store_with(&[(10, "old"), (30, "c"), (20, "b"), (10, "new")]);
    assert!(matches!(store.get(K, 10), Some(CacheHit::Exact { asset: "new" })));
    match store.get(K, 25) {
        Some(CacheHit::Interpolated {
            asset_a,
            asset_b,
            alpha,
        }) => {
            assert_eq!((asset_a, asset_b), ("b", "c"));
            assert_eq!((alpha.numerator, alpha.denominator), (5, 10));
        }
        _ => panic!("expected an interpolation"),
    }
}

#[test]
fn schedule_wakes_only_for_a_new_constant() {
    let mut jobs = DynamicJobs::new();
    assert!(jobs.schedule(K, 7));
    assert!(!jobs.schedule(K, 7));
    assert!(jobs.schedule(K, 8));
}

#[test]
fn exact_hit_schedules_nothing() {
    let store = store_with(&[(10, "a")]);
    let mut jobs = DynamicJobs::new();
    let (hit, wake) = get_or_schedule(&store, &mut jobs, K, 10);
    assert!(matches!(hit, Some(CacheHit::Exact { asset: "a" })));
    assert!(!wake);
    assert!(jobs.is_empty());
}

#[test]
fn miss_schedules_a_dynamic_job() {
    let store = store_with(&[(10, "a"), (20, "b")]);
    let mut jobs = DynamicJobs::new();
    let (hit, wake) = get_or_schedule(&store, &mut jobs, K, 12);
    assert!(matches!(hit, Some(CacheHit::Interpolated { .. })));
    assert!(wake);
    let (hit, wake) = get_or_schedule(&store, &mut jobs, K, 12);
    assert!(hit.is_some());
    assert!(!wake);
    assert!(!jobs.is_empty());
}

#[test]
fn newer_dynamic_request_replaces_older() {
    let mut shared = DynamicJobs::new();
    let mut worker = WorkerQueue::new(settings(2));
    shared.schedule(K, 300);
    shared.schedule(K, 700);
    worker.collect(&mut shared);
    assert!(shared.is_empty());
    assert_eq!(
        worker.next_step(true),
        WorkerStep::BuildDynamic(Job {
            kind: K,
            constant: 700
        })
    );
    let mut built = Vec::new();
    loop {
        match worker.next_step(true) {
            WorkerStep::BuildDynamic(job) => built.push(job.constant),
            WorkerStep::BuildFixed(_) => {}
            WorkerStep::Wait => break,
            WorkerStep::Exit => panic!("unexpected exit"),
        }
    }
    assert!(!built.contains(&300));
}

#[test]
fn dynamic_jobs_come_before_fixed_ones() {
    let mut shared = DynamicJobs::new();
    let mut worker = WorkerQueue::new(settings(3));
    assert!(worker.has_any_jobs());
    assert!(matches!(worker.next_step(true), WorkerStep::BuildFixed(_)));
    shared.schedule(K, 42);
    worker.collect(&mut shared);
    assert_eq!(
        worker.next_step(true),
        WorkerStep::BuildDynamic(Job {
            kind: K,
            constant: 42
        })
    );
    assert!(matches!(worker.next_step(true), WorkerStep::BuildFixed(_)));
    assert!(matches!(worker.next_step(true), WorkerStep::BuildFixed(_)));
    assert_eq!(worker.next_step(true), WorkerStep::Wait);
    assert!(!worker.has_any_jobs());
}

#[test]
fn stopped_worker_exits_with_jobs_left() {
    let mut shared = DynamicJobs::new();
    let mut worker = WorkerQueue::new(settings(8));
    shared.schedule(K, 5);
    worker.collect(&mut shared);
    assert_eq!(worker.next_step(false), WorkerStep::Exit);
    assert!(worker.has_any_jobs());
}

#[test]
fn fixed_jobs_spread_from_both_ends() {
    let jobs = create_fixed_slice_jobs(4);
    let constants: Vec<u64> = jobs.iter().map(|j| j.constant).collect();
    assert_eq!(constants, vec![2147483648, 1073741824, 3221225472, 0]);
    assert!(jobs.iter().all(|j| j.kind == K));

    let mut worker = WorkerQueue::new(settings(4));
    let mut order = Vec::new();
    while let WorkerStep::BuildFixed(job) = worker.next_step(true) {
        order.push(job.constant);
    }
    assert_eq!(order, vec![0, 3221225472, 1073741824, 2147483648]);
}

#[test]
fn two_fixed_slices_split_the_turn_in_half() {
    let jobs = create_fixed_slice_jobs(2);
    let constants: Vec<u64> = jobs.iter().map(|j| j.constant).collect();
    assert_eq!(constants, vec![TICKS_PER_TURN / 2, 0]);
}

#[test]
fn fixed_jobs_cover_every_grid_point_once() {
    let n: u32 = 7;
    let mut constants: Vec<u64> = create_fixed_slice_jobs(n)
        .iter()
        .map(|j| j.constant)
        .collect();
    constants.sort();
    let grid: Vec<u64> = (0..n)
        .map(|i| i as u64 * TICKS_PER_TURN / n as u64)
        .collect();
    assert_eq!(constants, grid);
    assert_eq!(grid[6], 3681400539);
    assert!(constants.iter().all(|&c| c < TICKS_PER_TURN));
    assert_eq!(grid[1], 613566756);
}

#[test]
fn schedule_unless_exact_skips_exact_hits() {
    let mut jobs = DynamicJobs::new();
    let exact: Option<CacheHit<&str>> = Some(CacheHit::Exact { asset: "a" });
    assert!(!schedule_unless_exact(&mut jobs, &exact, K, 9));
    assert!(jobs.is_empty());
    let miss: Option<CacheHit<&str>> = None;
    assert!(schedule_unless_exact(&mut jobs, &miss, K, 9));
    assert!(!schedule_unless_exact(&mut jobs, &miss, K, 9));
    assert!(!jobs.is_empty());
}

#[test]
fn many_fixed_slices_keep_distinct_constants() {
    let n: u32 = (1 << 21) + 3;
    let mut constants: Vec<u64> = create_fixed_slice_jobs(n)
        .iter()
        .map(|j| j.constant)
        .collect();
    constants.sort();
    assert_eq!(constants.len(), n as usize);
    assert!(constants.windows(2).all(|w| w[0] < w[1]));
    assert!(constants[constants.len() - 1] < TICKS_PER_TURN);
    assert_eq!(constants[1], TICKS_PER_TURN / n as u64);
}
