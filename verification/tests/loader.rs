use batch_loader::batch::LoadBatch;
use batch_loader::loader::Loader;
use batch_loader::outcome::Error;
use batch_loader::outcome::FetchError;
use batch_loader::result_map::ResultMap;

fn paths(names: &[&str]) -> Vec<String> {
    names.iter().map(|n| n.to_string()).collect()
}

fn fail(message: &str) -> Result<Vec<u8>, FetchError> {
    Err(FetchError { message: message.to_string() })
}

fn run_to_done(batch: &mut LoadBatch) -> Vec<(usize, usize)> {
    let mut reports: Vec<(usize, usize)> = Vec::new();
    loop {
        let p = batch.tick();
        reports.push((p.resolved, p.total));
        if batch.is_done() {
            return reports;
        }
        assert!(reports.len() < 100, "batch did not complete");
    }
}

#[test]
fn single_resource_round_trip() {
    // Scenario: one requested resource backed by three bytes.
    let mut batch = Loader::load_with_progress(&paths(&["a.bin"]));
    batch.resolve(&"a.bin".to_string(), Ok(vec![1, 2, 3]));
    let reports = run_to_done(&mut batch);
    assert_eq!(reports, vec![(1, 1)]);
    let loaded: ResultMap = batch.finish();
    let bytes = Loader::get(&loaded, &"a.bin".to_string()).unwrap();
    assert_eq!(bytes, &vec![1u8, 2, 3]);
}

#[test]
fn missing_resource_terminates_with_failure() {
    // Scenario: the backing store has no such file; the batch still completes.
    let mut batch = Loader::load_with_progress(&paths(&["missing.bin"]));
    batch.resolve(&"missing.bin".to_string(), fail("no such file"));
    let reports = run_to_done(&mut batch);
    assert_eq!(reports, vec![(1, 1)]);
    let loaded = batch.finish();
    let r = Loader::get(&loaded, &"missing.bin".to_string());
    assert!(matches!(r, Err(Error::LoadFailed)));
}

#[test]
fn staggered_resolution_reports_half_then_full() {
    // Scenario: one resource resolves immediately, the other several polls later.
    let mut batch = Loader::load_with_progress(&paths(&["a.bin", "b.bin"]));
    batch.resolve(&"a.bin".to_string(), Ok(vec![7]));

    let p1 = batch.tick();
    assert_eq!((p1.resolved, p1.total), (1, 2));
    assert!((p1.resolved as f32 / p1.total as f32 - 0.5).abs() < 1e-6);
    assert!(!batch.is_done());

    let p2 = batch.tick();
    assert_eq!((p2.resolved, p2.total), (1, 2));
    assert!(!batch.is_done());

    batch.resolve(&"b.bin".to_string(), Ok(vec![8, 9]));
    let p3 = batch.tick();
    assert_eq!((p3.resolved, p3.total), (2, 2));
    assert!((p3.resolved as f32 / p3.total as f32 - 1.0).abs() < 1e-6);
    assert!(batch.is_done());

    let loaded = batch.finish();
    assert_eq!(Loader::get(&loaded, &"a.bin".to_string()).unwrap(), &vec![7u8]);
    assert_eq!(Loader::get(&loaded, &"b.bin".to_string()).unwrap(), &vec![8u8, 9]);
}

#[test]
fn zero_length_success_counts_as_resolved() {
    // Scenario: a zero-length file. The explicit terminal tag keeps an empty
    // successful buffer from being mistaken for a still-pending entry.
    let mut batch = Loader::load_with_progress(&paths(&["empty.bin"]));
    batch.resolve(&"empty.bin".to_string(), Ok(Vec::new()));
    let reports = run_to_done(&mut batch);
    assert_eq!(reports, vec![(1, 1)]);
    let loaded = batch.finish();
    let bytes = Loader::get(&loaded, &"empty.bin".to_string()).unwrap();
    assert!(bytes.is_empty());
}

#[test]
fn get_unrequested_is_not_loaded() {
    let mut batch = Loader::load_with_progress(&paths(&["a.bin"]));
    batch.resolve(&"a.bin".to_string(), Ok(vec![1]));
    run_to_done(&mut batch);
    let loaded = batch.finish();
    let r = Loader::get(&loaded, &"never-asked.bin".to_string());
    assert!(matches!(r, Err(Error::NotLoaded)));
}

#[test]
fn terminal_entries_are_written_once() {
    let mut batch = Loader::load_with_progress(&paths(&["a.bin"]));
    batch.resolve(&"a.bin".to_string(), Ok(vec![1]));
    // A second resolution of the same entry is ignored, whatever it carries.
    batch.resolve(&"a.bin".to_string(), Ok(vec![9, 9, 9]));
    batch.resolve(&"a.bin".to_string(), fail("late failure"));
    run_to_done(&mut batch);
    let loaded = batch.finish();
    assert_eq!(Loader::get(&loaded, &"a.bin".to_string()).unwrap(), &vec![1u8]);
}

#[test]
fn unseeded_identifier_is_ignored() {
    let mut batch = Loader::load_with_progress(&paths(&["a.bin"]));
    // The key set is fixed at seeding; a stray result adds no entry.
    batch.resolve(&"stray.bin".to_string(), Ok(vec![5]));
    let p = batch.tick();
    assert_eq!((p.resolved, p.total), (0, 1));
    assert!(!batch.is_done());
    batch.resolve(&"a.bin".to_string(), Ok(vec![1]));
    run_to_done(&mut batch);
    let loaded = batch.finish();
    assert!(matches!(
        Loader::get(&loaded, &"stray.bin".to_string()),
        Err(Error::NotLoaded)
    ));
}

#[test]
fn duplicate_identifiers_are_seeded_once() {
    let mut batch = Loader::load_with_progress(&paths(&["a.bin", "a.bin"]));
    let p = batch.tick();
    assert_eq!((p.resolved, p.total), (0, 1));
    batch.resolve(&"a.bin".to_string(), Ok(vec![4]));
    let reports = run_to_done(&mut batch);
    assert_eq!(reports.last(), Some(&(1, 1)));
}

#[test]
fn empty_batch_completes_immediately() {
    let mut batch = Loader::load_with_progress(&paths(&[]));
    let p = batch.tick();
    assert_eq!((p.resolved, p.total), (0, 0));
    assert!(batch.is_done());
    batch.finish();
}

#[test]
fn progress_is_non_decreasing_and_bounded() {
    let names = ["a", "b", "c", "d"];
    let mut batch = Loader::load_with_progress(&paths(&names));
    let mut observed: Vec<(usize, usize)> = Vec::new();
    for (i, name) in names.iter().enumerate() {
        let p = batch.tick();
        observed.push((p.resolved, p.total));
        assert!(!batch.is_done());
        if i % 2 == 0 {
            batch.resolve(&name.to_string(), Ok(vec![i as u8]));
        } else {
            batch.resolve(&name.to_string(), fail("unreachable host"));
        }
    }
    observed.extend(run_to_done(&mut batch));
    let mut last: usize = 0;
    for (resolved, total) in observed.iter() {
        assert_eq!(*total, names.len());
        assert!(*resolved <= *total);
        assert!(*resolved >= last);
        last = *resolved;
    }
    assert_eq!(last, names.len());
}

#[test]
fn load_is_load_with_progress() {
    let mut batch = Loader::load(&paths(&["a.bin", "b.bin"]));
    batch.resolve(&"a.bin".to_string(), Ok(vec![1]));
    batch.resolve(&"b.bin".to_string(), fail("boom"));
    let reports = run_to_done(&mut batch);
    assert_eq!(reports, vec![(2, 2)]);
    let loaded = batch.finish();
    assert!(Loader::get(&loaded, &"a.bin".to_string()).is_ok());
    assert!(matches!(
        Loader::get(&loaded, &"b.bin".to_string()),
        Err(Error::LoadFailed)
    ));
}
