use tag_timer::timer_store::{DataStore, StoreError};
use tag_timer::uid::TagId;

fn setup() -> DataStore {
    DataStore::new()
}

#[test]
fn toggle_create_when_timer_does_not_exist() {
    let mut store = setup();
    let uid = TagId::new("test-tag").unwrap();
    store.create_project(&uid, "test-project").unwrap();

    let result = store.toggle_current_at(&uid, 1_000).unwrap();

    assert_eq!(result, 1);
}

#[test]
fn toggle_end_timer_when_current_already_exists() {
    let uid = TagId::new("test-tag").unwrap();
    let mut store = setup();
    store.create_project(&uid, "test-project").unwrap();

    let result = store.toggle_current_at(&uid, 1_000).unwrap();
    assert_eq!(result, 1);

    let result = store.toggle_current_at(&uid, 1_002).unwrap();
    assert_eq!(result, 1);

    let timer = store.get_timer(result).unwrap();

    assert!(!timer.is_current, "Timer hasn't been turned off");

    assert!(timer.duration >= 2);
    assert!(!timer.is_current)
}

#[test]
fn toggle_timer_creates_new_current_timer() {
    let uid = TagId::new("test-tag").unwrap();
    let mut store = setup();
    store.create_project(&uid, "test-project").unwrap();

    let result = store.toggle_current_at(&uid, 1_000).unwrap();
    assert_eq!(result, 1);

    let result = store.toggle_current_at(&uid, 1_002).unwrap();
    assert_eq!(result, 1);

    let timer = store.get_timer(result).unwrap();

    assert!(!timer.is_current, "Timer hasn't been turned off");

    assert!(timer.duration >= 2);
    assert!(!timer.is_current);

    let timer_id = store.toggle_current_at(&uid, 1_004).unwrap();
    assert_eq!(timer_id, 2);
}

#[test]
fn projects_by_tag_success() {
    let mut store = setup();
    let uid = TagId::new("test-tag").unwrap();
    store.create_project(&uid, "test-project").unwrap();

    let mut now: i64 = 1_000;
    for _ in 0..20 {
        store.toggle_current_at(&uid, now).unwrap();
        store.toggle_current_at(&uid, now + 1).unwrap();
        now += 2;
    }

    let groups = store.projects_by_tag(&uid).unwrap();

    assert_eq!(groups.len(), 1);
    assert_eq!(groups[0].0.name, "test-project");
    assert_eq!(groups[0].1.len(), 20);
}

#[test]
fn get_exportable_timers_by_tag_returns_only_complete_timers() {
    let mut store = setup();
    let uid = TagId::new("test-tag").unwrap();
    store.create_project(&uid, "test-project").unwrap();

    let mut now: i64 = 1_000;
    for _ in 0..20 {
        store.toggle_current_at(&uid, now).unwrap();
        store.toggle_current_at(&uid, now + 1).unwrap();
        now += 2;
    }

    store.toggle_current_at(&uid, now).unwrap();

    let timers = store.get_exportable_timers_by_tag(&uid).unwrap();

    assert_eq!(timers.len(), 20);
}

#[test]
fn timer_update_end_time_success() {
    let mut store = setup();
    let uid = TagId::new("test-tag").unwrap();
    store.create_project(&uid, "test-project").unwrap();

    // Start and stop a timer two seconds apart
    store.toggle_current_at(&uid, 1_000).unwrap();
    let timer_id = store.toggle_current_at(&uid, 1_002).unwrap();

    let timer = store.get_timer(timer_id).unwrap();

    assert_eq!(timer.end_time(), timer.duration + timer.start_time)
}

#[test]
fn toggle_without_project_creates_default() {
    // a tag with no prior state gets the default-named project and a
    // running timer; a second toggle two seconds later stops it
    let mut store = setup();
    let uid = TagId::new("abc").unwrap();

    let timer_id = store.toggle_current_at(&uid, 5_000).unwrap();
    assert_eq!(timer_id, 1);

    let project = store.current_project(&uid).unwrap();
    assert_eq!(project.name, "new-project");
    assert!(project.is_current);

    let timer = store.get_timer(timer_id).unwrap();
    assert!(timer.is_current);
    assert_eq!(timer.duration, 0);
    assert_eq!(timer.start_time, 5_000);

    let stopped_id = store.toggle_current_at(&uid, 5_002).unwrap();
    assert_eq!(stopped_id, timer_id);
    let timer = store.get_timer(timer_id).unwrap();
    assert!(!timer.is_current);
    assert_eq!(timer.duration, 2);
}

#[test]
fn toggle_parity_on_concrete_times() {
    // odd number of toggles: exactly one running timer, duration unset;
    // even number: the most recent timer stopped with the elapsed seconds
    let mut store = setup();
    let uid = TagId::new("parity-tag").unwrap();

    store.toggle_current_at(&uid, 10).unwrap();
    store.toggle_current_at(&uid, 25).unwrap();
    let third = store.toggle_current_at(&uid, 40).unwrap();

    let running = store.get_timer(third).unwrap();
    assert!(running.is_current);
    assert_eq!(running.duration, 0);
    assert_eq!(running.start_time, 40);

    let fourth = store.toggle_current_at(&uid, 100).unwrap();
    assert_eq!(fourth, third);
    let stopped = store.get_timer(fourth).unwrap();
    assert!(!stopped.is_current);
    assert_eq!(stopped.duration, 60);
}

#[test]
fn create_project_demotes_previous_current() {
    let mut store = setup();
    let uid = TagId::new("tag-with-projects").unwrap();

    let first = store.create_project(&uid, "A").unwrap();
    let current = store.current_project(&uid).unwrap();
    assert_eq!(current.id, first);
    assert_eq!(current.name, "A");

    let second = store.create_project(&uid, "B").unwrap();
    let current = store.current_project(&uid).unwrap();
    assert_eq!(current.id, second);
    assert_eq!(current.name, "B");
    assert!(current.is_current);

    let all = store.get_projects(&uid).unwrap();
    assert_eq!(all.len(), 2);
    assert_eq!(all[0].name, "A");
    assert!(!all[0].is_current);
    assert_eq!(all[1].name, "B");
    assert!(all[1].is_current);
}

#[test]
fn exportable_timers_ordered_newest_first() {
    let mut store = setup();
    let uid = TagId::new("export-order").unwrap();
    store.create_project(&uid, "ordered").unwrap();

    let starts: [i64; 4] = [100, 300, 500, 700];
    for s in starts {
        store.toggle_current_at(&uid, s).unwrap();
        store.toggle_current_at(&uid, s + 50).unwrap();
    }

    let timers = store.get_exportable_timers_by_tag(&uid).unwrap();
    assert_eq!(timers.len(), 4);
    assert_eq!(timers[0].start_time, 700);
    assert_eq!(timers[1].start_time, 500);
    assert_eq!(timers[2].start_time, 300);
    assert_eq!(timers[3].start_time, 100);
    for t in &timers {
        assert!(!t.is_current);
        assert_eq!(t.end_time(), t.start_time + t.duration);
    }
}

#[test]
fn current_project_not_found_on_empty_store() {
    let store = setup();
    let uid = TagId::new("nobody").unwrap();
    let r = store.current_project(&uid);
    assert_eq!(r.unwrap_err(), StoreError::NotFound);
}

#[test]
fn get_timer_not_found() {
    let store = setup();
    let r = store.get_timer(42);
    assert_eq!(r.unwrap_err(), StoreError::NotFound);
}

#[test]
fn projects_by_tag_omits_projects_without_timers() {
    let mut store = setup();
    let uid = TagId::new("sparse").unwrap();
    store.create_project(&uid, "empty-project").unwrap();
    store.create_project(&uid, "busy-project").unwrap();
    store.toggle_current_at(&uid, 10).unwrap();
    store.toggle_current_at(&uid, 20).unwrap();

    let groups = store.projects_by_tag(&uid).unwrap();
    assert_eq!(groups.len(), 1);
    assert_eq!(groups[0].0.name, "busy-project");

    let all = store.get_projects(&uid).unwrap();
    assert_eq!(all.len(), 2);
}

#[test]
fn toggle_with_clock_before_running_timer_conflicts() {
    let mut store = setup();
    let uid = TagId::new("future").unwrap();
    // a running timer started far beyond any real clock reading
    store
        .toggle_current_at(&uid, i64::MAX - 10_000)
        .unwrap();

    let r = store.toggle_current(&uid);
    assert_eq!(r.unwrap_err(), StoreError::UpdateConflict);
}

#[test]
fn toggle_current_uses_wall_clock() {
    let mut store = setup();
    let uid = TagId::new("wall-clock").unwrap();
    let id = store.toggle_current(&uid).unwrap();
    let timer = store.get_timer(id).unwrap();
    assert!(timer.is_current);
    // the server clock is well past 2020
    assert!(timer.start_time > 1_600_000_000);
}
