use rfid_check::engine::{idle_time, Action, Event, Phase, ScanEngine};
use rfid_check::registry::PathRegistry;
use rfid_check::tags::{ScanResult, TagRule};

fn tick(path: Option<&str>) -> Event {
    Event::Tick { path: path.map(|p| p.to_string()), stop_requested: false }
}

#[test]
fn no_path_means_no_read_and_no_emission() {
    let mut e = ScanEngine::standard();
    let reg = PathRegistry::new();
    for cycle in 0..5u64 {
        let a = e.step(cycle * 1000, Event::Tick { path: reg.get_path(), stop_requested: false });
        assert_eq!(a, Action::Wait(1000));
        assert_eq!(e.phase(), Phase::Idle);
    }
}

#[test]
fn empty_path_is_skipped() {
    let mut e = ScanEngine::standard();
    assert_eq!(e.step(0, tick(Some(""))), Action::Wait(1000));
    assert_eq!(e.phase(), Phase::Idle);
}

#[test]
fn missing_file_is_reported_and_scanning_resumes_after_correction() {
    let mut e = ScanEngine::standard();
    let mut reg = PathRegistry::new();
    reg.set_path("/no/such/file.txt".to_string());
    for cycle in 0..3u64 {
        let start = cycle * 1000;
        let a = e.step(start, Event::Tick { path: reg.get_path(), stop_requested: false });
        assert_eq!(a, Action::Read("/no/such/file.txt".to_string()));
        let a = e.step(start + 10, Event::ReadFailed("not found".to_string()));
        assert_eq!(
            a,
            Action::Report {
                path: "/no/such/file.txt".to_string(),
                message: "not found".to_string(),
                wait_ms: 990,
            }
        );
        assert_eq!(e.phase(), Phase::Idle);
    }
    reg.set_path("tags.txt".to_string());
    let a = e.step(3000, Event::Tick { path: reg.get_path(), stop_requested: false });
    assert_eq!(a, Action::Read("tags.txt".to_string()));
    let a = e.step(3100, Event::ReadOk("AADC000001 BBDC000002".to_string()));
    assert_eq!(a, Action::Emit(ScanResult::AllUnique));
    assert_eq!(e.step(3150, Event::Delivered(true)), Action::Wait(850));
}

#[test]
fn path_set_mid_cycle_applies_next_cycle() {
    let mut e = ScanEngine::standard();
    let mut reg = PathRegistry::new();
    reg.set_path("old.txt".to_string());
    assert_eq!(
        e.step(0, Event::Tick { path: reg.get_path(), stop_requested: false }),
        Action::Read("old.txt".to_string())
    );
    reg.set_path("new.txt".to_string());
    assert_eq!(
        e.step(5, Event::Tick { path: reg.get_path(), stop_requested: false }),
        Action::Ignore
    );
    assert_eq!(e.step(10, Event::ReadFailed("gone".to_string())),
        Action::Report { path: "old.txt".to_string(), message: "gone".to_string(), wait_ms: 990 });
    assert_eq!(
        e.step(1000, Event::Tick { path: reg.get_path(), stop_requested: false }),
        Action::Read("new.txt".to_string())
    );
}

#[test]
fn registry_last_write_wins() {
    let mut reg = PathRegistry::new();
    assert_eq!(reg.get_path(), None);
    reg.set_path("a.txt".to_string());
    assert_eq!(reg.get_path(), Some("a.txt".to_string()));
    reg.set_path("b.txt".to_string());
    assert_eq!(reg.get_path(), Some("b.txt".to_string()));
}

#[test]
fn each_read_gives_the_status_of_its_contents() {
    let mut e = ScanEngine::standard();
    let cases = [
        ("", ScanResult::Empty),
        ("AADC000001", ScanResult::AllUnique),
        ("AADC000001 AADC000001", ScanResult::DuplicatesFound),
        ("AADC000001 AADC000001", ScanResult::DuplicatesFound),
    ];
    let mut now = 0u64;
    for (text, want) in cases {
        assert_eq!(e.step(now, tick(Some("f.txt"))), Action::Read("f.txt".to_string()));
        assert_eq!(e.step(now + 1, Event::ReadOk(text.to_string())), Action::Emit(want));
        assert_eq!(e.step(now + 2, Event::ReadOk(text.to_string())), Action::Ignore);
        assert_eq!(e.step(now + 3, Event::Delivered(true)), Action::Wait(997));
        now += 1000;
    }
}

#[test]
fn closed_channel_stops_the_loop() {
    let mut e = ScanEngine::standard();
    e.step(0, tick(Some("f.txt")));
    e.step(1, Event::ReadOk("AADC000001".to_string()));
    assert_eq!(e.step(2, Event::Delivered(false)), Action::Stop);
    assert_eq!(e.phase(), Phase::Stopped);
    assert_eq!(e.step(1000, tick(Some("f.txt"))), Action::Stop);
}

#[test]
fn stop_request_ends_the_loop() {
    let mut e = ScanEngine::standard();
    let a = e.step(0, Event::Tick { path: Some("f.txt".to_string()), stop_requested: true });
    assert_eq!(a, Action::Stop);
    assert_eq!(e.phase(), Phase::Stopped);
}

#[test]
fn overrun_cycle_does_not_wait() {
    let mut e = ScanEngine::new(200, TagRule::standard());
    assert_eq!(e.interval_ms(), 200);
    e.step(100, tick(Some("f.txt")));
    e.step(450, Event::ReadOk(String::new()));
    assert_eq!(e.step(460, Event::Delivered(true)), Action::Wait(0));
}

#[test]
fn idle_time_fills_the_interval() {
    assert_eq!(idle_time(1000, 0), 1000);
    assert_eq!(idle_time(1000, 300), 700);
    assert_eq!(idle_time(1000, 1000), 0);
    assert_eq!(idle_time(1000, 1500), 0);
}
