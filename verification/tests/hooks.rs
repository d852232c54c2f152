use gangplank::clipboard::{Clipboard, SHOW_FOR_MS};
use gangplank::command::{CommandState, Output};
use gangplank::debounce::DebouncedState;
use gangplank::file_watch::FileWatch;
use gangplank::interval::Interval;
use gangplank::persisted::Persisted;
use gangplank::previous::Slot;
use gangplank::resource::{Resource, ResourceState};
use gangplank::window_state::Saved;
use std::path::PathBuf;

#[test]
fn copied_flag_clears_after_two_seconds() {
    let mut c = Clipboard::new();
    assert!(!c.copied());
    let first = c.copy();
    assert!(c.copied());
    // A second copy restarts the wait: the first timer no longer clears it.
    let second = c.copy();
    assert!(!c.expire(first));
    assert!(c.copied());
    assert!(c.expire(second));
    assert!(!c.copied());
    assert_eq!(SHOW_FOR_MS, 2000);
}

#[test]
fn runs_at_once_then_each_period() {
    let mut s = CommandState::new();
    assert_eq!((s.output(), s.runs()), (None, 0));
    s.record(Output::finished(b"a\n", b"", true));
    assert_eq!(s.runs(), 1);
    assert_eq!(s.output().map(|o| o.stdout.as_str()), Some("a\n"));
    s.record(Output::failed_to_start("no such program".to_string()));
    assert_eq!(s.runs(), 2);
    assert_eq!(
        s.output(),
        Some(&Output { stdout: String::new(), stderr: "no such program".to_string(), success: false })
    );
}

#[test]
fn invalid_output_bytes_read_lossily() {
    let o = Output::finished(&[0x66, 0xff, 0x6f], "é".as_bytes(), false);
    assert_eq!(o.stdout, "f\u{fffd}o");
    assert_eq!(o.stderr, "é");
    assert!(!o.success);
}

#[test]
fn burst_commits_only_the_last_value() {
    let mut d = DebouncedState::new(String::new());
    assert_eq!(d.input(String::new()), None, "the first value is committed at once");
    let a = d.input("a".to_string()).unwrap();
    let ab = d.input("ab".to_string()).unwrap();
    let abc = d.input("abc".to_string()).unwrap();
    assert!(d.pending());
    assert!(!d.settle(a));
    assert!(!d.settle(ab));
    assert_eq!(d.value(), "");
    assert!(d.settle(abc));
    assert_eq!(d.value(), "abc");
    assert!(!d.pending());
    assert_eq!(d.input("abc".to_string()), None, "an unchanged value starts no timer");
}

#[test]
fn version_bumps_once_per_change() {
    let mut w = FileWatch::new(Some(100));
    assert!(!w.observe(Some(100)));
    assert_eq!(w.version(), 0);
    assert!(w.observe(Some(200)));
    assert!(!w.observe(Some(200)));
    assert_eq!(w.version(), 1);
    assert!(w.observe(None), "deleting the file is a change");
    assert!(w.observe(Some(200)), "and so is it coming back");
    assert_eq!(w.version(), 3);
}

#[test]
fn ticks_once_per_period() {
    let mut i = Interval::new();
    assert_eq!(i.ticks(), 0);
    i.tick();
    i.tick();
    i.tick();
    assert_eq!(i.ticks(), 3);
}

#[test]
fn previous_lags_current_by_one_render() {
    let mut slot = Slot::new();
    assert_eq!(slot.advance(1), None);
    assert_eq!(slot.advance(2), Some(1));
    assert_eq!(slot.advance(2), Some(2));
    assert_eq!(slot.advance(5), Some(2));
}

#[test]
fn superseded_work_is_cancelled_before_it_finishes() {
    let mut r: ResourceState<u32, u32> = ResourceState::new();
    for key in 1..=5 {
        assert!(r.begin(key));
    }
    let delivered: Vec<bool> = (1..=5).map(|key| r.finish(&key, key * 10)).collect();
    assert_eq!(delivered, [false, false, false, false, true], "five keys start, one finishes");
    assert_eq!(r.value(), &Resource::Ready(50));
}

#[test]
fn slow_result_never_overwrites_the_fast_one_that_superseded_it() {
    let mut r: ResourceState<String, &str> = ResourceState::new();
    r.begin("slow".to_string());
    r.begin("fast".to_string());
    assert!(r.finish(&"fast".to_string(), "fast result"));
    assert!(!r.finish(&"slow".to_string(), "slow result"));
    assert_eq!(r.value().ready(), Some(&"fast result"));
}

#[test]
fn final_state_matches_the_final_key_after_rapid_changes() {
    let mut r: ResourceState<u64, u64> = ResourceState::new();
    for key in [3, 1, 4, 1, 5, 9, 2, 6] {
        r.begin(key);
    }
    assert_eq!(r.value(), &Resource::Loading);
    for key in [3, 1, 4, 5, 9, 2] {
        assert!(!r.finish(&key, key));
    }
    assert!(r.finish(&6, 36));
    assert_eq!(r.value(), &Resource::Ready(36));
}

#[test]
fn an_unchanged_key_does_not_restart_work() {
    let mut r: ResourceState<u8, &str> = ResourceState::new();
    assert!(r.begin(7));
    assert!(r.finish(&7, "done"));
    assert!(!r.begin(7));
    assert_eq!(r.value().ready(), Some(&"done"));
    assert!(r.begin(8));
    assert_eq!(r.value().ready(), None);
}

#[test]
fn persisted_value_is_replaced_in_memory() {
    let mut p = Persisted::new(PathBuf::from("/tmp/prefs.json"), 1u8);
    assert_eq!(*p.value(), 1);
    p.set(2);
    assert_eq!(*p.value(), 2);
    assert_eq!(p.path(), &PathBuf::from("/tmp/prefs.json"));
}

#[test]
fn saved_bounds_need_positive_sides() {
    let ok = Saved { x: -10, y: 20, w: 800, h: 600 };
    assert_eq!(ok.reopen(), Some(ok));
    assert_eq!(Saved { w: 0, ..ok }.reopen(), None);
    assert_eq!(Saved { h: -5, ..ok }.reopen(), None);
    assert!(Saved::needs_save(&ok, &Saved { x: 0, ..ok }));
    assert!(!Saved::needs_save(&ok, &ok));
}

#[test]
fn each_change_of_a_burst_takes_the_next_ticket() {
    let mut d = DebouncedState::new(0u32);
    let tickets: Vec<u64> = (1..=5u32).map(|v| d.input(v).unwrap()).collect();
    assert_eq!(tickets, vec![0, 1, 2, 3, 4]);
    for t in &tickets[..4] {
        assert!(!d.settle(*t));
        assert_eq!(*d.value(), 0);
    }
    assert!(d.settle(4));
    assert_eq!(*d.value(), 5);
    assert!(!d.pending());
}

#[test]
fn work_starts_once_per_change_of_key() {
    let mut r: ResourceState<u8, u8> = ResourceState::new();
    let keys = [0u8, 0, 1, 1, 1, 2, 0, 0];
    let starts = keys.iter().filter(|k| r.begin(**k)).count();
    assert_eq!(starts, 4);
    assert!(r.finish(&0, 9));
    assert!(!r.finish(&2, 3));
    assert_eq!(r.value().ready(), Some(&9));
}

#[test]
fn version_counts_every_change_of_reading() {
    let mut w = FileWatch::new(Some(1));
    let polls = [Some(1), Some(2), Some(2), None, None, Some(2), Some(3)];
    let changed = polls.iter().filter(|p| w.observe(**p)).count();
    assert_eq!(changed, 4);
    assert_eq!(w.version(), 4);
}
