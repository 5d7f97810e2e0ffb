use stuck_in_a_loop::level::LevelInfo;
use stuck_in_a_loop::level::Levels;

#[test]
fn manifest_walks_its_entries_in_order() {
    let mut levels = Levels {
        data: vec![
            LevelInfo::new("one".to_string(), "a.ron".to_string()),
            LevelInfo::new("two".to_string(), "b.ron".to_string()),
        ],
        start_at: 0,
    };
    assert!(levels.has_current());
    assert_eq!(levels.current().unwrap().name, "one");
    levels.advance();
    assert!(levels.has_current());
    assert_eq!(levels.current().unwrap().path, "b.ron");
    levels.advance();
    assert!(!levels.has_current());
    assert!(levels.current().is_none());
}

#[test]
fn manifest_may_start_later() {
    let levels = Levels {
        data: vec![LevelInfo::new("one".to_string(), "a.ron".to_string())],
        start_at: 1,
    };
    assert!(!levels.has_current());
}
