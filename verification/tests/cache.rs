use cymbal::cache::{Cache, CacheError};
use cymbal::language::Language;
use cymbal::symbol::{FileInfo, Kind, Symbol, Timestamp};
use cymbal::utils::{chunk_ranges, RawPath};

fn path(text: &str) -> RawPath {
    RawPath::new(text.as_bytes().to_vec())
}

fn time(secs: i64) -> Timestamp {
    Timestamp { secs, nanos: 0 }
}

fn symbol(content: &str, line: i64) -> Symbol {
    Symbol {
        kind: Kind::Function,
        language: Language::Rust,
        line,
        column: 3,
        content: content.to_string(),
        leading: Some("impl ".to_string()),
        trailing: None,
    }
}

#[test]
fn unknown_file_is_stale() {
    let cache = Cache::new();
    assert!(!cache.is_file_cached(&path("a.rs"), &time(1)));
    assert_eq!(cache.get_file_info(&path("a.rs")), None);
    assert_eq!(cache.get_symbols(&path("a.rs")), vec![]);
    assert_eq!(cache.get_file_paths(), vec![]);
}

#[test]
fn recorded_file_is_stale_until_marked() {
    let mut cache = Cache::new();
    cache.insert_file(&path("a.rs"), &time(1));
    assert!(!cache.is_file_cached(&path("a.rs"), &time(1)));
    assert_eq!(
        cache.get_file_info(&path("a.rs")),
        Some(FileInfo { modified: time(1), is_fully_parsed: false })
    );
    assert_eq!(cache.insert_symbols(&path("a.rs"), &vec![symbol("foo", 1)]), Ok(()));
    assert!(!cache.is_file_cached(&path("a.rs"), &time(1)));
    cache.set_file_is_fully_parsed(&path("a.rs"));
    assert!(cache.is_file_cached(&path("a.rs"), &time(1)));
}

#[test]
fn other_modification_time_is_stale() {
    let mut cache = Cache::new();
    cache.insert_file(&path("a.rs"), &time(1));
    cache.set_file_is_fully_parsed(&path("a.rs"));
    assert!(cache.is_file_cached(&path("a.rs"), &time(1)));
    assert!(!cache.is_file_cached(&path("a.rs"), &time(2)));
    assert!(!cache.is_file_cached(&path("a.rs"), &time(0)));
    assert!(!cache.is_file_cached(&path("a.rs"), &Timestamp { secs: 1, nanos: 1 }));
    assert!(!cache.is_file_cached(&path("b.rs"), &time(1)));
}

#[test]
fn recording_again_resets_the_mark_even_at_the_same_time() {
    let mut cache = Cache::new();
    cache.insert_file(&path("a.rs"), &time(1));
    cache.insert_symbols(&path("a.rs"), &vec![symbol("foo", 1)]).unwrap();
    cache.set_file_is_fully_parsed(&path("a.rs"));
    cache.insert_file(&path("a.rs"), &time(1));
    assert!(!cache.is_file_cached(&path("a.rs"), &time(1)));
    assert_eq!(
        cache.get_file_info(&path("a.rs")),
        Some(FileInfo { modified: time(1), is_fully_parsed: false })
    );
    // the symbols stay until they are replaced
    assert_eq!(cache.get_symbols(&path("a.rs")), vec![symbol("foo", 1)]);
    assert_eq!(cache.get_file_paths(), vec![path("a.rs")]);
}

#[test]
fn recording_again_takes_the_new_time() {
    let mut cache = Cache::new();
    cache.insert_file(&path("a.rs"), &time(1));
    cache.set_file_is_fully_parsed(&path("a.rs"));
    cache.insert_file(&path("a.rs"), &time(5));
    cache.set_file_is_fully_parsed(&path("a.rs"));
    assert!(cache.is_file_cached(&path("a.rs"), &time(5)));
    assert!(!cache.is_file_cached(&path("a.rs"), &time(1)));
}

#[test]
fn symbols_come_back_as_they_went_in() {
    let mut cache = Cache::new();
    let symbols = vec![symbol("zeta", 9), symbol("alpha", 1), symbol("zeta", 9)];
    cache.insert_file(&path("a.rs"), &time(1));
    cache.insert_symbols(&path("a.rs"), &symbols).unwrap();
    cache.set_file_is_fully_parsed(&path("a.rs"));
    assert_eq!(cache.get_symbols(&path("a.rs")), symbols);
}

#[test]
fn new_symbols_replace_the_old() {
    let mut cache = Cache::new();
    cache.insert_file(&path("a.rs"), &time(1));
    cache.insert_symbols(&path("a.rs"), &vec![symbol("a", 1), symbol("b", 2)]).unwrap();
    cache.insert_symbols(&path("a.rs"), &vec![symbol("c", 3)]).unwrap();
    assert_eq!(cache.get_symbols(&path("a.rs")), vec![symbol("c", 3)]);
    cache.insert_symbols(&path("a.rs"), &vec![]).unwrap();
    assert_eq!(cache.get_symbols(&path("a.rs")), vec![]);
}

#[test]
fn symbols_need_a_recorded_file() {
    let mut cache = Cache::new();
    assert_eq!(
        cache.insert_symbols(&path("a.rs"), &vec![symbol("a", 1)]),
        Err(CacheError::MissingFile)
    );
    assert_eq!(cache.get_symbols(&path("a.rs")), vec![]);
    assert_eq!(cache.get_file_paths(), vec![]);
}

#[test]
fn marking_an_unknown_file_changes_nothing() {
    let mut cache = Cache::new();
    cache.set_file_is_fully_parsed(&path("a.rs"));
    assert_eq!(cache.get_file_info(&path("a.rs")), None);
    assert!(!cache.is_file_cached(&path("a.rs"), &time(0)));
}

#[test]
fn files_do_not_touch_each_other() {
    let mut cache = Cache::new();
    cache.insert_file(&path("a.rs"), &time(1));
    cache.insert_symbols(&path("a.rs"), &vec![symbol("a", 1)]).unwrap();
    cache.set_file_is_fully_parsed(&path("a.rs"));
    cache.insert_file(&path("b.rs"), &time(2));
    cache.insert_symbols(&path("b.rs"), &vec![symbol("b", 2)]).unwrap();
    assert!(cache.is_file_cached(&path("a.rs"), &time(1)));
    assert!(!cache.is_file_cached(&path("b.rs"), &time(2)));
    assert_eq!(cache.get_symbols(&path("a.rs")), vec![symbol("a", 1)]);
    assert_eq!(cache.get_symbols(&path("b.rs")), vec![symbol("b", 2)]);
    assert_eq!(cache.get_file_paths(), vec![path("a.rs"), path("b.rs")]);
}

#[test]
fn reconciling_forgets_what_is_not_live() {
    let mut cache = Cache::new();
    for name in ["a.rs", "b.rs", "c.rs", "d.rs"] {
        cache.insert_file(&path(name), &time(1));
        cache.insert_symbols(&path(name), &vec![symbol(name, 1)]).unwrap();
        cache.set_file_is_fully_parsed(&path(name));
    }
    cache.delete_stale_file_paths(&vec![path("d.rs"), path("b.rs"), path("new.rs")]);
    assert_eq!(cache.get_file_paths(), vec![path("b.rs"), path("d.rs")]);
    assert_eq!(cache.get_file_info(&path("a.rs")), None);
    assert_eq!(cache.get_symbols(&path("a.rs")), vec![]);
    assert_eq!(cache.get_symbols(&path("c.rs")), vec![]);
    assert_eq!(cache.get_symbols(&path("b.rs")), vec![symbol("b.rs", 1)]);
    assert!(cache.is_file_cached(&path("d.rs"), &time(1)));
    assert_eq!(cache.get_file_info(&path("new.rs")), None);
}

#[test]
fn reconciling_with_nothing_live_forgets_all() {
    let mut cache = Cache::new();
    cache.insert_file(&path("a.rs"), &time(1));
    cache.insert_file(&path("b.rs"), &time(1));
    cache.delete_stale_file_paths(&vec![]);
    assert_eq!(cache.get_file_paths(), vec![]);
}

#[test]
fn deleting_a_file_forgets_its_symbols() {
    let mut cache = Cache::new();
    cache.insert_file(&path("a.rs"), &time(1));
    cache.insert_symbols(&path("a.rs"), &vec![symbol("a", 1)]).unwrap();
    cache.insert_file(&path("b.rs"), &time(1));
    cache.delete_file(&path("a.rs"));
    cache.delete_file(&path("zzz"));
    assert_eq!(cache.get_file_paths(), vec![path("b.rs")]);
    assert_eq!(cache.get_symbols(&path("a.rs")), vec![]);
    cache.insert_file(&path("a.rs"), &time(1));
    assert_eq!(cache.get_symbols(&path("a.rs")), vec![]);
}

#[test]
fn paths_are_compared_byte_for_byte() {
    let mut cache = Cache::new();
    let odd = RawPath::new(vec![b'a', 0xff, b'.', b'r', b's']);
    cache.insert_file(&odd, &time(1));
    cache.set_file_is_fully_parsed(&odd);
    assert!(cache.is_file_cached(&odd, &time(1)));
    assert!(!cache.is_file_cached(&RawPath::new(vec![b'a', 0xfe, b'.', b'r', b's']), &time(1)));
    assert!(!cache.is_file_cached(&RawPath::new(vec![b'a', 0xff, b'.', b'r']), &time(1)));
    assert!(odd.same(&odd.duplicate()));
    assert!(!odd.same(&path("a.rs")));
    assert!(odd.is_among(&vec![path("x"), odd.clone()]));
    assert!(!odd.is_among(&vec![path("x")]));
}

#[test]
fn file_info_is_current_for_its_time_when_marked() {
    let info = FileInfo { modified: time(7), is_fully_parsed: true };
    assert!(info.is_current(&time(7)));
    assert!(!info.is_current(&time(8)));
    let unmarked = FileInfo { modified: time(7), is_fully_parsed: false };
    assert!(!unmarked.is_current(&time(7)));
}

#[test]
fn chunks_of_a_hundred() {
    assert_eq!(chunk_ranges(0, 100), vec![]);
    assert_eq!(chunk_ranges(1, 100), vec![(0, 1)]);
    assert_eq!(chunk_ranges(100, 100), vec![(0, 100)]);
    assert_eq!(chunk_ranges(101, 100), vec![(0, 100), (100, 101)]);
    assert_eq!(chunk_ranges(250, 100), vec![(0, 100), (100, 200), (200, 250)]);
    assert_eq!(chunk_ranges(3, 1), vec![(0, 1), (1, 2), (2, 3)]);
    assert_eq!(chunk_ranges(usize::MAX, usize::MAX), vec![(0, usize::MAX)]);
}
