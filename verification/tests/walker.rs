use cymbal::cache::Cache;
use cymbal::channel::FileTask;
use cymbal::language::Language;
use cymbal::symbol::{Kind, Symbol, Timestamp};
use cymbal::utils::RawPath;
use cymbal::walker::{DirEntry, Metadata, Walker};

fn path(text: &str) -> RawPath {
    RawPath::new(text.as_bytes().to_vec())
}

fn time(secs: i64) -> Timestamp {
    Timestamp { secs, nanos: 5 }
}

fn file(name: &str, extension: Option<&str>) -> DirEntry {
    DirEntry {
        path: path(name),
        extension: extension.map(|e| e.to_string()),
        metadata: Some(Metadata { is_file: true, modified: Some(time(1)) }),
    }
}

fn symbol(content: &str) -> Symbol {
    Symbol {
        kind: Kind::Struct,
        language: Language::Rust,
        line: 1,
        column: 0,
        content: content.to_string(),
        leading: None,
        trailing: None,
    }
}

#[test]
fn source_file_gets_a_task() {
    assert_eq!(
        Walker::file_task(&file("src/a.rs", Some("rs"))),
        Some(FileTask::new(path("src/a.rs"), time(1), Language::Rust))
    );
    assert_eq!(
        Walker::file_task(&file("b.tsx", Some("tsx"))),
        Some(FileTask::new(path("b.tsx"), time(1), Language::TypeScript))
    );
}

#[test]
fn what_is_no_source_file_is_passed_over() {
    assert_eq!(Walker::file_task(&file("notes.txt", Some("txt"))), None);
    assert_eq!(Walker::file_task(&file("Makefile", None)), None);
    let mut directory = file("src.rs", Some("rs"));
    directory.metadata = Some(Metadata { is_file: false, modified: Some(time(1)) });
    assert_eq!(Walker::file_task(&directory), None);
    let mut unreadable = file("a.rs", Some("rs"));
    unreadable.metadata = None;
    assert_eq!(Walker::file_task(&unreadable), None);
    let mut timeless = file("a.rs", Some("rs"));
    timeless.metadata = Some(Metadata { is_file: true, modified: None });
    assert_eq!(Walker::file_task(&timeless), None);
}

#[test]
fn single_file_falls_back_to_the_language_asked_for() {
    assert_eq!(
        Walker::single_file_task(&file("a.rs", Some("rs")), Some(Language::Go)),
        Some(FileTask::new(path("a.rs"), time(1), Language::Rust))
    );
    assert_eq!(
        Walker::single_file_task(&file("script", None), Some(Language::Fish)),
        Some(FileTask::new(path("script"), time(1), Language::Fish))
    );
    assert_eq!(
        Walker::single_file_task(&file("a.txt", Some("txt")), Some(Language::C)),
        Some(FileTask::new(path("a.txt"), time(1), Language::C))
    );
    assert_eq!(Walker::single_file_task(&file("a.txt", Some("txt")), None), None);
    let mut directory = file("a.rs", Some("rs"));
    directory.metadata = Some(Metadata { is_file: false, modified: Some(time(1)) });
    assert_eq!(Walker::single_file_task(&directory, Some(Language::Rust)), None);
}

#[test]
fn cache_is_only_cleaned_after_a_full_search() {
    assert!(Walker::may_clean_cache(false, false));
    assert!(!Walker::may_clean_cache(true, false));
    assert!(!Walker::may_clean_cache(false, true));
    assert!(!Walker::may_clean_cache(true, true));
}

#[test]
fn walker_keeps_the_paths_of_its_tasks() {
    let mut walker = Walker::new(path("."), true);
    assert_eq!(walker.file_paths, vec![]);
    assert!(walker.visit(&file("a.rs", Some("rs"))).is_some());
    assert!(walker.visit(&file("README.md", Some("md"))).is_none());
    assert_eq!(
        walker.visit(&file("b.go", Some("go"))),
        Some(FileTask::new(path("b.go"), time(1), Language::Go))
    );
    assert_eq!(walker.file_paths, vec![path("a.rs"), path("b.go")]);
    assert_eq!(walker.path, path("."));
    assert!(walker.should_clean_cache);
}

#[test]
fn two_files_two_tasks() {
    let mut walker = Walker::new(path("."), true);
    let tasks: Vec<FileTask> = [file("a.rs", Some("rs")), file("b.go", Some("go"))]
        .iter()
        .filter_map(|entry| walker.visit(entry))
        .collect();
    assert_eq!(
        tasks,
        vec![
            FileTask::new(path("a.rs"), time(1), Language::Rust),
            FileTask::new(path("b.go"), time(1), Language::Go),
        ]
    );
}

fn cache_with(names: &[&str]) -> Cache {
    let mut cache = Cache::new();
    for name in names {
        cache.insert_file(&path(name), &time(1));
        cache.insert_symbols(&path(name), &vec![symbol(name)]).unwrap();
        cache.set_file_is_fully_parsed(&path(name));
    }
    cache
}

#[test]
fn deleted_file_leaves_the_cache_after_a_full_search() {
    let mut cache = cache_with(&["a.rs", "gone.rs"]);
    let mut walker = Walker::new(path("."), true);
    walker.visit(&file("a.rs", Some("rs")));
    walker.finish(&mut cache);
    assert_eq!(cache.get_file_paths(), vec![path("a.rs")]);
    assert_eq!(cache.get_file_info(&path("gone.rs")), None);
    assert_eq!(cache.get_symbols(&path("gone.rs")), vec![]);
    assert_eq!(cache.get_symbols(&path("a.rs")), vec![symbol("a.rs")]);
    assert!(cache.is_file_cached(&path("a.rs"), &time(1)));
}

#[test]
fn narrowed_search_leaves_the_cache_alone() {
    let mut cache = cache_with(&["a.rs", "b.go"]);
    let mut walker = Walker::new(path("."), Walker::may_clean_cache(true, false));
    walker.visit(&file("a.rs", Some("rs")));
    walker.finish(&mut cache);
    assert_eq!(cache.get_file_paths(), vec![path("a.rs"), path("b.go")]);
    assert_eq!(cache.get_symbols(&path("b.go")), vec![symbol("b.go")]);
}

#[test]
fn stale_paths_are_the_recorded_ones_that_were_not_found() {
    let mut walker = Walker::new(path("."), true);
    walker.visit(&file("a.rs", Some("rs")));
    walker.visit(&file("c.go", Some("go")));
    let cached = vec![path("gone.rs"), path("a.rs"), path("b.rs"), path("c.go")];
    assert_eq!(walker.stale_paths(&cached), vec![path("gone.rs"), path("b.rs")]);
    assert_eq!(walker.stale_paths(&vec![]), vec![]);

    let mut narrowed = Walker::new(path("."), false);
    narrowed.visit(&file("a.rs", Some("rs")));
    assert_eq!(narrowed.stale_paths(&cached), vec![]);
}

#[test]
fn forgetting_the_stale_paths_reconciles() {
    let names = ["a.rs", "gone.rs", "b.rs"];
    let mut by_steps = cache_with(&names);
    let mut at_once = cache_with(&names);
    let mut walker = Walker::new(path("."), true);
    walker.visit(&file("b.rs", Some("rs")));
    walker.visit(&file("new.rs", Some("rs")));
    for stale in walker.stale_paths(&by_steps.get_file_paths()) {
        by_steps.delete_file(&stale);
    }
    walker.finish(&mut at_once);
    assert_eq!(by_steps.get_file_paths(), vec![path("b.rs")]);
    assert_eq!(at_once.get_file_paths(), by_steps.get_file_paths());
}
