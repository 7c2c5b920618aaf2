use vstd::prelude::*;

use crate::cache::{reconciled, Cache};
use crate::channel::FileTask;
use crate::language::{language_of_extension, Language};
use crate::symbol::Timestamp;
use crate::utils::{path_views, RawPath};

verus! {

/// What the file system says of a directory entry.
#[derive(Clone, Copy, Debug, PartialEq, Eq, Structural)]
pub struct Metadata {
    /// Whether the entry is a regular file.
    pub is_file: bool,
    /// When the entry was last modified, where the file system tells.
    pub modified: Option<Timestamp>,
}

/// One entry that the walk over a directory tree came upon.
#[derive(Debug)]
pub struct DirEntry {
    pub path: RawPath,
    /// The extension of the entry's name, if it has one that is text.
    pub extension: Option<String>,
    /// What the file system says of the entry; nothing where it could not
    /// be asked.
    pub metadata: Option<Metadata>,
}

/// A file task by value: the bytes of the path, the modification time and
/// the language.
pub type TaskView = (Seq<u8>, Timestamp, Language);

/// The value of a file task, if there is one.
pub open spec fn task_view(task: Option<FileTask>) -> Option<TaskView> {
    match task {
        Some(t) => Some((t.file_path@, t.file_modified, t.language)),
        None => None,
    }
}

/// The task for a directory entry. There is one for a regular file whose
/// modification time is known and whose extension is that of a language;
/// anything else is passed over in silence.
pub open spec fn task_of(
    path: Seq<u8>,
    extension: Option<Seq<char>>,
    metadata: Option<Metadata>,
) -> Option<TaskView> {
    match metadata {
        Some(Metadata { is_file: true, modified: Some(modified) }) => match extension {
            Some(e) => match language_of_extension(e) {
                Some(language) => Some((path, modified, language)),
                None => None,
            },
            None => None,
        },
        _ => None,
    }
}

/// The task for a search path that is itself a file. Its language is that
/// of its extension; where the extension is none of a language, it is the
/// language that the search is narrowed to, if it is.
pub open spec fn single_task_of(
    path: Seq<u8>,
    extension: Option<Seq<char>>,
    metadata: Option<Metadata>,
    fallback: Option<Language>,
) -> Option<TaskView> {
    match metadata {
        Some(Metadata { is_file: true, modified: Some(modified) }) => {
            let by_extension = match extension {
                Some(e) => language_of_extension(e),
                None => None,
            };
            match by_extension {
                Some(language) => Some((path, modified, language)),
                None => match fallback {
                    Some(language) => Some((path, modified, language)),
                    None => None,
                },
            }
        },
        _ => None,
    }
}

/// Whether the files that a search finds are all that matter to the cache:
/// they are not where the search is narrowed to a language, nor where the
/// search path is a single file.
pub open spec fn search_is_exhaustive(is_filtering: bool, root_is_file: bool) -> bool {
    !is_filtering && !root_is_file
}

/// Those of the first `n` recorded paths that a walk has not found, in
/// their order.
pub open spec fn stale_among(cached: Seq<Seq<u8>>, found: Set<Seq<u8>>, n: int) -> Seq<Seq<u8>>
    decreases n,
{
    if n <= 0 {
        Seq::empty()
    } else {
        let before = stale_among(cached, found, n - 1);
        if found.contains(cached[n - 1]) {
            before
        } else {
            before.push(cached[n - 1])
        }
    }
}

/// The text of an optional string.
pub open spec fn optional_text(text: Option<String>) -> Option<Seq<char>> {
    match text {
        Some(s) => Some(s@),
        None => None,
    }
}

/// The discovery of files: turns what a walk over the tree comes upon into
/// file tasks, and keeps the paths of all files for which it made one.
#[derive(Debug)]
pub struct Walker {
    pub path: RawPath,
    /// Whether the cache is reconciled with the files found, once the walk
    /// is over.
    pub should_clean_cache: bool,
    /// The paths of the files found so far.
    pub file_paths: Vec<RawPath>,
}

impl Walker {
    /// A walker over the tree below `path` that has found nothing yet.
    pub fn new(path: RawPath, should_clean_cache: bool) -> (walker: Self)
        ensures
            walker.path == path,
            walker.should_clean_cache == should_clean_cache,
            walker.file_paths@ == Seq::<RawPath>::empty(),
    {
        Self { path, should_clean_cache, file_paths: Vec::new() }
    }

    /// Whether the cache may be reconciled with what a search finds.
    pub fn may_clean_cache(is_filtering: bool, root_is_file: bool) -> (clean: bool)
        ensures
            clean == search_is_exhaustive(is_filtering, root_is_file),
    {
        !is_filtering && !root_is_file
    }

    /// The task for a directory entry, if it is a file to look at.
    pub fn file_task(entry: &DirEntry) -> (task: Option<FileTask>)
        ensures
            task_view(task) == task_of(entry.path@, optional_text(entry.extension), entry.metadata),
    {
        let metadata = match entry.metadata {
            Some(metadata) => metadata,
            None => {
                return None;
            },
        };
        if !metadata.is_file {
            return None;
        }
        let modified = match metadata.modified {
            Some(modified) => modified,
            None => {
                return None;
            },
        };
        let extension = match &entry.extension {
            Some(extension) => extension,
            None => {
                return None;
            },
        };
        match Language::from_extension(extension.as_str()) {
            Some(language) => Some(FileTask::new(entry.path.duplicate(), modified, language)),
            None => None,
        }
    }

    /// The task for a search path that is itself a file.
    pub fn single_file_task(entry: &DirEntry, fallback: Option<Language>) -> (task: Option<
        FileTask,
    >)
        ensures
            task_view(task) == single_task_of(
                entry.path@,
                optional_text(entry.extension),
                entry.metadata,
                fallback,
            ),
    {
        let metadata = match entry.metadata {
            Some(metadata) => metadata,
            None => {
                return None;
            },
        };
        if !metadata.is_file {
            return None;
        }
        let modified = match metadata.modified {
            Some(modified) => modified,
            None => {
                return None;
            },
        };
        let by_extension = match &entry.extension {
            Some(extension) => Language::from_extension(extension.as_str()),
            None => None,
        };
        let language = match by_extension {
            Some(language) => Some(language),
            None => fallback,
        };
        match language {
            Some(language) => Some(FileTask::new(entry.path.duplicate(), modified, language)),
            None => None,
        }
    }

    /// Takes note of one directory entry. Where it is a file to look at,
    /// its task comes back, to be put in the queue, and its path is kept
    /// with the paths found.
    pub fn visit(&mut self, entry: &DirEntry) -> (task: Option<FileTask>)
        ensures
            task_view(task) == task_of(entry.path@, optional_text(entry.extension), entry.metadata),
            final(self).path == old(self).path,
            final(self).should_clean_cache == old(self).should_clean_cache,
            path_views(final(self).file_paths@) == match task {
                Some(_) => path_views(old(self).file_paths@).push(entry.path@),
                None => path_views(old(self).file_paths@),
            },
    {
        let task = Walker::file_task(entry);
        if task.is_some() {
            let ghost before = path_views(self.file_paths@);
            self.file_paths.push(entry.path.duplicate());
            assert(path_views(self.file_paths@) =~= before.push(entry.path@));
        }
        task
    }

    /// The recorded files that are to be forgotten once the walk is over,
    /// given the paths of all recorded files: those that the walk has not
    /// found, where the cache is to be reconciled; none where it is not.
    pub fn stale_paths(&self, cached: &Vec<RawPath>) -> (stale: Vec<RawPath>)
        ensures
            path_views(stale@) == if self.should_clean_cache {
                stale_among(
                    path_views(cached@),
                    path_views(self.file_paths@).to_set(),
                    cached@.len() as int,
                )
            } else {
                Seq::empty()
            },
    {
        let mut stale: Vec<RawPath> = Vec::new();
        assert(path_views(stale@) =~= Seq::empty());
        if !self.should_clean_cache {
            return stale;
        }
        let ghost all = path_views(cached@);
        let ghost found = path_views(self.file_paths@).to_set();
        let mut i: usize = 0;
        while i < cached.len()
            invariant
                i <= cached.len(),
                all == path_views(cached@),
                found == path_views(self.file_paths@).to_set(),
                path_views(stale@) == stale_among(all, found, i as int),
            decreases cached.len() - i,
        {
            let ghost before = path_views(stale@);
            assert(all[i as int] == cached@[i as int]@);
            if !cached[i].is_among(&self.file_paths) {
                stale.push(cached[i].duplicate());
                assert(path_views(stale@) =~= before.push(all[i as int]));
            }
            i += 1;
        }
        stale
    }

    /// Ends the walk. Where the cache is to be reconciled, every file that
    /// it has on record and that the walk has not found is forgotten, with
    /// its symbols; what it has of the files found stays. Else the cache
    /// stays as it is.
    pub fn finish(self, cache: &mut Cache)
        ensures
            final(cache)@ == if self.should_clean_cache {
                reconciled(old(cache)@, path_views(self.file_paths@).to_set())
            } else {
                old(cache)@
            },
    {
        if self.should_clean_cache {
            cache.delete_stale_file_paths(&self.file_paths);
        }
    }
}

/// After a walk that reconciles, a file that was on record and that the
/// walk has not found is on record no more.
pub proof fn vanished_file_is_forgotten(
    records: crate::cache::Records,
    found: Seq<Seq<u8>>,
    path: Seq<u8>,
)
    requires
        !found.contains(path),
    ensures
        !reconciled(records, found.to_set()).dom().contains(path),
        crate::cache::stored_symbols(reconciled(records, found.to_set()), path) == Seq::<
            crate::symbol::SymbolView,
        >::empty(),
{
}

/// A path is stale among the first `n` recorded paths exactly when it is
/// one of them and the walk has not found it.
pub proof fn stale_among_members(cached: Seq<Seq<u8>>, found: Set<Seq<u8>>, n: int, path: Seq<u8>)
    requires
        0 <= n <= cached.len(),
    ensures
        stale_among(cached, found, n).contains(path) <==> !found.contains(path) && exists|i: int|
            0 <= i < n && cached[i] == path,
    decreases n,
{
    if n > 0 {
        stale_among_members(cached, found, n - 1, path);
        let before = stale_among(cached, found, n - 1);
        let now = stale_among(cached, found, n);
        if found.contains(cached[n - 1]) {
        } else {
            assert(now == before.push(cached[n - 1]));
            if before.contains(path) {
                let k = choose|k: int| 0 <= k < before.len() && before[k] == path;
                assert(now[k] == path);
            }
            if now.contains(path) {
                let k = choose|k: int| 0 <= k < now.len() && now[k] == path;
                if k < before.len() {
                    assert(before[k] == path);
                }
            }
            if cached[n - 1] == path {
                assert(now[before.len() as int] == path);
            }
        }
    }
}

/// Forgetting the stale ones among all recorded files reconciles the
/// cache with what the walk has found.
pub proof fn forgetting_stale_reconciles(
    records: crate::cache::Records,
    cached: Seq<Seq<u8>>,
    found: Set<Seq<u8>>,
)
    requires
        cached.to_set() == records.dom(),
    ensures
        records.remove_keys(stale_among(cached, found, cached.len() as int).to_set())
            == reconciled(records, found),
{
    let stale = stale_among(cached, found, cached.len() as int);
    let left = records.remove_keys(stale.to_set());
    let right = reconciled(records, found);
    assert forall|p: Seq<u8>| left.dom().contains(p) <==> right.dom().contains(p) by {
        stale_among_members(cached, found, cached.len() as int, p);
        if records.dom().contains(p) {
            assert(cached.to_set().contains(p));
            assert(cached.contains(p));
        }
    }
    assert(left =~= right);
}

} // verus!
