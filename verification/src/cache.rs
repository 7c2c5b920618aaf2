use vstd::prelude::*;

use crate::keyed::{
    as_map, distinct_keys, has_key, key_place, keyed_at, keyed_empty, keyed_push, keyed_remove,
    keyed_update,
};
use crate::symbol::{symbol_views, FileInfo, Symbol, SymbolView, Timestamp};
use crate::utils::{path_views, RawPath};

verus! {

/// What the cache knows of one file.
pub struct Record {
    /// The modification time that the file had when it was recorded.
    pub modified: Timestamp,
    /// Whether the symbols below are all of the file's symbols as of that
    /// time.
    pub is_fully_parsed: bool,
    /// The symbols stored for the file, in the order in which they were
    /// found.
    pub symbols: Seq<SymbolView>,
}

/// The cache as a map from the bytes of a path to the file's record.
pub type Records = Map<Seq<u8>, Record>;

/// Whether a file that was seen with modification time `modified` has to be
/// parsed anew: it has no record, or was recorded with another time, or
/// its symbols were never stored to the end.
pub open spec fn is_stale(records: Records, path: Seq<u8>, modified: Timestamp) -> bool {
    ||| !records.dom().contains(path)
    ||| records[path].modified != modified
    ||| !records[path].is_fully_parsed
}

/// The records after a file was recorded with a modification time. The
/// file is not fully parsed from then on, also where it was before and the
/// time has not changed. Symbols that were stored for it stay.
pub open spec fn upserted(records: Records, path: Seq<u8>, modified: Timestamp) -> Records {
    records.insert(
        path,
        Record {
            modified,
            is_fully_parsed: false,
            symbols: if records.dom().contains(path) {
                records[path].symbols
            } else {
                Seq::empty()
            },
        },
    )
}

/// The records after the symbols of a recorded file were replaced. Nothing
/// changes for a file without a record.
pub open spec fn replaced(records: Records, path: Seq<u8>, symbols: Seq<SymbolView>) -> Records {
    if records.dom().contains(path) {
        records.insert(path, Record { symbols, ..records[path] })
    } else {
        records
    }
}

/// The records after a recorded file was marked as fully parsed. Nothing
/// changes for a file without a record.
pub open spec fn marked(records: Records, path: Seq<u8>) -> Records {
    if records.dom().contains(path) {
        records.insert(path, Record { is_fully_parsed: true, ..records[path] })
    } else {
        records
    }
}

/// The symbols stored for a file: none where it has no record.
pub open spec fn stored_symbols(records: Records, path: Seq<u8>) -> Seq<SymbolView> {
    if records.dom().contains(path) {
        records[path].symbols
    } else {
        Seq::empty()
    }
}

/// The records after all files but the `live` ones were forgotten, with
/// their symbols.
pub open spec fn reconciled(records: Records, live: Set<Seq<u8>>) -> Records {
    records.restrict(live)
}

/// What storing the symbols of a freshly parsed file does to the records:
/// the file is recorded, then its symbols are replaced, then it is marked.
pub open spec fn stored(
    records: Records,
    path: Seq<u8>,
    modified: Timestamp,
    symbols: Seq<SymbolView>,
) -> Records {
    marked(replaced(upserted(records, path, modified), path, symbols), path)
}

/// Why the cache refused an operation.
#[derive(Clone, Copy, Debug, PartialEq, Eq, Structural)]
pub enum CacheError {
    /// Symbols were handed in for a file that has no record.
    MissingFile,
}

struct FileEntry {
    path: RawPath,
    info: FileInfo,
    symbols: Vec<Symbol>,
}

impl FileEntry {
    spec fn record(&self) -> Record {
        Record {
            modified: self.info.modified,
            is_fully_parsed: self.info.is_fully_parsed,
            symbols: symbol_views(self.symbols@),
        }
    }
}

spec fn keyed_of(entries: Seq<FileEntry>) -> Seq<(Seq<u8>, Record)> {
    entries.map_values(|e: FileEntry| (e.path@, e.record()))
}

/// A store of the symbols that were found in files, by path. It holds
/// for each file the modification time with which it was recorded, whether
/// its symbols are complete, and the symbols.
pub struct Cache {
    entries: Vec<FileEntry>,
}

impl View for Cache {
    type V = Records;

    closed spec fn view(&self) -> Records {
        as_map(self.keyed())
    }
}

fn duplicate_symbols(symbols: &Vec<Symbol>) -> (copy: Vec<Symbol>)
    ensures
        symbol_views(copy@) == symbol_views(symbols@),
{
    let mut copy: Vec<Symbol> = Vec::new();
    let mut i: usize = 0;
    while i < symbols.len()
        invariant
            i <= symbols.len(),
            symbol_views(copy@) == symbol_views(symbols@).take(i as int),
        decreases symbols.len() - i,
    {
        let ghost before = symbol_views(copy@);
        let one = symbols[i].duplicate();
        copy.push(one);
        assert(symbol_views(copy@) =~= before.push(one@));
        assert(symbol_views(symbols@)[i as int] == symbols@[i as int]@);
        assert(symbol_views(copy@) =~= symbol_views(symbols@).take(i + 1));
        i += 1;
    }
    assert(symbol_views(symbols@).take(symbols@.len() as int) =~= symbol_views(symbols@));
    copy
}

impl Cache {
    closed spec fn keyed(&self) -> Seq<(Seq<u8>, Record)> {
        keyed_of(self.entries@)
    }

    /// Takes the entries out, to work on them; they are put back once the
    /// work is done.
    fn take_entries(&mut self) -> (entries: Vec<FileEntry>)
        ensures
            entries@ == old(self).entries@,
            distinct_keys(keyed_of(entries@)),
    {
        proof {
            use_type_invariant(&*self);
        }
        let mut entries: Vec<FileEntry> = Vec::new();
        assert(keyed_of(entries@) =~= Seq::empty());
        core::mem::swap(&mut self.entries, &mut entries);
        entries
    }

    #[verifier::type_invariant]
    closed spec fn no_path_twice(&self) -> bool {
        distinct_keys(self.keyed())
    }

    /// A cache without records.
    pub fn new() -> (cache: Cache)
        ensures
            cache@ == Map::<Seq<u8>, Record>::empty(),
    {
        let cache = Cache { entries: Vec::new() };
        proof {
            keyed_empty::<Seq<u8>, Record>();
            assert(cache.keyed() =~= Seq::empty());
        }
        cache
    }

    fn find(&self, path: &RawPath) -> (place: Option<usize>)
        ensures
            match place {
                Some(i) => i < self.keyed().len() && self.keyed()[i as int].0 == path@
                    && self@.dom().contains(path@) && self@[path@] == self.keyed()[i as int].1,
                None => !self@.dom().contains(path@),
            },
    {
        proof {
            use_type_invariant(self);
        }
        let mut i: usize = 0;
        while i < self.entries.len()
            invariant
                i <= self.entries.len(),
                distinct_keys(self.keyed()),
                forall|j: int| 0 <= j < i ==> (#[trigger] self.keyed()[j]).0 != path@,
            decreases self.entries.len() - i,
        {
            if self.entries[i].path.same(path) {
                proof {
                    keyed_at(self.keyed(), i as int);
                }
                return Some(i);
            }
            i += 1;
        }
        None
    }

    /// What is recorded about a file besides its symbols.
    pub fn get_file_info(&self, file_path: &RawPath) -> (info: Option<FileInfo>)
        ensures
            info is Some <==> self@.dom().contains(file_path@),
            info matches Some(i) ==> i.modified == self@[file_path@].modified && i.is_fully_parsed
                == self@[file_path@].is_fully_parsed,
    {
        match self.find(file_path) {
            Some(i) => Some(self.entries[i].info),
            None => None,
        }
    }

    /// Whether the file's symbols can be served from the cache: it was
    /// recorded with this modification time, and its symbols are complete.
    pub fn is_file_cached(&self, file_path: &RawPath, file_modified: &Timestamp) -> (cached: bool)
        ensures
            cached == !is_stale(self@, file_path@, *file_modified),
    {
        match self.get_file_info(file_path) {
            Some(info) => info.is_current(file_modified),
            None => false,
        }
    }

    /// Records a file with its modification time. From then on the file
    /// counts as not fully parsed, until it is marked again.
    pub fn insert_file(&mut self, file_path: &RawPath, file_modified: &Timestamp)
        ensures
            final(self)@ == upserted(old(self)@, file_path@, *file_modified),
    {
        proof {
            use_type_invariant(&*self);
        }
        let ghost before = self.keyed();
        let info = FileInfo { modified: *file_modified, is_fully_parsed: false };
        let found = self.find(file_path);
        let mut entries = self.take_entries();
        match found {
            Some(i) => {
                let entry = entries.remove(i);
                let kept = FileEntry { path: entry.path, info, symbols: entry.symbols };
                proof {
                    keyed_update(before, i as int, kept.record());
                }
                entries.insert(i, kept);
                assert(keyed_of(entries@) =~= before.update(i as int, (file_path@, kept.record())));
            },
            None => {
                let made = FileEntry { path: file_path.duplicate(), info, symbols: Vec::new() };
                proof {
                    keyed_push(before, file_path@, made.record());
                    assert(made.record().symbols =~= Seq::empty());
                }
                entries.push(made);
                assert(keyed_of(entries@) =~= before.push((file_path@, made.record())));
            },
        }
        self.entries = entries;
    }

    /// Puts `symbols` in place of the symbols stored for a file. Fails, and
    /// changes nothing, where the file has no record.
    pub fn insert_symbols(&mut self, file_path: &RawPath, symbols: &Vec<Symbol>) -> (result:
        Result<(), CacheError>)
        ensures
            final(self)@ == replaced(old(self)@, file_path@, symbol_views(symbols@)),
            result is Ok <==> old(self)@.dom().contains(file_path@),
            result matches Err(e) ==> e == CacheError::MissingFile,
    {
        proof {
            use_type_invariant(&*self);
        }
        let ghost before = self.keyed();
        match self.find(file_path) {
            Some(i) => {
                let mut entries = self.take_entries();
                let entry = entries.remove(i);
                let kept = FileEntry {
                    path: entry.path,
                    info: entry.info,
                    symbols: duplicate_symbols(symbols),
                };
                proof {
                    keyed_update(before, i as int, kept.record());
                }
                entries.insert(i, kept);
                assert(keyed_of(entries@) =~= before.update(i as int, (file_path@, kept.record())));
                self.entries = entries;
                Ok(())
            },
            None => Err(CacheError::MissingFile),
        }
    }

    /// Marks a recorded file as fully parsed. Nothing changes where the
    /// file has no record.
    pub fn set_file_is_fully_parsed(&mut self, file_path: &RawPath)
        ensures
            final(self)@ == marked(old(self)@, file_path@),
    {
        proof {
            use_type_invariant(&*self);
        }
        let ghost before = self.keyed();
        match self.find(file_path) {
            Some(i) => {
                let mut entries = self.take_entries();
                let entry = entries.remove(i);
                let kept = FileEntry {
                    path: entry.path,
                    info: FileInfo { modified: entry.info.modified, is_fully_parsed: true },
                    symbols: entry.symbols,
                };
                proof {
                    keyed_update(before, i as int, kept.record());
                }
                entries.insert(i, kept);
                assert(keyed_of(entries@) =~= before.update(i as int, (file_path@, kept.record())));
                self.entries = entries;
            },
            None => {},
        }
    }

    /// The symbols stored for a file, in the order in which they were
    /// stored; none where the file has no record.
    pub fn get_symbols(&self, file_path: &RawPath) -> (symbols: Vec<Symbol>)
        ensures
            symbol_views(symbols@) == stored_symbols(self@, file_path@),
    {
        match self.find(file_path) {
            Some(i) => duplicate_symbols(&self.entries[i].symbols),
            None => {
                let none: Vec<Symbol> = Vec::new();
                assert(symbol_views(none@) =~= Seq::empty());
                none
            },
        }
    }

    /// Forgets a file and its symbols.
    pub fn delete_file(&mut self, file_path: &RawPath)
        ensures
            final(self)@ == old(self)@.remove(file_path@),
    {
        proof {
            use_type_invariant(&*self);
        }
        let ghost before = self.keyed();
        match self.find(file_path) {
            Some(i) => {
                proof {
                    keyed_remove(before, i as int);
                }
                let mut entries = self.take_entries();
                entries.remove(i);
                assert(keyed_of(entries@) =~= before.remove(i as int));
                self.entries = entries;
            },
            None => {
                assert(self@.remove(file_path@) =~= self@);
            },
        }
    }

    /// The paths of all recorded files, each once.
    pub fn get_file_paths(&self) -> (paths: Vec<RawPath>)
        ensures
            path_views(paths@).to_set() == self@.dom(),
            path_views(paths@).no_duplicates(),
    {
        proof {
            use_type_invariant(self);
        }
        let ghost keyed = self.keyed();
        let mut paths: Vec<RawPath> = Vec::new();
        let mut i: usize = 0;
        while i < self.entries.len()
            invariant
                i <= self.entries.len(),
                keyed == self.keyed(),
                path_views(paths@).len() == i,
                forall|j: int| 0 <= j < i ==> path_views(paths@)[j] == (#[trigger] keyed[j]).0,
            decreases self.entries.len() - i,
        {
            let ghost before = path_views(paths@);
            paths.push(self.entries[i].path.duplicate());
            assert(path_views(paths@) =~= before.push(keyed[i as int].0));
            i += 1;
        }
        proof {
            let listed = path_views(paths@);
            assert forall|a: int, b: int| 0 <= a < listed.len() && 0 <= b < listed.len() && a
                != b implies listed[a] != listed[b] by {
                if a < b {
                    assert(keyed[a].0 != keyed[b].0);
                } else {
                    assert(keyed[b].0 != keyed[a].0);
                }
            }
            assert forall|p: Seq<u8>| listed.to_set().contains(p) <==> self@.dom().contains(
                p,
            ) by {
                if listed.contains(p) {
                    let j = choose|j: int| 0 <= j < listed.len() && listed[j] == p;
                    assert(keyed[j].0 == p);
                }
                if has_key(keyed, p) {
                    let j = key_place(keyed, p);
                    assert(listed[j] == p);
                }
            }
            assert(listed.to_set() =~= self@.dom());
        }
        paths
    }

    /// Forgets every recorded file that is not among `file_paths`, with its
    /// symbols. What is recorded of the others stays.
    pub fn delete_stale_file_paths(&mut self, file_paths: &Vec<RawPath>)
        ensures
            final(self)@ == reconciled(old(self)@, path_views(file_paths@).to_set()),
    {
        proof {
            use_type_invariant(&*self);
        }
        let ghost start = self@;
        let ghost live = path_views(file_paths@).to_set();
        let mut entries = self.take_entries();
        let mut i: usize = 0;
        while i < entries.len()
            invariant
                i <= entries.len(),
                distinct_keys(keyed_of(entries@)),
                live == path_views(file_paths@).to_set(),
                forall|j: int| 0 <= j < i ==> live.contains((#[trigger] keyed_of(entries@)[j]).0),
                forall|p: Seq<u8>|
                    #![trigger live.contains(p)]
                    live.contains(p) ==> (as_map(keyed_of(entries@)).dom().contains(p)
                        <==> start.dom().contains(p)),
                forall|p: Seq<u8>|
                    #![trigger as_map(keyed_of(entries@)).dom().contains(p)]
                    as_map(keyed_of(entries@)).dom().contains(p) ==> start.dom().contains(p)
                        && as_map(keyed_of(entries@))[p] == start[p],
            decreases entries.len() - i,
        {
            let ghost before = keyed_of(entries@);
            let ghost map_before = as_map(before);
            if entries[i].path.is_among(file_paths) {
                i += 1;
            } else {
                proof {
                    keyed_remove(before, i as int);
                }
                entries.remove(i);
                assert(keyed_of(entries@) =~= before.remove(i as int));
                proof {
                    let gone = before[i as int].0;
                    let now = as_map(keyed_of(entries@));
                    assert(now == map_before.remove(gone));
                    assert(!live.contains(gone));
                    assert forall|p: Seq<u8>| now.dom().contains(p) implies start.dom().contains(
                        p,
                    ) && now[p] == start[p] by {
                        assert(map_before.dom().contains(p));
                    }
                    assert forall|p: Seq<u8>| live.contains(p) implies (now.dom().contains(p)
                        <==> start.dom().contains(p)) by {
                        assert(map_before.dom().contains(p) <==> start.dom().contains(p));
                    }
                    assert forall|j: int| 0 <= j < i implies live.contains(
                        (#[trigger] keyed_of(entries@)[j]).0,
                    ) by {
                        assert(keyed_of(entries@)[j] == before[j]);
                    }
                }
            }
        }
        proof {
            let end = as_map(keyed_of(entries@));
            assert forall|p: Seq<u8>| end.dom().contains(p) implies live.contains(p) by {
                let j = key_place(keyed_of(entries@), p);
                assert(keyed_of(entries@)[j].0 == p);
            }
            assert(end =~= reconciled(start, live));
        }
        self.entries = entries;
    }
}

impl FileInfo {
    /// Whether a file with this record, seen with modification time
    /// `modified`, needs no parsing: the time is the recorded one, and the
    /// symbols are complete.
    pub fn is_current(&self, modified: &Timestamp) -> (current: bool)
        ensures
            current == (self.modified == *modified && self.is_fully_parsed),
    {
        self.modified.secs == modified.secs && self.modified.nanos == modified.nanos
            && self.is_fully_parsed
    }
}

/// A file that was recorded and not marked since is stale, whatever its
/// modification time, and whether or not symbols were stored for it in
/// between: an interrupted run never leaves a file that looks complete.
pub proof fn unmarked_file_is_stale(
    records: Records,
    path: Seq<u8>,
    modified: Timestamp,
    symbols: Seq<SymbolView>,
    observed: Timestamp,
)
    ensures
        is_stale(upserted(records, path, modified), path, observed),
        is_stale(replaced(upserted(records, path, modified), path, symbols), path, observed),
{
}

/// A file whose modification time differs from the recorded one is stale;
/// once its symbols are stored it is recorded with the new time, and is
/// fresh for that time.
pub proof fn changed_file_is_stale(
    records: Records,
    path: Seq<u8>,
    observed: Timestamp,
    symbols: Seq<SymbolView>,
)
    requires
        records.dom().contains(path),
        records[path].modified != observed,
    ensures
        is_stale(records, path, observed),
        stored(records, path, observed, symbols)[path].modified == observed,
        !is_stale(stored(records, path, observed, symbols), path, observed),
{
}

/// What is stored for a file comes back as it went in: after storing, the
/// file is fresh and its stored symbols are the ones handed in, each field
/// and the order kept.
pub proof fn stored_symbols_come_back(
    records: Records,
    path: Seq<u8>,
    modified: Timestamp,
    symbols: Seq<SymbolView>,
)
    ensures
        !is_stale(stored(records, path, modified, symbols), path, modified),
        stored_symbols(stored(records, path, modified, symbols), path) == symbols,
{
}

/// Storing one file leaves the records of all other files as they were.
pub proof fn storing_touches_one_file(
    records: Records,
    path: Seq<u8>,
    modified: Timestamp,
    symbols: Seq<SymbolView>,
    other: Seq<u8>,
)
    requires
        other != path,
    ensures
        stored(records, path, modified, symbols).dom().contains(other) == records.dom().contains(
            other,
        ),
        records.dom().contains(other) ==> stored(records, path, modified, symbols)[other]
            == records[other],
{
}

/// After reconciling, a file that is not live has no record and no symbols;
/// a live file has what it had.
pub proof fn reconciling_forgets_the_rest(records: Records, live: Set<Seq<u8>>, path: Seq<u8>)
    ensures
        !live.contains(path) ==> !reconciled(records, live).dom().contains(path)
            && stored_symbols(reconciled(records, live), path) == Seq::<SymbolView>::empty(),
        live.contains(path) ==> reconciled(records, live).dom().contains(path)
            == records.dom().contains(path) && stored_symbols(reconciled(records, live), path)
            == stored_symbols(records, path),
{
}

} // verus!
