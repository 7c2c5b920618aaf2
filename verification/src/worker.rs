use vstd::prelude::*;
use vstd::string::*;

use crate::cache::{is_stale, stored, stored_symbols, Cache, CacheError, Records};
use crate::channel::FileTask;
use crate::config::Config;
use crate::strings::{lossy, lossy_text};
use crate::symbol::{symbol_views, FileInfo, Symbol, SymbolView, Timestamp};
use crate::utils::RawPath;
use crate::writer::{record, Writer};

verus! {

/// The records of a list of symbols of one file, one after the other, in
/// the order of the symbols. Each record names the language of its symbol.
pub open spec fn records_text(
    path: Seq<char>,
    symbols: Seq<SymbolView>,
    delimiter: char,
    separator: char,
) -> Seq<char>
    decreases symbols.len(),
{
    if symbols.len() == 0 {
        Seq::empty()
    } else {
        records_text(path, symbols.drop_last(), delimiter, separator) + record(
            symbols.last().language,
            path,
            symbols.last(),
            delimiter,
            separator,
        )
    }
}

/// What is to be done with a file task.
#[derive(Clone, Debug, PartialEq, Eq)]
pub enum Action {
    /// Nothing: no queries are configured for the file's language. The
    /// file yields no symbols and leaves no trace in the cache.
    Skip,
    /// The file's symbols were taken from the cache; this is their output.
    Emit(String),
    /// The file has to be parsed.
    Parse,
}

/// Where the symbols of a file are to come from.
#[derive(Clone, Copy, Debug, PartialEq, Eq, Structural)]
pub enum Plan {
    /// From nowhere: the file is skipped.
    Skip,
    /// From the cache.
    Serve,
    /// From parsing the file.
    Parse,
}

/// Where the symbols of a file come from. A file for whose language no
/// queries are configured is skipped. Where a cache is kept and the file
/// is on record with the modification time seen and all its symbols, they
/// come from the cache. Else the file is parsed.
pub open spec fn planned(
    has_queries: bool,
    has_cache: bool,
    info: Option<FileInfo>,
    modified: Timestamp,
) -> Plan {
    if !has_queries {
        Plan::Skip
    } else if has_cache {
        match info {
            Some(i) => if i.modified == modified && i.is_fully_parsed {
                Plan::Serve
            } else {
                Plan::Parse
            },
            None => Plan::Parse,
        }
    } else {
        Plan::Parse
    }
}

/// What handling one file task comes to.
pub struct Outcome {
    /// The cache afterwards.
    pub records: Records,
    /// What was written to the output.
    pub output: Seq<char>,
    /// Whether the file was parsed.
    pub parsed: bool,
}

/// What handling a task does where a cache is kept and queries are
/// configured for the file's language. A file that is not stale is served
/// from the cache, which stays as it is. A stale file is parsed; its
/// symbols, `fresh`, are written out and stored.
pub open spec fn handled(
    records: Records,
    path: Seq<u8>,
    modified: Timestamp,
    fresh: Seq<SymbolView>,
    delimiter: char,
    separator: char,
) -> Outcome {
    if is_stale(records, path, modified) {
        Outcome {
            records: stored(records, path, modified, fresh),
            output: records_text(lossy_text(path), fresh, delimiter, separator),
            parsed: true,
        }
    } else {
        Outcome {
            records,
            output: records_text(
                lossy_text(path),
                stored_symbols(records, path),
                delimiter,
                separator,
            ),
            parsed: false,
        }
    }
}

/// What handling a task does where a cache is kept. A file for whose
/// language no queries are configured is skipped: nothing is written, the
/// file is not parsed, and the cache stays as it is. Every other file is
/// handled as [`handled`] states.
pub open spec fn task_handled(
    has_queries: bool,
    records: Records,
    path: Seq<u8>,
    modified: Timestamp,
    fresh: Seq<SymbolView>,
    delimiter: char,
    separator: char,
) -> Outcome {
    if has_queries {
        handled(records, path, modified, fresh, delimiter, separator)
    } else {
        Outcome { records, output: Seq::empty(), parsed: false }
    }
}

/// One step of storing the symbols of a freshly parsed file.
#[derive(Clone, Copy, Debug, PartialEq, Eq, Structural)]
pub enum StoreStep {
    /// The file is recorded with its modification time, as not fully
    /// parsed.
    Record,
    /// The symbols are put in place of those stored.
    Replace,
    /// The file is marked as fully parsed.
    Mark,
}

/// The records after one step of storing.
pub open spec fn step_applied(
    records: Records,
    step: StoreStep,
    path: Seq<u8>,
    modified: Timestamp,
    symbols: Seq<SymbolView>,
) -> Records {
    match step {
        StoreStep::Record => crate::cache::upserted(records, path, modified),
        StoreStep::Replace => crate::cache::replaced(records, path, symbols),
        StoreStep::Mark => crate::cache::marked(records, path),
    }
}

/// The records after the first `n` of a list of steps, one after the
/// other.
pub open spec fn steps_applied(
    records: Records,
    steps: Seq<StoreStep>,
    path: Seq<u8>,
    modified: Timestamp,
    symbols: Seq<SymbolView>,
    n: int,
) -> Records
    decreases n,
{
    if n <= 0 {
        records
    } else {
        step_applied(
            steps_applied(records, steps, path, modified, symbols, n - 1),
            steps[n - 1],
            path,
            modified,
            symbols,
        )
    }
}

/// The steps of storing, in their order: the mark comes last, so that a
/// file whose storing was cut short is never taken for complete.
pub open spec fn storing_order() -> Seq<StoreStep> {
    seq![StoreStep::Record, StoreStep::Replace, StoreStep::Mark]
}

/// Decides what is done with each file task, and formats the output.
#[derive(Clone, Copy, Debug)]
pub struct Worker {
    pub delimiter: char,
    pub separator: char,
}

impl Worker {
    /// A worker that writes records with the given delimiter and
    /// separator.
    pub fn new(delimiter: char, separator: char) -> (worker: Self)
        ensures
            worker.delimiter == delimiter,
            worker.separator == separator,
    {
        Self { delimiter, separator }
    }

    /// Decides where the symbols of a file come from, given whether queries
    /// are configured for its language, whether a cache is kept, what the
    /// cache has on record for the file, and the modification time that the
    /// file was seen with.
    pub fn decide(
        has_queries: bool,
        has_cache: bool,
        info: Option<FileInfo>,
        modified: &Timestamp,
    ) -> (plan: Plan)
        ensures
            plan == planned(has_queries, has_cache, info, *modified),
    {
        if !has_queries {
            return Plan::Skip;
        }
        if !has_cache {
            return Plan::Parse;
        }
        match info {
            Some(info) => if info.is_current(modified) {
                Plan::Serve
            } else {
                Plan::Parse
            },
            None => Plan::Parse,
        }
    }

    /// The record of one symbol of a file.
    pub fn print_symbol(&self, file_path: &RawPath, symbol: &Symbol) -> (text: String)
        ensures
            text@ == record(
                symbol@.language,
                lossy_text(file_path@),
                symbol@,
                self.delimiter,
                self.separator,
            ),
    {
        let shown = lossy(file_path.0.as_slice());
        Writer::new(self.delimiter, self.separator).format(
            symbol.language,
            shown.as_str(),
            symbol,
        )
    }

    /// The records of the symbols of a file, in the order of the symbols.
    /// A file without symbols has no output.
    pub fn emit_symbols(&self, file_path: &RawPath, symbols: &Vec<Symbol>) -> (text: String)
        ensures
            text@ == records_text(
                lossy_text(file_path@),
                symbol_views(symbols@),
                self.delimiter,
                self.separator,
            ),
    {
        let ghost all = symbol_views(symbols@);
        let ghost shown = lossy_text(file_path@);
        let mut text = String::new();
        let mut i: usize = 0;
        assert(all.take(0) =~= Seq::empty());
        while i < symbols.len()
            invariant
                i <= symbols.len(),
                all == symbol_views(symbols@),
                shown == lossy_text(file_path@),
                text@ == records_text(shown, all.take(i as int), self.delimiter, self.separator),
            decreases symbols.len() - i,
        {
            let one = self.print_symbol(file_path, &symbols[i]);
            proof {
                assert(all.take(i + 1).drop_last() =~= all.take(i as int));
                assert(all.take(i + 1).last() == symbols@[i as int]@);
            }
            text.append(one.as_str());
            i += 1;
        }
        assert(all.take(symbols@.len() as int) =~= all);
        text
    }

    /// The steps by which the symbols of a freshly parsed file are stored,
    /// in the order in which they are to be taken.
    pub fn storing_steps() -> (steps: Vec<StoreStep>)
        ensures
            steps@ == storing_order(),
    {
        let mut steps: Vec<StoreStep> = Vec::new();
        steps.push(StoreStep::Record);
        steps.push(StoreStep::Replace);
        steps.push(StoreStep::Mark);
        assert(steps@ =~= storing_order());
        steps
    }

    /// Takes one step of storing on the cache. Fails, and changes nothing,
    /// where symbols are to be put in place for a file without a record.
    pub fn store_step(
        cache: &mut Cache,
        step: StoreStep,
        file_path: &RawPath,
        file_modified: &Timestamp,
        symbols: &Vec<Symbol>,
    ) -> (result: Result<(), CacheError>)
        ensures
            final(cache)@ == step_applied(
                old(cache)@,
                step,
                file_path@,
                *file_modified,
                symbol_views(symbols@),
            ),
            result is Err <==> step == StoreStep::Replace && !old(cache)@.dom().contains(
                file_path@,
            ),
    {
        match step {
            StoreStep::Record => {
                cache.insert_file(file_path, file_modified);
                Ok(())
            },
            StoreStep::Replace => cache.insert_symbols(file_path, symbols),
            StoreStep::Mark => {
                cache.set_file_is_fully_parsed(file_path);
                Ok(())
            },
        }
    }

    /// Writes out the symbols of a freshly parsed file and stores them,
    /// step by step in the order of storing: the file is recorded with its
    /// modification time, then its symbols are put in place, and last it is
    /// marked as fully parsed.
    pub fn cache_and_emit_symbols(
        &self,
        cache: &mut Cache,
        file_path: &RawPath,
        file_modified: &Timestamp,
        symbols: &Vec<Symbol>,
    ) -> (text: String)
        ensures
            text@ == records_text(
                lossy_text(file_path@),
                symbol_views(symbols@),
                self.delimiter,
                self.separator,
            ),
            final(cache)@ == stored(
                old(cache)@,
                file_path@,
                *file_modified,
                symbol_views(symbols@),
            ),
    {
        let text = self.emit_symbols(file_path, symbols);
        let ghost start = cache@;
        let ghost stored_symbols = symbol_views(symbols@);
        let steps = Worker::storing_steps();
        let mut i: usize = 0;
        while i < steps.len()
            invariant
                i <= steps.len(),
                steps@ == storing_order(),
                stored_symbols == symbol_views(symbols@),
                cache@ == steps_applied(
                    start,
                    steps@,
                    file_path@,
                    *file_modified,
                    stored_symbols,
                    i as int,
                ),
            decreases steps.len() - i,
        {
            let _ = Worker::store_step(cache, steps[i], file_path, file_modified, symbols);
            i += 1;
        }
        proof {
            steps_store(start, file_path@, *file_modified, stored_symbols);
        }
        text
    }

    /// Decides what is done with a file task. Without queries for the
    /// file's language the file is skipped. With a cache in which the file
    /// is not stale, its symbols come from the cache. Else the file has to
    /// be parsed.
    pub fn process_file_task(&self, cache: Option<&Cache>, config: &Config, task: &FileTask) -> (action:
        Action)
        requires
            config.wf(),
        ensures
            action is Skip <==> !config.languages@.dom().contains(task.language),
            action is Emit <==> config.languages@.dom().contains(task.language) && (
            cache matches Some(c) && !is_stale(c@, task.file_path@, task.file_modified)),
            action matches Action::Emit(text) ==> cache matches Some(c) && text@ == records_text(
                lossy_text(task.file_path@),
                stored_symbols(c@, task.file_path@),
                self.delimiter,
                self.separator,
            ),
    {
        let has_queries = config.queries_for_language(task.language).is_some();
        let info = match cache {
            Some(cache) => cache.get_file_info(&task.file_path),
            None => None,
        };
        match Worker::decide(has_queries, cache.is_some(), info, &task.file_modified) {
            Plan::Skip => Action::Skip,
            Plan::Parse => Action::Parse,
            Plan::Serve => match cache {
                Some(cache) => {
                    let symbols = cache.get_symbols(&task.file_path);
                    Action::Emit(self.emit_symbols(&task.file_path, &symbols))
                },
                None => Action::Parse,
            },
        }
    }

    /// Handles a file task where a cache is kept, given the symbols that
    /// parsing the file yields. They are only looked at where the file is
    /// stale. Says what was written, and whether the file counted as
    /// parsed. A file for whose language no queries are configured is
    /// skipped.
    pub fn handle_file_task(
        &self,
        cache: &mut Cache,
        config: &Config,
        task: &FileTask,
        fresh: &Vec<Symbol>,
    ) -> (done: (String, bool))
        requires
            config.wf(),
        ensures
            final(cache)@ == task_handled(
                config.languages@.dom().contains(task.language),
                old(cache)@,
                task.file_path@,
                task.file_modified,
                symbol_views(fresh@),
                self.delimiter,
                self.separator,
            ).records,
            done.0@ == task_handled(
                config.languages@.dom().contains(task.language),
                old(cache)@,
                task.file_path@,
                task.file_modified,
                symbol_views(fresh@),
                self.delimiter,
                self.separator,
            ).output,
            done.1 == task_handled(
                config.languages@.dom().contains(task.language),
                old(cache)@,
                task.file_path@,
                task.file_modified,
                symbol_views(fresh@),
                self.delimiter,
                self.separator,
            ).parsed,
    {
        match self.process_file_task(Some(&*cache), config, task) {
            Action::Skip => (String::new(), false),
            Action::Emit(text) => (text, false),
            Action::Parse => {
                let text = self.cache_and_emit_symbols(
                    cache,
                    &task.file_path,
                    &task.file_modified,
                    fresh,
                );
                (text, true)
            },
        }
    }
}

/// Taking the steps of storing in their order stores the symbols: the file
/// is recorded, its symbols are put in place, and it is marked.
pub proof fn steps_store(
    records: Records,
    path: Seq<u8>,
    modified: Timestamp,
    symbols: Seq<SymbolView>,
)
    ensures
        steps_applied(records, storing_order(), path, modified, symbols, 3) == stored(
            records,
            path,
            modified,
            symbols,
        ),
{
    reveal_with_fuel(steps_applied, 4);
}

/// A file for whose language no queries are configured leaves no trace:
/// nothing is written for it, it is not parsed, and the cache stays as it
/// is.
pub proof fn file_without_queries_leaves_no_trace(
    records: Records,
    path: Seq<u8>,
    modified: Timestamp,
    fresh: Seq<SymbolView>,
    delimiter: char,
    separator: char,
)
    ensures
        task_handled(false, records, path, modified, fresh, delimiter, separator).records
            == records,
        task_handled(false, records, path, modified, fresh, delimiter, separator).output
            == Seq::<char>::empty(),
        !task_handled(false, records, path, modified, fresh, delimiter, separator).parsed,
{
}

/// Handling the same file twice, unchanged, writes the same output both
/// times; the second time the file is not parsed and the cache is left as it
/// is, whatever parsing would have yielded.
pub proof fn second_run_repeats_the_first(
    has_queries: bool,
    records: Records,
    path: Seq<u8>,
    modified: Timestamp,
    fresh: Seq<SymbolView>,
    again: Seq<SymbolView>,
    delimiter: char,
    separator: char,
)
    ensures
        ({
            let first = task_handled(
                has_queries,
                records,
                path,
                modified,
                fresh,
                delimiter,
                separator,
            );
            let second = task_handled(
                has_queries,
                first.records,
                path,
                modified,
                again,
                delimiter,
                separator,
            );
            &&& second.output == first.output
            &&& !second.parsed
            &&& second.records == first.records
        }),
{
}

/// A file whose modification time is not the recorded one is parsed, and
/// is recorded with the new time afterwards, where queries are configured
/// for its language.
pub proof fn changed_file_is_parsed_anew(
    has_queries: bool,
    records: Records,
    path: Seq<u8>,
    observed: Timestamp,
    fresh: Seq<SymbolView>,
    delimiter: char,
    separator: char,
)
    requires
        has_queries,
        records.dom().contains(path),
        records[path].modified != observed,
    ensures
        ({
            let outcome = task_handled(
                has_queries,
                records,
                path,
                observed,
                fresh,
                delimiter,
                separator,
            );
            &&& outcome.parsed
            &&& outcome.records[path].modified == observed
            &&& stored_symbols(outcome.records, path) == fresh
        }),
{
}

/// A file that was recorded but never marked, because the run ended in
/// between, is parsed by the next run, whatever was stored for it, where
/// queries are configured for its language.
pub proof fn interrupted_file_is_parsed_anew(
    has_queries: bool,
    records: Records,
    path: Seq<u8>,
    modified: Timestamp,
    partial: Seq<SymbolView>,
    observed: Timestamp,
    fresh: Seq<SymbolView>,
    delimiter: char,
    separator: char,
)
    requires
        has_queries,
    ensures
        task_handled(
            has_queries,
            crate::cache::upserted(records, path, modified),
            path,
            observed,
            fresh,
            delimiter,
            separator,
        ).parsed,
        task_handled(
            has_queries,
            crate::cache::replaced(crate::cache::upserted(records, path, modified), path, partial),
            path,
            observed,
            fresh,
            delimiter,
            separator,
        ).parsed,
        task_handled(
            has_queries,
            crate::cache::upserted(records, path, modified),
            path,
            observed,
            fresh,
            delimiter,
            separator,
        ).output == records_text(lossy_text(path), fresh, delimiter, separator),
{
}

/// A file that is served from the cache gives the output that parsing it
/// gave when it was stored.
pub proof fn cached_output_is_parsed_output(
    has_queries: bool,
    records: Records,
    path: Seq<u8>,
    modified: Timestamp,
    fresh: Seq<SymbolView>,
    again: Seq<SymbolView>,
    delimiter: char,
    separator: char,
)
    requires
        has_queries,
    ensures
        task_handled(
            has_queries,
            stored(records, path, modified, fresh),
            path,
            modified,
            again,
            delimiter,
            separator,
        ).output == records_text(lossy_text(path), fresh, delimiter, separator),
{
}

} // verus!
