use vstd::prelude::*;

use crate::channel::{queue, queue_limit, FileTask};
use crate::language::{language_of_extension, Language};
use crate::utils::RawPath;

verus! {

/// What the command line asks for.
#[derive(Debug)]
pub struct Args {
    /// The file with the language queries, if one was named.
    pub config_path: Option<RawPath>,
    /// The file or directory to search for symbols in.
    pub search_path: RawPath,
    /// The character between the fields of a record.
    pub delimiter: char,
    /// The character after each record.
    pub separator: char,
    /// Only this language's files are searched.
    pub language: Option<Language>,
    /// Only the files of the language with this extension are searched.
    pub extension: Option<String>,
    /// The directory of the cache, if one is to be kept.
    pub cache_dirpath: Option<RawPath>,
    /// The number of workers, if it was given; never 0.
    pub concurrency: Option<usize>,
    /// The number of files that the queue holds at most; 0 for any number.
    pub channel_bound: usize,
}

/// Why the arguments cannot be used.
#[derive(Clone, Copy, Debug, PartialEq, Eq, Structural)]
pub enum ArgsError {
    /// No number of workers was given, and the machine does not tell how
    /// many it can run at once.
    UnknownParallelism,
    /// The number of workers is 0.
    NoWorkers,
}

/// The text of an optional string.
pub open spec fn extension_text(extension: Option<String>) -> Option<Seq<char>> {
    match extension {
        Some(s) => Some(s@),
        None => None,
    }
}

/// The language to which the search is narrowed: the one named, else the one
/// of the extension named, if it is that of a language.
pub open spec fn chosen_language(language: Option<Language>, extension: Option<Seq<char>>)
    -> Option<Language> {
    match language {
        Some(l) => Some(l),
        None => match extension {
            Some(e) => language_of_extension(e),
            None => None,
        },
    }
}

/// The number of workers to run: the number asked for, else what the
/// machine offers.
pub open spec fn chosen_concurrency(asked: Option<usize>, available: Option<usize>) -> Result<
    usize,
    ArgsError,
> {
    match asked {
        Some(n) => if n > 0 {
            Ok(n)
        } else {
            Err(ArgsError::NoWorkers)
        },
        None => match available {
            Some(n) => if n > 0 {
                Ok(n)
            } else {
                Err(ArgsError::UnknownParallelism)
            },
            None => Err(ArgsError::UnknownParallelism),
        },
    }
}

impl Args {
    pub fn search_path(&self) -> (path: &RawPath)
        ensures
            *path == self.search_path,
    {
        &self.search_path
    }

    pub fn delimiter(&self) -> (delimiter: char)
        ensures
            delimiter == self.delimiter,
    {
        self.delimiter
    }

    pub fn separator(&self) -> (separator: char)
        ensures
            separator == self.separator,
    {
        self.separator
    }

    /// The language to which the search is narrowed, if it is. A language
    /// that is named counts before an extension.
    pub fn language(&self) -> (language: Option<Language>)
        ensures
            language == chosen_language(self.language, extension_text(self.extension)),
    {
        match self.language {
            Some(l) => Some(l),
            None => match &self.extension {
                Some(e) => Language::from_extension(e.as_str()),
                None => None,
            },
        }
    }

    /// Whether the search is narrowed to one language. The files that such
    /// a search finds are not all files there are.
    pub fn is_filtering(&self) -> (filtering: bool)
        ensures
            filtering == chosen_language(self.language, extension_text(self.extension)).is_some(),
    {
        self.language().is_some()
    }

    /// The number of workers to run, where the machine offers to run
    /// `available` tasks at once.
    pub fn concurrency(&self, available: Option<usize>) -> (workers: Result<usize, ArgsError>)
        ensures
            workers == chosen_concurrency(self.concurrency, available),
            workers matches Ok(n) ==> n > 0,
    {
        match self.concurrency {
            Some(n) => if n > 0 {
                Ok(n)
            } else {
                Err(ArgsError::NoWorkers)
            },
            None => match available {
                Some(n) => if n > 0 {
                    Ok(n)
                } else {
                    Err(ArgsError::UnknownParallelism)
                },
                None => Err(ArgsError::UnknownParallelism),
            },
        }
    }

    /// The number of worker threads to run where nothing may fail: the
    /// number asked for, else what the machine offers, else 8.
    pub fn num_threads(&self, available: Option<usize>) -> (threads: usize)
        ensures
            threads == match self.concurrency {
                Some(n) => n,
                None => match available {
                    Some(n) => n,
                    None => 8,
                },
            },
    {
        match self.concurrency {
            Some(n) => n,
            None => match available {
                Some(n) => n,
                None => 8,
            },
        }
    }

    /// The queue between the discovery of files and the workers: bounded by
    /// the number given, unbounded where that is 0.
    pub fn channel(&self) -> (ends: (
        async_channel::Sender<FileTask>,
        async_channel::Receiver<FileTask>,
    ))
        ensures
            queue_limit(ends.0) == if self.channel_bound == 0 {
                None
            } else {
                Some(self.channel_bound)
            },
    {
        queue(self.channel_bound)
    }
}

} // verus!
