use vstd::prelude::*;

use crate::language::Language;
use crate::symbol::Timestamp;
use crate::utils::RawPath;

verus! {

/// One file to look at: where it is, when it was last modified as of its
/// discovery, and in which language it is written.
#[derive(Clone, Debug, PartialEq, Eq)]
pub struct FileTask {
    pub file_path: RawPath,
    pub file_modified: Timestamp,
    pub language: Language,
}

impl FileTask {
    pub fn new(file_path: RawPath, file_modified: Timestamp, language: Language) -> (task: Self)
        ensures
            task.file_path == file_path,
            task.file_modified == file_modified,
            task.language == language,
    {
        Self { file_path, file_modified, language }
    }
}

/// The sending side of a queue.
#[verifier::external_type_specification]
#[verifier::external_body]
#[verifier::reject_recursive_types(T)]
pub struct ExSender<T>(async_channel::Sender<T>);

/// The receiving side of a queue.
#[verifier::external_type_specification]
#[verifier::external_body]
#[verifier::reject_recursive_types(T)]
pub struct ExReceiver<T>(async_channel::Receiver<T>);

/// How many tasks the queue behind a sender holds at most; none where it
/// holds any number.
pub uninterp spec fn queue_limit(sender: async_channel::Sender<FileTask>) -> Option<usize>;

/// A queue of file tasks that holds at most `cap` of them: who sends to a
/// full queue waits.
///
/// Trusted: this is `async_channel::bounded`, which refuses a capacity of
/// zero by panicking; the queue is made with the capacity given.
#[verifier::external_body]
pub fn bounded(cap: usize) -> (ends: (
    async_channel::Sender<FileTask>,
    async_channel::Receiver<FileTask>,
))
    requires
        cap > 0,
    ensures
        queue_limit(ends.0) == Some(cap),
{
    async_channel::bounded(cap)
}

/// A queue of file tasks that holds any number of them.
///
/// Trusted: this is `async_channel::unbounded`.
#[verifier::external_body]
pub fn unbounded() -> (ends: (async_channel::Sender<FileTask>, async_channel::Receiver<FileTask>))
    ensures
        queue_limit(ends.0) is None,
{
    async_channel::unbounded()
}

/// The queue for a configured bound, where 0 stands for no bound.
pub fn queue(bound: usize) -> (ends: (
    async_channel::Sender<FileTask>,
    async_channel::Receiver<FileTask>,
))
    ensures
        queue_limit(ends.0) == if bound == 0 {
            None
        } else {
            Some(bound)
        },
{
    if bound == 0 {
        unbounded()
    } else {
        bounded(bound)
    }
}

} // verus!
