use vstd::prelude::*;

use crate::aggregate::aggregate;
use crate::aggregate::clamp_u64;
use crate::aggregate::errors_of;
use crate::aggregate::total_of;
use crate::filesize::FilesizeType;
use crate::metadata::EntryMetadata;
use crate::unique_id::generate_unique_id;
use crate::unique_id::spec_unique_id;
use crate::unique_id::UniqueID;

verus! {

/// One recoverable failure. Both kinds are local to the offending entry and
/// never abort the walk; they are surfaced only in the error list of the
/// final result.
#[derive(Debug, PartialEq, Eq)]
pub enum Error {
    /// The metadata lookup for the path failed; the entry contributes no
    /// bytes and is not recursed into.
    NoMetadataForPath(String),
    /// The path is a directory whose metadata succeeded but whose listing
    /// failed; it contributes its own size and zero children.
    CouldNotReadDir(String),
}

impl Clone for Error {
    fn clone(&self) -> (r: Self)
        ensures
            r == *self,
    {
        match self {
            Error::NoMetadataForPath(p) => Error::NoMetadataForPath(p.clone()),
            Error::CouldNotReadDir(p) => Error::CouldNotReadDir(p.clone()),
        }
    }
}

/// One walker message: either the size contribution of one entry, together
/// with its optional dedup key, or one recoverable failure.
#[derive(Debug, PartialEq, Eq)]
pub enum Message {
    SizeEntry(Option<UniqueID>, u64),
    Error { error: Error },
}

impl Clone for Message {
    fn clone(&self) -> (r: Self)
        ensures
            r == *self,
    {
        match self {
            Message::SizeEntry(id, size) => Message::SizeEntry(*id, *size),
            Message::Error { error } => Message::Error { error: error.clone() },
        }
    }
}

/// A snapshot of one filesystem entry and everything reachable below it, as
/// the walk observes it: the outcome of the entry's metadata lookup and, for
/// directories, the outcome of listing its immediate children.
pub struct FsTree {
    /// The entry's path.
    pub path: String,
    /// `None` when the metadata lookup failed.
    pub meta: Option<EntryMetadata>,
    /// For a directory: `None` when listing the children failed, otherwise
    /// the children in listing order. Ignored for non-directories.
    pub children: Option<Vec<FsTree>>,
}

/// The size message one successfully inspected entry contributes.
pub open spec fn entry_message(m: EntryMetadata, filesize_type: FilesizeType) -> Message {
    Message::SizeEntry(spec_unique_id(m), filesize_type.spec_size(m))
}

/// The message stream one entry produces: a failed metadata lookup yields
/// exactly one error; otherwise the entry's own size message, followed — for
/// a directory — by either one listing error or the streams of all children
/// in order.
pub open spec fn node_messages(t: FsTree, filesize_type: FilesizeType) -> Seq<Message>
    decreases t,
{
    match t.meta {
        None => seq![Message::Error { error: Error::NoMetadataForPath(t.path) }],
        Some(m) => {
            let own = seq![entry_message(m, filesize_type)];
            if m.is_dir {
                match t.children {
                    None => own.push(
                        Message::Error { error: Error::CouldNotReadDir(t.path) },
                    ),
                    Some(cs) => own + forest_messages(cs@, filesize_type),
                }
            } else {
                own
            }
        },
    }
}

/// The concatenated message streams of a sequence of entries.
pub open spec fn forest_messages(ts: Seq<FsTree>, filesize_type: FilesizeType) -> Seq<Message>
    decreases ts,
{
    if ts.len() == 0 {
        Seq::empty()
    } else {
        forest_messages(ts.drop_last(), filesize_type) + node_messages(ts.last(), filesize_type)
    }
}

/// Visits one entry and everything below it, appending its messages to
/// `out` in traversal order.
fn walk_node(t: &FsTree, filesize_type: FilesizeType, out: &mut Vec<Message>)
    ensures
        final(out)@ == old(out)@ + node_messages(*t, filesize_type),
    decreases *t,
{
    match &t.meta {
        None => {
            out.push(Message::Error { error: Error::NoMetadataForPath(t.path.clone()) });
        },
        Some(m) => {
            let unique_id = generate_unique_id(m);
            let size = filesize_type.size(m);
            out.push(Message::SizeEntry(unique_id, size));
            if m.is_dir {
                match &t.children {
                    None => {
                        out.push(
                            Message::Error { error: Error::CouldNotReadDir(t.path.clone()) },
                        );
                    },
                    Some(cs) => {
                        walk_forest(cs, filesize_type, out);
                    },
                }
            }
        },
    }
}

/// Visits a sequence of entries in order, appending their messages to `out`.
fn walk_forest(ts: &Vec<FsTree>, filesize_type: FilesizeType, out: &mut Vec<Message>)
    ensures
        final(out)@ == old(out)@ + forest_messages(ts@, filesize_type),
    decreases ts@,
{
    let ghost out0 = out@;
    let mut i: usize = 0;
    while i < ts.len()
        invariant
            i <= ts.len(),
            out@ == out0 + forest_messages(ts@.take(i as int), filesize_type),
        decreases ts@.len() - i,
    {
        walk_node(&ts[i], filesize_type, out);
        proof {
            assert(ts@.take(i + 1 as int).drop_last() =~= ts@.take(i as int));
            assert(ts@.take(i + 1 as int).last() == ts@[i as int]);
            assert(out@ =~= out0 + forest_messages(ts@.take(i + 1 as int), filesize_type));
        }
        i = i + 1;
    }
    proof {
        assert(ts@.take(ts@.len() as int) =~= ts@);
    }
}

/// The traversal engine over a snapshot: the configured roots, the worker
/// count the driver would use, and the size policy.
pub struct Walk {
    pub root_directories: Vec<FsTree>,
    pub num_threads: usize,
    pub filesize_type: FilesizeType,
}

impl Walk {
    /// The full message stream of this walk: the streams of all roots, in
    /// order.
    pub open spec fn messages(self) -> Seq<Message> {
        forest_messages(self.root_directories@, self.filesize_type)
    }

    /// Builds the immutable run configuration. A configured worker count of
    /// zero is coerced up to one.
    pub fn new(root_directories: Vec<FsTree>, num_threads: usize, filesize_type: FilesizeType)
        -> (r: Walk)
        ensures
            r.root_directories == root_directories,
            r.num_threads == if num_threads == 0 { 1usize } else { num_threads },
            r.filesize_type == filesize_type,
    {
        Walk {
            root_directories,
            num_threads: if num_threads == 0 { 1 } else { num_threads },
            filesize_type,
        }
    }

    /// Visits every entry reachable from the roots exactly once and folds
    /// all resulting messages into the final result: the deduplicated total
    /// (saturating at `u64::MAX`) and every recorded error, in arrival
    /// order. The result does not depend on `num_threads`.
    pub fn run(&self) -> (r: (u64, Vec<Error>))
        ensures
            r.0 == clamp_u64(total_of(self.messages())),
            r.1@ == errors_of(self.messages()),
    {
        let mut msgs: Vec<Message> = Vec::new();
        walk_forest(&self.root_directories, self.filesize_type, &mut msgs);
        aggregate(&msgs)
    }
}

} // verus!
