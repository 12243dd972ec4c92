use vstd::prelude::*;

use crate::aggregate::errors_of;
use crate::aggregate::initial_state;
use crate::aggregate::run_state;
use crate::aggregate::seen_of;
use crate::aggregate::step_state;
use crate::aggregate::total_of;
use crate::aggregate::AggState;
use crate::filesize::FilesizeType;
use crate::unique_id::UniqueID;
use crate::walk::entry_message;
use crate::walk::forest_messages;
use crate::walk::node_messages;
use crate::walk::Error;
use crate::walk::FsTree;
use crate::walk::Message;
use crate::walk::Walk;

verus! {

broadcast use vstd::seq_lib::group_seq_properties;

/// Appending one message steps the aggregation state once.
pub proof fn lemma_run_state_snoc(st: AggState, msgs: Seq<Message>, m: Message)
    ensures
        run_state(st, msgs.push(m)) == step_state(run_state(st, msgs), m),
{
    assert(msgs.push(m).drop_last() =~= msgs);
    assert(msgs.push(m).last() == m);
}

/// Aggregating a concatenation aggregates the two halves in order.
pub proof fn lemma_run_state_concat(st: AggState, a: Seq<Message>, b: Seq<Message>)
    ensures
        run_state(st, a + b) == run_state(run_state(st, a), b),
    decreases b.len(),
{
    if b.len() == 0 {
        assert(a + b =~= a);
    } else {
        lemma_run_state_concat(st, a, b.drop_last());
        assert((a + b).drop_last() =~= a + b.drop_last());
        assert((a + b).last() == b.last());
    }
}

/// The total and the seen-key set depend only on the incoming total and
/// seen-key set, never on the errors recorded so far.
pub proof fn lemma_state_errors_irrelevant(st1: AggState, st2: AggState, msgs: Seq<Message>)
    requires
        st1.total == st2.total,
        st1.seen == st2.seen,
    ensures
        run_state(st1, msgs).total == run_state(st2, msgs).total,
        run_state(st1, msgs).seen == run_state(st2, msgs).seen,
    decreases msgs.len(),
{
    if msgs.len() > 0 {
        lemma_state_errors_irrelevant(st1, st2, msgs.drop_last());
    }
}

/// Errors recorded before a stream stay in front of the errors the stream
/// records.
pub proof fn lemma_errors_shift(st: AggState, msgs: Seq<Message>)
    ensures
        run_state(st, msgs).errors == st.errors + errors_of(msgs),
    decreases msgs.len(),
{
    if msgs.len() == 0 {
        assert(st.errors + errors_of(msgs) =~= st.errors);
    } else {
        let pre = msgs.drop_last();
        lemma_errors_shift(st, pre);
        lemma_errors_shift(initial_state(), pre);
        match msgs.last() {
            Message::Error { error } => {
                assert(st.errors + errors_of(pre).push(error) =~= (st.errors + errors_of(
                    pre,
                )).push(error));
            },
            _ => {},
        }
    }
}

/// The errors of a concatenated stream are the errors of its halves, in
/// order.
pub proof fn lemma_errors_concat(a: Seq<Message>, b: Seq<Message>)
    ensures
        errors_of(a + b) == errors_of(a) + errors_of(b),
{
    lemma_run_state_concat(initial_state(), a, b);
    lemma_errors_shift(run_state(initial_state(), a), b);
}

/// **Partial failure isolation, aggregation side**: error messages are
/// recorded and change nothing else — a stream with an error spliced into
/// it yields the same total and the same seen keys as the stream without
/// it, and its error list gains exactly that error, in position.
pub proof fn lemma_error_message_isolated(a: Seq<Message>, b: Seq<Message>, error: Error)
    ensures
        total_of(a + seq![Message::Error { error }] + b) == total_of(a + b),
        seen_of(a + seq![Message::Error { error }] + b) == seen_of(a + b),
        errors_of(a + seq![Message::Error { error }] + b) == errors_of(a).push(error) + errors_of(
            b,
        ),
{
    let e = seq![Message::Error { error }];
    let sta = run_state(initial_state(), a);
    lemma_run_state_concat(initial_state(), a + e, b);
    lemma_run_state_concat(initial_state(), a, e);
    lemma_run_state_concat(initial_state(), a, b);
    assert(e.drop_last() =~= Seq::<Message>::empty());
    assert(run_state(sta, e.drop_last()) == sta);
    assert(run_state(sta, e) == step_state(sta, e.last()));
    lemma_state_errors_irrelevant(run_state(sta, e), sta, b);
    // errors: splice in exactly `error`
    lemma_errors_shift(run_state(run_state(initial_state(), a + e), Seq::empty()), b);
    lemma_errors_concat(a + e, b);
    lemma_errors_concat(a, e);
    lemma_errors_concat(a, b);
    assert(errors_of(e) =~= seq![error]);
    assert(errors_of(a) + seq![error] =~= errors_of(a).push(error));
}

/// Bytes a message contributes unconditionally: the size of a keyless size
/// message; keyed size messages and errors contribute none here.
pub open spec fn plain_contrib(m: Message) -> int {
    match m {
        Message::SizeEntry(None, size) => size as int,
        _ => 0,
    }
}

/// Fold step summing the unconditional contributions.
pub open spec fn plain_step() -> spec_fn(int, Message) -> int {
    |t: int, m: Message| t + plain_contrib(m)
}

/// Sum of all unconditional contributions of a stream.
pub open spec fn plain_total(msgs: Seq<Message>) -> int {
    msgs.fold_left(0int, plain_step())
}

/// Fold step collecting dedup keys.
pub open spec fn id_step() -> spec_fn(Set<UniqueID>, Message) -> Set<UniqueID> {
    |s: Set<UniqueID>, m: Message| match m {
        Message::SizeEntry(Some(unique_id), _) => s.insert(unique_id),
        _ => s,
    }
}

/// The distinct dedup keys that appear in a stream.
pub open spec fn ids_of(msgs: Seq<Message>) -> Set<UniqueID> {
    msgs.fold_left(Set::empty(), id_step())
}

/// Fold step summing `sizes` over dedup keys.
pub open spec fn keyed_step(sizes: Map<UniqueID, u64>) -> spec_fn(int, UniqueID) -> int {
    |t: int, unique_id: UniqueID| t + sizes[unique_id]
}

/// Sum of `sizes` over a finite set of dedup keys.
pub open spec fn keyed_total(ids: Set<UniqueID>, sizes: Map<UniqueID, u64>) -> int {
    ids.fold(0int, keyed_step(sizes))
}

/// Whether a message's size agrees with the size `sizes` assigns to its
/// dedup key; keyless and error messages agree vacuously.
pub open spec fn keyed_ok(m: Message, sizes: Map<UniqueID, u64>) -> bool {
    match m {
        Message::SizeEntry(Some(unique_id), size) => size == sizes[unique_id],
        _ => true,
    }
}

/// Whether every keyed size message in the stream carries the size that
/// `sizes` assigns to its key.
pub open spec fn sizes_consistent(msgs: Seq<Message>, sizes: Map<UniqueID, u64>) -> bool {
    forall|i: int| 0 <= i < msgs.len() ==> keyed_ok(#[trigger] msgs[i], sizes)
}

/// Whether two messages can come from one filesystem: equal dedup keys
/// imply equal sizes.
pub open spec fn agree(m1: Message, m2: Message) -> bool {
    match (m1, m2) {
        (
            Message::SizeEntry(Some(id1), size1),
            Message::SizeEntry(Some(id2), size2),
        ) => id1 == id2 ==> size1 == size2,
        _ => true,
    }
}

/// A stream never shows one dedup key with two different sizes — true of
/// every stream observed from a real filesystem, where one (device, inode)
/// pair has one size. A stream that pairs one key with two sizes (which no
/// single filesystem produces) is excluded: for such a stream the first
/// sighting wins and the total does depend on the order.
pub open spec fn consistent(msgs: Seq<Message>) -> bool {
    forall|i: int, j: int|
        0 <= i < msgs.len() && 0 <= j < msgs.len() ==> agree(
            #[trigger] msgs[i],
            #[trigger] msgs[j],
        )
}

/// The size each dedup key appears with, in a consistent stream.
pub open spec fn sizes_of(msgs: Seq<Message>) -> Map<UniqueID, u64> {
    Map::new(
        |unique_id: UniqueID| true,
        |unique_id: UniqueID|
            choose|size: u64| msgs.contains(Message::SizeEntry(Some(unique_id), size)),
    )
}

proof fn lemma_plain_step_commutative()
    ensures
        vstd::seq_lib::commutative_foldl(plain_step()),
{
    let f = plain_step();
    assert forall|x: Message, y: Message, v: int| #[trigger] f(f(v, x), y) == f(f(v, y), x) by {}
}

proof fn lemma_id_step_commutative()
    ensures
        vstd::seq_lib::commutative_foldl(id_step()),
{
    let f = id_step();
    assert forall|x: Message, y: Message, v: Set<UniqueID>| #[trigger] f(f(v, x), y) == f(
        f(v, y),
        x,
    ) by {
        assert(f(f(v, x), y) =~= f(f(v, y), x));
    }
}

proof fn lemma_keyed_step_commutative(sizes: Map<UniqueID, u64>)
    ensures
        vstd::set::fold::is_fun_commutative(keyed_step(sizes)),
{
    let f = keyed_step(sizes);
    assert forall|a1: UniqueID, a2: UniqueID, b: int| #[trigger] f(f(b, a2), a1) == f(
        f(b, a1),
        a2,
    ) by {}
}

proof fn lemma_ids_finite(msgs: Seq<Message>)
    ensures
        ids_of(msgs).finite(),
    decreases msgs.len(),
{
    if msgs.len() > 0 {
        lemma_ids_finite(msgs.drop_last());
        assert(ids_of(msgs) == id_step()(ids_of(msgs.drop_last()), msgs.last()));
    }
}

/// The aggregation state in closed form: starting from `st`, a consistent
/// stream marks exactly its keys as seen and adds exactly its unconditional
/// contributions plus, once each, the size of every key not already seen.
proof fn lemma_closed_form(st: AggState, msgs: Seq<Message>, sizes: Map<UniqueID, u64>)
    requires
        sizes_consistent(msgs, sizes),
        st.seen.finite(),
    ensures
        run_state(st, msgs).seen == st.seen.union(ids_of(msgs)),
        run_state(st, msgs).total == st.total + plain_total(msgs) + keyed_total(
            ids_of(msgs).difference(st.seen),
            sizes,
        ),
    decreases msgs.len(),
{
    let f = keyed_step(sizes);
    lemma_keyed_step_commutative(sizes);
    if msgs.len() == 0 {
        assert(ids_of(msgs) == Set::<UniqueID>::empty());
        assert(st.seen.union(ids_of(msgs)) =~= st.seen);
        assert(ids_of(msgs).difference(st.seen) =~= Set::<UniqueID>::empty());
        vstd::set::fold::lemma_fold_empty(0int, f);
    } else {
        let pre = msgs.drop_last();
        let m = msgs.last();
        assert(sizes_consistent(pre, sizes)) by {
            assert forall|i: int| 0 <= i < pre.len() implies keyed_ok(
                #[trigger] pre[i],
                sizes,
            ) by {
                assert(pre[i] == msgs[i]);
            }
        }
        lemma_closed_form(st, pre, sizes);
        lemma_ids_finite(pre);
        assert(run_state(st, msgs) == step_state(run_state(st, pre), m));
        assert(ids_of(msgs) == id_step()(ids_of(pre), m));
        assert(plain_total(msgs) == plain_step()(plain_total(pre), m));
        let spre = run_state(st, pre);
        let dpre = ids_of(pre).difference(st.seen);
        match m {
            Message::SizeEntry(Some(unique_id), size) => {
                assert(msgs[msgs.len() - 1] == m);
                assert(keyed_ok(m, sizes));
                let dnew = ids_of(msgs).difference(st.seen);
                if spre.seen.contains(unique_id) {
                    assert(dnew =~= dpre);
                } else {
                    assert(dnew =~= dpre.insert(unique_id));
                    assert(!dpre.contains(unique_id));
                    vstd::set::fold::lemma_fold_insert(dpre, 0int, f, unique_id);
                }
                assert(st.seen.union(ids_of(msgs)) =~= spre.seen.insert(unique_id));
            },
            Message::SizeEntry(None, size) => {},
            Message::Error { error } => {},
        }
    }
}

/// **Each dedup key is charged exactly once**: for a consistent stream the
/// total is the sum of all keyless contributions plus, for each distinct
/// key that appears, that key's size once — however many messages carry the
/// key; and the seen keys are exactly the keys that appear.
pub proof fn lemma_total_closed_form(msgs: Seq<Message>, sizes: Map<UniqueID, u64>)
    requires
        sizes_consistent(msgs, sizes),
    ensures
        total_of(msgs) == plain_total(msgs) + keyed_total(ids_of(msgs), sizes),
        seen_of(msgs) == ids_of(msgs),
{
    lemma_closed_form(initial_state(), msgs, sizes);
    assert(ids_of(msgs).difference(Set::empty()) =~= ids_of(msgs));
    assert(Set::<UniqueID>::empty().union(ids_of(msgs)) =~= ids_of(msgs));
}

proof fn lemma_components_permutation(l1: Seq<Message>, l2: Seq<Message>)
    requires
        l1.to_multiset() == l2.to_multiset(),
    ensures
        plain_total(l1) == plain_total(l2),
        ids_of(l1) == ids_of(l2),
{
    lemma_plain_step_commutative();
    vstd::seq_lib::lemma_fold_left_permutation(l1, l2, plain_step(), 0int);
    lemma_id_step_commutative();
    vstd::seq_lib::lemma_fold_left_permutation(l1, l2, id_step(), Set::<UniqueID>::empty());
}

proof fn lemma_consistent_sizes(msgs: Seq<Message>)
    requires
        consistent(msgs),
    ensures
        sizes_consistent(msgs, sizes_of(msgs)),
{
    assert forall|i: int| 0 <= i < msgs.len() implies keyed_ok(
        #[trigger] msgs[i],
        sizes_of(msgs),
    ) by {
        match msgs[i] {
            Message::SizeEntry(opt, size) => {
                match opt {
                    Some(unique_id) => {
                        assert(msgs.contains(Message::SizeEntry(Some(unique_id), size)));
                        let other = sizes_of(msgs)[unique_id];
                        assert(msgs.contains(Message::SizeEntry(Some(unique_id), other)));
                        let j = choose|j: int|
                            0 <= j < msgs.len() && msgs[j] == Message::SizeEntry(
                                Some(unique_id),
                                other,
                            );
                        assert(agree(msgs[i], msgs[j]));
                    },
                    None => {},
                }
            },
            Message::Error { error } => {},
        }
    }
}

/// **Commutativity**: two streams that are permutations of one another —
/// the same tree walked with different worker counts, or the same messages
/// in a different arrival order — aggregate to the same total, provided no
/// dedup key appears with two different sizes (as no single filesystem
/// makes one do).
pub proof fn lemma_total_order_independent(l1: Seq<Message>, l2: Seq<Message>)
    requires
        consistent(l1),
        l1.to_multiset() == l2.to_multiset(),
    ensures
        total_of(l1) == total_of(l2),
{
    broadcast use vstd::seq_lib::group_to_multiset_ensures;

    let sizes = sizes_of(l1);
    lemma_consistent_sizes(l1);
    assert(sizes_consistent(l2, sizes)) by {
        assert forall|i: int| 0 <= i < l2.len() implies keyed_ok(#[trigger] l2[i], sizes) by {
            assert(l2.contains(l2[i]));
            assert(l2.to_multiset().count(l2[i]) > 0);
            assert(l1.contains(l2[i]));
            let j = choose|j: int| 0 <= j < l1.len() && l1[j] == l2[i];
            assert(keyed_ok(l1[j], sizes));
        }
    }
    lemma_total_closed_form(l1, sizes);
    lemma_total_closed_form(l2, sizes);
    lemma_components_permutation(l1, l2);
}

/// **Hardlink idempotence**: once a dedup key has been seen, a further
/// sighting of the same key — however many hard links reference the file —
/// adds nothing to the total.
pub proof fn lemma_hardlink_counted_once(msgs: Seq<Message>, unique_id: UniqueID, size: u64)
    requires
        seen_of(msgs).contains(unique_id),
    ensures
        total_of(msgs.push(Message::SizeEntry(Some(unique_id), size))) == total_of(msgs),
{
    lemma_run_state_snoc(initial_state(), msgs, Message::SizeEntry(Some(unique_id), size));
}

/// **No dedup for ordinary entries**: a size message without a dedup key —
/// a directory, a symlink, or a regular file with a single hard link —
/// always adds its full size to the total, equal sizes notwithstanding.
pub proof fn lemma_unkeyed_always_counts(msgs: Seq<Message>, size: u64)
    ensures
        total_of(msgs.push(Message::SizeEntry(None, size))) == total_of(msgs) + size,
{
    lemma_run_state_snoc(initial_state(), msgs, Message::SizeEntry(None, size));
}

/// A one-entry forest produces that entry's stream.
proof fn lemma_forest_singleton(t: FsTree, filesize_type: FilesizeType)
    ensures
        forest_messages(seq![t], filesize_type) == node_messages(t, filesize_type),
{
    assert(seq![t].drop_last() =~= Seq::<FsTree>::empty());
    assert(forest_messages(seq![t].drop_last(), filesize_type) == Seq::<Message>::empty());
    assert(seq![t].last() == t);
    assert(Seq::<Message>::empty() + node_messages(t, filesize_type) =~= node_messages(
        t,
        filesize_type,
    ));
}

/// A forest's stream splits at any boundary.
proof fn lemma_forest_concat(a: Seq<FsTree>, b: Seq<FsTree>, filesize_type: FilesizeType)
    ensures
        forest_messages(a + b, filesize_type) == forest_messages(a, filesize_type)
            + forest_messages(b, filesize_type),
    decreases b.len(),
{
    if b.len() == 0 {
        assert(a + b =~= a);
        assert(forest_messages(b, filesize_type) == Seq::<Message>::empty());
        assert(forest_messages(a, filesize_type) + Seq::<Message>::empty() =~= forest_messages(
            a,
            filesize_type,
        ));
    } else {
        lemma_forest_concat(a, b.drop_last(), filesize_type);
        assert((a + b).drop_last() =~= a + b.drop_last());
        assert((a + b).last() == b.last());
        assert((forest_messages(a, filesize_type) + forest_messages(b.drop_last(), filesize_type))
            + node_messages(b.last(), filesize_type) =~= forest_messages(a, filesize_type) + (
        forest_messages(b.drop_last(), filesize_type) + node_messages(b.last(), filesize_type)));
    }
}

/// A forest's stream is: everything before the k-th entry, the k-th
/// entry's own stream, everything after — in that order.
proof fn lemma_forest_split(ts: Seq<FsTree>, filesize_type: FilesizeType, k: int)
    requires
        0 <= k < ts.len(),
    ensures
        forest_messages(ts, filesize_type) == forest_messages(ts.take(k), filesize_type)
            + node_messages(ts[k], filesize_type) + forest_messages(
            ts.subrange(k + 1, ts.len() as int),
            filesize_type,
        ),
{
    let after = ts.subrange(k + 1, ts.len() as int);
    assert(ts =~= (ts.take(k) + seq![ts[k]]) + after);
    lemma_forest_concat(ts.take(k) + seq![ts[k]], after, filesize_type);
    lemma_forest_concat(ts.take(k), seq![ts[k]], filesize_type);
    lemma_forest_singleton(ts[k], filesize_type);
}

/// Entries that record no errors of their own make an error-free forest.
proof fn lemma_forest_errors_empty(ts: Seq<FsTree>, filesize_type: FilesizeType)
    requires
        forall|j: int|
            0 <= j < ts.len() ==> errors_of(node_messages(#[trigger] ts[j], filesize_type))
                == Seq::<Error>::empty(),
    ensures
        errors_of(forest_messages(ts, filesize_type)) == Seq::<Error>::empty(),
    decreases ts.len(),
{
    if ts.len() == 0 {
        assert(forest_messages(ts, filesize_type) == Seq::<Message>::empty());
    } else {
        let pre = ts.drop_last();
        assert(forall|j: int|
            0 <= j < pre.len() ==> errors_of(node_messages(#[trigger] pre[j], filesize_type))
                == Seq::<Error>::empty());
        lemma_forest_errors_empty(pre, filesize_type);
        lemma_errors_concat(
            forest_messages(pre, filesize_type),
            node_messages(ts.last(), filesize_type),
        );
        assert(ts[ts.len() - 1] == ts.last());
        assert(Seq::<Error>::empty() + Seq::<Error>::empty() =~= Seq::<Error>::empty());
    }
}

/// A directory whose metadata succeeded but whose listing failed produces
/// exactly its own size message and one `CouldNotReadDir` error: it is
/// charged its own size once its metadata succeeded, independent of
/// listing success, and contributes zero children.
pub proof fn lemma_unreadable_dir_messages(t: FsTree, filesize_type: FilesizeType)
    requires
        t.meta is Some,
        t.meta->0.is_dir,
        t.children is None,
    ensures
        node_messages(t, filesize_type) == seq![
            entry_message(t.meta->0, filesize_type),
            Message::Error { error: Error::CouldNotReadDir(t.path) },
        ],
        errors_of(node_messages(t, filesize_type)) == seq![Error::CouldNotReadDir(t.path)],
{
    let own = entry_message(t.meta->0, filesize_type);
    let err = Message::Error { error: Error::CouldNotReadDir(t.path) };
    assert(seq![own].push(err) =~= seq![own, err]);
    lemma_errors_concat(seq![own], seq![err]);
    assert(seq![own] + seq![err] =~= seq![own, err]);
    assert(seq![own].drop_last() =~= Seq::<Message>::empty());
    assert(errors_of(seq![own]) == Seq::<Error>::empty());
    assert(seq![err].drop_last() =~= Seq::<Message>::empty());
    assert(errors_of(seq![err].drop_last()) == Seq::<Error>::empty());
    assert(errors_of(seq![err]) =~= seq![Error::CouldNotReadDir(t.path)]);
    assert(Seq::<Error>::empty() + seq![Error::CouldNotReadDir(t.path)] =~= seq![
        Error::CouldNotReadDir(t.path),
    ]);
}

/// **Partial failure isolation**: in a readable directory whose `k`-th
/// child is a directory that could not be listed, every other child still
/// contributes its complete message stream unchanged; the failed child
/// contributes its own size message and exactly one error; and when the
/// other children record no errors of their own, the whole directory's
/// error list is exactly that one `CouldNotReadDir` record.
pub proof fn lemma_partial_failure_isolation(t: FsTree, filesize_type: FilesizeType, k: int)
    requires
        t.meta is Some,
        t.meta->0.is_dir,
        t.children is Some,
        0 <= k < t.children->0@.len(),
        t.children->0@[k].meta is Some,
        t.children->0@[k].meta->0.is_dir,
        t.children->0@[k].children is None,
        forall|j: int|
            0 <= j < t.children->0@.len() && j != k ==> errors_of(
                node_messages(#[trigger] t.children->0@[j], filesize_type),
            ) == Seq::<Error>::empty(),
    ensures
        node_messages(t, filesize_type) == seq![entry_message(t.meta->0, filesize_type)]
            + forest_messages(t.children->0@.take(k), filesize_type) + seq![
            entry_message(t.children->0@[k].meta->0, filesize_type),
            Message::Error { error: Error::CouldNotReadDir(t.children->0@[k].path) },
        ] + forest_messages(
            t.children->0@.subrange(k + 1, t.children->0@.len() as int),
            filesize_type,
        ),
        errors_of(node_messages(t, filesize_type)) == seq![
            Error::CouldNotReadDir(t.children->0@[k].path),
        ],
        total_of(node_messages(t, filesize_type)) == total_of(
            seq![entry_message(t.meta->0, filesize_type)] + forest_messages(
                t.children->0@.take(k),
                filesize_type,
            ) + seq![entry_message(t.children->0@[k].meta->0, filesize_type)] + forest_messages(
                t.children->0@.subrange(k + 1, t.children->0@.len() as int),
                filesize_type,
            ),
        ),
{
    let cs = t.children->0@;
    let own = seq![entry_message(t.meta->0, filesize_type)];
    lemma_forest_split(cs, filesize_type, k);
    lemma_unreadable_dir_messages(cs[k], filesize_type);
    let before = forest_messages(cs.take(k), filesize_type);
    let after = forest_messages(cs.subrange(k + 1, cs.len() as int), filesize_type);
    let failed = node_messages(cs[k], filesize_type);
    assert(node_messages(t, filesize_type) == own + (before + failed + after));
    assert(own + (before + failed + after) =~= own + before + failed + after);
    // the error list collapses to the one record
    assert(forall|j: int|
        0 <= j < cs.take(k).len() ==> errors_of(
            node_messages(#[trigger] cs.take(k)[j], filesize_type),
        ) == Seq::<Error>::empty());
    lemma_forest_errors_empty(cs.take(k), filesize_type);
    assert(forall|j: int|
        0 <= j < cs.subrange(k + 1, cs.len() as int).len() ==> errors_of(
            node_messages(#[trigger] cs.subrange(k + 1, cs.len() as int)[j], filesize_type),
        ) == Seq::<Error>::empty());
    lemma_forest_errors_empty(cs.subrange(k + 1, cs.len() as int), filesize_type);
    lemma_errors_concat(own + before + failed, after);
    lemma_errors_concat(own + before, failed);
    lemma_errors_concat(own, before);
    assert(own.drop_last() =~= Seq::<Message>::empty());
    assert(run_state(initial_state(), own.drop_last()) == initial_state());
    assert(errors_of(own) == Seq::<Error>::empty());
    assert(Seq::<Error>::empty() + Seq::<Error>::empty() =~= Seq::<Error>::empty());
    assert(Seq::<Error>::empty() + seq![Error::CouldNotReadDir(cs[k].path)] =~= seq![
        Error::CouldNotReadDir(cs[k].path),
    ]);
    assert(seq![Error::CouldNotReadDir(cs[k].path)] + Seq::<Error>::empty() =~= seq![
        Error::CouldNotReadDir(cs[k].path),
    ]);
    // without the error message the total is unchanged: the unreadable
    // directory is charged exactly like a readable one with no children
    let child_own = seq![entry_message(cs[k].meta->0, filesize_type)];
    let err = Error::CouldNotReadDir(cs[k].path);
    assert(failed =~= child_own.push(Message::Error { error: err }));
    assert(own + before + failed + after =~= (own + before + child_own) + seq![
        Message::Error { error: err },
    ] + after);
    lemma_error_message_isolated(own + before + child_own, after, err);
    assert(own + before + child_own + after =~= (own + before + child_own) + after);
}

/// **Missing-entry isolation**: an entry whose metadata lookup failed —
/// a root that does not exist, or one that disappeared between listing and
/// lookup — produces exactly one `NoMetadataForPath` error and no size
/// message; the other entries aggregate to exactly the total and seen keys
/// they would reach with the missing entry absent.
pub proof fn lemma_missing_entry_isolation(ts: Seq<FsTree>, filesize_type: FilesizeType, k: int)
    requires
        0 <= k < ts.len(),
        ts[k].meta is None,
    ensures
        node_messages(ts[k], filesize_type) == seq![
            Message::Error { error: Error::NoMetadataForPath(ts[k].path) },
        ],
        total_of(forest_messages(ts, filesize_type)) == total_of(
            forest_messages(ts.remove(k), filesize_type),
        ),
        seen_of(forest_messages(ts, filesize_type)) == seen_of(
            forest_messages(ts.remove(k), filesize_type),
        ),
        errors_of(forest_messages(ts, filesize_type)) == errors_of(
            forest_messages(ts.take(k), filesize_type),
        ).push(Error::NoMetadataForPath(ts[k].path)) + errors_of(
            forest_messages(ts.subrange(k + 1, ts.len() as int), filesize_type),
        ),
{
    let error = Error::NoMetadataForPath(ts[k].path);
    let before = forest_messages(ts.take(k), filesize_type);
    let after = forest_messages(ts.subrange(k + 1, ts.len() as int), filesize_type);
    lemma_forest_split(ts, filesize_type, k);
    assert(node_messages(ts[k], filesize_type) == seq![Message::Error { error }]);
    lemma_error_message_isolated(before, after, error);
    assert(ts.remove(k) =~= ts.take(k) + ts.subrange(k + 1, ts.len() as int));
    lemma_forest_concat(ts.take(k), ts.subrange(k + 1, ts.len() as int), filesize_type);
    assert(forest_messages(ts, filesize_type) == before + seq![Message::Error { error }] + after);
}

/// **Empty root**: an empty directory produces its own size message alone,
/// and so aggregates to exactly its own reported size, with no errors.
pub proof fn lemma_empty_root(t: FsTree, filesize_type: FilesizeType)
    requires
        t.meta is Some,
        t.meta->0.is_dir,
        t.children is Some,
        t.children->0@.len() == 0,
    ensures
        node_messages(t, filesize_type) == seq![entry_message(t.meta->0, filesize_type)],
        total_of(node_messages(t, filesize_type)) == filesize_type.spec_size(t.meta->0),
        errors_of(node_messages(t, filesize_type)) == Seq::<Error>::empty(),
{
    let own = seq![entry_message(t.meta->0, filesize_type)];
    assert(forest_messages(t.children->0@, filesize_type) == Seq::<Message>::empty());
    assert(own + Seq::<Message>::empty() =~= own);
    assert(own.drop_last() =~= Seq::<Message>::empty());
    assert(run_state(initial_state(), own.drop_last()) == initial_state());
    assert(run_state(initial_state(), own) == step_state(initial_state(), own.last()));
}

/// **Thread-count irrelevance**: the message stream — and with it the
/// total and the error list the run contract promises — is a function of
/// the roots and the size policy alone; the configured worker count never
/// enters it.
pub proof fn lemma_thread_count_irrelevant(a: Walk, b: Walk)
    requires
        a.root_directories == b.root_directories,
        a.filesize_type == b.filesize_type,
    ensures
        a.messages() == b.messages(),
{
}

} // verus!
