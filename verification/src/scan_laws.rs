//! What a search finds: the devices, and the names of each.

use vstd::prelude::*;

use crate::entry::Entry;
use crate::io_error::{IoError, EINTR};
use crate::scan::{AliasDirectory, ScanReply, ScanStepView, ScanView, SnapshotView};

verus! {

/// The names of a node that was found.
pub open spec fn names_of(snapshot: SnapshotView) -> Seq<Seq<u8>> {
    match snapshot {
        SnapshotView::Candidate { aliases, .. } => aliases,
        SnapshotView::Owned { aliases, .. } => aliases,
    }
}

/// Whether two nodes that were found differ in nothing but their names.
pub open spec fn same_node(one: SnapshotView, other: SnapshotView) -> bool {
    match (one, other) {
        (
            SnapshotView::Candidate { info: left, eligible: allowed, .. },
            SnapshotView::Candidate { info: right, eligible, .. },
        ) => left == right && allowed == eligible,
        (
            SnapshotView::Owned { path: left, .. },
            SnapshotView::Owned { path: right, .. },
        ) => left == right,
        _ => false,
    }
}

/// Whether some names are those of before and one more, which is among them.
pub open spec fn has_one_more(before: Seq<Seq<u8>>, after: Seq<Seq<u8>>, name: Seq<u8>) -> bool {
    &&& forall|path: Seq<u8>| #[trigger] before.contains(path) ==> after.contains(path)
    &&& forall|path: Seq<u8>| #[trigger] after.contains(path) ==> before.contains(path) || path
        == name
    &&& exists|path: Seq<u8>| #[trigger]
        after.contains(path) && crate::path::components_of(path) == crate::path::components_of(name)
}

/// A path that is put among others is among them afterwards, by its components. All that were there
/// still are, and nothing else is.
pub proof fn paths_are_kept(paths: Seq<Seq<u8>>, name: Seq<u8>)
    ensures
        has_one_more(paths, crate::pathset::with_path(paths, name), name),
    decreases paths.len(),
{
    let after = crate::pathset::with_path(paths, name);
    if paths.len() == 0 {
        assert(after[0] == name);
        assert(after.contains(name));
    } else if crate::pathset::same_path(paths[0], name) {
        assert(after.contains(paths[0]));
    } else if crate::path::path_before(name, paths[0]) {
        assert(after[0] == name);
        assert(after.contains(name));
        assert forall|path: Seq<u8>| #[trigger] paths.contains(path) implies after.contains(path) by {
            let at = choose|at: int| 0 <= at < paths.len() && paths[at] == path;
            assert(after[at + 1] == path);
        }
        assert forall|path: Seq<u8>| #[trigger] after.contains(path) implies paths.contains(path)
            || path == name by {
            let at = choose|at: int| 0 <= at < after.len() && after[at] == path;
            if at > 0 {
                assert(paths[at - 1] == path);
            }
        }
    } else {
        let rest = paths.drop_first();
        let longer = crate::pathset::with_path(rest, name);
        paths_are_kept(rest, name);
        assert forall|path: Seq<u8>| #[trigger] longer.contains(path) implies after.contains(path) by {
            let at = choose|at: int| 0 <= at < longer.len() && longer[at] == path;
            assert(after[at + 1] == path);
        }
        assert forall|path: Seq<u8>| #[trigger] paths.contains(path) implies after.contains(path) by {
            let at = choose|at: int| 0 <= at < paths.len() && paths[at] == path;
            if at == 0 {
                assert(after[0] == path);
            } else {
                assert(rest[at - 1] == path);
                assert(rest.contains(path));
                assert(longer.contains(path));
            }
        }
        assert forall|path: Seq<u8>| #[trigger] after.contains(path) implies paths.contains(path)
            || path == name by {
            let at = choose|at: int| 0 <= at < after.len() && after[at] == path;
            if at == 0 {
                assert(paths[0] == path);
            } else {
                assert(longer[at - 1] == path);
                assert(longer.contains(path));
                if rest.contains(path) {
                    let to = choose|to: int| 0 <= to < rest.len() && rest[to] == path;
                    assert(paths[to + 1] == path);
                }
            }
        }
        let path = choose|path: Seq<u8>| #[trigger]
            longer.contains(path) && crate::path::components_of(path)
                == crate::path::components_of(name);
        assert(after.contains(path));
    }
}

/// Whether a reply tells which node a name leads to.
pub open spec fn tells(step: ScanStepView, reply: ScanReply, name: Seq<u8>, entry: Entry) -> bool {
    &&& step matches ScanStepView::IdentifyAlias { alias, .. } && alias == name
    &&& reply == ScanReply::Identified(Ok::<Entry, IoError>(entry))
}

/// A name that leads to a node that was found, in either directory, is among the names of that node
/// afterwards, with all that were there. No other node changes, and of the node nothing else does.
pub proof fn names_are_kept(scan: ScanView, reply: ScanReply, name: Seq<u8>, entry: Entry)
    requires
        tells(scan.step, reply, name, entry),
    ensures
        forall|other: Entry| #[trigger]
            scan.after(reply).snapshots.contains_key(other) == scan.snapshots.contains_key(other),
        scan.snapshots.contains_key(entry) ==> has_one_more(
            names_of(scan.snapshots[entry]),
            names_of(scan.after(reply).snapshots[entry]),
            name,
        ) && same_node(scan.snapshots[entry], scan.after(reply).snapshots[entry]),
        forall|other: Entry| #[trigger]
            scan.snapshots.contains_key(other) && other != entry
                ==> scan.after(reply).snapshots[other] == scan.snapshots[other],
{
    if scan.snapshots.contains_key(entry) {
        paths_are_kept(names_of(scan.snapshots[entry]), name);
    }
}

/// Whether a reply tells that a node is a device, and what it is.
pub open spec fn finds(
    step: ScanStepView,
    reply: ScanReply,
    entry: Entry,
    found: SnapshotView,
) -> bool {
    ||| (step matches ScanStepView::InspectNode { entry: node, .. } && node == entry) && (
    reply matches ScanReply::Inspected(Ok((info, eligible))) && found
        == (SnapshotView::Candidate { info: info@, aliases: seq![], eligible }))
    ||| (step matches ScanStepView::CheckNode { path, entry: node } && node == entry && found
        == (SnapshotView::Owned { path, aliases: seq![] })) && reply == ScanReply::Owned(true)
}

/// A node that is inspected is found as the device that it is, with the decision of the policy, and
/// one that is owned is found as such, unless it was found before. Nothing else adds a node, takes
/// one away or changes one, but that a name is added.
pub proof fn nodes_are_found(scan: ScanView, reply: ScanReply, entry: Entry, found: SnapshotView)
    requires
        crate::scan::answers(scan.step, reply),
    ensures
        finds(scan.step, reply, entry, found) ==> {
            &&& scan.after(reply).snapshots.contains_key(entry)
            &&& scan.after(reply).snapshots[entry] == if found is Owned
                && scan.snapshots.contains_key(entry) {
                scan.snapshots[entry]
            } else {
                found
            }
        },
        scan.after(reply).snapshots.contains_key(entry) && !scan.snapshots.contains_key(entry)
            ==> finds(scan.step, reply, entry, scan.after(reply).snapshots[entry]),
        scan.snapshots.contains_key(entry) ==> scan.after(reply).snapshots.contains_key(entry),
        scan.snapshots.contains_key(entry) && scan.after(reply).snapshots[entry]
            != scan.snapshots[entry] ==> finds(
            scan.step,
            reply,
            entry,
            scan.after(reply).snapshots[entry],
        ) || exists|name: Seq<u8>| tells(scan.step, reply, name, entry),
{
    if let ScanStepView::IdentifyAlias { alias, .. } = scan.step {
        if let ScanReply::Identified(Ok(node)) = reply {
            if node == entry {
                assert(tells(scan.step, reply, alias, entry));
            }
        }
    }
}

/// The way of a node through the search: its name is read, it is resolved, identified and checked,
/// and what is not owned is inspected, once more if that was interrupted. Then the next one is read.
pub proof fn every_node_is_looked_at(scan: ScanView, reply: ScanReply)
    requires
        crate::scan::answers(scan.step, reply),
        !crate::scan::is_fatal(scan.step, reply),
    ensures
        scan.step is OpenNodes ==> scan.after(reply).step is NextNode,
        scan.step is NextNode ==> match reply {
            ScanReply::Next(Ok(Some(path))) => if crate::path::names_event(path@) {
                scan.after(reply).step == (ScanStepView::ResolveNode { path: path@ })
            } else {
                scan.after(reply).step is NextNode
            },
            ScanReply::Next(Ok(None)) => scan.after(reply).step == (ScanStepView::OpenAliases {
                directory: AliasDirectory::ById,
            }),
            _ => scan.after(reply).step is NextNode,
        },
        scan.step is ResolveNode ==> match reply {
            ScanReply::Resolved(Ok(path)) => scan.after(reply).step
                == (ScanStepView::IdentifyNode { path: path@ }),
            _ => scan.after(reply).step is NextNode,
        },
        scan.step matches ScanStepView::IdentifyNode { path } ==> match reply {
            ScanReply::Identified(Ok(entry)) => scan.after(reply).step
                == (ScanStepView::CheckNode { path, entry }),
            _ => scan.after(reply).step is NextNode,
        },
        scan.step matches ScanStepView::CheckNode { path, entry } ==> scan.after(reply).step
            == if reply == ScanReply::Owned(true) {
            ScanStepView::NextNode
        } else {
            ScanStepView::InspectNode { path, entry, again: false }
        },
        scan.step matches ScanStepView::InspectNode { path, entry, again } ==> match reply {
            ScanReply::Inspected(Err(err)) => scan.after(reply).step == if !again && err.os_code
                == Some(EINTR) {
                ScanStepView::InspectNode { path, entry, again: true }
            } else {
                ScanStepView::NextNode
            },
            _ => scan.after(reply).step is NextNode,
        },
{
}

/// The way of a name through the search: in both directories, each name that is read is resolved,
/// and what it leads to is identified where that is an event node by its name. Then the next one is
/// read. The search is over after the second directory.
pub proof fn every_name_is_looked_at(scan: ScanView, reply: ScanReply)
    requires
        crate::scan::answers(scan.step, reply),
        !crate::scan::is_fatal(scan.step, reply),
    ensures
        scan.step matches ScanStepView::OpenAliases { directory } ==> scan.after(reply).step == if (
        reply matches ScanReply::Opened(Ok(_))) {
            ScanStepView::NextAlias { directory }
        } else if directory == AliasDirectory::ById {
            ScanStepView::OpenAliases { directory: AliasDirectory::ByPath }
        } else {
            ScanStepView::Done
        },
        scan.step matches ScanStepView::NextAlias { directory } ==> match reply {
            ScanReply::Next(Ok(Some(name))) => scan.after(reply).step
                == (ScanStepView::ResolveAlias { directory, alias: name@ }),
            ScanReply::Next(Ok(None)) => scan.after(reply).step == if directory
                == AliasDirectory::ById {
                ScanStepView::OpenAliases { directory: AliasDirectory::ByPath }
            } else {
                ScanStepView::Done
            },
            _ => scan.after(reply).step == (ScanStepView::NextAlias { directory }),
        },
        scan.step matches ScanStepView::ResolveAlias { directory, alias } ==> match reply {
            ScanReply::Resolved(Ok(path)) => scan.after(reply).step == if crate::path::names_event(
                path@,
            ) {
                ScanStepView::IdentifyAlias { directory, alias, path: path@ }
            } else {
                ScanStepView::NextAlias { directory }
            },
            _ => scan.after(reply).step == (ScanStepView::NextAlias { directory }),
        },
        scan.step matches ScanStepView::IdentifyAlias { directory, .. } ==> scan.after(reply).step
            == (ScanStepView::NextAlias { directory }),
{
}

/// The error of a reply.
pub open spec fn failure_of(reply: ScanReply) -> Option<IoError> {
    match reply {
        ScanReply::Opened(Err(err)) => Some(err),
        ScanReply::Next(Err(err)) => Some(err),
        ScanReply::Resolved(Err(err)) => Some(err),
        ScanReply::Identified(Err(err)) => Some(err),
        ScanReply::Inspected(Err(err)) => Some(err),
        _ => None,
    }
}

/// A search fails only on an error, and not on every one: reading on after an interruption, passing
/// over what has just gone, and over devices that cannot be inspected. Without the directory of the
/// nodes there is no search.
pub proof fn searches_fail_on_real_errors(step: ScanStepView, reply: ScanReply)
    requires
        crate::scan::answers(step, reply),
    ensures
        reply.error() == failure_of(reply),
        failure_of(reply) is None ==> !crate::scan::is_fatal(step, reply),
        failure_of(reply) matches Some(err) ==> {
            &&& step is OpenNodes ==> crate::scan::is_fatal(step, reply)
            &&& step is InspectNode ==> !crate::scan::is_fatal(step, reply)
            &&& step is NextNode || step is NextAlias ==> crate::scan::is_fatal(step, reply) == (
            err.os_code != Some(EINTR))
            &&& step is ResolveNode || step is IdentifyNode || step is OpenAliases || step
                is ResolveAlias || step is IdentifyAlias ==> crate::scan::is_fatal(step, reply)
                == !err.disappeared()
        },
{
}

/// The state of a search after some replies.
pub open spec fn searched(scan: ScanView, replies: Seq<ScanReply>) -> ScanView
    decreases replies.len(),
{
    if replies.len() == 0 {
        scan
    } else {
        searched(scan, replies.drop_last()).after(replies.last())
    }
}

/// Whether each reply of a search answers its step, and none ends it by failing.
pub open spec fn is_search(scan: ScanView, replies: Seq<ScanReply>) -> bool {
    forall|at: int| #![trigger replies[at]]
        0 <= at < replies.len() ==> crate::scan::answers(
            searched(scan, replies.take(at)).step,
            replies[at],
        ) && !crate::scan::is_fatal(searched(scan, replies.take(at)).step, replies[at])
}

/// Whether a reply of a search tells that a name leads to a node.
pub open spec fn told(
    scan: ScanView,
    replies: Seq<ScanReply>,
    at: int,
    name: Seq<u8>,
    entry: Entry,
) -> bool {
    tells(searched(scan, replies.take(at)).step, replies[at], name, entry)
}

spec fn is_name_step(step: ScanStepView) -> bool {
    step is OpenAliases || step is NextAlias || step is ResolveAlias || step is IdentifyAlias || step
        is Done
}

/// Over a whole search, the names of a node are exactly those that were read and lead to it, by
/// their components: each name that leads to it is there, and each that is there leads to it.
pub proof fn nodes_have_the_names_that_lead_to_them(
    scan: ScanView,
    replies: Seq<ScanReply>,
    entry: Entry,
    name: Seq<u8>,
)
    requires
        scan.step is OpenNodes,
        scan.snapshots == Map::<Entry, SnapshotView>::empty(),
        is_search(scan, replies),
        searched(scan, replies).snapshots.contains_key(entry),
    ensures
        ({
            let names = names_of(searched(scan, replies).snapshots[entry]);
            &&& names.contains(name) ==> exists|at: int|
                0 <= at < replies.len() && #[trigger] told(scan, replies, at, name, entry)
            &&& (exists|at: int|
                0 <= at < replies.len() && #[trigger] told(scan, replies, at, name, entry)) ==> (
            exists|path: Seq<u8>| #[trigger]
                names.contains(path) && crate::path::components_of(path)
                    == crate::path::components_of(name))
        }),
{
    lemma_search(scan, replies, entry, name);
}

spec fn has_like(names: Seq<Seq<u8>>, name: Seq<u8>) -> bool {
    exists|path: Seq<u8>| #[trigger]
        names.contains(path) && crate::path::components_of(path) == crate::path::components_of(name)
}

proof fn lemma_step(scan: ScanView, reply: ScanReply, entry: Entry, name: Seq<u8>)
    requires
        crate::scan::answers(scan.step, reply),
    ensures
        ({
            let after = scan.after(reply);
            let names = names_of(scan.snapshots[entry]);
            let later = names_of(after.snapshots[entry]);
            &&& is_name_step(scan.step) ==> is_name_step(after.step)
            &&& is_name_step(scan.step) ==> after.snapshots.contains_key(entry)
                == scan.snapshots.contains_key(entry)
            &&& is_name_step(scan.step) && scan.snapshots.contains_key(entry) && has_like(
                names,
                name,
            ) ==> has_like(later, name)
            &&& !is_name_step(scan.step) && (scan.snapshots.contains_key(entry) ==> names.len()
                == 0) && after.snapshots.contains_key(entry) ==> later.len() == 0
            &&& is_name_step(scan.step) && scan.snapshots.contains_key(entry) && later.contains(name)
                ==> names.contains(name) || tells(scan.step, reply, name, entry)
            &&& scan.snapshots.contains_key(entry) && tells(scan.step, reply, name, entry)
                ==> has_like(later, name)
        }),
{
    let after = scan.after(reply);
    let names = names_of(scan.snapshots[entry]);
    let later = names_of(after.snapshots[entry]);
    if let ScanStepView::IdentifyAlias { alias, .. } = scan.step {
        if let ScanReply::Identified(Ok(node)) = reply {
            names_are_kept(scan, reply, alias, node);
            if scan.snapshots.contains_key(entry) && node == entry && has_like(names, name) {
                let path = choose|path: Seq<u8>| #[trigger]
                    names.contains(path) && crate::path::components_of(path)
                        == crate::path::components_of(name);
                assert(later.contains(path));
            }
        }
    }
}

spec fn was_told(scan: ScanView, replies: Seq<ScanReply>, name: Seq<u8>, entry: Entry) -> bool {
    exists|at: int| 0 <= at < replies.len() && #[trigger] told(scan, replies, at, name, entry)
}

proof fn lemma_told_once_more(
    scan: ScanView,
    replies: Seq<ScanReply>,
    name: Seq<u8>,
    entry: Entry,
)
    requires
        replies.len() > 0,
    ensures
        was_told(scan, replies, name, entry) == (was_told(
            scan,
            replies.drop_last(),
            name,
            entry,
        ) || tells(searched(scan, replies.drop_last()).step, replies.last(), name, entry)),
{
    let shorter = replies.drop_last();
    let last = replies.len() - 1;
    assert(replies.take(last) =~= shorter);
    assert forall|at: int| 0 <= at < last implies #[trigger] told(scan, replies, at, name, entry)
        == told(scan, shorter, at, name, entry) by {
        assert(shorter.take(at) =~= replies.take(at));
    }
    if was_told(scan, shorter, name, entry) {
        let at = choose|at: int|
            0 <= at < shorter.len() && #[trigger] told(scan, shorter, at, name, entry);
        assert(told(scan, replies, at, name, entry));
    }
    if was_told(scan, replies, name, entry) {
        let at = choose|at: int|
            0 <= at < replies.len() && #[trigger] told(scan, replies, at, name, entry);
        if at < last {
            assert(told(scan, shorter, at, name, entry));
        }
    }
    if tells(searched(scan, shorter).step, replies.last(), name, entry) {
        assert(told(scan, replies, last, name, entry));
    }
}

proof fn lemma_search(scan: ScanView, replies: Seq<ScanReply>, entry: Entry, name: Seq<u8>)
    requires
        scan.step is OpenNodes,
        scan.snapshots == Map::<Entry, SnapshotView>::empty(),
        is_search(scan, replies),
    ensures
        ({
            let end = searched(scan, replies);
            let names = names_of(end.snapshots[entry]);
            let is_told = was_told(scan, replies, name, entry);
            &&& !is_name_step(end.step) ==> !is_told
            &&& !is_name_step(end.step) && end.snapshots.contains_key(entry) ==> names.len() == 0
            &&& end.snapshots.contains_key(entry) && names.contains(name) ==> is_told
            &&& end.snapshots.contains_key(entry) && is_told ==> has_like(names, name)
        }),
    decreases replies.len(),
{
    if replies.len() > 0 {
        let shorter = replies.drop_last();
        let last = replies.len() - 1;
        let before = searched(scan, shorter);
        assert(replies.take(last) =~= shorter);
        assert(is_search(scan, shorter)) by {
            assert forall|at: int| #![trigger shorter[at]] 0 <= at < shorter.len() implies
                crate::scan::answers(searched(scan, shorter.take(at)).step, shorter[at])
                && !crate::scan::is_fatal(searched(scan, shorter.take(at)).step, shorter[at]) by {
                assert(shorter.take(at) =~= replies.take(at));
                assert(shorter[at] == replies[at]);
            }
        }
        lemma_search(scan, shorter, entry, name);
        assert(crate::scan::answers(before.step, replies[last]));
        lemma_told_once_more(scan, replies, name, entry);
        lemma_follows(before, replies[last], entry, name);
    }
}

proof fn lemma_follows(before: ScanView, reply: ScanReply, entry: Entry, name: Seq<u8>)
    requires
        crate::scan::answers(before.step, reply),
        !is_name_step(before.step) && before.snapshots.contains_key(entry) ==> names_of(
            before.snapshots[entry],
        ).len() == 0,
    ensures
        ({
            let after = before.after(reply);
            let names = names_of(before.snapshots[entry]);
            let later = names_of(after.snapshots[entry]);
            &&& !is_name_step(after.step) ==> !is_name_step(before.step) && !tells(
                before.step,
                reply,
                name,
                entry,
            )
            &&& !is_name_step(before.step) && after.snapshots.contains_key(entry) ==> later.len()
                == 0 && !later.contains(name)
            &&& !is_name_step(before.step) ==> !tells(before.step, reply, name, entry)
            &&& is_name_step(before.step) && after.snapshots.contains_key(entry)
                ==> before.snapshots.contains_key(entry)
            &&& is_name_step(before.step) && after.snapshots.contains_key(entry)
                && later.contains(name) ==> names.contains(name) || tells(
                before.step,
                reply,
                name,
                entry,
            )
            &&& is_name_step(before.step) && after.snapshots.contains_key(entry) && (has_like(
                names,
                name,
            ) || tells(before.step, reply, name, entry)) ==> has_like(later, name)
        }),
{
    lemma_step(before, reply, entry, name);
}

} // verus!
