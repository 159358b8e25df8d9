//! The search for input devices, step by step.

use vstd::prelude::*;

use crate::entry::{Entry, EntryMap};
use crate::interceptor::{DeviceFacts, DeviceInfo};
use crate::io_error::{is_disappearance, is_interruption, IoError, EINTR};
use crate::path::is_event_filename;
use crate::pathset::PathSet;

verus! {

/// Where the nodes of input devices are.
pub const INPUT_PATH: &'static str = "/dev/input";

/// A directory with other names of input devices.
#[derive(Clone, Copy, Debug, PartialEq, Eq, Structural)]
pub enum AliasDirectory {
    ById,
    ByPath,
}

impl AliasDirectory {
    /// The path of the directory.
    pub fn path(self) -> (path: &'static str)
        ensures
            path@ == match self {
                AliasDirectory::ById => "/dev/input/by-id"@,
                AliasDirectory::ByPath => "/dev/input/by-path"@,
            },
    {
        match self {
            AliasDirectory::ById => "/dev/input/by-id",
            AliasDirectory::ByPath => "/dev/input/by-path",
        }
    }
}

/// What a search found at a node.
#[derive(Debug)]
pub enum Snapshot {
    /// A device, and whether the policy allows it to be taken over.
    Candidate { info: DeviceInfo, aliases: PathSet, eligible: bool },
    /// A node that is already owned.
    Owned { path: Vec<u8>, aliases: PathSet },
}

/// What a [`Snapshot`] holds.
#[verifier::ext_equal]
pub enum SnapshotView {
    Candidate { info: DeviceFacts, aliases: Seq<Seq<u8>>, eligible: bool },
    Owned { path: Seq<u8>, aliases: Seq<Seq<u8>> },
}

impl View for Snapshot {
    type V = SnapshotView;

    open spec fn view(&self) -> SnapshotView {
        match self {
            Snapshot::Candidate { info, aliases, eligible } => SnapshotView::Candidate {
                info: info@,
                aliases: aliases@,
                eligible: *eligible,
            },
            Snapshot::Owned { path, aliases } => SnapshotView::Owned {
                path: path@,
                aliases: aliases@,
            },
        }
    }
}

impl SnapshotView {
    /// The snapshot with one more name.
    pub open spec fn with_alias(self, alias: Seq<u8>) -> SnapshotView {
        match self {
            SnapshotView::Candidate { info, aliases, eligible } => SnapshotView::Candidate {
                info,
                aliases: crate::pathset::with_path(aliases, alias),
                eligible,
            },
            SnapshotView::Owned { path, aliases } => SnapshotView::Owned {
                path,
                aliases: crate::pathset::with_path(aliases, alias),
            },
        }
    }

    /// The path of the node.
    pub open spec fn path(self) -> Seq<u8> {
        match self {
            SnapshotView::Candidate { info, .. } => info.path,
            SnapshotView::Owned { path, .. } => path,
        }
    }
}

impl Snapshot {
    /// Adds a name.
    fn add_alias(self, alias: Vec<u8>) -> (snapshot: Snapshot)
        ensures
            snapshot@ == self@.with_alias(alias@),
    {
        match self {
            Snapshot::Candidate { info, aliases, eligible } => {
                let mut aliases = aliases;
                aliases.insert(alias);
                Snapshot::Candidate { info, aliases, eligible }
            },
            Snapshot::Owned { path, aliases } => {
                let mut aliases = aliases;
                aliases.insert(alias);
                Snapshot::Owned { path, aliases }
            },
        }
    }

    /// The path of the node.
    pub fn path(&self) -> (path: &Vec<u8>)
        ensures
            path@ == self@.path(),
    {
        match self {
            Snapshot::Candidate { info, .. } => info.path(),
            Snapshot::Owned { path, .. } => path,
        }
    }
}

/// What has to be done next in a search.
#[derive(Debug)]
pub enum ScanStep {
    /// Open the directory of the nodes.
    OpenNodes,
    /// Get the path of the next node.
    NextNode,
    /// Resolve the path of a node.
    ResolveNode { path: Vec<u8> },
    /// Identify a node.
    IdentifyNode { path: Vec<u8> },
    /// Ask whether a node is already owned.
    CheckNode { path: Vec<u8>, entry: Entry },
    /// Inspect the device of a node and ask the policy about it.
    InspectNode { path: Vec<u8>, entry: Entry, again: bool },
    /// Open a directory of other names.
    OpenAliases { directory: AliasDirectory },
    /// Get the path of the next name.
    NextAlias { directory: AliasDirectory },
    /// Resolve a name.
    ResolveAlias { directory: AliasDirectory, alias: Vec<u8> },
    /// Identify the node that a name leads to.
    IdentifyAlias { directory: AliasDirectory, alias: Vec<u8>, path: Vec<u8> },
    /// The search is over.
    Done,
}

/// What a [`ScanStep`] is.
#[verifier::ext_equal]
pub enum ScanStepView {
    OpenNodes,
    NextNode,
    ResolveNode { path: Seq<u8> },
    IdentifyNode { path: Seq<u8> },
    CheckNode { path: Seq<u8>, entry: Entry },
    InspectNode { path: Seq<u8>, entry: Entry, again: bool },
    OpenAliases { directory: AliasDirectory },
    NextAlias { directory: AliasDirectory },
    ResolveAlias { directory: AliasDirectory, alias: Seq<u8> },
    IdentifyAlias { directory: AliasDirectory, alias: Seq<u8>, path: Seq<u8> },
    Done,
}

impl View for ScanStep {
    type V = ScanStepView;

    open spec fn view(&self) -> ScanStepView {
        match self {
            ScanStep::OpenNodes => ScanStepView::OpenNodes,
            ScanStep::NextNode => ScanStepView::NextNode,
            ScanStep::ResolveNode { path } => ScanStepView::ResolveNode { path: path@ },
            ScanStep::IdentifyNode { path } => ScanStepView::IdentifyNode { path: path@ },
            ScanStep::CheckNode { path, entry } => ScanStepView::CheckNode {
                path: path@,
                entry: *entry,
            },
            ScanStep::InspectNode { path, entry, again } => ScanStepView::InspectNode {
                path: path@,
                entry: *entry,
                again: *again,
            },
            ScanStep::OpenAliases { directory } => ScanStepView::OpenAliases {
                directory: *directory,
            },
            ScanStep::NextAlias { directory } => ScanStepView::NextAlias { directory: *directory },
            ScanStep::ResolveAlias { directory, alias } => ScanStepView::ResolveAlias {
                directory: *directory,
                alias: alias@,
            },
            ScanStep::IdentifyAlias { directory, alias, path } => ScanStepView::IdentifyAlias {
                directory: *directory,
                alias: alias@,
                path: path@,
            },
            ScanStep::Done => ScanStepView::Done,
        }
    }
}

/// How a step went.
#[derive(Debug)]
pub enum ScanReply {
    Opened(Result<(), IoError>),
    /// The next path of a directory, until there is none.
    Next(Result<Option<Vec<u8>>, IoError>),
    Resolved(Result<Vec<u8>, IoError>),
    Identified(Result<Entry, IoError>),
    Owned(bool),
    /// The device was inspected, and the policy allows it or does not.
    Inspected(Result<(DeviceInfo, bool), IoError>),
}

impl ScanReply {
    /// The error of a step that failed.
    pub open spec fn error(self) -> Option<IoError> {
        match self {
            ScanReply::Opened(Err(err)) => Some(err),
            ScanReply::Next(Err(err)) => Some(err),
            ScanReply::Resolved(Err(err)) => Some(err),
            ScanReply::Identified(Err(err)) => Some(err),
            ScanReply::Inspected(Err(err)) => Some(err),
            _ => None,
        }
    }
}

/// Whether a reply answers a step.
pub open spec fn answers(step: ScanStepView, reply: ScanReply) -> bool {
    match step {
        ScanStepView::OpenNodes | ScanStepView::OpenAliases { .. } => reply is Opened,
        ScanStepView::NextNode | ScanStepView::NextAlias { .. } => reply is Next,
        ScanStepView::ResolveNode { .. } | ScanStepView::ResolveAlias { .. } => reply is Resolved,
        ScanStepView::IdentifyNode { .. }
        | ScanStepView::IdentifyAlias { .. } => reply is Identified,
        ScanStepView::CheckNode { .. } => reply is Owned,
        ScanStepView::InspectNode { .. } => reply is Inspected,
        ScanStepView::Done => false,
    }
}

/// Whether a step failed in a way that ends the search. What has just disappeared is passed over,
/// as is a device that cannot be inspected.
pub open spec fn is_fatal(step: ScanStepView, reply: ScanReply) -> bool {
    match reply.error() {
        None => false,
        Some(err) => match step {
            ScanStepView::OpenNodes => true,
            ScanStepView::NextNode | ScanStepView::NextAlias { .. } => !err.has_code(EINTR),
            ScanStepView::InspectNode { .. } => false,
            _ => !err.disappeared(),
        },
    }
}

/// The step after a directory of other names.
pub open spec fn after_directory(directory: AliasDirectory) -> ScanStepView {
    match directory {
        AliasDirectory::ById => ScanStepView::OpenAliases { directory: AliasDirectory::ByPath },
        AliasDirectory::ByPath => ScanStepView::Done,
    }
}

/// The state of a search.
#[verifier::ext_equal]
pub struct ScanView {
    pub step: ScanStepView,
    pub snapshots: Map<Entry, SnapshotView>,
}

impl ScanView {
    /// The state after a step that did not end the search by failing.
    pub open spec fn after(self, reply: ScanReply) -> ScanView {
        match (self.step, reply) {
            (ScanStepView::OpenNodes, _) => ScanView { step: ScanStepView::NextNode, ..self },
            (ScanStepView::NextNode, ScanReply::Next(Ok(None))) => ScanView {
                step: ScanStepView::OpenAliases { directory: AliasDirectory::ById },
                ..self
            },
            (ScanStepView::NextNode, ScanReply::Next(Ok(Some(path)))) => ScanView {
                step: if crate::path::names_event(path@) {
                    ScanStepView::ResolveNode { path: path@ }
                } else {
                    ScanStepView::NextNode
                },
                ..self
            },
            (ScanStepView::NextNode, _) => self,
            (ScanStepView::ResolveNode { .. }, ScanReply::Resolved(Ok(path))) => ScanView {
                step: ScanStepView::IdentifyNode { path: path@ },
                ..self
            },
            (ScanStepView::IdentifyNode { path }, ScanReply::Identified(Ok(entry))) => ScanView {
                step: ScanStepView::CheckNode { path, entry },
                ..self
            },
            (ScanStepView::CheckNode { path, entry }, ScanReply::Owned(true)) => ScanView {
                step: ScanStepView::NextNode,
                snapshots: if self.snapshots.contains_key(entry) {
                    self.snapshots
                } else {
                    self.snapshots.insert(
                        entry,
                        SnapshotView::Owned { path, aliases: seq![] },
                    )
                },
            },
            (ScanStepView::CheckNode { path, entry }, _) => ScanView {
                step: ScanStepView::InspectNode { path, entry, again: false },
                ..self
            },
            (
                ScanStepView::InspectNode { entry, .. },
                ScanReply::Inspected(Ok((info, eligible))),
            ) => ScanView {
                step: ScanStepView::NextNode,
                snapshots: self.snapshots.insert(
                    entry,
                    SnapshotView::Candidate { info: info@, aliases: seq![], eligible },
                ),
            },
            (
                ScanStepView::InspectNode { path, entry, again: false },
                ScanReply::Inspected(Err(err)),
            ) if err.has_code(EINTR) => ScanView {
                step: ScanStepView::InspectNode { path, entry, again: true },
                ..self
            },
            (ScanStepView::OpenAliases { directory }, ScanReply::Opened(Ok(_))) => ScanView {
                step: ScanStepView::NextAlias { directory },
                ..self
            },
            (ScanStepView::OpenAliases { directory }, _) => ScanView {
                step: after_directory(directory),
                ..self
            },
            (ScanStepView::NextAlias { directory }, ScanReply::Next(Ok(None))) => ScanView {
                step: after_directory(directory),
                ..self
            },
            (ScanStepView::NextAlias { directory }, ScanReply::Next(Ok(Some(alias)))) => ScanView {
                step: ScanStepView::ResolveAlias { directory, alias: alias@ },
                ..self
            },
            (ScanStepView::NextAlias { .. }, _) => self,
            (
                ScanStepView::ResolveAlias { directory, alias },
                ScanReply::Resolved(Ok(path)),
            ) => ScanView {
                step: if crate::path::names_event(path@) {
                    ScanStepView::IdentifyAlias { directory, alias, path: path@ }
                } else {
                    ScanStepView::NextAlias { directory }
                },
                ..self
            },
            (ScanStepView::ResolveAlias { directory, .. }, _) => ScanView {
                step: ScanStepView::NextAlias { directory },
                ..self
            },
            (
                ScanStepView::IdentifyAlias { directory, alias, .. },
                ScanReply::Identified(Ok(entry)),
            ) => ScanView {
                step: ScanStepView::NextAlias { directory },
                snapshots: if self.snapshots.contains_key(entry) {
                    self.snapshots.insert(entry, self.snapshots[entry].with_alias(alias))
                } else {
                    self.snapshots
                },
            },
            (ScanStepView::IdentifyAlias { directory, .. }, _) => ScanView {
                step: ScanStepView::NextAlias { directory },
                ..self
            },
            _ => ScanView { step: ScanStepView::NextNode, ..self },
        }
    }
}

/// What the snapshots of a table hold.
pub open spec fn snapshot_views(snapshots: Map<Entry, Snapshot>) -> Map<Entry, SnapshotView> {
    snapshots.map_values(|snapshot: Snapshot| snapshot@)
}

/// A search for input devices.
pub struct Scan {
    step: ScanStep,
    snapshots: EntryMap<Snapshot>,
}

impl View for Scan {
    type V = ScanView;

    closed spec fn view(&self) -> ScanView {
        ScanView { step: self.step@, snapshots: snapshot_views(self.snapshots@) }
    }
}

impl Scan {
    pub fn new() -> (scan: Scan)
        ensures
            scan@ == (ScanView { step: ScanStepView::OpenNodes, snapshots: Map::empty() }),
    {
        let scan = Scan { step: ScanStep::OpenNodes, snapshots: EntryMap::new() };
        assert(snapshot_views(scan.snapshots@) =~= Map::<Entry, SnapshotView>::empty());
        scan
    }

    /// What has to be done next.
    pub fn step(&self) -> (step: &ScanStep)
        ensures
            step@ == self@.step,
    {
        &self.step
    }

    /// What was found.
    pub fn into_snapshots(self) -> (snapshots: EntryMap<Snapshot>)
        ensures
            snapshot_views(snapshots@) == self@.snapshots,
    {
        self.snapshots
    }

    fn next_directory(directory: AliasDirectory) -> (step: ScanStep)
        ensures
            step@ == after_directory(directory),
    {
        match directory {
            AliasDirectory::ById => ScanStep::OpenAliases { directory: AliasDirectory::ByPath },
            AliasDirectory::ByPath => ScanStep::Done,
        }
    }

    fn insert(&mut self, entry: Entry, snapshot: Snapshot)
        ensures
            final(self)@ == (ScanView {
                snapshots: old(self)@.snapshots.insert(entry, snapshot@),
                ..old(self)@
            }),
    {
        self.snapshots.insert(entry, snapshot);
        proof {
            assert(self@.snapshots =~= old(self)@.snapshots.insert(entry, snapshot@));
        }
    }

    /// Records a node that is already owned.
    fn add_owned(&mut self, entry: Entry, path: Vec<u8>)
        ensures
            final(self)@ == (ScanView {
                snapshots: if old(self)@.snapshots.contains_key(entry) {
                    old(self)@.snapshots
                } else {
                    old(self)@.snapshots.insert(
                        entry,
                        SnapshotView::Owned { path: path@, aliases: seq![] },
                    )
                },
                ..old(self)@
            }),
    {
        if self.snapshots.get(entry).is_none() {
            self.insert(entry, Snapshot::Owned { path, aliases: PathSet::new() });
        }
    }

    /// Records another name of a node that was found.
    fn add_alias(&mut self, entry: Entry, alias: Vec<u8>)
        ensures
            final(self)@ == (ScanView {
                snapshots: if old(self)@.snapshots.contains_key(entry) {
                    old(self)@.snapshots.insert(
                        entry,
                        old(self)@.snapshots[entry].with_alias(alias@),
                    )
                } else {
                    old(self)@.snapshots
                },
                ..old(self)@
            }),
    {
        let ghost before = self.snapshots@;
        if let Some(snapshot) = self.snapshots.remove(entry) {
            let snapshot = snapshot.add_alias(alias);
            self.insert(entry, snapshot);
        }
        proof {
            assert(snapshot_views(before.remove(entry)) =~= snapshot_views(before).remove(entry));
            assert(self@.snapshots =~= if old(self)@.snapshots.contains_key(entry) {
                old(self)@.snapshots.insert(entry, old(self)@.snapshots[entry].with_alias(alias@))
            } else {
                old(self)@.snapshots
            });
        }
    }

    /// Takes how the current step went, and goes on to the next one or fails.
    pub fn advance(&mut self, reply: ScanReply) -> (result: Result<(), IoError>)
        requires
            answers(old(self)@.step, reply),
        ensures
            match result {
                Ok(_) => !is_fatal(old(self)@.step, reply) && final(self)@ == old(self)@.after(
                    reply,
                ),
                Err(err) => is_fatal(old(self)@.step, reply) && reply.error() == Some(err)
                    && final(self)@.snapshots == old(self)@.snapshots,
            },
    {
        let mut step = ScanStep::Done;
        std::mem::swap(&mut step, &mut self.step);
        assert(self.snapshots == old(self).snapshots);
        self.step = match (step, reply) {
            (ScanStep::OpenNodes, ScanReply::Opened(opened)) => match opened {
                Ok(_) => ScanStep::NextNode,
                Err(err) => {
                    return Err(err);
                },
            },
            (ScanStep::NextNode, ScanReply::Next(next)) => match next {
                Ok(None) => ScanStep::OpenAliases { directory: AliasDirectory::ById },
                Ok(Some(path)) => {
                    if is_event_filename(path.as_slice()) {
                        ScanStep::ResolveNode { path }
                    } else {
                        ScanStep::NextNode
                    }
                },
                Err(err) => {
                    if !is_interruption(&err) {
                        return Err(err);
                    }
                    ScanStep::NextNode
                },
            },
            (ScanStep::ResolveNode { .. }, ScanReply::Resolved(resolved)) => match resolved {
                Ok(path) => ScanStep::IdentifyNode { path },
                Err(err) => {
                    if !is_disappearance(&err) {
                        return Err(err);
                    }
                    ScanStep::NextNode
                },
            },
            (ScanStep::IdentifyNode { path }, ScanReply::Identified(identified)) =>
            match identified {
                Ok(entry) => ScanStep::CheckNode { path, entry },
                Err(err) => {
                    if !is_disappearance(&err) {
                        return Err(err);
                    }
                    ScanStep::NextNode
                },
            },
            (ScanStep::CheckNode { path, entry }, ScanReply::Owned(owned)) => {
                if owned {
                    self.add_owned(entry, path);
                    ScanStep::NextNode
                } else {
                    ScanStep::InspectNode { path, entry, again: false }
                }
            },
            (ScanStep::InspectNode { path, entry, again }, ScanReply::Inspected(inspected)) =>
            match inspected {
                Ok((info, eligible)) => {
                    self.insert(
                        entry,
                        Snapshot::Candidate { info, aliases: PathSet::new(), eligible },
                    );
                    ScanStep::NextNode
                },
                Err(err) => {
                    if !again && is_interruption(&err) {
                        ScanStep::InspectNode { path, entry, again: true }
                    } else {
                        ScanStep::NextNode
                    }
                },
            },
            (ScanStep::OpenAliases { directory }, ScanReply::Opened(opened)) => match opened {
                Ok(_) => ScanStep::NextAlias { directory },
                Err(err) => {
                    if !is_disappearance(&err) {
                        return Err(err);
                    }
                    Scan::next_directory(directory)
                },
            },
            (ScanStep::NextAlias { directory }, ScanReply::Next(next)) => match next {
                Ok(None) => Scan::next_directory(directory),
                Ok(Some(alias)) => ScanStep::ResolveAlias { directory, alias },
                Err(err) => {
                    if !is_interruption(&err) {
                        return Err(err);
                    }
                    ScanStep::NextAlias { directory }
                },
            },
            (ScanStep::ResolveAlias { directory, alias }, ScanReply::Resolved(resolved)) =>
            match resolved {
                Ok(path) => {
                    if is_event_filename(path.as_slice()) {
                        ScanStep::IdentifyAlias { directory, alias, path }
                    } else {
                        ScanStep::NextAlias { directory }
                    }
                },
                Err(err) => {
                    if !is_disappearance(&err) {
                        return Err(err);
                    }
                    ScanStep::NextAlias { directory }
                },
            },
            (ScanStep::IdentifyAlias { directory, alias, .. }, ScanReply::Identified(identified)) =>
            match identified {
                Ok(entry) => {
                    self.add_alias(entry, alias);
                    ScanStep::NextAlias { directory }
                },
                Err(err) => {
                    if !is_disappearance(&err) {
                        return Err(err);
                    }
                    ScanStep::NextAlias { directory }
                },
            },
            _ => {
                assert(false);
                ScanStep::Done
            },
        };
        Ok(())
    }
}

/// Whether a step is about the other names of nodes.
pub open spec fn is_alias_step(step: ScanStepView) -> bool {
    step is OpenAliases || step is NextAlias || step is ResolveAlias || step is IdentifyAlias || step
        is Done
}

/// Names only add to what was found: once the nodes are searched, no node is added or dropped, and
/// each stays the device that it is.
pub proof fn names_add_no_devices(scan: ScanView, reply: ScanReply, entry: Entry)
    requires
        answers(scan.step, reply),
        is_alias_step(scan.step),
    ensures
        is_alias_step(scan.after(reply).step),
        scan.after(reply).snapshots.dom() == scan.snapshots.dom(),
        scan.snapshots.contains_key(entry) ==> scan.after(reply).snapshots[entry].path()
            == scan.snapshots[entry].path() && (scan.after(reply).snapshots[entry] is Owned)
            == (scan.snapshots[entry] is Owned),
{
    assert(scan.after(reply).snapshots.dom() =~= scan.snapshots.dom());
}

} // verus!
