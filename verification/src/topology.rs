//! Groups of a node and connections between them.

use vstd::prelude::*;

use crate::addr::{Addr, GroupNo, NodeNo};

verus! {

/// The topology describes actor groups and their connections.
#[derive(Debug)]
pub struct Topology {
    pub locals: Vec<LocalActorGroup>,
    pub remotes: Vec<RemoteActorGroup>,
    pub connections: Vec<Connection>,
}

/// Represents a local group's metadata.
#[derive(Debug)]
pub struct LocalActorGroup {
    pub addr: Addr,
    pub name: String,
    pub is_entrypoint: bool,
}

/// Represents a remote group's metadata.
#[derive(Debug)]
pub struct RemoteActorGroup {
    pub name: String,
    pub nodes: Vec<RemoteNodes>,
}

/// Nodes of a remote group that a local one is connected to.
#[derive(Debug)]
pub struct RemoteNodes {
    pub local_group: GroupNo,
    /// Every node is here at most once.
    pub handles: Vec<(NodeNo, Addr)>,
}

/// Represents a connection between two groups.
#[derive(Debug)]
pub struct Connection {
    /// A source group's address.
    pub from: Addr,
    /// A destination group.
    pub to: ConnectionTo,
}

/// The second end of a connection.
#[derive(Debug)]
pub enum ConnectionTo {
    /// An address of a local group.
    Local(Addr),
    /// A name of a remote group.
    Remote(String),
}

impl ConnectionTo {
    /// Returns a name of the remote group.
    pub fn into_remote(self) -> (res: Option<String>)
        ensures
            res == (match self {
                ConnectionTo::Local(_) => None,
                ConnectionTo::Remote(name) => Some(name),
            }),
    {
        match self {
            ConnectionTo::Local(_) => None,
            ConnectionTo::Remote(name) => Some(name),
        }
    }
}

/// Why a group cannot be declared.
#[derive(Debug, Clone, Copy, PartialEq, Eq, Structural)]
pub enum DeclareError {
    NameIsTaken,
    TooManyGroups,
}

/// The greatest number of local groups: zero is reserved for `system.init`, the
/// maximum one for null addresses.
pub const MAX_LOCALS: usize = 254;

/// A local group that is being configured.
#[derive(Debug)]
pub struct Local {
    pub addr: Addr,
    pub group_no: GroupNo,
    pub name: String,
}

impl Local {
    pub fn addr(&self) -> (addr: Addr)
        ensures
            addr == self.addr,
    {
        self.addr
    }

    /// Adds the group to those who get a message if the filter accepts it.
    pub fn accept(&self, is_accepted: bool, addrs: &mut Vec<Addr>)
        ensures
            final(addrs)@ == (if is_accepted {
                old(addrs)@.push(self.addr)
            } else {
                old(addrs)@
            }),
    {
        if is_accepted {
            addrs.push(self.addr);
        }
    }

    /// Adds the group to those who get a message whatever it is.
    pub fn accept_all(&self, addrs: &mut Vec<Addr>)
        ensures
            final(addrs)@ == old(addrs)@.push(self.addr),
    {
        addrs.push(self.addr);
    }
}

/// A remote group that is being configured.
#[derive(Debug)]
pub struct Remote {
    pub name: String,
}

/// Where messages can be routed to.
pub trait Destination {
    /// The end of connections to the destination.
    spec fn is_endpoint(&self, to: ConnectionTo) -> bool;

    fn connection_endpoint(&self) -> (to: ConnectionTo)
        ensures
            self.is_endpoint(to),
    ;

    /// Whether the destination belongs to the topology.
    spec fn is_declared(&self, topology: &Topology) -> bool;

    /// Whether `after` is ready to route messages of the local group.
    spec fn is_extended(&self, local_group: GroupNo, before: Topology, after: Topology) -> bool;

    /// Prepares the topology to route messages of the local group.
    fn extend_demux(&self, local_group: GroupNo, topology: &mut Topology)
        requires
            old(topology).wf(),
            self.is_declared(old(topology)),
        ensures
            final(topology).wf(),
            final(topology).locals == old(topology).locals,
            final(topology).connections == old(topology).connections,
            self.is_extended(local_group, *old(topology), *final(topology)),
    ;
}

impl Destination for Local {
    open spec fn is_endpoint(&self, to: ConnectionTo) -> bool {
        to == ConnectionTo::Local(self.addr)
    }

    fn connection_endpoint(&self) -> (to: ConnectionTo) {
        ConnectionTo::Local(self.addr)
    }

    open spec fn is_declared(&self, topology: &Topology) -> bool {
        true
    }

    open spec fn is_extended(&self, local_group: GroupNo, before: Topology, after: Topology) -> bool {
        after == before
    }

    fn extend_demux(&self, local_group: GroupNo, topology: &mut Topology) {
    }
}

impl Destination for Remote {
    open spec fn is_endpoint(&self, to: ConnectionTo) -> bool {
        to == ConnectionTo::Remote(self.name)
    }

    fn connection_endpoint(&self) -> (to: ConnectionTo) {
        ConnectionTo::Remote(self.name.clone())
    }

    open spec fn is_declared(&self, topology: &Topology) -> bool {
        topology.has_remote(self.name@)
    }

    open spec fn is_extended(&self, local_group: GroupNo, before: Topology, after: Topology) -> bool {
        &&& after.remotes.len() == before.remotes.len()
        &&& forall|i: int|
            #![trigger after.remotes[i]]
            0 <= i < before.remotes.len() ==> if before.remotes[i].name@ == self.name@ {
                before.remotes[i].connected(local_group, after.remotes[i])
            } else {
                after.remotes[i] == before.remotes[i]
            }
    }

    fn extend_demux(&self, local_group: GroupNo, topology: &mut Topology) {
        let i: usize = topology.find_remote(self.name.as_str()).unwrap();
        let ghost before = topology.remotes@;
        topology.remotes[i].connect(local_group);
        proof {
            assert forall|a: int, b: int| 0 <= a < b < topology.remotes.len() implies (
            #[trigger] topology.remotes[a]).name@ != (#[trigger] topology.remotes[b]).name@ by {
                assert(old(topology).remotes[a].name@ != old(topology).remotes[b].name@);
            }
            assert forall|a: int| 0 <= a < topology.remotes.len() implies (
            #[trigger] topology.remotes[a]).wf() by {
                if a != i {
                    assert(topology.remotes[a] == old(topology).remotes[a]);
                }
            }
        }
    }
}

impl Topology {
    /// Names of groups are different.
    pub open spec fn wf(&self) -> bool {
        &&& forall|i: int| 0 <= i < self.remotes.len() ==> (#[trigger] self.remotes[i]).wf()
        &&& self.locals.len() <= MAX_LOCALS
        &&& forall|i: int, j: int|
            0 <= i < j < self.locals.len() ==> (#[trigger] self.locals[i]).name@ != (
            #[trigger] self.locals[j]).name@
        &&& forall|i: int, j: int|
            0 <= i < j < self.remotes.len() ==> (#[trigger] self.remotes[i]).name@ != (
            #[trigger] self.remotes[j]).name@
    }

    pub open spec fn has_local(&self, name: Seq<char>) -> bool {
        exists|i: int| 0 <= i < self.locals.len() && (#[trigger] self.locals[i]).name@ == name
    }

    pub open spec fn has_remote(&self, name: Seq<char>) -> bool {
        exists|i: int| 0 <= i < self.remotes.len() && (#[trigger] self.remotes[i]).name@ == name
    }

    /// Creates a new empty topology.
    pub fn empty() -> (this: Topology)
        ensures
            this.wf(),
            this.locals.len() == 0,
            this.remotes.len() == 0,
            this.connections.len() == 0,
    {
        Topology { locals: Vec::new(), remotes: Vec::new(), connections: Vec::new() }
    }

    /// Checks whether a new local group can be declared, returns its number.
    pub fn check_local(&self, name: &str) -> (res: Result<GroupNo, DeclareError>)
        requires
            self.wf(),
        ensures
            res == (if self.has_local(name@) {
                Err::<GroupNo, DeclareError>(DeclareError::NameIsTaken)
            } else if self.locals.len() == MAX_LOCALS {
                Err::<GroupNo, DeclareError>(DeclareError::TooManyGroups)
            } else {
                Ok::<GroupNo, DeclareError>((self.locals.len() + 1) as u8)
            }),
    {
        if self.find_local(name).is_some() {
            return Err(DeclareError::NameIsTaken);
        }
        if self.locals.len() == MAX_LOCALS {
            return Err(DeclareError::TooManyGroups);
        }
        Ok((self.locals.len() + 1) as u8)
    }

    fn find_local(&self, name: &str) -> (res: Option<usize>)
        ensures
            res is Some <==> self.has_local(name@),
            res matches Some(i) ==> i < self.locals.len() && self.locals[i as int].name@ == name@,
    {
        let owned: String = name.to_owned();
        let mut i: usize = 0;
        while i < self.locals.len()
            invariant
                i <= self.locals.len(),
                owned@ == name@,
                forall|k: int| 0 <= k < i ==> (#[trigger] self.locals[k]).name@ != name@,
            decreases self.locals.len() - i,
        {
            if self.locals[i].name == owned {
                return Some(i);
            }
            i += 1;
        }
        None
    }

    /// Declares a new local group with the address of a vacant place.
    pub fn local(&mut self, name: String, vacant: Addr) -> (local: Local)
        requires
            old(self).wf(),
            !old(self).has_local(name@),
            old(self).locals.len() < MAX_LOCALS,
        ensures
            final(self).wf(),
            local.addr == vacant,
            local.group_no == final(self).locals.len(),
            local.name == name,
            final(self).locals.len() == old(self).locals.len() + 1,
            final(self).locals@.drop_last() == old(self).locals@,
            final(self).locals@.last().addr == vacant,
            final(self).locals@.last().name == name,
            !final(self).locals@.last().is_entrypoint,
            final(self).remotes == old(self).remotes,
            final(self).connections == old(self).connections,
    {
        let ghost before = self.locals@;
        let group_no: u8 = (self.locals.len() + 1) as u8;
        self.locals.push(
            LocalActorGroup { addr: vacant, name: name.clone(), is_entrypoint: false },
        );
        proof {
            assert(self.locals@.drop_last() =~= before);
            assert forall|i: int, j: int| 0 <= i < j < self.locals.len() implies (
            #[trigger] self.locals[i]).name@ != (#[trigger] self.locals[j]).name@ by {
                assert(self.locals[i] == before[i]);
                assert(old(self).locals[i] == before[i]);
                if j < before.len() {
                    assert(self.locals[j] == before[j]);
                    assert(old(self).locals[j] == before[j]);
                }
            }
        }
        Local { addr: vacant, group_no, name }
    }

    /// Marks the first group with the address as an entrypoint.
    pub fn entrypoint(&mut self, local: &Local) -> (is_found: bool)
        requires
            old(self).wf(),
        ensures
            final(self).wf(),
            is_found == exists|i: int|
                0 <= i < old(self).locals.len() && (#[trigger] old(self).locals[i]).addr
                    == local.addr,
            final(self).locals.len() == old(self).locals.len(),
            final(self).connections == old(self).connections,
            final(self).remotes == old(self).remotes,
            is_found ==> exists|i: int|
                {
                    &&& 0 <= i < old(self).locals.len()
                    &&& (#[trigger] old(self).locals[i]).addr == local.addr
                    &&& forall|j: int|
                        0 <= j < i ==> (#[trigger] old(self).locals[j]).addr != local.addr
                    &&& final(self).locals@ == old(self).locals@.update(
                        i,
                        LocalActorGroup { is_entrypoint: true, ..old(self).locals[i] },
                    )
                },
            !is_found ==> *final(self) == *old(self),
    {
        let mut i: usize = 0;
        while i < self.locals.len()
            invariant
                i <= self.locals.len(),
                *self == *old(self),
                self.wf(),
                forall|j: int| 0 <= j < i ==> (#[trigger] old(self).locals[j]).addr != local.addr,
            decreases self.locals.len() - i,
        {
            if self.locals[i].addr == local.addr {
                let ghost before = self.locals@;
                self.locals[i].is_entrypoint = true;
                proof {
                    assert(self.locals@ =~= before.update(
                        i as int,
                        LocalActorGroup { is_entrypoint: true, ..before[i as int] },
                    ));
                    assert(old(self).locals[i as int].addr == local.addr);
                    assert forall|a: int, b: int| 0 <= a < b < self.locals.len() implies (
                    #[trigger] self.locals[a]).name@ != (#[trigger] self.locals[b]).name@ by {
                        assert(old(self).locals[a].name@ != old(self).locals[b].name@);
                    }
                }
                return true;
            }
            i += 1;
        }
        false
    }

    /// Connects a local group to the destination.
    pub fn route_to<T: Destination>(&mut self, local: &Local, dest: &T)
        requires
            old(self).wf(),
            dest.is_declared(old(self)),
        ensures
            final(self).wf(),
            final(self).locals == old(self).locals,
            dest.is_extended(
                local.group_no,
                *old(self),
                (Topology { connections: old(self).connections, ..*final(self) }),
            ),
            final(self).connections.len() == old(self).connections.len() + 1,
            final(self).connections@.drop_last() == old(self).connections@,
            final(self).connections@.last().from == local.addr,
            dest.is_endpoint(final(self).connections@.last().to),
    {
        dest.extend_demux(local.group_no, self);
        self.connections.push(Connection { from: local.addr, to: dest.connection_endpoint() });
        assert(self.connections@.drop_last() =~= old(self).connections@);
    }

    /// Returns all local groups.
    pub fn locals(&self) -> (locals: &Vec<LocalActorGroup>)
        ensures
            *locals == self.locals,
    {
        &self.locals
    }

    /// Returns all connections.
    pub fn connections(&self) -> (connections: &Vec<Connection>)
        ensures
            *connections == self.connections,
    {
        &self.connections
    }

    /// Returns all remote groups.
    pub fn remotes(&self) -> (remotes: &Vec<RemoteActorGroup>)
        ensures
            *remotes == self.remotes,
    {
        &self.remotes
    }

    /// Declares a new remote group.
    pub fn remote(&mut self, name: String) -> (remote: Remote)
        requires
            old(self).wf(),
            !old(self).has_remote(name@),
        ensures
            final(self).wf(),
            remote.name == name,
            final(self).remotes.len() == old(self).remotes.len() + 1,
            final(self).remotes@.drop_last() == old(self).remotes@,
            final(self).remotes@.last().name == name,
            final(self).remotes@.last().nodes.len() == 0,
            final(self).locals == old(self).locals,
            final(self).connections == old(self).connections,
    {
        let ghost before = self.remotes@;
        self.remotes.push(RemoteActorGroup { name: name.clone(), nodes: Vec::new() });
        proof {
            assert(self.remotes@.drop_last() =~= before);
            assert forall|i: int, j: int| 0 <= i < j < self.remotes.len() implies (
            #[trigger] self.remotes[i]).name@ != (#[trigger] self.remotes[j]).name@ by {
                assert(self.remotes[i] == before[i]);
                assert(old(self).remotes[i] == before[i]);
                if j < before.len() {
                    assert(self.remotes[j] == before[j]);
                    assert(old(self).remotes[j] == before[j]);
                }
            }
        }
        Remote { name }
    }

    /// Finds a remote group by its name.
    pub fn find_remote(&self, name: &str) -> (res: Option<usize>)
        ensures
            res is Some <==> self.has_remote(name@),
            res matches Some(i) ==> i < self.remotes.len() && self.remotes[i as int].name@ == name@,
    {
        let owned: String = name.to_owned();
        let mut i: usize = 0;
        while i < self.remotes.len()
            invariant
                i <= self.remotes.len(),
                owned@ == name@,
                forall|k: int| 0 <= k < i ==> (#[trigger] self.remotes[k]).name@ != name@,
            decreases self.remotes.len() - i,
        {
            if self.remotes[i].name == owned {
                return Some(i);
            }
            i += 1;
        }
        None
    }

    /// Addresses of groups that must be started first.
    pub fn entrypoints(&self) -> (addrs: Vec<Addr>)
        ensures
            addrs@ == entrypoints_of(self.locals@),
    {
        let mut addrs: Vec<Addr> = Vec::new();
        let mut i: usize = 0;
        assert(self.locals@.take(0).len() == 0);
        while i < self.locals.len()
            invariant
                i <= self.locals.len(),
                addrs@ == entrypoints_of(self.locals@.take(i as int)),
            decreases self.locals.len() - i,
        {
            let ghost next = self.locals@.take(i + 1);
            assert(next.drop_last() =~= self.locals@.take(i as int));
            assert(next.last() == self.locals@[i as int]);
            if self.locals[i].is_entrypoint {
                addrs.push(self.locals[i].addr);
            }
            i += 1;
        }
        assert(self.locals@.take(i as int) =~= self.locals@);
        addrs
    }
}

/// Addresses of entrypoints, in order of declaration.
pub open spec fn entrypoints_of(groups: Seq<LocalActorGroup>) -> Seq<Addr>
    decreases groups.len(),
{
    if groups.len() == 0 {
        Seq::empty()
    } else {
        let rest = entrypoints_of(groups.drop_last());
        if groups.last().is_entrypoint {
            rest.push(groups.last().addr)
        } else {
            rest
        }
    }
}

// === Remote nodes ===

/// Specifies which nodes will get a message.
#[derive(Debug)]
pub enum Outcome {
    /// Routes a message to a node with the specified number.
    Unicast(NodeNo),
    /// Routes a message to all nodes with specified numbers.
    Multicast(Vec<NodeNo>),
    /// Routes a message to all known nodes.
    Broadcast,
    /// Discards a message.
    Discard,
}

/// The handle of a node.
pub open spec fn handle_of(handles: Seq<(NodeNo, Addr)>, node_no: NodeNo) -> Option<Addr>
    decreases handles.len(),
{
    if handles.len() == 0 {
        None
    } else if handles.last().0 == node_no {
        Some(handles.last().1)
    } else {
        handle_of(handles.drop_last(), node_no)
    }
}

/// Handles of known nodes, in the order of numbers.
pub open spec fn handles_of(handles: Seq<(NodeNo, Addr)>, node_nos: Seq<NodeNo>) -> Seq<Addr>
    decreases node_nos.len(),
{
    if node_nos.len() == 0 {
        Seq::empty()
    } else {
        let rest = handles_of(handles, node_nos.drop_last());
        match handle_of(handles, node_nos.last()) {
            Some(addr) => rest.push(addr),
            None => rest,
        }
    }
}

impl RemoteNodes {
    pub open spec fn wf(&self) -> bool {
        forall|i: int, j: int|
            0 <= i < j < self.handles.len() ==> (#[trigger] self.handles[i]).0 != (
            #[trigger] self.handles[j]).0
    }

    pub fn new(local_group: GroupNo) -> (this: RemoteNodes)
        ensures
            this.wf(),
            this.local_group == local_group,
            this.handles.len() == 0,
    {
        RemoteNodes { local_group, handles: Vec::new() }
    }

    pub fn get(&self, node_no: NodeNo) -> (res: Option<Addr>)
        ensures
            res == handle_of(self.handles@, node_no),
    {
        let mut i: usize = self.handles.len();
        assert(self.handles@.take(i as int) =~= self.handles@);
        while i > 0
            invariant
                i <= self.handles.len(),
                handle_of(self.handles@, node_no) == handle_of(
                    self.handles@.take(i as int),
                    node_no,
                ),
            decreases i,
        {
            i -= 1;
            let ghost rest = self.handles@.take(i + 1);
            assert(rest.drop_last() =~= self.handles@.take(i as int));
            assert(rest.last() == self.handles@[i as int]);
            if self.handles[i].0 == node_no {
                return Some(self.handles[i].1);
            }
        }
        None
    }

    /// Sets the handle of a node.
    pub fn register(&mut self, node_no: NodeNo, handle: Addr)
        requires
            old(self).wf(),
        ensures
            final(self).wf(),
            final(self).local_group == old(self).local_group,
            forall|other: NodeNo| #[trigger]
                handle_of(final(self).handles@, other) == (if other == node_no {
                    Some(handle)
                } else {
                    handle_of(old(self).handles@, other)
                }),
    {
        let mut i: usize = 0;
        while i < self.handles.len()
            invariant
                i <= self.handles.len(),
                *self == *old(self),
                self.wf(),
                forall|k: int| 0 <= k < i ==> (#[trigger] self.handles[k]).0 != node_no,
            decreases self.handles.len() - i,
        {
            if self.handles[i].0 == node_no {
                let ghost before = self.handles@;
                self.handles[i] = (node_no, handle);
                proof {
                    assert(self.handles@ =~= before.update(i as int, (node_no, handle)));
                    assert forall|a: int, b: int| 0 <= a < b < self.handles.len() implies (
                    #[trigger] self.handles[a]).0 != (#[trigger] self.handles[b]).0 by {
                        assert(before[a].0 != before[b].0) by {
                            assert(old(self).handles[a].0 != old(self).handles[b].0);
                        }
                    }
                    assert forall|other: NodeNo| #[trigger] handle_of(self.handles@, other) == (
                    if other == node_no {
                        Some(handle)
                    } else {
                        handle_of(before, other)
                    }) by {
                        lemma_handle_update(before, i as int, node_no, handle, other);
                    }
                }
                return ;
            }
            i += 1;
        }
        let ghost before = self.handles@;
        self.handles.push((node_no, handle));
        proof {
            assert(self.handles@.drop_last() =~= before);
            assert forall|a: int, b: int| 0 <= a < b < self.handles.len() implies (
            #[trigger] self.handles[a]).0 != (#[trigger] self.handles[b]).0 by {
                assert(self.handles[a] == before[a]);
                assert(old(self).handles[a] == before[a]);
                if b < before.len() {
                    assert(self.handles[b] == before[b]);
                    assert(old(self).handles[b] == before[b]);
                }
            }
        }
    }

    /// Handles of nodes that get a message. Unknown nodes are ignored.
    pub fn targets(&self, outcome: &Outcome) -> (addrs: Vec<Addr>)
        ensures
            match *outcome {
                Outcome::Unicast(node_no) => addrs@ == handles_of(self.handles@, seq![node_no]),
                Outcome::Multicast(node_nos) => addrs@ == handles_of(self.handles@, node_nos@),
                Outcome::Broadcast => addrs@ == self.handles@.map_values(
                    |handle: (NodeNo, Addr)| handle.1,
                ),
                Outcome::Discard => addrs@.len() == 0,
            },
    {
        match outcome {
            Outcome::Unicast(node_no) => {
                let mut node_nos: Vec<NodeNo> = Vec::new();
                node_nos.push(*node_no);
                assert(node_nos@ =~= seq![*node_no]);
                self.select(&node_nos)
            },
            Outcome::Multicast(node_nos) => self.select(node_nos),
            Outcome::Broadcast => {
                let mut addrs: Vec<Addr> = Vec::new();
                let mut i: usize = 0;
                while i < self.handles.len()
                    invariant
                        i <= self.handles.len(),
                        addrs.len() == i,
                        forall|k: int| 0 <= k < i ==> #[trigger] addrs[k] == self.handles[k].1,
                    decreases self.handles.len() - i,
                {
                    addrs.push(self.handles[i].1);
                    i += 1;
                }
                assert(addrs@ =~= self.handles@.map_values(|handle: (NodeNo, Addr)| handle.1));
                addrs
            },
            Outcome::Discard => Vec::new(),
        }
    }

    fn select(&self, node_nos: &Vec<NodeNo>) -> (addrs: Vec<Addr>)
        ensures
            addrs@ == handles_of(self.handles@, node_nos@),
    {
        let mut addrs: Vec<Addr> = Vec::new();
        let mut i: usize = 0;
        assert(node_nos@.take(0).len() == 0);
        while i < node_nos.len()
            invariant
                i <= node_nos.len(),
                addrs@ == handles_of(self.handles@, node_nos@.take(i as int)),
            decreases node_nos.len() - i,
        {
            let ghost next = node_nos@.take(i + 1);
            assert(next.drop_last() =~= node_nos@.take(i as int));
            assert(next.last() == node_nos@[i as int]);
            if let Some(addr) = self.get(node_nos[i]) {
                addrs.push(addr);
            }
            i += 1;
        }
        assert(node_nos@.take(i as int) =~= node_nos@);
        addrs
    }
}

impl RemoteActorGroup {
    pub open spec fn wf(&self) -> bool {
        &&& forall|i: int| 0 <= i < self.nodes.len() ==> (#[trigger] self.nodes[i]).wf()
        &&& forall|i: int, j: int|
            0 <= i < j < self.nodes.len() ==> (#[trigger] self.nodes[i]).local_group != (
            #[trigger] self.nodes[j]).local_group
    }

    pub open spec fn is_connected(&self, local_group: GroupNo) -> bool {
        exists|i: int|
            0 <= i < self.nodes.len() && (#[trigger] self.nodes[i]).local_group == local_group
    }

    /// Finds nodes that a local group is connected to.
    pub fn find(&self, local_group: GroupNo) -> (res: Option<usize>)
        ensures
            res is Some <==> self.is_connected(local_group),
            res matches Some(i) ==> i < self.nodes.len() && self.nodes[i as int].local_group
                == local_group,
    {
        let mut i: usize = 0;
        while i < self.nodes.len()
            invariant
                i <= self.nodes.len(),
                forall|k: int| 0 <= k < i ==> (#[trigger] self.nodes[k]).local_group != local_group,
            decreases self.nodes.len() - i,
        {
            if self.nodes[i].local_group == local_group {
                return Some(i);
            }
            i += 1;
        }
        None
    }

    /// Whether `after` is the same group after the local group is connected.
    pub open spec fn connected(&self, local_group: GroupNo, after: RemoteActorGroup) -> bool {
        if self.is_connected(local_group) {
            after == *self
        } else {
            &&& after.name == self.name
            &&& after.nodes.len() == self.nodes.len() + 1
            &&& after.nodes@.drop_last() == self.nodes@
            &&& after.nodes@.last().local_group == local_group
            &&& after.nodes@.last().handles.len() == 0
        }
    }

    /// Connects a local group, there are no known nodes at first.
    pub fn connect(&mut self, local_group: GroupNo)
        requires
            old(self).wf(),
        ensures
            final(self).wf(),
            final(self).name == old(self).name,
            old(self).connected(local_group, *final(self)),
    {
        if self.find(local_group).is_none() {
            let ghost before = self.nodes@;
            self.nodes.push(RemoteNodes::new(local_group));
            proof {
                assert(self.nodes@.drop_last() =~= before);
                assert(self.nodes[before.len() as int].local_group == local_group);
                assert forall|i: int| 0 <= i < self.nodes.len() implies (
                #[trigger] self.nodes[i]).wf() by {
                    if i < before.len() {
                        assert(self.nodes[i] == old(self).nodes[i]);
                    }
                }
                assert forall|i: int, j: int| 0 <= i < j < self.nodes.len() implies (
                #[trigger] self.nodes[i]).local_group != (#[trigger] self.nodes[j]).local_group by {
                    assert(self.nodes[i] == old(self).nodes[i]);
                    if j < before.len() {
                        assert(self.nodes[j] == old(self).nodes[j]);
                    }
                }
            }
        }
    }

    /// Sets the handle of a node for a connected local group. Returns `false` if
    /// the group isn't connected.
    pub fn register_remote(&mut self, local_group: GroupNo, node_no: NodeNo, handle: Addr) -> (res:
        bool)
        requires
            old(self).wf(),
        ensures
            final(self).wf(),
            final(self).name == old(self).name,
            res == old(self).is_connected(local_group),
            !res ==> *final(self) == *old(self),
            final(self).nodes.len() == old(self).nodes.len(),
            forall|i: int|
                #![trigger final(self).nodes[i]]
                0 <= i < old(self).nodes.len() ==> {
                    let before = old(self).nodes[i];
                    let after = final(self).nodes[i];
                    &&& after.local_group == before.local_group
                    &&& before.local_group != local_group ==> after == before
                    &&& before.local_group == local_group ==> forall|other: NodeNo| #[trigger]
                        handle_of(after.handles@, other) == (if other == node_no {
                            Some(handle)
                        } else {
                            handle_of(before.handles@, other)
                        })
                },
    {
        match self.find(local_group) {
            Some(i) => {
                let ghost before = self.nodes@;
                self.nodes[i].register(node_no, handle);
                proof {
                    assert forall|k: int| 0 <= k < self.nodes.len() && k != i implies (
                    #[trigger] self.nodes[k]) == before[k] by {}
                    assert forall|k: int| 0 <= k < self.nodes.len() implies (
                    #[trigger] self.nodes[k]).wf() by {
                        if k != i {
                            assert(self.nodes[k] == old(self).nodes[k]);
                        }
                    }
                    assert forall|a: int, b: int| 0 <= a < b < self.nodes.len() implies (
                    #[trigger] self.nodes[a]).local_group != (
                    #[trigger] self.nodes[b]).local_group by {
                        assert(old(self).nodes[a].local_group != old(self).nodes[b].local_group);
                    }
                    assert forall|k: int|
                        0 <= k < before.len() && k != i implies before[k].local_group
                        != local_group by {
                        if k < i {
                            assert(old(self).nodes[k].local_group != old(self).nodes[i as int].local_group);
                        } else {
                            assert(old(self).nodes[i as int].local_group != old(self).nodes[k].local_group);
                        }
                    }
                }
                true
            },
            None => false,
        }
    }
}

proof fn lemma_handle_update(
    handles: Seq<(NodeNo, Addr)>,
    i: int,
    node_no: NodeNo,
    handle: Addr,
    other: NodeNo,
)
    requires
        0 <= i < handles.len(),
        handles[i].0 == node_no,
        forall|a: int, b: int|
            0 <= a < b < handles.len() ==> (#[trigger] handles[a]).0 != (#[trigger] handles[b]).0,
    ensures
        handle_of(handles.update(i, (node_no, handle)), other) == (if other == node_no {
            Some(handle)
        } else {
            handle_of(handles, other)
        }),
    decreases handles.len(),
{
    let next = handles.update(i, (node_no, handle));
    if i == handles.len() - 1 {
        assert(next.drop_last() =~= handles.drop_last());
    } else {
        let rest = handles.drop_last();
        assert(next.drop_last() =~= rest.update(i, (node_no, handle)));
        assert(handles[i].0 != handles[handles.len() - 1].0);
        assert forall|a: int, b: int| 0 <= a < b < rest.len() implies (#[trigger] rest[a]).0 != (
        #[trigger] rest[b]).0 by {
            assert(handles[a].0 != handles[b].0);
        }
        lemma_handle_update(rest, i, node_no, handle, other);
    }
}

// === Laws ===

/// A new group can be declared if its name isn't taken and there are fewer than 254 groups.
/// Its number is the next one, starting from one.
pub proof fn taken_names_are_rejected(
    topology: Topology,
    name: &str,
    res: Result<GroupNo, DeclareError>,
    i: int,
)
    requires
        topology.locals@.len() <= 254,
        call_ensures(Topology::check_local, (&topology, name), res),
    ensures
        0 <= i < topology.locals@.len() && topology.locals@[i].name@ == name@ ==> res == Err::<
            GroupNo,
            DeclareError,
        >(DeclareError::NameIsTaken),
        (forall|k: int|
            0 <= k < topology.locals@.len() ==> (#[trigger] topology.locals@[k]).name@ != name@)
            ==> {
            &&& topology.locals@.len() == 254 ==> res == Err::<GroupNo, DeclareError>(
                DeclareError::TooManyGroups,
            )
            &&& topology.locals@.len() < 254 ==> res is Ok && res->Ok_0 == topology.locals@.len()
                + 1
        },
{
    if 0 <= i < topology.locals@.len() && topology.locals@[i].name@ == name@ {
        assert(topology.locals[i].name@ == name@);
        assert(topology.has_local(name@));
    }
    if forall|k: int|
        0 <= k < topology.locals@.len() ==> (#[trigger] topology.locals@[k]).name@ != name@ {
        assert(!topology.has_local(name@));
    }
}

/// A declared group has the checked number and the given name and address. Others stay.
pub proof fn local_groups_are_numbered(
    fresh: Topology,
    topology: &mut Topology,
    name: String,
    text: &str,
    vacant: Addr,
    check: Result<GroupNo, DeclareError>,
    local: Local,
    again: Result<GroupNo, DeclareError>,
    addr: Addr,
    i: int,
)
    requires
        call_ensures(Topology::empty, (), fresh),
        text@ == name@,
        call_ensures(Topology::check_local, (old(topology), text), check),
        check is Ok,
        call_ensures(Topology::local, (topology, name, vacant), local),
        call_ensures(Topology::check_local, (final(topology), text), again),
        call_ensures(Local::addr, (&local,), addr),
    ensures
        fresh.locals@.len() == 0 && fresh.remotes@.len() == 0 && fresh.connections@.len() == 0,
        local.group_no == check->Ok_0,
        again == Err::<GroupNo, DeclareError>(DeclareError::NameIsTaken),
        addr == vacant && local.name == name,
        final(topology).locals@.len() == old(topology).locals@.len() + 1,
        final(topology).locals@.last().addr == vacant && final(topology).locals@.last().name == name
            && !final(topology).locals@.last().is_entrypoint,
        0 <= i < old(topology).locals@.len() ==> final(topology).locals@[i]
            == old(topology).locals@[i],
        final(topology).remotes == old(topology).remotes,
        final(topology).connections == old(topology).connections,
{
    if 0 <= i < old(topology).locals@.len() {
        assert(final(topology).locals@.drop_last()[i] == old(topology).locals@[i]);
    }
    let last = final(topology).locals.len() - 1;
    assert(final(topology).locals[last].name@ == name@);
    assert(final(topology).has_local(name@));
}

/// Entrypoints are those that are marked, in order of declaration. Marking changes nothing
/// but the first group with the address.
pub proof fn marked_groups_are_entrypoints(
    topology: &mut Topology,
    local: Local,
    is_found: bool,
    i: int,
    j: int,
)
    requires
        call_ensures(Topology::entrypoint, (topology, &local), is_found),
        0 <= i < old(topology).locals@.len(),
        old(topology).locals@[i].addr == local.addr,
        forall|k: int|
            0 <= k < i ==> (#[trigger] old(topology).locals@[k]).addr != local.addr,
        0 <= j < old(topology).locals@.len(),
    ensures
        is_found,
        final(topology).locals@.len() == old(topology).locals@.len(),
        final(topology).locals@[i].is_entrypoint,
        final(topology).locals@[j].addr == old(topology).locals@[j].addr,
        final(topology).locals@[j].name == old(topology).locals@[j].name,
        j != i ==> final(topology).locals@[j] == old(topology).locals@[j],
        final(topology).remotes == old(topology).remotes,
        final(topology).connections == old(topology).connections,
{
    assert(old(topology).locals[i].addr == local.addr);
    let k = choose|k: int|
        {
            &&& 0 <= k < old(topology).locals.len()
            &&& (#[trigger] old(topology).locals[k]).addr == local.addr
            &&& forall|j: int|
                0 <= j < k ==> (#[trigger] old(topology).locals[j]).addr != local.addr
            &&& final(topology).locals@ == old(topology).locals@.update(
                k,
                LocalActorGroup { is_entrypoint: true, ..old(topology).locals[k] },
            )
        };
    if k < i {
        assert(old(topology).locals@[k].addr != local.addr);
    }
    if i < k {
        assert(old(topology).locals[i].addr != local.addr);
    }
}

/// Addresses of entrypoints are listed in order of declaration.
pub proof fn entrypoints_are_listed(
    a: Topology,
    b: Topology,
    group: LocalActorGroup,
    x: Vec<Addr>,
    y: Vec<Addr>,
)
    requires
        b.locals@ == a.locals@.push(group),
        call_ensures(Topology::entrypoints, (&a,), x),
        call_ensures(Topology::entrypoints, (&b,), y),
    ensures
        a.locals@.len() == 0 ==> x@.len() == 0,
        group.is_entrypoint ==> y@ == x@.push(group.addr),
        !group.is_entrypoint ==> y@ == x@,
{
    assert(b.locals@.drop_last() =~= a.locals@);
    assert(b.locals@.last() == group);
}

/// A group gets a message iff it accepts it, after those who have accepted it before.
pub proof fn accepting_groups_are_listed(
    local: Local,
    is_accepted: bool,
    a: &mut Vec<Addr>,
    b: &mut Vec<Addr>,
)
    requires
        call_ensures(Local::accept, (&local, is_accepted, a), ()),
        call_ensures(Local::accept_all, (&local, b), ()),
    ensures
        is_accepted ==> final(a)@ == old(a)@.push(local.addr),
        !is_accepted ==> final(a)@ == old(a)@,
        final(b)@ == old(b)@.push(local.addr),
{
}

/// Only remote ends of connections have names.
pub proof fn remote_ends_have_names(
    addr: Addr,
    name: String,
    a: Option<String>,
    b: Option<String>,
)
    requires
        call_ensures(ConnectionTo::into_remote, (ConnectionTo::Local(addr),), a),
        call_ensures(ConnectionTo::into_remote, (ConnectionTo::Remote(name),), b),
    ensures
        a is None && b == Some(name),
{
}

/// A connection is remembered after others, from the group to its destination. A local
/// destination needs nothing else.
pub proof fn connections_are_remembered(
    a: &mut Topology,
    b: &mut Topology,
    local: Local,
    dest: Local,
    remote: Remote,
    i: int,
)
    requires
        call_ensures(Topology::route_to::<Local>, (a, &local, &dest), ()),
        call_ensures(Topology::route_to::<Remote>, (b, &local, &remote), ()),
        0 <= i < old(b).remotes@.len(),
    ensures
        final(a).connections@.len() == old(a).connections@.len() + 1,
        final(a).connections@.drop_last() == old(a).connections@,
        final(a).connections@.last().from == local.addr,
        final(a).connections@.last().to == ConnectionTo::Local(dest.addr),
        final(a).locals == old(a).locals && final(a).remotes == old(a).remotes,
        final(b).connections@.drop_last() == old(b).connections@,
        final(b).connections@.last().from == local.addr,
        final(b).connections@.last().to == ConnectionTo::Remote(remote.name),
        final(b).locals == old(b).locals,
        old(b).remotes@[i].name@ != remote.name@ ==> final(b).remotes@[i] == old(b).remotes@[i],
        old(b).remotes@[i].name@ == remote.name@ ==> {
            &&& final(b).remotes@[i].name == old(b).remotes@[i].name
            &&& exists|k: int|
                0 <= k < final(b).remotes@[i].nodes@.len() && (
                #[trigger] final(b).remotes@[i].nodes@[k]).local_group == local.group_no
        },
{
    let before = old(b).remotes[i];
    let after = final(b).remotes[i];
    assert(if before.name@ == remote.name@ {
        before.connected(local.group_no, after)
    } else {
        after == before
    });
    if before.name@ == remote.name@ {
        if before.is_connected(local.group_no) {
            let k = choose|k: int|
                0 <= k < before.nodes.len() && (#[trigger] before.nodes[k]).local_group
                    == local.group_no;
            assert(after.nodes@[k].local_group == local.group_no);
        } else {
            assert(after.nodes@[after.nodes@.len() - 1].local_group == local.group_no);
        }
    }
}

/// A remote group is found by its name if there is one.
pub proof fn remote_group_is_found_by_name(
    topology: Topology,
    name: &str,
    found: Option<usize>,
    i: int,
)
    requires
        call_ensures(Topology::find_remote, (&topology, name), found),
    ensures
        found is Some ==> found->0 < topology.remotes@.len()
            && topology.remotes@[found->0 as int].name@ == name@,
        0 <= i < topology.remotes@.len() && topology.remotes@[i].name@ == name@ ==> found is Some,
{
    if 0 <= i < topology.remotes@.len() && topology.remotes@[i].name@ == name@ {
        assert(topology.remotes[i].name@ == name@);
    }
}

/// A remote group is found by its name once it's declared.
pub proof fn remote_groups_are_found(
    topology: &mut Topology,
    name: String,
    text: &str,
    remote: Remote,
    found: Option<usize>,
)
    requires
        text@ == name@,
        call_ensures(Topology::remote, (topology, name), remote),
        call_ensures(Topology::find_remote, (final(topology), text), found),
    ensures
        remote.name == name,
        found is Some && final(topology).remotes@[found->0 as int].name@ == name@,
        final(topology).remotes@.len() == old(topology).remotes@.len() + 1,
        final(topology).remotes@.drop_last() == old(topology).remotes@,
        final(topology).remotes@.last().name == name,
        final(topology).remotes@.last().nodes@.len() == 0,
        final(topology).locals == old(topology).locals,
        final(topology).connections == old(topology).connections,
{
    let last = final(topology).remotes.len() - 1;
    assert(final(topology).remotes[last].name@ == name@);
    assert(final(topology).has_remote(name@));
}

/// Groups and connections are given as they are.
pub proof fn topology_is_given_as_is(
    topology: Topology,
    a: &Vec<LocalActorGroup>,
    b: &Vec<RemoteActorGroup>,
    c: &Vec<Connection>,
)
    requires
        call_ensures(Topology::locals, (&topology,), a),
        call_ensures(Topology::remotes, (&topology,), b),
        call_ensures(Topology::connections, (&topology,), c),
    ensures
        *a == topology.locals && *b == topology.remotes && *c == topology.connections,
{
}

proof fn lemma_registered(args: (&mut RemoteNodes, NodeNo, Addr), other: NodeNo)
    requires
        call_ensures(RemoteNodes::register, args, ()),
    ensures
        handle_of(final(args.0).handles@, other) == (if other == args.1 {
            Some(args.2)
        } else {
            handle_of(old(args.0).handles@, other)
        }),
{
}

/// A node is found by its number, with the handle that has been registered last.
pub proof fn last_registered_handle_is_used(
    fresh: RemoteNodes,
    nodes: &mut RemoteNodes,
    local_group: GroupNo,
    node_no: NodeNo,
    other: NodeNo,
    handle: Addr,
    nobody: Option<Addr>,
    before: Option<Addr>,
    after: Option<Addr>,
)
    requires
        call_ensures(RemoteNodes::new, (local_group,), fresh),
        call_ensures(RemoteNodes::get, (&fresh, other), nobody),
        call_ensures(RemoteNodes::get, (old(nodes), other), before),
        call_ensures(RemoteNodes::register, (nodes, node_no, handle), ()),
        call_ensures(RemoteNodes::get, (final(nodes), other), after),
    ensures
        nobody is None && fresh.local_group == local_group,
        other == node_no ==> after == Some(handle),
        other != node_no ==> after == before,
        final(nodes).local_group == old(nodes).local_group,
{
    lemma_registered((nodes, node_no, handle), other);
}

/// Who gets a message: the node with the number, nodes with the numbers in their order, or
/// all nodes. Unknown nodes are ignored.
pub proof fn known_nodes_get_message(
    nodes: RemoteNodes,
    node_no: NodeNo,
    known: Option<Addr>,
    list: Vec<NodeNo>,
    more: Vec<NodeNo>,
    one: Vec<Addr>,
    some: Vec<Addr>,
    some_more: Vec<Addr>,
    all: Vec<Addr>,
    none: Vec<Addr>,
    i: int,
)
    requires
        more@ == list@.push(node_no),
        call_ensures(RemoteNodes::get, (&nodes, node_no), known),
        call_ensures(RemoteNodes::targets, (&nodes, &Outcome::Unicast(node_no)), one),
        call_ensures(RemoteNodes::targets, (&nodes, &Outcome::Multicast(list)), some),
        call_ensures(RemoteNodes::targets, (&nodes, &Outcome::Multicast(more)), some_more),
        call_ensures(RemoteNodes::targets, (&nodes, &Outcome::Broadcast), all),
        call_ensures(RemoteNodes::targets, (&nodes, &Outcome::Discard), none),
    ensures
        known is None ==> one@.len() == 0 && some_more@ == some@,
        known is Some ==> one@.len() == 1 && one@[0] == known->0 && some_more@ == some@.push(
            known->0,
        ),
        list@.len() == 0 ==> some@.len() == 0,
        all@.len() == nodes.handles@.len(),
        0 <= i < all@.len() ==> all@[i] == nodes.handles@[i].1,
        none@.len() == 0,
{
    reveal_with_fuel(handles_of, 2);
    assert(seq![node_no].drop_last() =~= Seq::<NodeNo>::empty());
    assert(more@.drop_last() =~= list@);
}

/// A local group is connected at most once, and there are no known nodes at first.
pub proof fn group_is_connected_once(
    group: &mut RemoteActorGroup,
    again: &mut RemoteActorGroup,
    local_group: GroupNo,
    before: Option<usize>,
    after: Option<usize>,
)
    requires
        old(group).wf(),
        call_ensures(RemoteActorGroup::find, (old(group), local_group), before),
        call_ensures(RemoteActorGroup::connect, (group, local_group), ()),
        *old(again) == *final(group),
        call_ensures(RemoteActorGroup::connect, (again, local_group), ()),
        call_ensures(RemoteActorGroup::find, (final(group), local_group), after),
    ensures
        after is Some && final(group).nodes@[after->0 as int].local_group == local_group,
        before is Some ==> *final(group) == *old(group),
        before is None ==> {
            &&& final(group).nodes@.len() == old(group).nodes@.len() + 1
            &&& final(group).nodes@.drop_last() == old(group).nodes@
            &&& final(group).nodes@.last().local_group == local_group
            &&& final(group).nodes@.last().handles@.len() == 0
        },
        *final(again) == *final(group),
        final(group).name == old(group).name,
{
    if before is None {
        let last = final(group).nodes.len() - 1;
        assert(final(group).nodes[last].local_group == local_group);
        assert(final(group).is_connected(local_group));
    }
}

proof fn lemma_registered_for(
    args: (&mut RemoteActorGroup, GroupNo, NodeNo, Addr),
    res: bool,
    i: int,
    other: NodeNo,
)
    requires
        call_ensures(RemoteActorGroup::register_remote, args, res),
        0 <= i < old(args.0).nodes@.len(),
    ensures
        ({
            let before = old(args.0).nodes@[i];
            let after = final(args.0).nodes@[i];
            &&& after.local_group == before.local_group
            &&& before.local_group != args.1 ==> after == before
            &&& before.local_group == args.1 ==> handle_of(after.handles@, other) == (if other
                == args.2 {
                Some(args.3)
            } else {
                handle_of(before.handles@, other)
            })
        }),
{
    let after = final(args.0).nodes[i];
    let handle = handle_of(after.handles@, other);
}

/// A node is registered only for a group that is connected to it.
pub proof fn node_is_registered_for_connected_group(
    group: &mut RemoteActorGroup,
    local_group: GroupNo,
    node_no: NodeNo,
    other: NodeNo,
    handle: Addr,
    found: Option<usize>,
    res: bool,
    i: int,
    before: Option<Addr>,
    after: Option<Addr>,
)
    requires
        old(group).wf(),
        call_ensures(RemoteActorGroup::find, (old(group), local_group), found),
        call_ensures(
            RemoteActorGroup::register_remote,
            (group, local_group, node_no, handle),
            res,
        ),
        0 <= i < old(group).nodes@.len(),
        call_ensures(RemoteNodes::get, (&old(group).nodes@[i], other), before),
        call_ensures(RemoteNodes::get, (&final(group).nodes@[i], other), after),
    ensures
        res <==> found is Some,
        !res ==> *final(group) == *old(group),
        final(group).nodes@.len() == old(group).nodes@.len(),
        old(group).nodes@[i].local_group == local_group && other == node_no ==> after == Some(
            handle,
        ),
        old(group).nodes@[i].local_group != local_group || other != node_no ==> after == before,
        final(group).nodes@[i].local_group == old(group).nodes@[i].local_group,
{
    lemma_registered_for((group, local_group, node_no, handle), res, i, other);
}

/// A group that isn't in the topology doesn't become an entrypoint, nothing is changed.
pub proof fn unknown_group_is_no_entrypoint(topology: &mut Topology, local: Local, is_found: bool)
    requires
        forall|i: int|
            0 <= i < old(topology).locals.len() ==> (#[trigger] old(topology).locals[i]).addr
                != local.addr,
        call_ensures(Topology::entrypoint, (topology, &local), is_found),
    ensures
        !is_found && *final(topology) == *old(topology),
{
}

} // verus!
