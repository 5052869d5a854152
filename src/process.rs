//! The attribution cache: which process owns the socket bound to a local
//! port. A refresh replaces the whole table with one built from a fresh
//! snapshot of the system's sockets; lookups read the table as it stands.

use std::collections::HashMap;
use vstd::prelude::*;

verus! {

broadcast use vstd::std_specs::hash::group_hash_axioms;

/// One process and the socket identifiers (inodes) of its open sockets.
pub struct ProcessSockets {
    pub name: String,
    pub inodes: Vec<u64>,
}

/// One row of a TCP or UDP socket table: a local port and the identifier of
/// the socket bound to it.
#[derive(Clone, Copy, PartialEq, Eq, Structural)]
pub struct SocketEntry {
    pub port: u16,
    pub inode: u64,
}

/// A snapshot of the system's sockets: their owners, and the TCP and UDP
/// tables in the order the system lists them.
pub struct SocketSnapshot {
    pub processes: Vec<ProcessSockets>,
    pub tcp: Vec<SocketEntry>,
    pub udp: Vec<SocketEntry>,
}

/// The table that a resolver holds.
pub struct ResolverView {
    pub names: Map<u64, String>,
    pub tcp: Seq<SocketEntry>,
    pub udp: Seq<SocketEntry>,
}

/// Maps local ports to the names of the processes that own them.
pub struct ProcessResolver {
    inode_to_name: HashMap<u64, String>,
    tcp: Vec<SocketEntry>,
    udp: Vec<SocketEntry>,
}

impl View for ProcessResolver {
    type V = ResolverView;

    closed spec fn view(&self) -> ResolverView {
        ResolverView { names: self.inode_to_name@, tcp: self.tcp@, udp: self.udp@ }
    }
}

/// `m` with each of `inodes` mapped to `name`.
pub open spec fn with_owner(m: Map<u64, String>, inodes: Seq<u64>, name: String) -> Map<
    u64,
    String,
>
    decreases inodes.len(),
{
    if inodes.len() == 0 {
        m
    } else {
        with_owner(m, inodes.drop_last(), name).insert(inodes.last(), name)
    }
}

/// The owner of each socket identifier; where several processes list one
/// socket, the last of them.
pub open spec fn socket_owners(procs: Seq<ProcessSockets>) -> Map<u64, String>
    decreases procs.len(),
{
    if procs.len() == 0 {
        Map::empty()
    } else {
        with_owner(socket_owners(procs.drop_last()), procs.last().inodes@, procs.last().name)
    }
}

/// The table built from a snapshot.
pub open spec fn snapshot_view(s: SocketSnapshot) -> ResolverView {
    ResolverView { names: socket_owners(s.processes@), tcp: s.tcp@, udp: s.udp@ }
}

/// What a refresh from snapshot `s` leaves in a resolver that held `v`: the
/// table built from `s`, whatever `v` was.
pub open spec fn refresh_step(v: ResolverView, s: SocketSnapshot) -> ResolverView {
    snapshot_view(s)
}

/// The socket identifier of the first row at or after `i` on `port`.
pub open spec fn inode_from(table: Seq<SocketEntry>, port: u16, i: int) -> Option<u64>
    decreases table.len() - i,
{
    if i < 0 || i >= table.len() {
        None
    } else if table[i].port == port {
        Some(table[i].inode)
    } else {
        inode_from(table, port, i + 1)
    }
}

/// The owner of the first socket in `table` on `port`, if it is known.
pub open spec fn owner_in(names: Map<u64, String>, table: Seq<SocketEntry>, port: u16) -> Option<
    String,
> {
    match inode_from(table, port, 0) {
        Some(i) => if names.contains_key(i) {
            Some(names[i])
        } else {
            None
        },
        None => None,
    }
}

/// The name that a port resolves to: its TCP owner, else its UDP owner,
/// else `Unknown`.
pub open spec fn resolved_name(v: ResolverView, port: u16) -> Seq<char> {
    match owner_in(v.names, v.tcp, port) {
        Some(n) => n@,
        None => match owner_in(v.names, v.udp, port) {
            Some(n) => n@,
            None => "Unknown"@,
        },
    }
}

/// The application of a connection: the owner of its source port, else,
/// where the destination port is not zero, the owner of that.
pub open spec fn resolved_app(v: ResolverView, src: u16, dst: u16) -> Seq<char> {
    if resolved_name(v, src) == "Unknown"@ && dst > 0 {
        resolved_name(v, dst)
    } else {
        resolved_name(v, src)
    }
}

fn find_inode(table: &Vec<SocketEntry>, port: u16) -> (r: Option<u64>)
    ensures
        r == inode_from(table@, port, 0),
{
    let n = table.len();
    let mut i: usize = 0;
    while i < n
        invariant
            n == table@.len(),
            i <= n,
            inode_from(table@, port, 0) == inode_from(table@, port, i as int),
        decreases n - i,
    {
        if table[i].port == port {
            return Some(table[i].inode);
        }
        i = i + 1;
    }
    None
}

impl ProcessResolver {
    /// A resolver that knows no sockets yet.
    pub fn new() -> (r: ProcessResolver)
        ensures
            r@.names == Map::<u64, String>::empty(),
            r@.tcp == Seq::<SocketEntry>::empty(),
            r@.udp == Seq::<SocketEntry>::empty(),
    {
        ProcessResolver { inode_to_name: HashMap::new(), tcp: Vec::new(), udp: Vec::new() }
    }

    /// Replaces the whole table with one built from `snapshot`.
    pub fn refresh(&mut self, snapshot: SocketSnapshot)
        ensures
            final(self)@ == refresh_step(old(self)@, snapshot),
    {
        let ghost snap = snapshot;
        let SocketSnapshot { processes, tcp, udp } = snapshot;
        let mut names: HashMap<u64, String> = HashMap::new();
        let np = processes.len();
        let mut i: usize = 0;
        while i < np
            invariant
                np == processes@.len(),
                processes == snap.processes,
                i <= np,
                names@ == socket_owners(processes@.take(i as int)),
            decreases np - i,
        {
            let p = &processes[i];
            let ni = p.inodes.len();
            let ghost base = names@;
            let mut j: usize = 0;
            while j < ni
                invariant
                    ni == p.inodes@.len(),
                    j <= ni,
                    names@ == with_owner(base, p.inodes@.take(j as int), p.name),
                decreases ni - j,
            {
                names.insert(p.inodes[j], p.name.clone());
                assert(p.inodes@.take(j + 1).drop_last() =~= p.inodes@.take(j as int));
                j = j + 1;
            }
            assert(p.inodes@.take(ni as int) =~= p.inodes@);
            assert(processes@.take(i + 1).drop_last() =~= processes@.take(i as int));
            i = i + 1;
        }
        assert(processes@.take(np as int) =~= processes@);
        self.inode_to_name = names;
        self.tcp = tcp;
        self.udp = udp;
    }

    fn owner_of(&self, table: &Vec<SocketEntry>, port: u16) -> (r: Option<String>)
        ensures
            r == owner_in(self.inode_to_name@, table@, port),
    {
        match find_inode(table, port) {
            Some(inode) => match self.inode_to_name.get(&inode) {
                Some(name) => Some(name.clone()),
                None => None,
            },
            None => None,
        }
    }

    /// The name of the process that owns the socket on a local port: the
    /// TCP table is searched first, then the UDP table; `Unknown` where
    /// neither gives a known owner.
    pub fn resolve_port(&self, local_port: u16) -> (r: String)
        ensures
            r@ == resolved_name(self@, local_port),
    {
        match self.owner_of(&self.tcp, local_port) {
            Some(n) => n,
            None => match self.owner_of(&self.udp, local_port) {
                Some(n) => n,
                None => String::from_str("Unknown"),
            },
        }
    }

    /// The application of a connection: its source port's owner, else its
    /// destination port's where that port is not zero.
    pub fn resolve(&self, src_port: u16, dst_port: u16) -> (r: String)
        ensures
            r@ == resolved_app(self@, src_port, dst_port),
    {
        let first = self.resolve_port(src_port);
        let unknown = String::from_str("Unknown");
        if first == unknown && dst_port > 0 {
            self.resolve_port(dst_port)
        } else {
            first
        }
    }
}

/// A refresh leaves nothing of what the resolver held before: refreshing
/// twice from the same snapshot answers every port exactly as refreshing
/// once does.
pub proof fn lemma_refresh_idempotent(v: ResolverView, s: SocketSnapshot, src: u16, dst: u16)
    ensures
        refresh_step(refresh_step(v, s), s) == refresh_step(v, s),
        resolved_name(refresh_step(refresh_step(v, s), s), src) == resolved_name(
            refresh_step(v, s),
            src,
        ),
        resolved_app(refresh_step(refresh_step(v, s), s), src, dst) == resolved_app(
            refresh_step(v, s),
            src,
            dst,
        ),
{
}

} // verus!
