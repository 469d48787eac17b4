//! The registry of connected clients and the rules of the hub that owns it.
//!
//! The hub is the single owner of this map-like structure: connection loops
//! send it control messages, and it applies them one at a time, so every rule
//! here is a sequential transition.  Registration refuses a second client at
//! an already-present address; a broadcast queues the message for every
//! client whose write succeeds and removes every client whose write fails,
//! after the full sweep; a drop removes a client and is idempotent.

use vstd::prelude::*;

use crate::client::{Address, Client, ClientModel};
use crate::sbmp::{spec_frame_bytes, ContentType};

verus! {

/// A control message consumed by the hub, produced by connection loops.
pub enum Message {
    /// Queue this text for every registered client.
    Broadcast(Vec<u8>),
    /// Register this client, unless its address is already present.
    NewClient(Client),
    /// Forget the client at this address, if any.
    Drop(Address),
}

/// The notice queued for a client whose address is already registered.
pub open spec fn spec_duplicate_notice() -> Seq<u8> {
    seq![
        97u8, 100u8, 100u8, 114u8, 101u8, 115u8, 115u8, 32u8, 97u8, 108u8, 114u8, 101u8, 97u8,
        100u8, 121u8, 32u8, 114u8, 101u8, 103u8, 105u8, 115u8, 116u8, 101u8, 114u8, 101u8, 100u8,
    ]
}

/// The text of the notice a rejected duplicate registration receives.
pub fn duplicate_notice() -> (r: Vec<u8>)
    ensures
        r@ == spec_duplicate_notice(),
{
    let mut v: Vec<u8> = Vec::new();
    v.push(97);
    v.push(100);
    v.push(100);
    v.push(114);
    v.push(101);
    v.push(115);
    v.push(115);
    v.push(32);
    v.push(97);
    v.push(108);
    v.push(114);
    v.push(101);
    v.push(97);
    v.push(100);
    v.push(121);
    v.push(32);
    v.push(114);
    v.push(101);
    v.push(103);
    v.push(105);
    v.push(115);
    v.push(116);
    v.push(101);
    v.push(114);
    v.push(101);
    v.push(100);
    proof {
        assert(v@ =~= spec_duplicate_notice());
    }
    v
}

/// No two clients share an address.
pub open spec fn addr_unique(s: Seq<ClientModel>) -> bool {
    forall|i: int, j: int| 0 <= i < j < s.len() ==> s[i].ip != s[j].ip
}

/// Some client in `s` has the address `a`.
pub open spec fn contains_addr(s: Seq<ClientModel>, a: Address) -> bool {
    exists|i: int| 0 <= i < s.len() && s[i].ip == a
}

/// The client with one broadcast message appended to its outbox, framed.
pub open spec fn delivered(c: ClientModel, msg: Seq<u8>) -> ClientModel {
    ClientModel { outbox: c.outbox + spec_frame_bytes(ContentType::UTF8, msg), ..c }
}

/// What a rejected duplicate registration leaves behind: the notice is
/// queued for the client when its transport is still open, and nothing
/// happens otherwise.
pub open spec fn rejected_client(c: ClientModel) -> ClientModel {
    if c.open {
        ClientModel { outbox: c.outbox + spec_frame_bytes(ContentType::UTF8, spec_duplicate_notice()), ..c }
    } else {
        c
    }
}

/// How many clients can currently be written to.
pub open spec fn count_open(s: Seq<ClientModel>) -> int
    decreases s.len(),
{
    if s.len() == 0 {
        0
    } else {
        count_open(s.drop_last()) + if s.last().open { 1int } else { 0int }
    }
}

/// The registry after a broadcast of `msg`: every client whose write
/// succeeds (its transport is open and the message can be framed) stays,
/// with the framed message queued; every client whose write fails is gone.
pub open spec fn spec_broadcast(s: Seq<ClientModel>, msg: Seq<u8>) -> Seq<ClientModel>
    decreases s.len(),
{
    if s.len() == 0 {
        Seq::empty()
    } else {
        let rest = spec_broadcast(s.drop_last(), msg);
        if s.last().open && msg.len() <= u32::MAX {
            rest.push(delivered(s.last(), msg))
        } else {
            rest
        }
    }
}

/// A broadcast never invents an address, and on a registry with unique
/// addresses it keeps them unique.
pub proof fn lemma_broadcast_unique(s: Seq<ClientModel>, msg: Seq<u8>)
    ensures
        forall|a: Address|
            #[trigger] contains_addr(spec_broadcast(s, msg), a) ==> contains_addr(s, a),
        addr_unique(s) ==> addr_unique(spec_broadcast(s, msg)),
    decreases s.len(),
{
    if s.len() > 0 {
        lemma_broadcast_unique(s.drop_last(), msg);
        let b = spec_broadcast(s, msg);
        let rest = spec_broadcast(s.drop_last(), msg);
        assert forall|a: Address| #[trigger] contains_addr(b, a) implies contains_addr(s, a) by {
            let k = choose|k: int| 0 <= k < b.len() && b[k].ip == a;
            if k < rest.len() {
                assert(contains_addr(rest, a));
                let i = choose|i: int| 0 <= i < s.drop_last().len() && s.drop_last()[i].ip == a;
                assert(s[i].ip == a);
            } else {
                assert(b[k] == delivered(s.last(), msg));
                assert(s[s.len() - 1].ip == a);
            }
        }
        if addr_unique(s) {
            assert(addr_unique(s.drop_last()));
            if s.last().open && msg.len() <= u32::MAX {
                assert forall|i: int, j: int| 0 <= i < j < b.len() implies b[i].ip != b[j].ip by {
                    if j < rest.len() {
                    } else {
                        assert(b[j] == delivered(s.last(), msg));
                        if b[i].ip == b[j].ip {
                            assert(contains_addr(rest, s.last().ip));
                            let k = choose|k: int|
                                0 <= k < s.drop_last().len() && s.drop_last()[k].ip == s.last().ip;
                            assert(s[k].ip == s[s.len() - 1].ip);
                        }
                    }
                }
            }
        }
    }
}

/// `c` is one of the writable clients of `s` with the framed message queued.
pub open spec fn delivered_from(s: Seq<ClientModel>, msg: Seq<u8>, c: ClientModel) -> bool {
    exists|i: int| 0 <= i < s.len() && s[i].open && c == delivered(s[i], msg)
}

/// A broadcast that can be framed keeps exactly the writable clients: the
/// survivors are as many as the writable clients were, each survivor is one
/// of them with the framed message queued, and every writable client
/// survives with the message queued.
pub proof fn lemma_broadcast_delivers(s: Seq<ClientModel>, msg: Seq<u8>)
    requires
        msg.len() <= u32::MAX,
    ensures
        spec_broadcast(s, msg).len() == count_open(s),
        forall|k: int|
            0 <= k < spec_broadcast(s, msg).len() ==> delivered_from(
                s,
                msg,
                #[trigger] spec_broadcast(s, msg)[k],
            ),
        forall|i: int|
            0 <= i < s.len() && (#[trigger] s[i]).open ==> spec_broadcast(s, msg).contains(
                delivered(s[i], msg),
            ),
    decreases s.len(),
{
    if s.len() > 0 {
        lemma_broadcast_delivers(s.drop_last(), msg);
        let b = spec_broadcast(s, msg);
        let rest = spec_broadcast(s.drop_last(), msg);
        assert forall|k: int| 0 <= k < b.len() implies delivered_from(s, msg, #[trigger] b[k]) by {
            if k < rest.len() {
                assert(delivered_from(s.drop_last(), msg, rest[k]));
                let i = choose|i: int|
                    0 <= i < s.drop_last().len() && s.drop_last()[i].open && rest[k] == delivered(
                        s.drop_last()[i],
                        msg,
                    );
                assert(s.drop_last()[i] == s[i]);
                assert(b[k] == rest[k]);
                assert(s[i].open && b[k] == delivered(s[i], msg));
            } else {
                assert(b[k] == delivered(s[s.len() - 1], msg));
                assert(s[s.len() - 1].open);
            }
        }
        assert forall|i: int| 0 <= i < s.len() && (#[trigger] s[i]).open implies b.contains(
            delivered(s[i], msg),
        ) by {
            if i < s.len() - 1 {
                assert(s.drop_last()[i] == s[i]);
                assert(rest.contains(delivered(s[i], msg)));
                let k = choose|k: int| 0 <= k < rest.len() && rest[k] == delivered(s[i], msg);
                assert(b[k] == delivered(s[i], msg));
            } else {
                assert(s.last().open);
                assert(b[b.len() - 1] == delivered(s[i], msg));
            }
        }
    }
}

/// The address-keyed map of currently connected, logged-in clients.
/// Exclusively owned by the hub; every mutation goes through one of the
/// methods below, in the order the hub receives its messages.
pub struct Registry {
    clients: Vec<Client>,
}

impl View for Registry {
    type V = Seq<ClientModel>;

    closed spec fn view(&self) -> Seq<ClientModel> {
        self.clients@.map_values(|c: Client| c@)
    }
}

impl Registry {
    /// Registries never hold two clients with one address.
    pub open spec fn wf(&self) -> bool {
        addr_unique(self@)
    }

    /// An empty registry.
    pub fn new() -> (r: Registry)
        ensures
            r.wf(),
            r@ == Seq::<ClientModel>::empty(),
    {
        let r = Registry { clients: Vec::new() };
        proof {
            assert(r@ =~= Seq::<ClientModel>::empty());
        }
        r
    }

    /// How many clients are registered.
    pub fn len(&self) -> (r: usize)
        ensures
            r == self@.len(),
    {
        self.clients.len()
    }

    /// Whether some client is registered at this address.
    pub fn contains(&self, addr: Address) -> (r: bool)
        ensures
            r == contains_addr(self@, addr),
    {
        match self.find(addr) {
            Some(_) => true,
            None => false,
        }
    }

    /// The index of the client at this address, if any.
    fn find(&self, addr: Address) -> (r: Option<usize>)
        ensures
            r matches Some(i) ==> i < self@.len() && self@[i as int].ip == addr,
            r is None ==> !contains_addr(self@, addr),
    {
        let n = self.clients.len();
        let mut i: usize = 0;
        while i < n
            invariant
                i <= n,
                n == self@.len(),
                forall|k: int| 0 <= k < i ==> self@[k].ip != addr,
            decreases n - i,
        {
            let c = &self.clients[i];
            if c.ip() == addr {
                return Some(i);
            }
            i = i + 1;
        }
        None
    }

    /// Registers a client.  A second client at an already-present address is
    /// refused: the registry is unchanged, and the rejected client is handed
    /// back with the duplicate notice queued for it (when its transport still
    /// accepts writes).  Otherwise the client is appended and owned here.
    pub fn register(&mut self, client: Client) -> (r: Option<Client>)
        requires
            old(self).wf(),
        ensures
            final(self).wf(),
            contains_addr(old(self)@, client@.ip) ==> final(self)@ == old(self)@ && (r matches Some(
                c,
            ) && c@ == rejected_client(client@)),
            !contains_addr(old(self)@, client@.ip) ==> r is None && final(self)@ == old(
                self,
            )@.push(client@),
    {
        let mut client = client;
        match self.find(client.ip()) {
            Some(_) => {
                let notice = duplicate_notice();
                let _ = client.write(notice.as_slice());
                Some(client)
            },
            None => {
                self.clients.push(client);
                proof {
                    assert(self@ =~= old(self)@.push(client@));
                }
                None
            },
        }
    }

    /// Forgets the client at this address.  Absent addresses are a no-op, so
    /// a drop is idempotent; afterwards the address is gone either way.
    pub fn remove(&mut self, addr: Address)
        requires
            old(self).wf(),
        ensures
            final(self).wf(),
            !contains_addr(old(self)@, addr) ==> final(self)@ == old(self)@,
            contains_addr(old(self)@, addr) ==> exists|i: int|
                0 <= i < old(self)@.len() && old(self)@[i].ip == addr && final(self)@ == old(
                    self,
                )@.remove(i),
            !contains_addr(final(self)@, addr),
    {
        match self.find(addr) {
            Some(i) => {
                let ghost gi = i as int;
                let _ = self.clients.remove(i);
                proof {
                    assert(self@ =~= old(self)@.remove(gi));
                    assert forall|j: int| 0 <= j < self@.len() implies self@[j].ip != addr by {
                        if j < gi {
                            assert(self@[j] == old(self)@[j]);
                        } else {
                            assert(self@[j] == old(self)@[j + 1]);
                        }
                    }
                }
            },
            None => {},
        }
    }

    /// Marks the client at this address as no longer writable, as the hub
    /// does when the transport behind it reports a failed write.
    pub fn mark_closed(&mut self, addr: Address)
        requires
            old(self).wf(),
        ensures
            final(self).wf(),
            !contains_addr(old(self)@, addr) ==> final(self)@ == old(self)@,
            contains_addr(old(self)@, addr) ==> exists|i: int|
                0 <= i < old(self)@.len() && old(self)@[i].ip == addr && final(self)@ == old(
                    self,
                )@.update(i, (ClientModel { open: false, ..old(self)@[i] })),
    {
        match self.find(addr) {
            Some(i) => {
                let ghost gi = i as int;
                let mut c = self.clients.remove(i);
                c.close();
                self.clients.insert(i, c);
                proof {
                    assert(self@ =~= old(self)@.update(
                        gi,
                        (ClientModel { open: false, ..old(self)@[gi] }),
                    ));
                    assert forall|x: int, y: int|
                        0 <= x < y < self@.len() implies self@[x].ip != self@[y].ip by {
                        assert(self@[x].ip == old(self)@[x].ip);
                        assert(self@[y].ip == old(self)@[y].ip);
                    }
                }
            },
            None => {},
        }
    }

    /// Hands the frame bytes queued for this address to the transport layer,
    /// leaving that client's outbox empty.
    pub fn take_outbox(&mut self, addr: Address) -> (r: Option<Vec<u8>>)
        requires
            old(self).wf(),
        ensures
            final(self).wf(),
            !contains_addr(old(self)@, addr) ==> final(self)@ == old(self)@ && r is None,
            contains_addr(old(self)@, addr) ==> r is Some && exists|i: int|
                0 <= i < old(self)@.len() && old(self)@[i].ip == addr && (r matches Some(v) && v@
                    == old(self)@[i].outbox) && final(self)@ == old(self)@.update(
                    i,
                    (ClientModel { outbox: Seq::<u8>::empty(), ..old(self)@[i] }),
                ),
    {
        match self.find(addr) {
            Some(i) => {
                let ghost gi = i as int;
                let mut c = self.clients.remove(i);
                let bytes = c.take_outbox();
                self.clients.insert(i, c);
                proof {
                    assert(self@ =~= old(self)@.update(
                        gi,
                        (ClientModel { outbox: Seq::<u8>::empty(), ..old(self)@[gi] }),
                    ));
                    assert forall|x: int, y: int|
                        0 <= x < y < self@.len() implies self@[x].ip != self@[y].ip by {
                        assert(self@[x].ip == old(self)@[x].ip);
                        assert(self@[y].ip == old(self)@[y].ip);
                    }
                }
                Some(bytes)
            },
            None => None,
        }
    }

    /// The addresses of all registered clients, in registration order.
    pub fn addresses(&self) -> (r: Vec<Address>)
        ensures
            r@.len() == self@.len(),
            forall|i: int| 0 <= i < r@.len() ==> r@[i] == self@[i].ip,
    {
        let n = self.clients.len();
        let mut out: Vec<Address> = Vec::new();
        let mut i: usize = 0;
        while i < n
            invariant
                i <= n,
                n == self@.len(),
                out@.len() == i,
                forall|k: int| 0 <= k < i ==> out@[k] == self@[k].ip,
            decreases n - i,
        {
            out.push(self.clients[i].ip());
            i = i + 1;
        }
        out
    }

    /// Queues `msg`, framed, for every registered client, sweeping the whole
    /// registry: a client whose write fails is removed after the sweep, and a
    /// failure never stops delivery to the remaining clients.  Every client
    /// receives the message; there is no self-exclusion.
    pub fn broadcast(&mut self, msg: &Vec<u8>)
        requires
            old(self).wf(),
        ensures
            final(self).wf(),
            final(self)@ == spec_broadcast(old(self)@, msg@),
    {
        let ghost orig = old(self)@;
        let mut pending: Vec<Client> = Vec::new();
        core::mem::swap(&mut pending, &mut self.clients);
        proof {
            assert(self@ =~= Seq::<ClientModel>::empty());
            assert(orig.take(0) =~= Seq::<ClientModel>::empty());
        }
        while pending.len() > 0
            invariant
                pending@.len() <= orig.len(),
                pending@.map_values(|c: Client| c@) == orig.skip(orig.len() - pending@.len()),
                self@ == spec_broadcast(orig.take(orig.len() - pending@.len()), msg@),
            decreases pending@.len(),
        {
            let ghost j = orig.len() - pending@.len();
            let ghost prev = pending@;
            let mut c = pending.remove(0);
            proof {
                assert(prev.map_values(|c: Client| c@)[0] == prev[0]@);
                assert(orig.skip(j)[0] == orig[j]);
                assert(c@ == orig[j]);
                assert forall|k: int|
                    0 <= k < pending@.len() implies pending@.map_values(|c: Client| c@)[k] == #[trigger] orig.skip(
                    j + 1,
                )[k] by {
                    assert(pending@[k] == prev[k + 1]);
                    assert(prev.map_values(|c: Client| c@)[k + 1] == prev[k + 1]@);
                    assert(orig.skip(j)[k + 1] == orig[j + 1 + k]);
                    assert(orig.skip(j + 1)[k] == orig[j + 1 + k]);
                }
                assert(pending@.map_values(|c: Client| c@) =~= orig.skip(j + 1));
            }
            let wrote = c.write(msg.as_slice());
            proof {
                assert(orig.take(j + 1).drop_last() =~= orig.take(j));
                assert(orig.take(j + 1).last() == orig[j]);
            }
            match wrote {
                Ok(()) => {
                    self.clients.push(c);
                    proof {
                        assert(self@ =~= spec_broadcast(orig.take(j), msg@).push(
                            delivered(orig[j], msg@),
                        ));
                    }
                },
                Err(_) => {},
            }
        }
        proof {
            assert(orig.take(orig.len() as int) =~= orig);
            lemma_broadcast_unique(orig, msg@);
        }
    }

    /// One step of the hub: applies a control message in arrival order.  The
    /// result is the rejected client of a duplicate registration, which the
    /// connection layer notifies and disposes of; every other message yields
    /// nothing.
    pub fn apply(&mut self, msg: Message) -> (r: Option<Client>)
        requires
            old(self).wf(),
        ensures
            final(self).wf(),
            (msg matches Message::Broadcast(m) ==> final(self)@ == spec_broadcast(old(self)@, m@)
                && r is None),
            (msg matches Message::NewClient(c) ==> {
                &&& contains_addr(old(self)@, c@.ip) ==> final(self)@ == old(self)@ && (
                r matches Some(rc) && rc@ == rejected_client(c@))
                &&& !contains_addr(old(self)@, c@.ip) ==> r is None && final(self)@ == old(
                    self,
                )@.push(c@)
            }),
            (msg matches Message::Drop(a) ==> r is None && !contains_addr(final(self)@, a) && {
                &&& !contains_addr(old(self)@, a) ==> final(self)@ == old(self)@
                &&& contains_addr(old(self)@, a) ==> exists|i: int|
                    0 <= i < old(self)@.len() && old(self)@[i].ip == a && final(self)@ == old(
                        self,
                    )@.remove(i)
            }),
    {
        match msg {
            Message::Broadcast(m) => {
                self.broadcast(&m);
                None
            },
            Message::NewClient(c) => self.register(c),
            Message::Drop(a) => {
                self.remove(a);
                None
            },
        }
    }
}

} // verus!
