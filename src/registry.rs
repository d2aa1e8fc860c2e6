use vstd::prelude::*;

verus! {

/// What registering `name` with a freshly bound `port` and `handle` does to a
/// registry `m`, and the port the agent is told to dial. A name already
/// present keeps its entry, and its own port is returned.
pub open spec fn put_spec<H>(m: Map<Seq<char>, (u16, H)>, name: Seq<char>, port: u16, handle: H) -> (
    Map<Seq<char>, (u16, H)>,
    u16,
) {
    if m.contains_key(name) {
        (m, m[name].0)
    } else {
        (m.insert(name, (port, handle)), port)
    }
}

/// One registered endpoint: its name, the port its agent dials, and the
/// handle through which its connections are reached.
struct Entry<H> {
    name: String,
    port: u16,
    handle: H,
}

/// The endpoint registry: at most one entry per endpoint name, created on
/// first registration and never replaced.
pub struct ClientManager<H> {
    clients: Vec<Entry<H>>,
}

impl<H> ClientManager<H> {
    /// No two entries share a name.
    #[verifier::type_invariant]
    spec fn wf(self) -> bool {
        forall|i: int, j: int|
            0 <= i < j < self.clients@.len() ==> self.clients@[i].name@ != self.clients@[j].name@
    }

    spec fn index_of(&self, name: Seq<char>) -> int {
        choose|i: int| 0 <= i < self.clients@.len() && self.clients@[i].name@ == name
    }

    /// The registry as a map from endpoint name to port and handle.
    pub closed spec fn view(&self) -> Map<Seq<char>, (u16, H)> {
        Map::new(
            |name: Seq<char>|
                exists|i: int| 0 <= i < self.clients@.len() && self.clients@[i].name@ == name,
            |name: Seq<char>|
                {
                    let e = self.clients@[self.index_of(name)];
                    (e.port, e.handle)
                },
        )
    }

    /// An empty registry.
    pub fn new() -> (r: Self)
        ensures
            r@ == Map::<Seq<char>, (u16, H)>::empty(),
    {
        let r = ClientManager { clients: Vec::new() };
        assert(r@ =~= Map::<Seq<char>, (u16, H)>::empty());
        r
    }

    /// The position of the entry named `name`, if there is one.
    fn find(&self, name: &String) -> (r: Option<usize>)
        ensures
            match r {
                Some(i) => i < self.clients@.len() && self.clients@[i as int].name@ == name@
                    && self.index_of(name@) == i,
                None => !self@.contains_key(name@),
            },
    {
        proof {
            use_type_invariant(self);
        }
        let mut i: usize = 0;
        while i < self.clients.len()
            invariant
                self.wf(),
                i <= self.clients@.len(),
                forall|j: int| 0 <= j < i ==> self.clients@[j].name@ != name@,
            decreases self.clients@.len() - i,
        {
            if self.clients[i].name == *name {
                proof {
                    let k = self.index_of(name@);
                    assert(0 <= i < self.clients@.len() && self.clients@[i as int].name@ == name@);
                    assert(self.clients@[k].name@ == name@);
                    assert(k == i as int);
                }
                return Some(i);
            }
            i = i + 1;
        }
        None
    }

    /// The port and handle registered under `name`, or `None` for an
    /// unknown name.
    pub fn get(&self, name: &String) -> (r: Option<(u16, &H)>)
        ensures
            match r {
                Some((port, handle)) => self@.contains_key(name@) && self@[name@] == (port, *handle),
                None => !self@.contains_key(name@),
            },
    {
        match self.find(name) {
            Some(i) => Some((self.clients[i].port, &self.clients[i].handle)),
            None => None,
        }
    }

    /// Registers `url` with the port its listener was bound to and the
    /// handle of its pool, unless `url` is registered already, in which case
    /// the registry is left as it was. Returns the port that agents for
    /// `url` dial (the existing one, or `port`) and whether `url` was new,
    /// that is whether the listener bound on `port` is the one in use.
    pub fn put(&mut self, url: String, port: u16, handle: H) -> (r: (u16, bool))
        ensures
            (final(self)@, r.0) == put_spec(old(self)@, url@, port, handle),
            r.1 == !old(self)@.contains_key(url@),
    {
        proof {
            use_type_invariant(&*self);
        }
        match self.find(&url) {
            Some(i) => (self.clients[i].port, false),
            None => {
                let ghost before = self@;
                let ghost oldc = self.clients@;
                let ghost name = url@;
                let ghost after = before.insert(name, (port, handle));
                let mut clients = Vec::new();
                std::mem::swap(&mut self.clients, &mut clients);
                clients.push(Entry { name: url, port, handle });
                let ghost last = oldc.len() as int;
                assert forall|i: int, j: int|
                    0 <= i < j < clients@.len() implies clients@[i].name@ != clients@[j].name@ by {
                    if j == last {
                        assert(oldc[i].name@ == clients@[i].name@);
                        if oldc[i].name@ == name {
                            assert(before.contains_key(name));
                        }
                    } else {
                        assert(oldc[i] == clients@[i] && oldc[j] == clients@[j]);
                    }
                }
                std::mem::swap(&mut self.clients, &mut clients);
                assert(self.clients@[last].name@ == name);
                assert forall|k: Seq<char>| #[trigger] self@.contains_key(k) == after.contains_key(k) by {
                    if k == name {
                        assert(self.clients@[last].name@ == name);
                    } else {
                        if self@.contains_key(k) {
                            let i = choose|i: int| 0 <= i < self.clients@.len() && self.clients@[i].name@ == k;
                            assert(i != last);
                            assert(oldc[i].name@ == k);
                        }
                        if before.contains_key(k) {
                            let i = choose|i: int| 0 <= i < oldc.len() && oldc[i].name@ == k;
                            assert(self.clients@[i].name@ == k);
                        }
                    }
                }
                assert forall|k: Seq<char>| #[trigger] self@.contains_key(k) implies self@[k] == after[k] by {
                    let i = self.index_of(k);
                    if k == name {
                        assert(i == last);
                    } else {
                        let j = choose|j: int| 0 <= j < oldc.len() && oldc[j].name@ == k;
                        assert(self.clients@[j].name@ == k);
                        assert(i != last);
                        assert(i == j);
                    }
                }
                assert(self@ =~= before.insert(name, (port, handle)));
                (port, true)
            },
        }
    }
}

/// Registration is idempotent: registering a name a second time, with any
/// other port and handle, leaves the registry as the first registration left
/// it and returns the same port. This holds whichever of two concurrent
/// registrations of one name reaches the registry first.
pub proof fn lemma_put_idempotent<H>(
    m: Map<Seq<char>, (u16, H)>,
    name: Seq<char>,
    port1: u16,
    handle1: H,
    port2: u16,
    handle2: H,
)
    ensures
        ({
            let (m1, r1) = put_spec(m, name, port1, handle1);
            let (m2, r2) = put_spec(m1, name, port2, handle2);
            m2 == m1 && r2 == r1
        }),
{
}

} // verus!
