use vstd::prelude::*;

verus! {

/// What taking from a pool whose idle connections are `s` (oldest first)
/// leaves behind, and which connection it hands out: the newest one.
pub open spec fn take_spec<C>(s: Seq<C>) -> (Seq<C>, Option<C>) {
    if s.len() == 0 {
        (s, None)
    } else {
        (s.drop_last(), Some(s.last()))
    }
}

/// The idle connections that one agent has opened for one endpoint.
/// Connections are handed out newest first; a connection that has been
/// taken is owned by its taker and never comes back.
pub struct Client<C> {
    available_sockets: Vec<C>,
}

impl<C> View for Client<C> {
    type V = Seq<C>;

    /// The idle connections, oldest first.
    closed spec fn view(&self) -> Seq<C> {
        self.available_sockets@
    }
}

impl<C> Client<C> {
    /// An empty pool.
    pub fn new() -> (r: Self)
        ensures
            r@ == Seq::<C>::empty(),
    {
        Client { available_sockets: Vec::new() }
    }

    /// Adds a freshly accepted connection; it is the next one handed out.
    pub fn push(&mut self, socket: C)
        ensures
            final(self)@ == old(self)@.push(socket),
    {
        self.available_sockets.push(socket);
    }

    /// Removes and returns the most recently pushed connection, or `None`
    /// when no connection is idle.
    pub fn take(&mut self) -> (r: Option<C>)
        ensures
            (final(self)@, r) == take_spec(old(self)@),
    {
        self.available_sockets.pop()
    }

    /// The number of idle connections.
    pub fn idle_count(&self) -> (r: usize)
        ensures
            r == self@.len(),
    {
        self.available_sockets.len()
    }
}

/// Connections come out in the reverse of the order they went in: after
/// pushing `c1`, `c2`, `c3` onto any pool, three takes yield `c3`, `c2`,
/// `c1` and leave the pool as it was.
pub proof fn lemma_take_reverses_push<C>(s: Seq<C>, c1: C, c2: C, c3: C)
    ensures
        ({
            let (s1, r1) = take_spec(s.push(c1).push(c2).push(c3));
            let (s2, r2) = take_spec(s1);
            let (s3, r3) = take_spec(s2);
            r1 == Some(c3) && r2 == Some(c2) && r3 == Some(c1) && s3 == s
        }),
{
    assert(s.push(c1).push(c2).push(c3).drop_last() =~= s.push(c1).push(c2));
    assert(s.push(c1).push(c2).drop_last() =~= s.push(c1));
    assert(s.push(c1).drop_last() =~= s);
}

} // verus!
