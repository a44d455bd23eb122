use vstd::prelude::*;
use std::rc::Rc;

verus! {

/// The clients of the RPC servers, handed out in turn.
pub struct RpcClients<C> {
    clients: Vec<Rc<C>>,
    last_index: usize,
    calls: Ghost<nat>,
}

/// The index of the client handed out after the one at `i`, of `n`.
pub open spec fn next_index(i: int, n: int) -> int {
    (i + 1) % n
}

/// The index handed out `k` calls after the one at `i`, of `n`.
pub open spec fn index_after(i: int, n: int, k: nat) -> int
    decreases k,
{
    if k == 0 {
        i
    } else {
        next_index(index_after(i, n, (k - 1) as nat), n)
    }
}

impl<C> RpcClients<C> {
    #[verifier::type_invariant]
    closed spec fn inv(self) -> bool {
        &&& self.clients@.len() == 0 ==> self.last_index == 0
        &&& self.clients@.len() > 0 ==> self.last_index < self.clients@.len()
        &&& self.clients@.len() > 0 ==> self.last_index == self.calls@ % (self.clients@.len() as nat)
    }

    /// How many clients have been handed out.
    pub closed spec fn calls(&self) -> nat {
        self.calls@
    }

    /// The clients, in the order in which they were given.
    pub closed spec fn clients(&self) -> Seq<C> {
        self.clients@.map_values(|c: Rc<C>| *c)
    }

    /// The index of the client handed out last (0 before the first).
    pub closed spec fn last(&self) -> int {
        self.last_index as int
    }

    /// The clients, with none handed out yet.
    pub fn new(clients: Vec<C>) -> (r: RpcClients<C>)
        ensures
            r.clients() == clients@,
            r.last() == 0,
            r.calls() == 0,
    {
        let mut shared: Vec<Rc<C>> = Vec::new();
        let mut rest = clients;
        let ghost all = rest@;
        let mut taken: Vec<C> = Vec::new();
        while rest.len() > 0
            invariant
                shared@.len() + rest@.len() == all.len(),
                rest@ == all.subrange(shared@.len() as int, all.len() as int),
                forall|i: int| 0 <= i < shared@.len() ==> *(#[trigger] shared@[i]) == all[i],
            decreases rest@.len(),
        {
            let c = rest.remove(0);
            shared.push(Rc::new(c));
            assert(rest@ =~= all.subrange(shared@.len() as int, all.len() as int));
        }
        proof {
            if shared@.len() > 0 {
                vstd::arithmetic::div_mod::lemma_small_mod(0, shared@.len() as nat);
            }
        }
        let r = RpcClients { clients: shared, last_index: 0, calls: Ghost(0) };
        assert(r.clients() =~= all);
        r
    }

    /// The next client in turn: the one after the client handed out last,
    /// going round to the first after the last.
    pub fn get(&mut self) -> (c: Rc<C>)
        requires
            old(self).clients().len() > 0,
        ensures
            final(self).clients() == old(self).clients(),
            final(self).last() == next_index(old(self).last(), old(self).clients().len() as int),
            *c == final(self).clients()[final(self).last()],
            final(self).calls() == old(self).calls() + 1,
            *c == old(self).clients()[(final(self).calls() % (old(self).clients().len() as nat)) as int],
    {
        proof {
            use_type_invariant(&*self);
        }
        let n = self.clients.len();
        let next = (self.last_index + 1) % n;
        proof {
            let k = self.calls@;
            let nn = n as nat;
            assert((k % nn + 1) % nn == (k + 1) % nn) by {
                vstd::arithmetic::div_mod::lemma_add_mod_noop(k as int, 1, nn as int);
                vstd::arithmetic::div_mod::lemma_mod_twice(k as int, nn as int);
                if nn > 1 {
                    vstd::arithmetic::div_mod::lemma_small_mod(1, nn);
                } else {
                    vstd::arithmetic::div_mod::lemma_mod_self_0(1);
                }
            }
        }
        advance(&mut self.last_index, &mut self.calls, next);
        self.clients[next].clone()
    }
}

/// Moves the index of the client handed out last to `next`, counting one
/// more call.
fn advance(last_index: &mut usize, calls: &mut Ghost<nat>, next: usize)
    ensures
        *final(last_index) == next,
        final(calls)@ == old(calls)@ + 1,
    no_unwind
{
    *last_index = next;
    *calls = Ghost(calls@ + 1);
}

/// Handing out clients in turn from the one at `i` of `n`, the `k`-th call
/// hands out the client at `(i + k) % n`.
pub proof fn lemma_round_robin(i: int, n: int, k: nat)
    requires
        0 <= i < n,
    ensures
        index_after(i, n, k) == (i + k) % n,
    decreases k,
{
    if k > 0 {
        lemma_round_robin(i, n, (k - 1) as nat);
        let p = (i + k - 1) % n;
        assert((p + 1) % n == (i + k) % n) by (nonlinear_arith)
            requires
                p == (i + k - 1) % n,
                n > 0,
                k > 0,
                i >= 0,
        ;
        assert(index_after(i, n, k) == next_index(index_after(i, n, (k - 1) as nat), n));
    } else {
        assert(i % n == i) by (nonlinear_arith)
            requires
                0 <= i < n,
        ;
    }
}

/// Any `n` calls in a row, from any client of `n`, hand out every client.
pub proof fn lemma_round_robin_covers(i: int, n: int, j: int)
    requires
        0 <= i < n,
        0 <= j < n,
    ensures
        exists|k: nat| 1 <= k <= n && #[trigger] index_after(i, n, k) == j,
{
    let k: nat = if j > i {
        (j - i) as nat
    } else {
        (j - i + n) as nat
    };
    lemma_round_robin(i, n, k);
    assert((i + k) % n == j) by (nonlinear_arith)
        requires
            0 <= i < n,
            0 <= j < n,
            k == if j > i { j - i } else { j - i + n },
    ;
}

} // verus!
