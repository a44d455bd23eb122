use vstd::prelude::*;
use std::sync::Arc;
use rand::rngs::ThreadRng;
use crate::pubkey::Pubkey;
use crate::rng::next_u32;

verus! {

/// An account that the load generator created through the program: its
/// address, the seed it was derived from, and its size in bytes.
pub struct Account {
    pub address: Pubkey,
    pub seed: Vec<u8>,
    pub size: u16,
}

/// No two entries share an address.
pub open spec fn unique_keys(s: Seq<Arc<Account>>) -> bool {
    forall|i: int, j: int|
        0 <= i < s.len() && 0 <= j < s.len() && i != j ==> #[trigger] s[i].address@ != #[trigger] s[j].address@
}

pub open spec fn has_key(s: Seq<Arc<Account>>, k: Seq<u8>) -> bool {
    exists|i: int| 0 <= i < s.len() && #[trigger] s[i].address@ == k
}

pub open spec fn key_position(s: Seq<Arc<Account>>, k: Seq<u8>) -> int {
    choose|i: int| 0 <= i < s.len() && #[trigger] s[i].address@ == k
}

pub open spec fn with_account(m: Map<Seq<u8>, Account>, a: Arc<Account>) -> Map<Seq<u8>, Account> {
    m.insert(a.address@, *a)
}

/// The map from address to account that a list of accounts with distinct
/// addresses stands for.
pub open spec fn account_set(s: Seq<Arc<Account>>) -> Map<Seq<u8>, Account> {
    Map::new(|k: Seq<u8>| has_key(s, k), |k: Seq<u8>| *s[key_position(s, k)])
}

proof fn lemma_set_at(s: Seq<Arc<Account>>, i: int)
    requires
        unique_keys(s),
        0 <= i < s.len(),
    ensures
        account_set(s).contains_key(s[i].address@),
        account_set(s)[s[i].address@] == *s[i],
{
    let k = s[i].address@;
    assert(has_key(s, k));
    let j = key_position(s, k);
    assert(0 <= j < s.len() && s[j].address@ == k);
    assert(j == i);
}

proof fn lemma_set_update(s: Seq<Arc<Account>>, i: int, a: Arc<Account>)
    requires
        unique_keys(s),
        0 <= i < s.len(),
        a.address@ == s[i].address@,
    ensures
        unique_keys(s.update(i, a)),
        account_set(s.update(i, a)) == account_set(s).insert(a.address@, *a),
{
    let t = s.update(i, a);
    assert(unique_keys(t)) by {
        assert forall|x: int, y: int|
            0 <= x < t.len() && 0 <= y < t.len() && x != y implies #[trigger] t[x].address@
            != #[trigger] t[y].address@ by {
            assert(t[x].address@ == s[x].address@);
            assert(t[y].address@ == s[y].address@);
        }
    }
    let m = with_account(account_set(s), a);
    assert forall|k: Seq<u8>| #[trigger] account_set(t).contains_key(k) <==> m.contains_key(k) by {
        if has_key(t, k) {
            let x = choose|x: int| 0 <= x < t.len() && #[trigger] t[x].address@ == k;
            assert(s[x].address@ == k);
        }
        if has_key(s, k) {
            let x = choose|x: int| 0 <= x < s.len() && #[trigger] s[x].address@ == k;
            assert(t[x].address@ == k);
        }
        if k == a.address@ {
            assert(t[i].address@ == k);
        }
    }
    assert forall|k: Seq<u8>| #[trigger] account_set(t).contains_key(k) implies account_set(t)[k]
        == m[k] by {
        let x = choose|x: int| 0 <= x < t.len() && #[trigger] t[x].address@ == k;
        lemma_set_at(t, x);
        if x != i {
            lemma_set_at(s, x);
        }
    }
    assert(account_set(t) =~= m);
}

proof fn lemma_set_push(s: Seq<Arc<Account>>, a: Arc<Account>)
    requires
        unique_keys(s),
        !account_set(s).contains_key(a.address@),
    ensures
        unique_keys(s.push(a)),
        account_set(s.push(a)) == account_set(s).insert(a.address@, *a),
{
    let t = s.push(a);
    assert(unique_keys(t)) by {
        assert forall|x: int, y: int|
            0 <= x < t.len() && 0 <= y < t.len() && x != y implies #[trigger] t[x].address@
            != #[trigger] t[y].address@ by {
            if x == s.len() {
                assert(!has_key(s, a.address@));
                assert(s[y].address@ == t[y].address@);
            } else if y == s.len() {
                assert(!has_key(s, a.address@));
                assert(s[x].address@ == t[x].address@);
            }
        }
    }
    let m = with_account(account_set(s), a);
    assert forall|k: Seq<u8>| #[trigger] account_set(t).contains_key(k) <==> m.contains_key(k) by {
        if has_key(t, k) {
            let x = choose|x: int| 0 <= x < t.len() && #[trigger] t[x].address@ == k;
            if x < s.len() {
                assert(s[x].address@ == k);
            }
        }
        if has_key(s, k) {
            let x = choose|x: int| 0 <= x < s.len() && #[trigger] s[x].address@ == k;
            assert(t[x].address@ == k);
        }
        if k == a.address@ {
            assert(t[s.len() as int].address@ == k);
        }
    }
    assert forall|k: Seq<u8>| #[trigger] account_set(t).contains_key(k) implies account_set(t)[k]
        == m[k] by {
        let x = choose|x: int| 0 <= x < t.len() && #[trigger] t[x].address@ == k;
        lemma_set_at(t, x);
        if x < s.len() {
            lemma_set_at(s, x);
        }
    }
    assert(account_set(t) =~= m);
}

proof fn lemma_set_swap_remove(s: Seq<Arc<Account>>, i: int)
    requires
        unique_keys(s),
        0 <= i < s.len(),
    ensures
        unique_keys(s.update(i, s.last()).drop_last()),
        account_set(s.update(i, s.last()).drop_last()) == account_set(s).remove(s[i].address@),
{
    let t = s.update(i, s.last()).drop_last();
    let gone = s[i].address@;
    // every entry of t is an entry of s at a position other than i
    assert forall|x: int| 0 <= x < t.len() implies #[trigger] t[x] == s[if x == i { s.len() - 1 } else { x }] by {}
    assert(unique_keys(t)) by {
        assert forall|x: int, y: int|
            0 <= x < t.len() && 0 <= y < t.len() && x != y implies #[trigger] t[x].address@
            != #[trigger] t[y].address@ by {
            let px = if x == i { s.len() - 1 } else { x };
            let py = if y == i { s.len() - 1 } else { y };
            assert(t[x] == s[px]);
            assert(t[y] == s[py]);
        }
    }
    let m = account_set(s).remove(gone);
    assert forall|k: Seq<u8>| #[trigger] account_set(t).contains_key(k) <==> m.contains_key(k) by {
        if has_key(t, k) {
            let x = choose|x: int| 0 <= x < t.len() && #[trigger] t[x].address@ == k;
            let px = if x == i { s.len() - 1 } else { x };
            assert(t[x] == s[px]);
            assert(s[px].address@ == k);
            assert(px != i);
        }
        if has_key(s, k) && k != gone {
            let x = choose|x: int| 0 <= x < s.len() && #[trigger] s[x].address@ == k;
            assert(x != i);
            if x == s.len() - 1 {
                assert(t[i].address@ == k);
            } else {
                assert(t[x].address@ == k);
            }
        }
    }
    assert forall|k: Seq<u8>| #[trigger] account_set(t).contains_key(k) implies account_set(t)[k]
        == m[k] by {
        let x = choose|x: int| 0 <= x < t.len() && #[trigger] t[x].address@ == k;
        let px = if x == i { s.len() - 1 } else { x };
        assert(t[x] == s[px]);
        lemma_set_at(t, x);
        lemma_set_at(s, px);
    }
    assert(account_set(t) =~= m);
}

proof fn lemma_set_len(s: Seq<Arc<Account>>)
    requires
        unique_keys(s),
    ensures
        account_set(s).dom().finite(),
        account_set(s).dom().len() == s.len(),
{
    let keys = s.map_values(|a: Arc<Account>| a.address@);
    assert(keys.no_duplicates()) by {
        assert forall|i: int, j: int| 0 <= i < keys.len() && 0 <= j < keys.len() && i != j implies keys[i]
            != keys[j] by {
            assert(keys[i] == s[i].address@);
            assert(keys[j] == s[j].address@);
        }
    }
    assert(account_set(s).dom() =~= keys.to_set()) by {
        assert forall|k: Seq<u8>| account_set(s).dom().contains(k) <==> keys.to_set().contains(k) by {
            if has_key(s, k) {
                let x = choose|x: int| 0 <= x < s.len() && #[trigger] s[x].address@ == k;
                assert(keys[x] == k);
            }
            if keys.contains(k) {
                let x = choose|x: int| 0 <= x < keys.len() && keys[x] == k;
                assert(s[x].address@ == k);
            }
        }
    }
    keys.unique_seq_to_set();
    vstd::seq_lib::seq_to_set_is_finite(keys);
}

fn find_position(entries: &Vec<Arc<Account>>, key: &Pubkey) -> (r: Option<usize>)
    ensures
        match r {
            Some(i) => i < entries@.len() && entries@[i as int].address@ == key@,
            None => !has_key(entries@, key@),
        },
{
    let mut i: usize = 0;
    while i < entries.len()
        invariant
            i <= entries@.len(),
            forall|j: int| 0 <= j < i ==> entries@[j].address@ != key@,
        decreases entries@.len() - i,
    {
        if entries[i].address.same_as(key) {
            return Some(i);
        }
        i = i + 1;
    }
    None
}

/// The accounts that the load generator has created and not yet deleted,
/// each address once.
pub struct Accounts {
    map: Vec<Arc<Account>>,
}

impl View for Accounts {
    type V = Map<Seq<u8>, Account>;

    closed spec fn view(&self) -> Map<Seq<u8>, Account> {
        account_set(self.map@)
    }
}

impl Accounts {
    #[verifier::type_invariant]
    closed spec fn inv(self) -> bool {
        unique_keys(self.map@)
    }

    pub fn new() -> (a: Accounts)
        ensures
            a@ == Map::<Seq<u8>, Account>::empty(),
    {
        let a = Accounts { map: Vec::new() };
        assert(a@ =~= Map::<Seq<u8>, Account>::empty());
        a
    }

    /// The number of accounts.
    pub fn count(&self) -> (n: usize)
        ensures
            self@.dom().finite(),
            n == self@.dom().len(),
            n == self.entries().len(),
    {
        proof {
            use_type_invariant(self);
            lemma_set_len(self.map@);
        }
        self.map.len()
    }

    /// Records a newly created account.
    pub fn add_new_account(&mut self, account: Account)
        ensures
            final(self)@ == old(self)@.insert(account.address@, account),
    {
        self.add_existing_account(Arc::new(account));
    }

    /// Records an account, replacing any recorded under the same address.
    pub fn add_existing_account(&mut self, rc: Arc<Account>)
        ensures
            final(self)@ == old(self)@.insert(rc.address@, *rc),
    {
        proof {
            use_type_invariant(&*self);
        }
        let mut entries: Vec<Arc<Account>> = Vec::new();
        std::mem::swap(&mut entries, &mut self.map);
        match find_position(&entries, &rc.address) {
            Some(i) => {
                proof {
                    lemma_set_update(entries@, i as int, rc);
                }
                entries.set(i, rc);
            },
            None => {
                proof {
                    lemma_set_push(entries@, rc);
                }
                entries.push(rc);
            },
        }
        self.map = entries;
    }

    /// The accounts, in the order in which they are kept (the order that
    /// random picks index).
    pub closed spec fn entries(&self) -> Seq<Account> {
        self.map@.map_values(|a: Arc<Account>| *a)
    }

    /// The account that the random number `draw` picks: the one at `draw`
    /// modulo their number, in the order kept; none where there is none.
    pub fn account_at(&self, draw: u32) -> (a: Option<Arc<Account>>)
        ensures
            a is None <==> self.entries().len() == 0,
            a matches Some(acc) ==> *acc == self.entries()[(draw as int) % (self.entries().len() as int)],
            a matches Some(acc) ==> self@.contains_key(acc.address@) && self@[acc.address@] == *acc,
    {
        proof {
            use_type_invariant(self);
        }
        let len = self.map.len();
        if len == 0 {
            None
        } else {
            let i = (draw as usize) % len;
            proof {
                lemma_set_at(self.map@, i as int);
            }
            Some(self.map[i].clone())
        }
    }

    /// Removes the account that the random number `draw` picks (see
    /// `account_at`) and hands it out; the last account kept takes its
    /// place. None, and nothing changes, where there is no account.
    pub fn take_account_at(&mut self, draw: u32) -> (a: Option<Arc<Account>>)
        ensures
            a is None <==> old(self).entries().len() == 0,
            a is None ==> final(self)@ == old(self)@ && final(self).entries() == old(self).entries(),
            a matches Some(acc) ==> {
                let i = (draw as int) % (old(self).entries().len() as int);
                &&& *acc == old(self).entries()[i]
                &&& final(self).entries() == old(self).entries().update(i, old(self).entries().last()).drop_last()
                &&& old(self)@.contains_key(acc.address@) && old(self)@[acc.address@] == *acc
                &&& final(self)@ == old(self)@.remove(acc.address@)
            },
    {
        proof {
            use_type_invariant(&*self);
        }
        let len = self.map.len();
        if len == 0 {
            return None;
        }
        let i = (draw as usize) % len;
        let mut entries: Vec<Arc<Account>> = Vec::new();
        std::mem::swap(&mut entries, &mut self.map);
        proof {
            lemma_set_at(entries@, i as int);
            lemma_set_swap_remove(entries@, i as int);
        }
        let ghost before = entries@;
        let taken = entries.swap_remove(i);
        self.map = entries;
        assert(self.map@.map_values(|a: Arc<Account>| *a) =~= before.map_values(|a: Arc<Account>| *a).update(
            i as int,
            before.map_values(|a: Arc<Account>| *a).last(),
        ).drop_last());
        Some(taken)
    }

    /// One of the accounts, picked at random as `account_at` says; none
    /// where there is no account.
    pub fn get_random_account(&mut self, rng: &mut ThreadRng) -> (a: Option<Arc<Account>>)
        ensures
            final(self)@ == old(self)@,
            final(self).entries() == old(self).entries(),
            a is None <==> old(self)@.dom().len() == 0,
            a matches Some(acc) ==> old(self)@.contains_key(acc.address@) && old(self)@[acc.address@] == *acc,
            a matches Some(acc) ==> exists|draw: u32| *acc == #[trigger] drawn_entry(old(self).entries(), draw),
    {
        proof {
            use_type_invariant(&*self);
            lemma_entries(&*self);
        }
        if self.map.len() == 0 {
            return None;
        }
        let draw = next_u32(rng);
        let a = self.account_at(draw);
        proof {
            if a is Some {
                assert(*a->0 == drawn_entry(self.entries(), draw));
            }
        }
        a
    }

    /// Removes one of the accounts, picked at random as `take_account_at`
    /// says, and hands it out; none where there is no account.
    pub fn take_random_account(&mut self, rng: &mut ThreadRng) -> (a: Option<Arc<Account>>)
        ensures
            a is None <==> old(self)@.dom().len() == 0,
            a is None ==> final(self)@ == old(self)@,
            a matches Some(acc) ==> old(self)@.contains_key(acc.address@) && old(self)@[acc.address@] == *acc
                && final(self)@ == old(self)@.remove(acc.address@),
            a matches Some(acc) ==> exists|draw: u32| *acc == #[trigger] drawn_entry(old(self).entries(), draw),
    {
        proof {
            use_type_invariant(&*self);
            lemma_entries(&*self);
        }
        if self.map.len() == 0 {
            return None;
        }
        let draw = next_u32(rng);
        let ghost before = self.entries();
        let a = self.take_account_at(draw);
        proof {
            if a is Some {
                assert(*a->0 == drawn_entry(before, draw));
            }
        }
        a
    }
}

proof fn lemma_entries(a: &Accounts)
    requires
        unique_keys(a.map@),
    ensures
        a@.dom().finite(),
        a.entries().len() == a@.dom().len(),
        forall|i: int|
            0 <= i < a.entries().len() ==> a@.contains_key(#[trigger] a.entries()[i].address@)
                && a@[a.entries()[i].address@] == a.entries()[i],
{
    lemma_set_len(a.map@);
    assert forall|i: int| 0 <= i < a.entries().len() implies a@.contains_key(
        #[trigger] a.entries()[i].address@,
    ) && a@[a.entries()[i].address@] == a.entries()[i] by {
        lemma_set_at(a.map@, i);
    }
}

/// The entry of `s` that the random number `draw` picks: the one at `draw`
/// modulo their number.
pub open spec fn drawn_entry(s: Seq<Account>, draw: u32) -> Account {
    s[(draw as int) % (s.len() as int)]
}

} // verus!
