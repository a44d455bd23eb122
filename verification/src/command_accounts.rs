use vstd::prelude::*;
use crate::pubkey::Pubkey;

verus! {

/// An account that a command touches, with whether the command writes it and
/// whether it must sign.
#[derive(Clone, Copy)]
pub struct CommandAccount {
    pub address: Pubkey,
    pub is_write: bool,
    pub is_signer: bool,
}

/// How an instruction names one of its accounts.
#[derive(Clone, Copy)]
pub struct AccountMeta {
    pub pubkey: Pubkey,
    pub is_signer: bool,
    pub is_writable: bool,
}

impl AccountMeta {
    /// A writable account.
    pub fn new(pubkey: Pubkey, is_signer: bool) -> (m: AccountMeta)
        ensures
            m.pubkey == pubkey,
            m.is_signer == is_signer,
            m.is_writable,
    {
        AccountMeta { pubkey, is_signer, is_writable: true }
    }

    /// A read-only account.
    pub fn new_readonly(pubkey: Pubkey, is_signer: bool) -> (m: AccountMeta)
        ensures
            m.pubkey == pubkey,
            m.is_signer == is_signer,
            !m.is_writable,
    {
        AccountMeta { pubkey, is_signer, is_writable: false }
    }
}

/// The flags of an account: (written, signer).
pub type Flags = (bool, bool);

pub open spec fn flags_of(a: CommandAccount) -> Flags {
    (a.is_write, a.is_signer)
}

/// No two entries share an address.
pub open spec fn unique_addresses(s: Seq<CommandAccount>) -> bool {
    forall|i: int, j: int|
        0 <= i < s.len() && 0 <= j < s.len() && i != j ==> #[trigger] s[i].address@ != #[trigger] s[j].address@
}

pub open spec fn has_address(s: Seq<CommandAccount>, k: Seq<u8>) -> bool {
    exists|i: int| 0 <= i < s.len() && #[trigger] s[i].address@ == k
}

pub open spec fn position_of(s: Seq<CommandAccount>, k: Seq<u8>) -> int {
    choose|i: int| 0 <= i < s.len() && #[trigger] s[i].address@ == k
}

/// The map from address to flags that a list of entries with distinct
/// addresses stands for.
pub open spec fn account_map(s: Seq<CommandAccount>) -> Map<Seq<u8>, Flags> {
    Map::new(|k: Seq<u8>| has_address(s, k), |k: Seq<u8>| flags_of(s[position_of(s, k)]))
}

/// The flags that an account has after it is added with `is_write` and
/// `is_signer` to a set in which it had `m[k]`, if any: a flag once set stays
/// set.
pub open spec fn merged(m: Map<Seq<u8>, Flags>, k: Seq<u8>, is_write: bool, is_signer: bool) -> Map<Seq<u8>, Flags> {
    m.insert(k, (flags_in(m, k).0 || is_write, flags_in(m, k).1 || is_signer))
}

/// The flags of `k` in `m`; none set where `m` lacks `k`.
pub open spec fn flags_in(m: Map<Seq<u8>, Flags>, k: Seq<u8>) -> Flags {
    if m.contains_key(k) {
        m[k]
    } else {
        (false, false)
    }
}

/// Every account of `a` and of `b`, each with the flags it has in either.
pub open spec fn merge_maps(a: Map<Seq<u8>, Flags>, b: Map<Seq<u8>, Flags>) -> Map<Seq<u8>, Flags> {
    Map::new(
        |k: Seq<u8>| a.contains_key(k) || b.contains_key(k),
        |k: Seq<u8>| (flags_in(a, k).0 || flags_in(b, k).0, flags_in(a, k).1 || flags_in(b, k).1),
    )
}

proof fn lemma_account_map_at(s: Seq<CommandAccount>, i: int)
    requires
        unique_addresses(s),
        0 <= i < s.len(),
    ensures
        account_map(s).contains_key(s[i].address@),
        account_map(s)[s[i].address@] == flags_of(s[i]),
{
    let k = s[i].address@;
    assert(has_address(s, k));
    let j = position_of(s, k);
    assert(0 <= j < s.len() && s[j].address@ == k);
    assert(j == i);
}

proof fn lemma_account_map_update(s: Seq<CommandAccount>, i: int, a: CommandAccount)
    requires
        unique_addresses(s),
        0 <= i < s.len(),
        a.address@ == s[i].address@,
    ensures
        unique_addresses(s.update(i, a)),
        account_map(s.update(i, a)) == account_map(s).insert(a.address@, flags_of(a)),
{
    let t = s.update(i, a);
    assert(unique_addresses(t)) by {
        assert forall|x: int, y: int|
            0 <= x < t.len() && 0 <= y < t.len() && x != y implies #[trigger] t[x].address@
            != #[trigger] t[y].address@ by {
            assert(t[x].address@ == s[x].address@);
            assert(t[y].address@ == s[y].address@);
        }
    }
    let m = account_map(s).insert(a.address@, flags_of(a));
    assert forall|k: Seq<u8>| #[trigger] account_map(t).contains_key(k) <==> m.contains_key(k) by {
        if has_address(t, k) {
            let x = choose|x: int| 0 <= x < t.len() && #[trigger] t[x].address@ == k;
            assert(s[x].address@ == k);
        }
        if has_address(s, k) {
            let x = choose|x: int| 0 <= x < s.len() && #[trigger] s[x].address@ == k;
            assert(t[x].address@ == k);
        }
        if k == a.address@ {
            assert(t[i].address@ == k);
        }
    }
    assert forall|k: Seq<u8>| #[trigger] account_map(t).contains_key(k) implies account_map(t)[k]
        == m[k] by {
        let x = choose|x: int| 0 <= x < t.len() && #[trigger] t[x].address@ == k;
        lemma_account_map_at(t, x);
        if x != i {
            lemma_account_map_at(s, x);
        }
    }
    assert(account_map(t) =~= m);
}

proof fn lemma_account_map_push(s: Seq<CommandAccount>, a: CommandAccount)
    requires
        unique_addresses(s),
        !account_map(s).contains_key(a.address@),
    ensures
        unique_addresses(s.push(a)),
        account_map(s.push(a)) == account_map(s).insert(a.address@, flags_of(a)),
{
    let t = s.push(a);
    assert(unique_addresses(t)) by {
        assert forall|x: int, y: int|
            0 <= x < t.len() && 0 <= y < t.len() && x != y implies #[trigger] t[x].address@
            != #[trigger] t[y].address@ by {
            if x == s.len() {
                assert(!has_address(s, a.address@));
                assert(s[y].address@ == t[y].address@);
            } else if y == s.len() {
                assert(!has_address(s, a.address@));
                assert(s[x].address@ == t[x].address@);
            }
        }
    }
    let m = account_map(s).insert(a.address@, flags_of(a));
    assert forall|k: Seq<u8>| #[trigger] account_map(t).contains_key(k) <==> m.contains_key(k) by {
        if has_address(t, k) {
            let x = choose|x: int| 0 <= x < t.len() && #[trigger] t[x].address@ == k;
            if x < s.len() {
                assert(s[x].address@ == k);
            }
        }
        if has_address(s, k) {
            let x = choose|x: int| 0 <= x < s.len() && #[trigger] s[x].address@ == k;
            assert(t[x].address@ == k);
        }
        if k == a.address@ {
            assert(t[s.len() as int].address@ == k);
        }
    }
    assert forall|k: Seq<u8>| #[trigger] account_map(t).contains_key(k) implies account_map(t)[k]
        == m[k] by {
        let x = choose|x: int| 0 <= x < t.len() && #[trigger] t[x].address@ == k;
        lemma_account_map_at(t, x);
        if x < s.len() {
            lemma_account_map_at(s, x);
        }
    }
    assert(account_map(t) =~= m);
}

/// The addresses of the entries, in order.
pub open spec fn addresses_of(s: Seq<CommandAccount>) -> Seq<Seq<u8>> {
    s.map_values(|a: CommandAccount| a.address@)
}

proof fn lemma_account_map_len(s: Seq<CommandAccount>)
    requires
        unique_addresses(s),
    ensures
        account_map(s).dom().finite(),
        account_map(s).dom().len() == s.len(),
{
    let keys = addresses_of(s);
    assert(keys.no_duplicates()) by {
        assert forall|i: int, j: int| 0 <= i < keys.len() && 0 <= j < keys.len() && i != j implies keys[i]
            != keys[j] by {
            assert(keys[i] == s[i].address@);
            assert(keys[j] == s[j].address@);
        }
    }
    assert(account_map(s).dom() =~= keys.to_set()) by {
        assert forall|k: Seq<u8>| account_map(s).dom().contains(k) <==> keys.to_set().contains(k) by {
            if has_address(s, k) {
                let x = choose|x: int| 0 <= x < s.len() && #[trigger] s[x].address@ == k;
                assert(keys[x] == k);
            }
            if keys.contains(k) {
                let x = choose|x: int| 0 <= x < keys.len() && keys[x] == k;
                assert(s[x].address@ == k);
            }
        }
    }
    keys.unique_seq_to_set();
    vstd::seq_lib::seq_to_set_is_finite(keys);
}

} // verus!

verus! {

/// The map after adding each of the entries `s` in turn.
pub open spec fn merged_all(m: Map<Seq<u8>, Flags>, s: Seq<CommandAccount>) -> Map<Seq<u8>, Flags>
    decreases s.len(),
{
    if s.len() == 0 {
        m
    } else {
        let a = s.last();
        merged(merged_all(m, s.drop_last()), a.address@, a.is_write, a.is_signer)
    }
}

proof fn lemma_merged_all(m: Map<Seq<u8>, Flags>, s: Seq<CommandAccount>)
    requires
        unique_addresses(s),
    ensures
        merged_all(m, s) == merge_maps(m, account_map(s)),
    decreases s.len(),
{
    if s.len() == 0 {
        assert(account_map(s) =~= Map::<Seq<u8>, Flags>::empty());
        assert(merge_maps(m, account_map(s)) =~= m);
    } else {
        let p = s.drop_last();
        let a = s.last();
        assert(unique_addresses(p));
        lemma_merged_all(m, p);
        assert(!account_map(p).contains_key(a.address@)) by {
            if has_address(p, a.address@) {
                let x = choose|x: int| 0 <= x < p.len() && #[trigger] p[x].address@ == a.address@;
                assert(s[x].address@ == s[s.len() - 1].address@);
            }
        }
        lemma_account_map_push(p, a);
        assert(p.push(a) =~= s);
        assert(merged_all(m, s) =~= merge_maps(m, account_map(s)));
    }
}

/// The metas name exactly the accounts of `m`, each once, writable where
/// written and signing where signing.
pub open spec fn metas_match(metas: Seq<AccountMeta>, m: Map<Seq<u8>, Flags>) -> bool {
    &&& m.dom().finite()
    &&& metas.len() == m.dom().len()
    &&& forall|i: int|
        0 <= i < metas.len() ==> #[trigger] m.contains_key(metas[i].pubkey@) && m[metas[i].pubkey@] == (
            metas[i].is_writable,
            metas[i].is_signer,
        )
    &&& forall|i: int, j: int|
        0 <= i < metas.len() && 0 <= j < metas.len() && i != j ==> #[trigger] metas[i].pubkey@
            != #[trigger] metas[j].pubkey@
    &&& forall|k: Seq<u8>| #[trigger] m.contains_key(k) ==> exists|i: int| 0 <= i < metas.len() && metas[i].pubkey@ == k
}

/// `m` names the account `a` with its flags.
pub open spec fn meta_of(m: AccountMeta, a: CommandAccount) -> bool {
    &&& m.pubkey == a.address
    &&& m.is_writable == a.is_write
    &&& m.is_signer == a.is_signer
}

/// The accounts that a command or an instruction touches, each address once.
pub struct CommandAccounts {
    accounts: Vec<CommandAccount>,
}

impl View for CommandAccounts {
    type V = Map<Seq<u8>, Flags>;

    closed spec fn view(&self) -> Map<Seq<u8>, Flags> {
        account_map(self.accounts@)
    }
}

impl CommandAccounts {
    #[verifier::type_invariant]
    closed spec fn inv(self) -> bool {
        unique_addresses(self.accounts@)
    }

    pub fn new() -> (c: CommandAccounts)
        ensures
            c@ == Map::<Seq<u8>, Flags>::empty(),
    {
        let c = CommandAccounts { accounts: Vec::new() };
        assert(c@ =~= Map::<Seq<u8>, Flags>::empty());
        c
    }

    /// The number of distinct accounts.
    pub fn count(&self) -> (n: usize)
        ensures
            self@.dom().finite(),
            n == self@.dom().len(),
    {
        proof {
            use_type_invariant(self);
            lemma_account_map_len(self.accounts@);
        }
        self.accounts.len()
    }

    fn position(&self, pubkey: &Pubkey) -> (r: Option<usize>)
        ensures
            match r {
                Some(i) => i < self.accounts@.len() && self.accounts@[i as int].address@ == pubkey@,
                None => !has_address(self.accounts@, pubkey@),
            },
    {
        let mut i: usize = 0;
        while i < self.accounts.len()
            invariant
                i <= self.accounts@.len(),
                forall|j: int| 0 <= j < i ==> self.accounts@[j].address@ != pubkey@,
            decreases self.accounts@.len() - i,
        {
            if self.accounts[i].address.same_as(pubkey) {
                return Some(i);
            }
            i = i + 1;
        }
        None
    }

    /// Records that the command touches `pubkey`; an account already present
    /// keeps each flag that was set and gains each flag given here.
    pub fn add(&mut self, pubkey: &Pubkey, is_write: bool, is_signer: bool)
        ensures
            final(self)@ == merged(old(self)@, pubkey@, is_write, is_signer),
    {
        proof {
            use_type_invariant(&*self);
        }
        match self.position(pubkey) {
            Some(i) => {
                let existing = self.accounts[i];
                let updated = CommandAccount {
                    address: existing.address,
                    is_write: existing.is_write || is_write,
                    is_signer: existing.is_signer || is_signer,
                };
                proof {
                    lemma_account_map_at(self.accounts@, i as int);
                    lemma_account_map_update(self.accounts@, i as int, updated);
                }
                let mut entries: Vec<CommandAccount> = Vec::new();
                std::mem::swap(&mut entries, &mut self.accounts);
                entries.set(i, updated);
                self.accounts = entries;
            },
            None => {
                let added = CommandAccount { address: *pubkey, is_write, is_signer };
                proof {
                    lemma_account_map_push(self.accounts@, added);
                }
                let mut entries: Vec<CommandAccount> = Vec::new();
                std::mem::swap(&mut entries, &mut self.accounts);
                entries.push(added);
                self.accounts = entries;
            },
        }
    }

    /// Adds every account of `other`, as `add` does: the result holds the
    /// accounts of both, each with every flag that it has in either.
    pub fn add_command_accounts(&mut self, other: &CommandAccounts)
        ensures
            final(self)@ == merge_maps(old(self)@, other@),
    {
        proof {
            use_type_invariant(other);
            lemma_merged_all(self@, other.accounts@);
        }
        let mut i: usize = 0;
        while i < other.accounts.len()
            invariant
                i <= other.accounts@.len(),
                self@ == merged_all(old(self)@, other.accounts@.take(i as int)),
            decreases other.accounts@.len() - i,
        {
            let a = other.accounts[i];
            self.add(&a.address, a.is_write, a.is_signer);
            assert(other.accounts@.take(i + 1).drop_last() =~= other.accounts@.take(i as int));
            i = i + 1;
        }
        assert(other.accounts@.take(i as int) =~= other.accounts@);
    }

    /// One account meta per account, naming it writable where the account is
    /// written; no address twice.
    pub fn get_account_metas(&self) -> (metas: Vec<AccountMeta>)
        ensures
            metas_match(metas@, self@),
    {
        proof {
            use_type_invariant(self);
            lemma_account_map_len(self.accounts@);
        }
        let mut metas: Vec<AccountMeta> = Vec::new();
        let mut i: usize = 0;
        while i < self.accounts.len()
            invariant
                i <= self.accounts@.len(),
                metas@.len() == i,
                forall|j: int| 0 <= j < i ==> meta_of(#[trigger] metas@[j], self.accounts@[j]),
            decreases self.accounts@.len() - i,
        {
            let a = self.accounts[i];
            if a.is_write {
                metas.push(AccountMeta::new(a.address, a.is_signer));
            } else {
                metas.push(AccountMeta::new_readonly(a.address, a.is_signer));
            }
            i = i + 1;
        }
        proof {
            assert forall|i: int| 0 <= i < metas@.len() implies #[trigger] self@.contains_key(
                metas@[i].pubkey@,
            ) && self@[metas@[i].pubkey@] == (metas@[i].is_writable, metas@[i].is_signer) by {
                assert(meta_of(metas@[i], self.accounts@[i]));
                lemma_account_map_at(self.accounts@, i);
            }
            assert forall|i: int, j: int|
                0 <= i < metas@.len() && 0 <= j < metas@.len() && i != j implies #[trigger] metas@[i].pubkey@
                != #[trigger] metas@[j].pubkey@ by {
                assert(meta_of(metas@[i], self.accounts@[i]));
                assert(meta_of(metas@[j], self.accounts@[j]));
                assert(self.accounts@[i].address@ != self.accounts@[j].address@);
            }
            assert forall|k: Seq<u8>| #[trigger] self@.contains_key(k) implies exists|i: int| 0 <= i < metas@.len() && metas@[i].pubkey@ == k by {
                let x = choose|x: int| 0 <= x < self.accounts@.len() && #[trigger] self.accounts@[x].address@ == k;
                assert(meta_of(metas@[x], self.accounts@[x]));
            }
        }
        metas
    }
}

} // verus!

verus! {

/// An instruction for a program: the program, its data, and the accounts it
/// names.
pub struct Instruction {
    pub program_id: Pubkey,
    pub data: Vec<u8>,
    pub accounts: Vec<AccountMeta>,
}

impl Instruction {
    /// An instruction that carries a copy of `data`.
    pub fn new_with_bytes(program_id: Pubkey, data: &[u8], accounts: Vec<AccountMeta>) -> (ins: Instruction)
        ensures
            ins.program_id == program_id,
            ins.data@ == data@,
            ins.accounts == accounts,
    {
        let mut copy: Vec<u8> = Vec::new();
        crate::pubkey::write(&mut copy, data);
        assert(copy@ =~= data@);
        Instruction { program_id, data: copy, accounts }
    }
}

} // verus!

verus! {

/// Adding the same account with the same flags twice has the effect of
/// adding it once.
pub proof fn lemma_add_idempotent(m: Map<Seq<u8>, Flags>, k: Seq<u8>, is_write: bool, is_signer: bool)
    ensures
        merged(merged(m, k, is_write, is_signer), k, is_write, is_signer) == merged(m, k, is_write, is_signer),
{
    assert(merged(merged(m, k, is_write, is_signer), k, is_write, is_signer) =~= merged(m, k, is_write, is_signer));
}

/// The order in which accounts are added does not matter.
pub proof fn lemma_add_commutes(
    m: Map<Seq<u8>, Flags>,
    k1: Seq<u8>,
    w1: bool,
    s1: bool,
    k2: Seq<u8>,
    w2: bool,
    s2: bool,
)
    ensures
        merged(merged(m, k1, w1, s1), k2, w2, s2) == merged(merged(m, k2, w2, s2), k1, w1, s1),
{
    assert(merged(merged(m, k1, w1, s1), k2, w2, s2) =~= merged(merged(m, k2, w2, s2), k1, w1, s1));
}

/// Adding an account never takes an account away or clears a flag: every
/// account keeps every flag it had, and the added one has at least the flags
/// it was added with.
pub proof fn lemma_add_monotone(m: Map<Seq<u8>, Flags>, k: Seq<u8>, is_write: bool, is_signer: bool, x: Seq<u8>)
    ensures
        m.contains_key(x) ==> merged(m, k, is_write, is_signer).contains_key(x),
        flags_in(m, x).0 ==> flags_in(merged(m, k, is_write, is_signer), x).0,
        flags_in(m, x).1 ==> flags_in(merged(m, k, is_write, is_signer), x).1,
        merged(m, k, is_write, is_signer).contains_key(k),
        is_write ==> flags_in(merged(m, k, is_write, is_signer), k).0,
        is_signer ==> flags_in(merged(m, k, is_write, is_signer), k).1,
{
}

/// Merging the accounts of one set into another is the same whichever way
/// round.
pub proof fn lemma_merge_commutes(a: Map<Seq<u8>, Flags>, b: Map<Seq<u8>, Flags>)
    ensures
        merge_maps(a, b) == merge_maps(b, a),
{
    assert(merge_maps(a, b) =~= merge_maps(b, a));
}

/// Merging a set of accounts into itself changes nothing.
pub proof fn lemma_merge_idempotent(a: Map<Seq<u8>, Flags>)
    ensures
        merge_maps(a, a) == a,
{
    assert(merge_maps(a, a) =~= a);
}

} // verus!
