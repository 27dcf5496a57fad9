use vstd::prelude::*;

verus! {

/// How many blocks a fungible deposit stays locked after each deposit to its
/// record. Every new deposit to a key resets the lock from the current height.
pub const LOCK_WINDOW: u64 = 20;

/// A native coin: an amount of some currency denomination.
#[derive(Debug)]
pub struct Coin {
    pub denom: String,
    pub amount: u128,
}

impl Clone for Coin {
    fn clone(&self) -> (r: Self)
        ensures
            r == *self,
    {
        Coin { denom: self.denom.clone(), amount: self.amount }
    }
}

/// A native-currency balance record, keyed by (depositor, denomination).
#[derive(Debug)]
pub struct Deposits {
    pub count: u64,
    pub owner: String,
    pub coins: Coin,
}

impl Clone for Deposits {
    fn clone(&self) -> (r: Self)
        ensures
            r == *self,
    {
        Deposits { count: self.count, owner: self.owner.clone(), coins: self.coins.clone() }
    }
}

/// A fungible-token balance record, keyed by (depositor, token contract).
/// `stake_time` is the block height from which withdrawal is allowed.
#[derive(Debug)]
pub struct Cw20Deposits {
    pub count: u64,
    pub owner: String,
    pub contract: String,
    pub amount: u128,
    pub stake_time: u64,
}

impl Clone for Cw20Deposits {
    fn clone(&self) -> (r: Self)
        ensures
            r == *self,
    {
        Cw20Deposits {
            count: self.count,
            owner: self.owner.clone(),
            contract: self.contract.clone(),
            amount: self.amount,
            stake_time: self.stake_time,
        }
    }
}

/// A non-fungible custody record, keyed by (token contract, depositor,
/// token id). Presence of the record is the sole proof of custody.
#[derive(Debug)]
pub struct Cw721Deposits {
    pub owner: String,
    pub contract: String,
    pub token_id: String,
}

impl Clone for Cw721Deposits {
    fn clone(&self) -> (r: Self)
        ensures
            r == *self,
    {
        Cw721Deposits {
            owner: self.owner.clone(),
            contract: self.contract.clone(),
            token_id: self.token_id.clone(),
        }
    }
}

/// A record type addressed by a composite key drawn from its own fields.
pub trait Keyed {
    type Key;

    spec fn key(self) -> Self::Key;
}

impl Keyed for Deposits {
    type Key = (Seq<char>, Seq<char>);

    open spec fn key(self) -> (Seq<char>, Seq<char>) {
        (self.owner@, self.coins.denom@)
    }
}

impl Keyed for Cw20Deposits {
    type Key = (Seq<char>, Seq<char>);

    open spec fn key(self) -> (Seq<char>, Seq<char>) {
        (self.owner@, self.contract@)
    }
}

impl Keyed for Cw721Deposits {
    type Key = (Seq<char>, Seq<char>, Seq<char>);

    open spec fn key(self) -> (Seq<char>, Seq<char>, Seq<char>) {
        (self.contract@, self.owner@, self.token_id@)
    }
}

/// No two records of `s` share a key.
pub open spec fn unique_keys<T: Keyed>(s: Seq<T>) -> bool {
    forall|i: int, j: int|
        0 <= i < j < s.len() ==> #[trigger] s[i].key() != #[trigger] s[j].key()
}

/// Some record of `s` has key `k`.
pub open spec fn has_key<T: Keyed>(s: Seq<T>, k: T::Key) -> bool {
    exists|i: int| 0 <= i < s.len() && #[trigger] s[i].key() == k
}

/// The record of `s` with key `k` (meaningful when `has_key(s, k)`).
pub open spec fn rec_at<T: Keyed>(s: Seq<T>, k: T::Key) -> T {
    s[choose|i: int| 0 <= i < s.len() && #[trigger] s[i].key() == k]
}

/// With unique keys, `rec_at` agrees with every index that carries the key.
pub proof fn lemma_rec_at<T: Keyed>(s: Seq<T>, k: T::Key)
    requires
        unique_keys(s),
        has_key(s, k),
    ensures
        rec_at(s, k).key() == k,
        exists|j: int| 0 <= j < s.len() && s[j] == #[trigger] rec_at(s, k),
        forall|j: int| 0 <= j < s.len() && #[trigger] s[j].key() == k ==> rec_at(s, k) == s[j],
{
    let c = choose|i: int| 0 <= i < s.len() && #[trigger] s[i].key() == k;
    assert(0 <= c < s.len() && s[c].key() == k);
    assert forall|j: int| 0 <= j < s.len() && #[trigger] s[j].key() == k implies rec_at(s, k)
        == s[j] by {
        if j < c {
            assert(s[j].key() != s[c].key());
        } else if c < j {
            assert(s[c].key() != s[j].key());
        }
    }
}

/// Every index of a uniquely-keyed sequence is reachable through its key.
pub proof fn lemma_key_of_index<T: Keyed>(s: Seq<T>, i: int)
    requires
        unique_keys(s),
        0 <= i < s.len(),
    ensures
        has_key(s, s[i].key()),
        rec_at(s, s[i].key()) == s[i],
{
    assert(has_key(s, s[i].key()));
    lemma_rec_at(s, s[i].key());
}

/// Replacing the record at index `i` by one with the same key keeps the keys
/// unique, keeps every key's presence, and changes no other key's record.
pub proof fn lemma_keyed_update<T: Keyed>(pre: Seq<T>, post: Seq<T>, i: int)
    requires
        unique_keys(pre),
        0 <= i < pre.len(),
        post == pre.update(i, post[i]),
        post[i].key() == pre[i].key(),
    ensures
        unique_keys(post),
        forall|k: T::Key| #[trigger] has_key(post, k) == has_key(pre, k),
        forall|k: T::Key|
            k != pre[i].key() && has_key(pre, k) ==> #[trigger] rec_at(post, k) == rec_at(pre, k),
        has_key(post, pre[i].key()),
        rec_at(post, pre[i].key()) == post[i],
{
    assert forall|j: int| 0 <= j < post.len() implies #[trigger] post[j].key() == pre[j].key() by {
        if j != i {
            assert(post[j] == pre[j]);
        }
    }
    assert forall|x: int, y: int|
        0 <= x < y < post.len() implies #[trigger] post[x].key() != #[trigger] post[y].key() by {
        assert(pre[x].key() != pre[y].key());
    }
    assert forall|k: T::Key| #[trigger] has_key(post, k) == has_key(pre, k) by {
        if has_key(pre, k) {
            let j = choose|j: int| 0 <= j < pre.len() && #[trigger] pre[j].key() == k;
            assert(post[j].key() == k);
        }
        if has_key(post, k) {
            let j = choose|j: int| 0 <= j < post.len() && #[trigger] post[j].key() == k;
            assert(pre[j].key() == k);
        }
    }
    assert forall|k: T::Key|
        k != pre[i].key() && has_key(pre, k) implies #[trigger] rec_at(post, k) == rec_at(
        pre,
        k,
    ) by {
        lemma_rec_at(pre, k);
        lemma_rec_at(post, k);
        let j = choose|j: int| 0 <= j < pre.len() && #[trigger] pre[j].key() == k;
        assert(j != i);
        assert(post[j] == pre[j]);
        assert(post[j].key() == k);
    }
    assert(has_key(post, pre[i].key()));
    lemma_rec_at(post, pre[i].key());
    assert(post[i].key() == pre[i].key());
}

/// Appending a record with a fresh key keeps the keys unique, records the new
/// key, and changes no other key's presence or record.
pub proof fn lemma_keyed_push<T: Keyed>(pre: Seq<T>, post: Seq<T>, d: T)
    requires
        unique_keys(pre),
        !has_key(pre, d.key()),
        post == pre.push(d),
    ensures
        unique_keys(post),
        has_key(post, d.key()),
        rec_at(post, d.key()) == d,
        forall|k: T::Key| k != d.key() ==> #[trigger] has_key(post, k) == has_key(pre, k),
        forall|k: T::Key|
            k != d.key() && has_key(pre, k) ==> #[trigger] rec_at(post, k) == rec_at(pre, k),
{
    let n = pre.len() as int;
    assert(post[n] == d);
    assert forall|j: int| 0 <= j < n implies #[trigger] post[j].key() == pre[j].key() by {
        assert(post[j] == pre[j]);
    }
    assert forall|x: int, y: int|
        0 <= x < y < post.len() implies #[trigger] post[x].key() != #[trigger] post[y].key() by {
        if y < n {
            assert(pre[x].key() != pre[y].key());
        } else {
            assert(post[y].key() == d.key());
            if post[x].key() == d.key() {
                assert(pre[x].key() == d.key());
                assert(has_key(pre, d.key()));
            }
        }
    }
    assert(post[n].key() == d.key());
    assert(has_key(post, d.key()));
    lemma_rec_at(post, d.key());
    assert forall|k: T::Key| k != d.key() implies #[trigger] has_key(post, k) == has_key(
        pre,
        k,
    ) by {
        if has_key(pre, k) {
            let j = choose|j: int| 0 <= j < pre.len() && #[trigger] pre[j].key() == k;
            assert(post[j].key() == k);
        }
        if has_key(post, k) {
            let j = choose|j: int| 0 <= j < post.len() && #[trigger] post[j].key() == k;
            assert(j != n);
            assert(pre[j].key() == k);
        }
    }
    assert forall|k: T::Key|
        k != d.key() && has_key(pre, k) implies #[trigger] rec_at(post, k) == rec_at(pre, k) by {
        lemma_rec_at(pre, k);
        lemma_rec_at(post, k);
        let j = choose|j: int| 0 <= j < pre.len() && #[trigger] pre[j].key() == k;
        assert(post[j] == pre[j]);
        assert(post[j].key() == k);
    }
}

/// The ledger store: one keyed record family per asset kind. It is handed
/// explicitly to every operation; the host keeps it between calls.
#[derive(Debug)]
pub struct Store {
    pub native: Vec<Deposits>,
    pub fungible: Vec<Cw20Deposits>,
    pub nonfungible: Vec<Cw721Deposits>,
}

impl Store {
    /// Well-formed: within each family, no two records share a key.
    pub open spec fn wf(self) -> bool {
        &&& unique_keys(self.native@)
        &&& unique_keys(self.fungible@)
        &&& unique_keys(self.nonfungible@)
    }

    pub open spec fn has_native(self, owner: Seq<char>, denom: Seq<char>) -> bool {
        has_key(self.native@, (owner, denom))
    }

    pub open spec fn native_at(self, owner: Seq<char>, denom: Seq<char>) -> Deposits {
        rec_at(self.native@, (owner, denom))
    }

    pub open spec fn has_fungible(self, owner: Seq<char>, contract: Seq<char>) -> bool {
        has_key(self.fungible@, (owner, contract))
    }

    pub open spec fn fungible_at(self, owner: Seq<char>, contract: Seq<char>) -> Cw20Deposits {
        rec_at(self.fungible@, (owner, contract))
    }

    pub open spec fn has_nonfungible(
        self,
        contract: Seq<char>,
        owner: Seq<char>,
        token_id: Seq<char>,
    ) -> bool {
        has_key(self.nonfungible@, (contract, owner, token_id))
    }

    pub open spec fn nonfungible_at(
        self,
        contract: Seq<char>,
        owner: Seq<char>,
        token_id: Seq<char>,
    ) -> Cw721Deposits {
        rec_at(self.nonfungible@, (contract, owner, token_id))
    }

    /// An empty store, the state before any deposit.
    pub fn new() -> (r: Store)
        ensures
            r.wf(),
            r.native@.len() == 0,
            r.fungible@.len() == 0,
            r.nonfungible@.len() == 0,
    {
        Store { native: Vec::new(), fungible: Vec::new(), nonfungible: Vec::new() }
    }

    /// Decides well-formedness, for a store handed in from outside.
    pub fn check_wf(&self) -> (r: bool)
        ensures
            r == self.wf(),
    {
        native_unique_check(&self.native) && fungible_unique_check(&self.fungible)
            && nonfungible_unique_check(&self.nonfungible)
    }
}

/// Decides whether the native records carry pairwise distinct keys.
fn native_unique_check(v: &Vec<Deposits>) -> (r: bool)
    ensures
        r == unique_keys(v@),
{
    let mut i: usize = 0;
    while i < v.len()
        invariant
            i <= v@.len(),
            forall|x: int, y: int|
                0 <= x < y < v@.len() && x < i ==> #[trigger] v@[x].key() != #[trigger] v@[y].key(),
        decreases v@.len() - i,
    {
        let mut j: usize = i + 1;
        while j < v.len()
            invariant
                i < j <= v@.len(),
                i < v@.len(),
                forall|y: int| i < y < j ==> #[trigger] v@[i as int].key() != v@[y].key(),
            decreases v@.len() - j,
        {
            if v[i].owner == v[j].owner && v[i].coins.denom == v[j].coins.denom {
                proof {
                    assert(v@[i as int].key() == v@[j as int].key());
                }
                return false;
            }
            j = j + 1;
        }
        i = i + 1;
    }
    true
}

/// Decides whether the fungible records carry pairwise distinct keys.
fn fungible_unique_check(v: &Vec<Cw20Deposits>) -> (r: bool)
    ensures
        r == unique_keys(v@),
{
    let mut i: usize = 0;
    while i < v.len()
        invariant
            i <= v@.len(),
            forall|x: int, y: int|
                0 <= x < y < v@.len() && x < i ==> #[trigger] v@[x].key() != #[trigger] v@[y].key(),
        decreases v@.len() - i,
    {
        let mut j: usize = i + 1;
        while j < v.len()
            invariant
                i < j <= v@.len(),
                i < v@.len(),
                forall|y: int| i < y < j ==> #[trigger] v@[i as int].key() != v@[y].key(),
            decreases v@.len() - j,
        {
            if v[i].owner == v[j].owner && v[i].contract == v[j].contract {
                proof {
                    assert(v@[i as int].key() == v@[j as int].key());
                }
                return false;
            }
            j = j + 1;
        }
        i = i + 1;
    }
    true
}

/// Decides whether the custody records carry pairwise distinct keys.
fn nonfungible_unique_check(v: &Vec<Cw721Deposits>) -> (r: bool)
    ensures
        r == unique_keys(v@),
{
    let mut i: usize = 0;
    while i < v.len()
        invariant
            i <= v@.len(),
            forall|x: int, y: int|
                0 <= x < y < v@.len() && x < i ==> #[trigger] v@[x].key() != #[trigger] v@[y].key(),
        decreases v@.len() - i,
    {
        let mut j: usize = i + 1;
        while j < v.len()
            invariant
                i < j <= v@.len(),
                i < v@.len(),
                forall|y: int| i < y < j ==> #[trigger] v@[i as int].key() != v@[y].key(),
            decreases v@.len() - j,
        {
            if v[i].contract == v[j].contract && v[i].owner == v[j].owner
                && v[i].token_id == v[j].token_id {
                proof {
                    assert(v@[i as int].key() == v@[j as int].key());
                }
                return false;
            }
            j = j + 1;
        }
        i = i + 1;
    }
    true
}

/// Index of the native record for (owner, denom), if one exists.
pub fn native_find(v: &Vec<Deposits>, owner: &String, denom: &String) -> (r: Option<usize>)
    requires
        unique_keys(v@),
    ensures
        match r {
            Some(i) => {
                &&& i < v@.len()
                &&& v@[i as int].key() == (owner@, denom@)
                &&& has_key(v@, (owner@, denom@))
                &&& rec_at(v@, (owner@, denom@)) == v@[i as int]
            },
            None => !has_key(v@, (owner@, denom@)),
        },
{
    let mut i: usize = 0;
    while i < v.len()
        invariant
            unique_keys(v@),
            i <= v@.len(),
            forall|j: int| 0 <= j < i ==> #[trigger] v@[j].key() != (owner@, denom@),
        decreases v@.len() - i,
    {
        if v[i].owner == *owner && v[i].coins.denom == *denom {
            proof {
                lemma_key_of_index(v@, i as int);
            }
            return Some(i);
        }
        i = i + 1;
    }
    None
}

/// Index of the fungible record for (owner, contract), if one exists.
pub fn fungible_find(v: &Vec<Cw20Deposits>, owner: &String, contract: &String) -> (r: Option<
    usize,
>)
    requires
        unique_keys(v@),
    ensures
        match r {
            Some(i) => {
                &&& i < v@.len()
                &&& v@[i as int].key() == (owner@, contract@)
                &&& has_key(v@, (owner@, contract@))
                &&& rec_at(v@, (owner@, contract@)) == v@[i as int]
            },
            None => !has_key(v@, (owner@, contract@)),
        },
{
    let mut i: usize = 0;
    while i < v.len()
        invariant
            unique_keys(v@),
            i <= v@.len(),
            forall|j: int| 0 <= j < i ==> #[trigger] v@[j].key() != (owner@, contract@),
        decreases v@.len() - i,
    {
        if v[i].owner == *owner && v[i].contract == *contract {
            proof {
                lemma_key_of_index(v@, i as int);
            }
            return Some(i);
        }
        i = i + 1;
    }
    None
}

/// Index of the custody record for (contract, owner, token_id), if one exists.
pub fn nonfungible_find(
    v: &Vec<Cw721Deposits>,
    contract: &String,
    owner: &String,
    token_id: &String,
) -> (r: Option<usize>)
    requires
        unique_keys(v@),
    ensures
        match r {
            Some(i) => {
                &&& i < v@.len()
                &&& v@[i as int].key() == (contract@, owner@, token_id@)
                &&& has_key(v@, (contract@, owner@, token_id@))
                &&& rec_at(v@, (contract@, owner@, token_id@)) == v@[i as int]
            },
            None => !has_key(v@, (contract@, owner@, token_id@)),
        },
{
    let mut i: usize = 0;
    while i < v.len()
        invariant
            unique_keys(v@),
            i <= v@.len(),
            forall|j: int| 0 <= j < i ==> #[trigger] v@[j].key() != (contract@, owner@, token_id@),
        decreases v@.len() - i,
    {
        if v[i].contract == *contract && v[i].owner == *owner && v[i].token_id == *token_id {
            proof {
                lemma_key_of_index(v@, i as int);
            }
            return Some(i);
        }
        i = i + 1;
    }
    None
}

} // verus!
