use vstd::prelude::*;

use crate::address::Address;
use crate::state::VaultState;

verus! {

/// First value stored under key `a`, scanning from the front.
pub open spec fn lookup<T>(s: Seq<(Address, T)>, a: Seq<u8>) -> Option<T>
    decreases s.len(),
{
    if s.len() == 0 {
        None
    } else if s[0].0@ == a {
        Some(s[0].1)
    } else {
        lookup(s.drop_first(), a)
    }
}

/// No two entries share a key.
pub open spec fn unique_keys<T>(s: Seq<(Address, T)>) -> bool {
    forall|i: int, j: int| 0 <= i < j < s.len() ==> s[i].0@ != s[j].0@
}

/// Sum of all stored balances.
pub open spec fn total_of(s: Seq<(Address, u64)>) -> int
    decreases s.len(),
{
    if s.len() == 0 {
        0
    } else {
        s[0].1 + total_of(s.drop_first())
    }
}

pub proof fn lemma_lookup_absent<T>(s: Seq<(Address, T)>, a: Seq<u8>)
    requires
        forall|j: int| 0 <= j < s.len() ==> s[j].0@ != a,
    ensures
        lookup(s, a) is None,
    decreases s.len(),
{
    if s.len() != 0 {
        assert(s[0].0@ != a);
        assert forall|j: int| 0 <= j < s.drop_first().len() implies s.drop_first()[j].0@ != a by {
            assert(s.drop_first()[j] == s[j + 1]);
        }
        lemma_lookup_absent(s.drop_first(), a);
    }
}

pub proof fn lemma_lookup_none_absent<T>(s: Seq<(Address, T)>, a: Seq<u8>)
    requires
        lookup(s, a) is None,
    ensures
        forall|j: int| 0 <= j < s.len() ==> s[j].0@ != a,
    decreases s.len(),
{
    if s.len() != 0 {
        lemma_lookup_none_absent(s.drop_first(), a);
        assert forall|j: int| 0 <= j < s.len() implies s[j].0@ != a by {
            if j > 0 {
                assert(s.drop_first()[j - 1] == s[j]);
            }
        }
    }
}

pub proof fn lemma_lookup_first_match<T>(s: Seq<(Address, T)>, a: Seq<u8>, i: int)
    requires
        0 <= i < s.len(),
        s[i].0@ == a,
        forall|j: int| 0 <= j < i ==> s[j].0@ != a,
    ensures
        lookup(s, a) == Some(s[i].1),
    decreases s.len(),
{
    if i > 0 {
        assert(s[0].0@ != a);
        assert(s.drop_first()[i - 1] == s[i]);
        assert forall|j: int| 0 <= j < i - 1 implies s.drop_first()[j].0@ != a by {
            assert(s.drop_first()[j] == s[j + 1]);
        }
        lemma_lookup_first_match(s.drop_first(), a, i - 1);
    }
}

pub proof fn lemma_lookup_update<T>(s: Seq<(Address, T)>, i: int, p: (Address, T))
    requires
        unique_keys(s),
        0 <= i < s.len(),
        p.0@ == s[i].0@,
    ensures
        unique_keys(s.update(i, p)),
        forall|b: Seq<u8>|
            #[trigger] lookup(s.update(i, p), b) == if b == p.0@ {
                Some(p.1)
            } else {
                lookup(s, b)
            },
    decreases s.len(),
{
    let t = s.update(i, p);
    assert forall|x: int, y: int| 0 <= x < y < t.len() implies t[x].0@ != t[y].0@ by {
        assert(s[x].0@ != s[y].0@);
    }
    if i == 0 {
        assert(t.drop_first() =~= s.drop_first());
        assert forall|b: Seq<u8>|
            #[trigger] lookup(t, b) == if b == p.0@ {
                Some(p.1)
            } else {
                lookup(s, b)
            } by {
            if b == p.0@ {
                assert(t[0] == p);
            } else {
                assert(lookup(t, b) == lookup(t.drop_first(), b));
                assert(lookup(s, b) == lookup(s.drop_first(), b));
            }
        }
    } else {
        assert(t[0] == s[0]);
        assert(t.drop_first() =~= s.drop_first().update(i - 1, p));
        assert forall|x: int, y: int|
            0 <= x < y < s.drop_first().len() implies s.drop_first()[x].0@ != s.drop_first()[y].0@ by {
            assert(s.drop_first()[x] == s[x + 1]);
            assert(s.drop_first()[y] == s[y + 1]);
        }
        assert(s.drop_first()[i - 1] == s[i]);
        lemma_lookup_update(s.drop_first(), i - 1, p);
        // The head's key differs from the updated key.
        assert(s[0].0@ != s[i].0@);
        assert forall|b: Seq<u8>|
            #[trigger] lookup(t, b) == if b == p.0@ {
                Some(p.1)
            } else {
                lookup(s, b)
            } by {
            if b == t[0].0@ {
            } else {
                assert(lookup(t, b) == lookup(t.drop_first(), b));
                assert(lookup(s, b) == lookup(s.drop_first(), b));
            }
        }
    }
}

pub proof fn lemma_lookup_push<T>(s: Seq<(Address, T)>, p: (Address, T))
    ensures
        forall|b: Seq<u8>|
            #[trigger] lookup(s.push(p), b) == if lookup(s, b) is Some {
                lookup(s, b)
            } else if b == p.0@ {
                Some(p.1)
            } else {
                None::<T>
            },
    decreases s.len(),
{
    let t = s.push(p);
    if s.len() == 0 {
        assert forall|b: Seq<u8>|
            #[trigger] lookup(t, b) == if lookup(s, b) is Some {
                lookup(s, b)
            } else if b == p.0@ {
                Some(p.1)
            } else {
                None::<T>
            } by {
            assert(t[0] == p);
            assert(t.drop_first() =~= Seq::<(Address, T)>::empty());
            assert(lookup(s, b) is None);
            if b == p.0@ {
                assert(lookup(t, b) == Some(p.1));
            } else {
                assert(lookup(t, b) == lookup(t.drop_first(), b));
                assert(lookup(t.drop_first(), b) is None);
            }
        }
    } else {
        lemma_lookup_push(s.drop_first(), p);
        assert(t[0] == s[0]);
        assert(t.drop_first() =~= s.drop_first().push(p));
        assert forall|b: Seq<u8>|
            #[trigger] lookup(t, b) == if lookup(s, b) is Some {
                lookup(s, b)
            } else if b == p.0@ {
                Some(p.1)
            } else {
                None::<T>
            } by {
            if b == s[0].0@ {
                assert(lookup(t, b) == Some(t[0].1));
                assert(lookup(s, b) == Some(s[0].1));
            } else {
                assert(lookup(t, b) == lookup(s.drop_first().push(p), b));
                assert(lookup(s, b) == lookup(s.drop_first(), b));
            }
        }
    }
}

pub proof fn lemma_unique_push<T>(s: Seq<(Address, T)>, p: (Address, T))
    requires
        unique_keys(s),
        lookup(s, p.0@) is None,
    ensures
        unique_keys(s.push(p)),
{
    lemma_lookup_none_absent(s, p.0@);
    let t = s.push(p);
    assert forall|x: int, y: int| 0 <= x < y < t.len() implies t[x].0@ != t[y].0@ by {
        if y < s.len() {
            assert(s[x].0@ != s[y].0@);
        } else {
            assert(t[y] == p);
            assert(s[x].0@ != p.0@);
        }
    }
}

pub proof fn lemma_lookup_remove<T>(s: Seq<(Address, T)>, i: int)
    requires
        unique_keys(s),
        0 <= i < s.len(),
    ensures
        unique_keys(s.remove(i)),
        forall|b: Seq<u8>|
            #[trigger] lookup(s.remove(i), b) == if b == s[i].0@ {
                None::<T>
            } else {
                lookup(s, b)
            },
    decreases s.len(),
{
    let t = s.remove(i);
    assert forall|x: int, y: int| 0 <= x < y < t.len() implies t[x].0@ != t[y].0@ by {
        let sx = if x < i {
            x
        } else {
            x + 1
        };
        let sy = if y < i {
            y
        } else {
            y + 1
        };
        assert(t[x] == s[sx]);
        assert(t[y] == s[sy]);
        assert(s[sx].0@ != s[sy].0@);
    }
    if i == 0 {
        assert(t =~= s.drop_first());
        assert forall|b: Seq<u8>|
            #[trigger] lookup(t, b) == if b == s[0].0@ {
                None::<T>
            } else {
                lookup(s, b)
            } by {
            if b == s[0].0@ {
                assert forall|j: int| 0 <= j < t.len() implies t[j].0@ != b by {
                    assert(t[j] == s[j + 1]);
                    assert(s[0].0@ != s[j + 1].0@);
                }
                lemma_lookup_absent(t, b);
            }
        }
    } else {
        assert forall|x: int, y: int|
            0 <= x < y < s.drop_first().len() implies s.drop_first()[x].0@ != s.drop_first()[y].0@ by {
            assert(s.drop_first()[x] == s[x + 1]);
            assert(s.drop_first()[y] == s[y + 1]);
        }
        lemma_lookup_remove(s.drop_first(), i - 1);
        assert(t[0] == s[0]);
        assert(t.drop_first() =~= s.drop_first().remove(i - 1));
        assert(s.drop_first()[i - 1] == s[i]);
        assert(s[0].0@ != s[i].0@);
        assert forall|b: Seq<u8>|
            #[trigger] lookup(t, b) == if b == s[i].0@ {
                None::<T>
            } else {
                lookup(s, b)
            } by {
            if b == t[0].0@ {
            } else {
                assert(lookup(t, b) == lookup(t.drop_first(), b));
                assert(lookup(s, b) == lookup(s.drop_first(), b));
            }
        }
    }
}

pub proof fn lemma_total_nonneg(s: Seq<(Address, u64)>)
    ensures
        total_of(s) >= 0,
    decreases s.len(),
{
    if s.len() != 0 {
        lemma_total_nonneg(s.drop_first());
    }
}

pub proof fn lemma_total_update(s: Seq<(Address, u64)>, i: int, p: (Address, u64))
    requires
        0 <= i < s.len(),
    ensures
        total_of(s.update(i, p)) == total_of(s) - s[i].1 + p.1,
    decreases s.len(),
{
    let t = s.update(i, p);
    if i == 0 {
        assert(t.drop_first() =~= s.drop_first());
    } else {
        assert(t[0] == s[0]);
        assert(t.drop_first() =~= s.drop_first().update(i - 1, p));
        assert(s.drop_first()[i - 1] == s[i]);
        lemma_total_update(s.drop_first(), i - 1, p);
    }
}

pub proof fn lemma_total_push(s: Seq<(Address, u64)>, p: (Address, u64))
    ensures
        total_of(s.push(p)) == total_of(s) + p.1,
    decreases s.len(),
{
    let t = s.push(p);
    if s.len() == 0 {
        assert(t[0] == p);
        assert(t.drop_first() =~= Seq::<(Address, u64)>::empty());
        assert(total_of(t.drop_first()) == 0);
    } else {
        assert(t[0] == s[0]);
        assert(t.drop_first() =~= s.drop_first().push(p));
        lemma_total_push(s.drop_first(), p);
        assert(total_of(t) == s[0].1 + total_of(s.drop_first().push(p)));
    }
}

pub proof fn lemma_lookup_le_total(s: Seq<(Address, u64)>, a: Seq<u8>)
    ensures
        (match lookup(s, a) {
            Some(v) => v <= total_of(s),
            None => true,
        }),
    decreases s.len(),
{
    if s.len() != 0 {
        lemma_total_nonneg(s.drop_first());
        lemma_lookup_le_total(s.drop_first(), a);
        lemma_total_nonneg(s);
    }
}

/// The persistent state the execution environment keeps for the vault
/// program: one balance per address, one metadata record per state address,
/// and the program identity every derivation is bound to. `issued` tracks
/// the sum of all balances, so the sum always fits in a `u64` and transfers
/// cannot overflow a destination balance.
pub struct Ledger {
    pub program_id: Address,
    pub balances: Vec<(Address, u64)>,
    pub records: Vec<(Address, VaultState)>,
    pub issued: u64,
}

impl Ledger {
    /// The program identity derivations are bound to.
    pub open spec fn program(&self) -> Seq<u8> {
        self.program_id@
    }

    /// Balance held at address `a`; zero where no entry exists.
    pub open spec fn bal(&self, a: Seq<u8>) -> u64 {
        match lookup(self.balances@, a) {
            Some(v) => v,
            None => 0,
        }
    }

    /// Metadata record stored at state address `a`, if any.
    pub open spec fn record(&self, a: Seq<u8>) -> Option<VaultState> {
        lookup(self.records@, a)
    }

    /// Sum of all balances.
    pub open spec fn total(&self) -> int {
        total_of(self.balances@)
    }

    /// Well-formedness: keys are unique and the issued counter equals the
    /// sum of all balances (so that sum fits in a `u64`).
    pub open spec fn wf(&self) -> bool {
        &&& unique_keys(self.balances@)
        &&& unique_keys(self.records@)
        &&& self.issued as int == total_of(self.balances@)
    }

    /// An empty ledger: no balances, no records.
    pub fn new(program_id: Address) -> (l: Ledger)
        ensures
            l.wf(),
            l.program() == program_id@,
            forall|a: Seq<u8>| #[trigger] l.bal(a) == 0,
            forall|a: Seq<u8>| #[trigger] l.record(a) is None,
            l.total() == 0,
    {
        let l = Ledger {
            program_id,
            balances: Vec::new(),
            records: Vec::new(),
            issued: 0,
        };
        proof {
            assert forall|a: Seq<u8>| #[trigger] l.bal(a) == 0 by {
                assert(lookup(l.balances@, a) is None);
            }
            assert forall|a: Seq<u8>| #[trigger] l.record(a) is None by {
                assert(lookup(l.records@, a) is None);
            }
        }
        l
    }

    /// The sum of all balances.
    pub fn total_issued(&self) -> (r: u64)
        requires
            self.wf(),
        ensures
            r as int == self.total(),
    {
        self.issued
    }

    /// Balance held at `a`.
    pub fn balance_of(&self, a: &Address) -> (r: u64)
        ensures
            r == self.bal(a@),
    {
        match find_key(&self.balances, a) {
            Some(i) => {
                proof {
                    lemma_lookup_first_match(self.balances@, a@, i as int);
                }
                self.balances[i].1
            },
            None => {
                proof {
                    lemma_lookup_absent(self.balances@, a@);
                }
                0
            },
        }
    }

    /// Metadata record stored at state address `a`.
    pub fn get_record(&self, a: &Address) -> (r: Option<VaultState>)
        ensures
            r == self.record(a@),
    {
        match find_key(&self.records, a) {
            Some(i) => {
                proof {
                    lemma_lookup_first_match(self.records@, a@, i as int);
                }
                Some(self.records[i].1)
            },
            None => {
                proof {
                    lemma_lookup_absent(self.records@, a@);
                }
                None
            },
        }
    }

    /// Overwrite (or create) the balance entry of `a`.
    pub(crate) fn set_bal(&mut self, a: &Address, v: u64)
        requires
            unique_keys(old(self).balances@),
        ensures
            unique_keys(final(self).balances@),
            final(self).records == old(self).records,
            final(self).program_id == old(self).program_id,
            final(self).issued == old(self).issued,
            forall|b: Seq<u8>|
                #[trigger] final(self).bal(b) == if b == a@ {
                    v
                } else {
                    old(self).bal(b)
                },
            final(self).total() == old(self).total() - old(self).bal(a@) + v,
    {
        match find_key(&self.balances, a) {
            Some(i) => {
                let key = self.balances[i].0.dup();
                proof {
                    lemma_lookup_first_match(self.balances@, a@, i as int);
                    lemma_lookup_update(self.balances@, i as int, (key, v));
                    lemma_total_update(self.balances@, i as int, (key, v));
                }
                self.balances.set(i, (key, v));
            },
            None => {
                let key = a.dup();
                proof {
                    lemma_lookup_absent(self.balances@, a@);
                    lemma_lookup_push(self.balances@, (key, v));
                    lemma_unique_push(self.balances@, (key, v));
                    lemma_total_push(self.balances@, (key, v));
                }
                self.balances.push((key, v));
            },
        }
    }

    /// Move `amount` from one address to another. The ledger's sum is
    /// unchanged; a transfer from an address to itself is a no-op.
    pub(crate) fn transfer(&mut self, from: &Address, to: &Address, amount: u64)
        requires
            old(self).wf(),
            old(self).bal(from@) >= amount,
        ensures
            final(self).wf(),
            final(self).records == old(self).records,
            final(self).program_id == old(self).program_id,
            forall|b: Seq<u8>|
                #[trigger] final(self).bal(b) as int == old(self).bal(b) - (if b == from@ {
                    amount as int
                } else {
                    0
                }) + (if b == to@ {
                    amount as int
                } else {
                    0
                }),
            final(self).total() == old(self).total(),
    {
        let bf = self.balance_of(from);
        self.set_bal(from, bf - amount);
        let bt = self.balance_of(to);
        proof {
            lemma_lookup_le_total(self.balances@, to@);
            assert(self.total() == old(self).issued - amount);
        }
        self.set_bal(to, bt + amount);
    }

    /// Create `amount` new value at `a` (the environment funding an
    /// account). Fails, changing nothing, exactly where the new sum of all
    /// balances would not fit in a `u64`.
    pub fn airdrop(&mut self, a: &Address, amount: u64) -> (r: bool)
        requires
            old(self).wf(),
        ensures
            final(self).wf(),
            final(self).records == old(self).records,
            final(self).program_id == old(self).program_id,
            r == (old(self).total() + amount <= u64::MAX),
            r ==> forall|b: Seq<u8>|
                #[trigger] final(self).bal(b) as int == old(self).bal(b) + (if b == a@ {
                    amount as int
                } else {
                    0
                }),
            r ==> final(self).total() == old(self).total() + amount,
            !r ==> *final(self) == *old(self),
    {
        if amount <= u64::MAX - self.issued {
            self.issued = self.issued + amount;
            let b0 = self.balance_of(a);
            proof {
                lemma_lookup_le_total(self.balances@, a@);
            }
            self.set_bal(a, b0 + amount);
            true
        } else {
            false
        }
    }

    /// Store a fresh metadata record at state address `a`.
    pub(crate) fn insert_record(&mut self, a: &Address, st: VaultState)
        requires
            unique_keys(old(self).records@),
            old(self).record(a@) is None,
        ensures
            unique_keys(final(self).records@),
            final(self).balances == old(self).balances,
            final(self).program_id == old(self).program_id,
            final(self).issued == old(self).issued,
            forall|b: Seq<u8>|
                #[trigger] final(self).record(b) == if b == a@ {
                    Some(st)
                } else {
                    old(self).record(b)
                },
    {
        let key = a.dup();
        proof {
            lemma_lookup_push(self.records@, (key, st));
            lemma_unique_push(self.records@, (key, st));
        }
        self.records.push((key, st));
    }

    /// Delete the metadata record stored at state address `a`.
    pub(crate) fn remove_record(&mut self, a: &Address)
        requires
            unique_keys(old(self).records@),
            old(self).record(a@) is Some,
        ensures
            unique_keys(final(self).records@),
            final(self).balances == old(self).balances,
            final(self).program_id == old(self).program_id,
            final(self).issued == old(self).issued,
            forall|b: Seq<u8>|
                #[trigger] final(self).record(b) == if b == a@ {
                    None::<VaultState>
                } else {
                    old(self).record(b)
                },
    {
        match find_key(&self.records, a) {
            Some(i) => {
                proof {
                    lemma_lookup_remove(self.records@, i as int);
                }
                self.records.remove(i);
            },
            None => {
                proof {
                    lemma_lookup_absent(self.records@, a@);
                }
            },
        }
    }
}

/// Index of the first entry keyed by `a`, if any.
fn find_key<T>(v: &Vec<(Address, T)>, a: &Address) -> (r: Option<usize>)
    ensures
        (match r {
            Some(i) => 0 <= i < v@.len() && v@[i as int].0@ == a@ && forall|j: int|
                0 <= j < i ==> v@[j].0@ != a@,
            None => forall|j: int| 0 <= j < v@.len() ==> v@[j].0@ != a@,
        }),
{
    let mut i: usize = 0;
    while i < v.len()
        invariant
            i <= v.len(),
            forall|j: int| 0 <= j < i ==> v@[j].0@ != a@,
        decreases v.len() - i,
    {
        if v[i].0.addr_eq(a) {
            return Some(i);
        }
        i += 1;
    }
    None
}

} // verus!
