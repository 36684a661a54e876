//! The liquidity-provider share ledger: a fungible balance map owned by the
//! pair, with a total supply that always equals the sum of the balances, and
//! admin / minter / burner role sets.

use vstd::prelude::*;

use crate::pair::PairError;
use crate::u256::{pow256, U256};

verus! {

/// Sum of all balances in a ledger view.
pub open spec fn sum_bal(s: Seq<(u64, U256)>) -> int
    decreases s.len(),
{
    if s.len() == 0 {
        0
    } else {
        sum_bal(s.drop_last()) + s.last().1.as_nat()
    }
}

/// Each holder appears at most once.
pub open spec fn holders_unique(s: Seq<(u64, U256)>) -> bool {
    forall|i: int, j: int| 0 <= i < j < s.len() ==> s[i].0 != s[j].0
}

/// The balance a ledger view holds for `who`; 0 when absent.
pub open spec fn bal_of(s: Seq<(u64, U256)>, who: u64) -> nat {
    if exists|i: int| 0 <= i < s.len() && s[i].0 == who {
        s[choose|i: int| 0 <= i < s.len() && s[i].0 == who].1.as_nat()
    } else {
        0
    }
}

/// The fungible ledger of liquidity-provider shares.
pub struct LpToken {
    entries: Vec<(u64, U256)>,
    total: U256,
    admins: Vec<u64>,
    minters: Vec<u64>,
    burners: Vec<u64>,
}

impl View for LpToken {
    type V = Seq<(u64, U256)>;

    closed spec fn view(&self) -> Seq<(u64, U256)> {
        self.entries@
    }
}

proof fn lemma_sum_nonneg(s: Seq<(u64, U256)>)
    ensures
        sum_bal(s) >= 0,
    decreases s.len(),
{
    if s.len() > 0 {
        lemma_sum_nonneg(s.drop_last());
    }
}

proof fn lemma_sum_update(s: Seq<(u64, U256)>, i: int, e: (u64, U256))
    requires
        0 <= i < s.len(),
    ensures
        sum_bal(s.update(i, e)) == sum_bal(s) - s[i].1.as_nat() + e.1.as_nat(),
    decreases s.len(),
{
    let t = s.update(i, e);
    if i == s.len() - 1 {
        assert(t.drop_last() =~= s.drop_last());
    } else {
        assert(t.drop_last() =~= s.drop_last().update(i, e));
        lemma_sum_update(s.drop_last(), i, e);
    }
}

proof fn lemma_sum_push(s: Seq<(u64, U256)>, e: (u64, U256))
    ensures
        sum_bal(s.push(e)) == sum_bal(s) + e.1.as_nat(),
{
    assert(s.push(e).drop_last() =~= s);
}

/// No single balance exceeds the sum of all of them.
proof fn lemma_entry_le_sum(s: Seq<(u64, U256)>, i: int)
    requires
        0 <= i < s.len(),
    ensures
        s[i].1.as_nat() <= sum_bal(s),
    decreases s.len(),
{
    lemma_sum_nonneg(s.drop_last());
    if i < s.len() - 1 {
        lemma_entry_le_sum(s.drop_last(), i);
    }
}

impl LpToken {
    /// Total of all shares in existence.
    pub closed spec fn spec_total_supply(&self) -> nat {
        self.total.as_nat()
    }

    pub closed spec fn spec_admins(&self) -> Seq<u64> {
        self.admins@
    }

    pub closed spec fn spec_minters(&self) -> Seq<u64> {
        self.minters@
    }

    pub closed spec fn spec_burners(&self) -> Seq<u64> {
        self.burners@
    }

    /// The ledger's invariant: one entry per holder, and the total supply is
    /// exactly the sum of the balances.
    pub open spec fn wf(&self) -> bool {
        holders_unique(self@) && self.spec_total_supply() == sum_bal(self@)
    }

    /// A fresh ledger with no shares; `admin` holds every role.
    pub fn seed(admin: u64) -> (r: LpToken)
        ensures
            r.wf(),
            r@ =~= Seq::<(u64, U256)>::empty(),
            r.spec_total_supply() == 0,
            r.spec_admins() =~= seq![admin],
            r.spec_minters() =~= seq![admin],
            r.spec_burners() =~= seq![admin],
    {
        let mut admins: Vec<u64> = Vec::new();
        admins.push(admin);
        let mut minters: Vec<u64> = Vec::new();
        minters.push(admin);
        let mut burners: Vec<u64> = Vec::new();
        burners.push(admin);
        LpToken { entries: Vec::new(), total: U256::zero(), admins, minters, burners }
    }

    /// Index of the entry for `who`, when one exists.
    fn find(&self, who: u64) -> (r: Option<usize>)
        ensures
            r matches Some(i) ==> i < self@.len() && self@[i as int].0 == who,
            r is None ==> forall|i: int| 0 <= i < self@.len() ==> self@[i].0 != who,
    {
        let mut i: usize = 0;
        while i < self.entries.len()
            invariant
                i <= self@.len(),
                forall|j: int| 0 <= j < i ==> self@[j].0 != who,
            decreases self@.len() - i,
        {
            if self.entries[i].0 == who {
                return Some(i);
            }
            i = i + 1;
        }
        None
    }

    /// Current balance of `who`.
    pub fn balance_of(&self, who: u64) -> (r: U256)
        requires
            self.wf(),
        ensures
            r.as_nat() == bal_of(self@, who),
    {
        match self.find(who) {
            Some(i) => {
                proof {
                    lemma_bal_of_at(self@, i as int);
                }
                self.entries[i].1
            },
            None => U256::zero(),
        }
    }

    /// Current total supply of shares.
    pub fn total_supply(&self) -> (r: U256)
        ensures
            r.as_nat() == self.spec_total_supply(),
    {
        self.total
    }

    /// Creates `value` new shares for `to`. Fails only when the total supply
    /// would no longer fit in 256 bits; nothing changes on failure.
    pub fn mint(&mut self, to: u64, value: U256) -> (r: Result<(), PairError>)
        requires
            old(self).wf(),
        ensures
            final(self).wf(),
            r matches Ok(()) <==> old(self).spec_total_supply() + value.as_nat() < pow256(),
            r matches Err(e) ==> e == PairError::Overflow,
            r is Err ==> *final(self) == *old(self),
            r is Ok ==> final(self).spec_total_supply() == old(self).spec_total_supply()
                + value.as_nat(),
            r is Ok ==> bal_of(final(self)@, to) == bal_of(old(self)@, to) + value.as_nat(),
            forall|other: u64|
                other != to ==> bal_of(final(self)@, other) == bal_of(old(self)@, other),
            final(self).spec_admins() == old(self).spec_admins(),
            final(self).spec_minters() == old(self).spec_minters(),
            final(self).spec_burners() == old(self).spec_burners(),
    {
        let new_total = match self.total.checked_add(&value) {
            Some(t) => t,
            None => {
                return Err(PairError::Overflow);
            },
        };
        match self.find(to) {
            Some(i) => {
                proof {
                    lemma_bal_of_at(self@, i as int);
                    lemma_entry_le_sum(self@, i as int);
                }
                let cur = self.entries[i].1;
                let updated = cur.checked_add(&value).unwrap();
                let ghost prev = self@;
                self.entries.remove(i);
                self.entries.insert(i, (to, updated));
                proof {
                    assert(self@ =~= prev.update(i as int, (to, updated)));
                    lemma_sum_update(prev, i as int, (to, updated));
                    lemma_bal_of_at(self@, i as int);
                    lemma_bal_of_update_other(prev, i as int, (to, updated));
                }
                self.total = new_total;
                Ok(())
            },
            None => {
                let ghost prev = self@;
                self.entries.push((to, value));
                proof {
                    lemma_sum_push(prev, (to, value));
                    lemma_bal_of_at(self@, prev.len() as int);
                    lemma_bal_of_push_other(prev, (to, value));
                    assert(bal_of(prev, to) == 0);
                }
                self.total = new_total;
                Ok(())
            },
        }
    }

    /// Destroys `value` shares held by `from`. Fails only when `from` holds
    /// fewer than `value`; nothing changes on failure.
    pub fn burn(&mut self, from: u64, value: U256) -> (r: Result<(), PairError>)
        requires
            old(self).wf(),
        ensures
            final(self).wf(),
            r matches Ok(()) <==> bal_of(old(self)@, from) >= value.as_nat(),
            r matches Err(e) ==> e == PairError::InsufficientLiquidity,
            r is Err ==> *final(self) == *old(self),
            r is Ok ==> final(self).spec_total_supply() == old(self).spec_total_supply()
                - value.as_nat(),
            r is Ok ==> bal_of(final(self)@, from) == bal_of(old(self)@, from) - value.as_nat(),
            forall|other: u64|
                other != from ==> bal_of(final(self)@, other) == bal_of(old(self)@, other),
            final(self).spec_admins() == old(self).spec_admins(),
            final(self).spec_minters() == old(self).spec_minters(),
            final(self).spec_burners() == old(self).spec_burners(),
    {
        match self.find(from) {
            Some(i) => {
                proof {
                    lemma_bal_of_at(self@, i as int);
                    lemma_entry_le_sum(self@, i as int);
                }
                let cur = self.entries[i].1;
                if cur.lt(&value) {
                    return Err(PairError::InsufficientLiquidity);
                }
                let updated = cur.checked_sub(&value).unwrap();
                let ghost prev = self@;
                self.entries.remove(i);
                self.entries.insert(i, (from, updated));
                proof {
                    assert(self@ =~= prev.update(i as int, (from, updated)));
                    lemma_sum_update(prev, i as int, (from, updated));
                    lemma_bal_of_at(self@, i as int);
                    lemma_bal_of_update_other(prev, i as int, (from, updated));
                }
                self.total = self.total.checked_sub(&value).unwrap();
                Ok(())
            },
            None => {
                if value.is_zero() {
                    proof {
                        assert(bal_of(self@, from) == 0);
                    }
                    Ok(())
                } else {
                    proof {
                        assert(bal_of(self@, from) == 0);
                    }
                    Err(PairError::InsufficientLiquidity)
                }
            },
        }
    }
}

fn seq_contains(v: &Vec<u64>, x: u64) -> (r: bool)
    ensures
        r <==> v@.contains(x),
{
    let mut i: usize = 0;
    while i < v.len()
        invariant
            i <= v@.len(),
            forall|j: int| 0 <= j < i ==> v@[j] != x,
        decreases v@.len() - i,
    {
        if v[i] == x {
            assert(v@.contains(x));
            return true;
        }
        i = i + 1;
    }
    assert(!v@.contains(x));
    false
}

/// Appends `x` unless present; removes the first occurrence.
fn seq_insert(v: &mut Vec<u64>, x: u64)
    ensures
        final(v)@ == (if old(v)@.contains(x) {
            old(v)@
        } else {
            old(v)@.push(x)
        }),
{
    if !seq_contains(v, x) {
        v.push(x);
    }
}

fn seq_remove(v: &mut Vec<u64>, x: u64)
    ensures
        final(v)@ == old(v)@.remove_value(x),
{
    let mut i: usize = 0;
    while i < v.len()
        invariant
            i <= v@.len(),
            v@ == old(v)@,
            forall|j: int| 0 <= j < i ==> v@[j] != x,
        decreases v@.len() - i,
    {
        if v[i] == x {
            let ghost prev = v@;
            proof {
                assert(prev.contains(x)) by {
                    assert(prev[i as int] == x);
                }
            }
            v.remove(i);
            proof {
                assert(prev.contains(x));
                prev.index_of_first_ensures(x);
                let fi = prev.index_of_first(x)->Some_0;
                assert(prev[fi] == x);
                assert(fi == i);
            }
            return ;
        }
        i = i + 1;
    }
    proof {
        assert(!v@.contains(x));
        v@.index_of_first_ensures(x);
    }
}

impl LpToken {
    /// Adds `to` to the admin set; only an admin may do so.
    pub fn grant_admin_role(&mut self, caller: u64, to: u64) -> (r: Result<(), PairError>)
        requires
            old(self).wf(),
        ensures
            final(self).wf(),
            r matches Ok(()) <==> old(self).spec_admins().contains(caller),
            r matches Err(e) ==> e == PairError::Unauthorized && *final(self) == *old(self),
            r is Ok ==> final(self).spec_admins() == (if old(self).spec_admins().contains(to) {
                old(self).spec_admins()
            } else {
                old(self).spec_admins().push(to)
            }),
            r is Ok ==> final(self).spec_minters() == old(self).spec_minters() && final(self).spec_burners() == old(self).spec_burners(),
            final(self)@ == old(self)@,
            final(self).spec_total_supply() == old(self).spec_total_supply(),
    {
        if !seq_contains(&self.admins, caller) {
            return Err(PairError::Unauthorized);
        }
        seq_insert(&mut self.admins, to);
        Ok(())
    }

    /// Adds `to` to the minter set; only an admin may do so.
    pub fn grant_minter_role(&mut self, caller: u64, to: u64) -> (r: Result<(), PairError>)
        requires
            old(self).wf(),
        ensures
            final(self).wf(),
            r matches Ok(()) <==> old(self).spec_admins().contains(caller),
            r matches Err(e) ==> e == PairError::Unauthorized && *final(self) == *old(self),
            r is Ok ==> final(self).spec_minters() == (if old(self).spec_minters().contains(to) {
                old(self).spec_minters()
            } else {
                old(self).spec_minters().push(to)
            }),
            r is Ok ==> final(self).spec_admins() == old(self).spec_admins() && final(self).spec_burners() == old(self).spec_burners(),
            final(self)@ == old(self)@,
            final(self).spec_total_supply() == old(self).spec_total_supply(),
    {
        if !seq_contains(&self.admins, caller) {
            return Err(PairError::Unauthorized);
        }
        seq_insert(&mut self.minters, to);
        Ok(())
    }

    /// Adds `to` to the burner set; only an admin may do so.
    pub fn grant_burner_role(&mut self, caller: u64, to: u64) -> (r: Result<(), PairError>)
        requires
            old(self).wf(),
        ensures
            final(self).wf(),
            r matches Ok(()) <==> old(self).spec_admins().contains(caller),
            r matches Err(e) ==> e == PairError::Unauthorized && *final(self) == *old(self),
            r is Ok ==> final(self).spec_burners() == (if old(self).spec_burners().contains(to) {
                old(self).spec_burners()
            } else {
                old(self).spec_burners().push(to)
            }),
            r is Ok ==> final(self).spec_admins() == old(self).spec_admins() && final(self).spec_minters() == old(self).spec_minters(),
            final(self)@ == old(self)@,
            final(self).spec_total_supply() == old(self).spec_total_supply(),
    {
        if !seq_contains(&self.admins, caller) {
            return Err(PairError::Unauthorized);
        }
        seq_insert(&mut self.burners, to);
        Ok(())
    }

    /// Removes `from` from the admin set; only an admin may do so.
    pub fn revoke_admin_role(&mut self, caller: u64, from: u64) -> (r: Result<(), PairError>)
        requires
            old(self).wf(),
        ensures
            final(self).wf(),
            r matches Ok(()) <==> old(self).spec_admins().contains(caller),
            r matches Err(e) ==> e == PairError::Unauthorized && *final(self) == *old(self),
            r is Ok ==> final(self).spec_admins() == old(self).spec_admins().remove_value(from),
            r is Ok ==> final(self).spec_minters() == old(self).spec_minters() && final(self).spec_burners() == old(self).spec_burners(),
            final(self)@ == old(self)@,
            final(self).spec_total_supply() == old(self).spec_total_supply(),
    {
        if !seq_contains(&self.admins, caller) {
            return Err(PairError::Unauthorized);
        }
        seq_remove(&mut self.admins, from);
        Ok(())
    }

    /// Removes `from` from the minter set; only an admin may do so.
    pub fn revoke_minter_role(&mut self, caller: u64, from: u64) -> (r: Result<(), PairError>)
        requires
            old(self).wf(),
        ensures
            final(self).wf(),
            r matches Ok(()) <==> old(self).spec_admins().contains(caller),
            r matches Err(e) ==> e == PairError::Unauthorized && *final(self) == *old(self),
            r is Ok ==> final(self).spec_minters() == old(self).spec_minters().remove_value(from),
            r is Ok ==> final(self).spec_admins() == old(self).spec_admins() && final(self).spec_burners() == old(self).spec_burners(),
            final(self)@ == old(self)@,
            final(self).spec_total_supply() == old(self).spec_total_supply(),
    {
        if !seq_contains(&self.admins, caller) {
            return Err(PairError::Unauthorized);
        }
        seq_remove(&mut self.minters, from);
        Ok(())
    }

    /// Removes `from` from the burner set; only an admin may do so.
    pub fn revoke_burner_role(&mut self, caller: u64, from: u64) -> (r: Result<(), PairError>)
        requires
            old(self).wf(),
        ensures
            final(self).wf(),
            r matches Ok(()) <==> old(self).spec_admins().contains(caller),
            r matches Err(e) ==> e == PairError::Unauthorized && *final(self) == *old(self),
            r is Ok ==> final(self).spec_burners() == old(self).spec_burners().remove_value(from),
            r is Ok ==> final(self).spec_admins() == old(self).spec_admins() && final(self).spec_minters() == old(self).spec_minters(),
            final(self)@ == old(self)@,
            final(self).spec_total_supply() == old(self).spec_total_supply(),
    {
        if !seq_contains(&self.admins, caller) {
            return Err(PairError::Unauthorized);
        }
        seq_remove(&mut self.burners, from);
        Ok(())
    }

    /// The current minter set.
    pub fn minters(&self) -> (r: Vec<u64>)
        ensures
            r@ == self.spec_minters(),
    {
        copy_ids(&self.minters)
    }

    /// The current burner set.
    pub fn burners(&self) -> (r: Vec<u64>)
        ensures
            r@ == self.spec_burners(),
    {
        copy_ids(&self.burners)
    }

    /// The current admin set.
    pub fn admins(&self) -> (r: Vec<u64>)
        ensures
            r@ == self.spec_admins(),
    {
        copy_ids(&self.admins)
    }
}

fn copy_ids(v: &Vec<u64>) -> (r: Vec<u64>)
    ensures
        r@ == v@,
{
    let mut out: Vec<u64> = Vec::new();
    let mut i: usize = 0;
    while i < v.len()
        invariant
            i <= v@.len(),
            out@ == v@.subrange(0, i as int),
        decreases v@.len() - i,
    {
        out.push(v[i]);
        proof {
            assert(out@ =~= v@.subrange(0, i + 1));
        }
        i = i + 1;
    }
    proof {
        assert(out@ =~= v@);
    }
    out
}

/// `bal_of` unfolds along the last entry of a duplicate-free view.
pub proof fn lemma_bal_of_last(s: Seq<(u64, U256)>, who: u64)
    requires
        holders_unique(s),
        s.len() > 0,
    ensures
        bal_of(s, who) == if s.last().0 == who {
            s.last().1.as_nat()
        } else {
            bal_of(s.drop_last(), who)
        },
{
    let d = s.drop_last();
    if s.last().0 == who {
        lemma_bal_of_at(s, s.len() - 1);
    } else {
        if exists|i: int| 0 <= i < d.len() && d[i].0 == who {
            let i = choose|i: int| 0 <= i < d.len() && d[i].0 == who;
            assert(s[i].0 == who);
            lemma_bal_of_at(s, i);
            assert(holders_unique(d)) by {
                assert(forall|i: int| 0 <= i < d.len() ==> d[i] == s[i]);
            }
            lemma_bal_of_at(d, i);
        } else {
            assert forall|i: int| 0 <= i < s.len() implies s[i].0 != who by {
                if i < s.len() - 1 {
                    assert(d[i] == s[i]);
                    if s[i].0 == who {
                        assert(exists|j: int| 0 <= j < d.len() && d[j].0 == who);
                    }
                }
            }
        }
    }
}

/// Two different holders together never hold more than the whole supply.
pub proof fn lemma_two_entries_le_sum(s: Seq<(u64, U256)>, a: u64, b: u64)
    requires
        holders_unique(s),
        a != b,
    ensures
        bal_of(s, a) + bal_of(s, b) <= sum_bal(s),
    decreases s.len(),
{
    if s.len() == 0 {
        assert(bal_of(s, a) == 0);
        assert(bal_of(s, b) == 0);
    } else {
        let d = s.drop_last();
        assert(holders_unique(d)) by {
            assert(forall|i: int| 0 <= i < d.len() ==> d[i] == s[i]);
        }
        lemma_bal_of_last(s, a);
        lemma_bal_of_last(s, b);
        lemma_two_entries_le_sum(d, a, b);
        if s.last().0 == a {
            lemma_bal_of_zero_absent(d, a);
            lemma_one_entry_le_sum(d, b);
        } else if s.last().0 == b {
            lemma_bal_of_zero_absent(d, b);
            lemma_one_entry_le_sum(d, a);
        }
    }
}

/// A single holder never holds more than the whole supply.
pub proof fn lemma_one_entry_le_sum(s: Seq<(u64, U256)>, a: u64)
    requires
        holders_unique(s),
    ensures
        bal_of(s, a) <= sum_bal(s),
{
    lemma_sum_nonneg(s);
    if exists|i: int| 0 <= i < s.len() && s[i].0 == a {
        let i = choose|i: int| 0 <= i < s.len() && s[i].0 == a;
        lemma_bal_of_at(s, i);
        lemma_entry_le_sum(s, i);
    }
}

proof fn lemma_bal_of_zero_absent(s: Seq<(u64, U256)>, a: u64)
    requires
        forall|i: int| 0 <= i < s.len() ==> s[i].0 != a,
    ensures
        bal_of(s, a) == 0,
{
}

/// When `who` sits at index `i` of a duplicate-free view, `bal_of` reads
/// that entry.
proof fn lemma_bal_of_at(s: Seq<(u64, U256)>, i: int)
    requires
        holders_unique(s),
        0 <= i < s.len(),
    ensures
        bal_of(s, s[i].0) == s[i].1.as_nat(),
{
    let who = s[i].0;
    assert(exists|j: int| 0 <= j < s.len() && s[j].0 == who);
    let j = choose|j: int| 0 <= j < s.len() && s[j].0 == who;
    assert(j == i);
}

/// Updating the entry at `i` leaves every other holder's balance unchanged.
proof fn lemma_bal_of_update_other(s: Seq<(u64, U256)>, i: int, e: (u64, U256))
    requires
        holders_unique(s),
        0 <= i < s.len(),
        s[i].0 == e.0,
    ensures
        forall|other: u64| other != e.0 ==> bal_of(s.update(i, e), other) == bal_of(s, other),
{
    let t = s.update(i, e);
    assert forall|other: u64| other != e.0 implies bal_of(t, other) == bal_of(s, other) by {
        if exists|j: int| 0 <= j < s.len() && s[j].0 == other {
            let j = choose|j: int| 0 <= j < s.len() && s[j].0 == other;
            assert(t[j].0 == other);
            assert(exists|k: int| 0 <= k < t.len() && t[k].0 == other);
            let k = choose|k: int| 0 <= k < t.len() && t[k].0 == other;
            assert(k != i);
            assert(s[k].0 == other);
            assert(k == j);
        } else {
            assert(forall|k: int| 0 <= k < t.len() ==> t[k].0 != other);
        }
    }
}

/// Appending an entry leaves every other holder's balance unchanged.
proof fn lemma_bal_of_push_other(s: Seq<(u64, U256)>, e: (u64, U256))
    requires
        holders_unique(s),
    ensures
        forall|other: u64| other != e.0 ==> bal_of(s.push(e), other) == bal_of(s, other),
{
    let t = s.push(e);
    assert forall|other: u64| other != e.0 implies bal_of(t, other) == bal_of(s, other) by {
        if exists|j: int| 0 <= j < s.len() && s[j].0 == other {
            let j = choose|j: int| 0 <= j < s.len() && s[j].0 == other;
            assert(t[j].0 == other);
            assert(exists|k: int| 0 <= k < t.len() && t[k].0 == other);
            let k = choose|k: int| 0 <= k < t.len() && t[k].0 == other;
            assert(k != s.len());
            assert(s[k].0 == other);
            assert(k == j);
        } else {
            assert(forall|k: int| 0 <= k < t.len() ==> t[k].0 != other);
        }
    }
}

} // verus!
