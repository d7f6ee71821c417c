//! Balances of every asset on every account.
use vstd::prelude::*;
use crate::store::{Store, bytes_eq, copy_bytes};
use crate::types::{AccountId, AssetId, Balance, Error};

verus! {

/// Balances held by each (asset, account).
pub type Balances = Map<(AssetId, Seq<u8>), nat>;

/// Moves `amount` of `asset` from `from` to `to`. Nothing moves where the
/// amount is zero or both accounts are the same.
pub open spec fn transferred(m: Balances, asset: AssetId, from: Seq<u8>, to: Seq<u8>, amount: nat) -> Result<Balances, Error> {
    if amount == 0 || from == to {
        Ok(m)
    } else if m[(asset, from)] < amount {
        Err(Error::InsufficientAssetBalance)
    } else if m[(asset, to)] + amount > u128::MAX {
        Err(Error::BalanceOverflow)
    } else {
        Ok(m.insert((asset, from), (m[(asset, from)] - amount) as nat).insert((asset, to), m[(asset, to)] + amount))
    }
}

/// Creates `amount` of `asset` on `who`.
pub open spec fn deposited(m: Balances, asset: AssetId, who: Seq<u8>, amount: nat) -> Result<Balances, Error> {
    if m[(asset, who)] + amount > u128::MAX {
        Err(Error::BalanceOverflow)
    } else {
        Ok(m.insert((asset, who), m[(asset, who)] + amount))
    }
}

/// Destroys `amount` of `asset` on `who`.
pub open spec fn withdrawn(m: Balances, asset: AssetId, who: Seq<u8>, amount: nat) -> Result<Balances, Error> {
    if m[(asset, who)] < amount {
        Err(Error::InsufficientAssetBalance)
    } else {
        Ok(m.insert((asset, who), (m[(asset, who)] - amount) as nat))
    }
}

/// Every balance fits in a `Balance`, and every key has one.
pub open spec fn bounded(m: Balances) -> bool {
    &&& m.dom() == Set::<(AssetId, Seq<u8>)>::full()
    &&& forall|k: (AssetId, Seq<u8>)| #[trigger] m[k] <= u128::MAX
}

/// `after` is what `outcome` gives, or `before` where it is an error.
pub open spec fn applied<T>(r: Result<T, Error>, before: Balances, after: Balances, outcome: Result<Balances, Error>) -> bool {
    match outcome {
        Ok(m) => r is Ok && after == m,
        Err(e) => r matches Err(e2) && e2 == e && after == before,
    }
}

/// The ledger: what each account holds of each asset.
pub struct Ledger {
    balances: Store<Balance>,
}

impl View for Ledger {
    type V = Balances;

    closed spec fn view(&self) -> Balances {
        Map::total(
            |k: (AssetId, Seq<u8>)|
                if self.balances@.contains_key(k) {
                    self.balances@[k] as nat
                } else {
                    0nat
                },
        )
    }
}

impl Ledger {
    /// A ledger where every balance is zero.
    pub fn new() -> (r: Self)
        ensures
            r@ == Map::total(|k: (AssetId, Seq<u8>)| 0nat),
    {
        let r = Ledger { balances: Store::new() };
        assert(r@ =~= Map::total(|k: (AssetId, Seq<u8>)| 0nat));
        r
    }

    /// Every balance fits in a `Balance`.
    pub proof fn lemma_bounded(&self)
        ensures
            bounded(self@),
    {
        assert(self@.dom() =~= Set::<(AssetId, Seq<u8>)>::full());
    }

    /// What `who` holds of `asset`.
    pub fn free_balance(&self, asset: AssetId, who: &AccountId) -> (r: Balance)
        ensures
            r as nat == self@[(asset, who@)],
    {
        match self.balances.get(asset, who) {
            Some(v) => v,
            None => 0,
        }
    }

    fn set(&mut self, asset: AssetId, who: &AccountId, amount: Balance)
        ensures
            final(self)@ == old(self)@.insert((asset, who@), amount as nat),
    {
        self.balances.put(asset, who, Some(amount));
        assert(self@ =~= old(self)@.insert((asset, who@), amount as nat));
    }

    /// Moves `amount` of `asset` from `from` to `to`.
    pub fn transfer(&mut self, asset: AssetId, from: &AccountId, to: &AccountId, amount: Balance) -> (r: Result<(), Error>)
        ensures
            applied(r, old(self)@, final(self)@, transferred(old(self)@, asset, from@, to@, amount as nat)),
    {
        if amount == 0 || bytes_eq(from, to) {
            return Ok(());
        }
        let fb = self.free_balance(asset, from);
        if fb < amount {
            return Err(Error::InsufficientAssetBalance);
        }
        let tb = self.free_balance(asset, to);
        if tb > u128::MAX - amount {
            return Err(Error::BalanceOverflow);
        }
        self.set(asset, from, fb - amount);
        self.set(asset, to, tb + amount);
        Ok(())
    }

    /// Creates `amount` of `asset` on `who`.
    pub fn deposit(&mut self, asset: AssetId, who: &AccountId, amount: Balance) -> (r: Result<(), Error>)
        ensures
            applied(r, old(self)@, final(self)@, deposited(old(self)@, asset, who@, amount as nat)),
    {
        let b = self.free_balance(asset, who);
        if b > u128::MAX - amount {
            return Err(Error::BalanceOverflow);
        }
        self.set(asset, who, b + amount);
        Ok(())
    }

    /// Destroys `amount` of `asset` on `who`.
    pub fn withdraw(&mut self, asset: AssetId, who: &AccountId, amount: Balance) -> (r: Result<(), Error>)
        ensures
            applied(r, old(self)@, final(self)@, withdrawn(old(self)@, asset, who@, amount as nat)),
    {
        let b = self.free_balance(asset, who);
        if b < amount {
            return Err(Error::InsufficientAssetBalance);
        }
        self.set(asset, who, b - amount);
        Ok(())
    }
}


/// One change to the ledger.
pub enum LedgerOp {
    /// Move an amount of an asset from one account to another.
    Transfer(AssetId, AccountId, AccountId, Balance),
    /// Create an amount of an asset on an account.
    Deposit(AssetId, AccountId, Balance),
    /// Destroy an amount of an asset on an account.
    Withdraw(AssetId, AccountId, Balance),
}

/// The balances after `op`, or why it cannot be applied.
pub open spec fn op_result(m: Balances, op: LedgerOp) -> Result<Balances, Error> {
    match op {
        LedgerOp::Transfer(asset, from, to, amount) => transferred(m, asset, from@, to@, amount as nat),
        LedgerOp::Deposit(asset, who, amount) => deposited(m, asset, who@, amount as nat),
        LedgerOp::Withdraw(asset, who, amount) => withdrawn(m, asset, who@, amount as nat),
    }
}

/// Applies `op` after `r`, stopping at the first error.
pub open spec fn and_then(r: Result<Balances, Error>, op: LedgerOp) -> Result<Balances, Error> {
    match r {
        Ok(m) => op_result(m, op),
        Err(e) => Err(e),
    }
}

/// The balances after the change that takes back `op`.
pub open spec fn undo_result(m: Balances, op: LedgerOp) -> Result<Balances, Error> {
    match op {
        LedgerOp::Transfer(asset, from, to, amount) => transferred(m, asset, to@, from@, amount as nat),
        LedgerOp::Deposit(asset, who, amount) => withdrawn(m, asset, who@, amount as nat),
        LedgerOp::Withdraw(asset, who, amount) => deposited(m, asset, who@, amount as nat),
    }
}

/// A change that went through is taken back by its inverse.
pub proof fn lemma_inverse(m: Balances, op: LedgerOp)
    requires
        bounded(m),
        op_result(m, op) is Ok,
    ensures
        bounded(op_result(m, op)->Ok_0),
        undo_result(op_result(m, op)->Ok_0, op) == Ok::<Balances, Error>(m),
{
    let m1 = op_result(m, op)->Ok_0;
    match op {
        LedgerOp::Transfer(asset, from, to, amount) => {
            if amount == 0 || from@ == to@ {
            } else {
                let a = (m1[(asset, to@)] - amount) as nat;
                let b = (m1[(asset, from@)] + amount) as nat;
                assert(m1.insert((asset, to@), a).insert((asset, from@), b) =~= m);
            }
        },
        LedgerOp::Deposit(asset, who, amount) => {
            assert(m1.insert((asset, who@), (m1[(asset, who@)] - amount) as nat) =~= m);
        },
        LedgerOp::Withdraw(asset, who, amount) => {
            assert(m1.insert((asset, who@), (m1[(asset, who@)] + amount) as nat) =~= m);
        },
    }
    assert(m1.dom() =~= Set::<(AssetId, Seq<u8>)>::full());
}

/// Withdrawing nothing changes nothing.
pub proof fn lemma_withdraw_nothing(m: Balances, asset: AssetId, who: Seq<u8>)
    requires
        bounded(m),
    ensures
        withdrawn(m, asset, who, 0) == Ok::<Balances, Error>(m),
{
    assert(m.insert((asset, who), (m[(asset, who)] - 0) as nat) =~= m);
}

impl LedgerOp {
    /// The change that takes this one back.
    pub fn inverse(&self) -> (r: LedgerOp)
        ensures
            forall|m: Balances| #[trigger] op_result(m, r) == undo_result(m, *self),
    {
        match self {
            LedgerOp::Transfer(asset, from, to, amount) => LedgerOp::Transfer(*asset, copy_bytes(to), copy_bytes(from), *amount),
            LedgerOp::Deposit(asset, who, amount) => LedgerOp::Withdraw(*asset, copy_bytes(who), *amount),
            LedgerOp::Withdraw(asset, who, amount) => LedgerOp::Deposit(*asset, copy_bytes(who), *amount),
        }
    }
}

impl Ledger {
    /// Applies one change.
    pub fn apply(&mut self, op: &LedgerOp) -> (r: Result<(), Error>)
        ensures
            applied(r, old(self)@, final(self)@, op_result(old(self)@, *op)),
    {
        match op {
            LedgerOp::Transfer(asset, from, to, amount) => self.transfer(*asset, from, to, *amount),
            LedgerOp::Deposit(asset, who, amount) => self.deposit(*asset, who, *amount),
            LedgerOp::Withdraw(asset, who, amount) => self.withdraw(*asset, who, *amount),
        }
    }

    /// Applies three changes in order, all or none of them: where one fails,
    /// those before it are taken back.
    pub fn apply_all(&mut self, first: &LedgerOp, second: &LedgerOp, third: &LedgerOp) -> (r: Result<(), Error>)
        ensures
            applied(r, old(self)@, final(self)@, and_then(and_then(op_result(old(self)@, *first), *second), *third)),
    {
        let ghost m0 = self@;
        proof { self.lemma_bounded(); }
        match self.apply(first) {
            Err(e) => {
                return Err(e);
            },
            Ok(_) => {},
        }
        let ghost m1 = self@;
        proof { lemma_inverse(m0, *first); }
        match self.apply(second) {
            Err(e) => {
                let _ = self.apply(&first.inverse());
                return Err(e);
            },
            Ok(_) => {},
        }
        proof { lemma_inverse(m1, *second); }
        match self.apply(third) {
            Err(e) => {
                let _ = self.apply(&second.inverse());
                let _ = self.apply(&first.inverse());
                return Err(e);
            },
            Ok(_) => {},
        }
        Ok(())
    }
}

} // verus!
