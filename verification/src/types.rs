//! Primitive value types of the ledger: addresses, denominations, amounts,
//! and the migration error taxonomy.

use vstd::prelude::*;

verus! {

/// An account address. The migration layer only ever compares addresses for
/// equality, so a plain integer identifier suffices as the model.
#[derive(PartialEq, Eq, Structural, Clone, Copy, Debug)]
pub struct Address {
    pub value: u64,
}

/// An identifier for a unit of value. One distinguished native denomination
/// exists per runtime; every other denomination is known by a numeric name.
#[derive(PartialEq, Eq, Structural, Clone, Copy, Debug)]
pub enum Denomination {
    Native,
    Named(u64),
}

/// An atomic currency value: a non-negative amount tagged with its
/// denomination. Amounts are 128 bits wide so that rescaling by large factors
/// has room; all arithmetic on them is checked.
#[derive(PartialEq, Eq, Structural, Clone, Copy, Debug)]
pub struct BaseUnits {
    pub amount: u128,
    pub denomination: Denomination,
}

impl BaseUnits {
    /// A new token amount of the given denomination.
    pub fn new(amount: u128, denomination: Denomination) -> (r: BaseUnits)
        ensures
            r == (BaseUnits { amount, denomination }),
    {
        BaseUnits { amount, denomination }
    }

    /// Checked addition: defined only on equal denominations, and fails
    /// loudly instead of truncating on overflow.
    pub fn checked_add(&self, other: &BaseUnits) -> (r: Option<BaseUnits>)
        ensures
            r is Some <==> self.denomination == other.denomination && self.amount + other.amount
                <= u128::MAX,
            r is Some ==> r->Some_0 == (BaseUnits {
                amount: (self.amount + other.amount) as u128,
                denomination: self.denomination,
            }),
    {
        if self.denomination == other.denomination {
            match self.amount.checked_add(other.amount) {
                Some(amount) => Some(BaseUnits { amount, denomination: self.denomination }),
                None => None,
            }
        } else {
            None
        }
    }

    /// Checked multiplication by a scalar factor; fails loudly instead of
    /// truncating on overflow.
    pub fn checked_mul(&self, factor: u128) -> (r: Option<BaseUnits>)
        ensures
            r is Some <==> self.amount * factor <= u128::MAX,
            r is Some ==> r->Some_0 == (BaseUnits {
                amount: (self.amount * factor) as u128,
                denomination: self.denomination,
            }),
    {
        match self.amount.checked_mul(factor) {
            Some(amount) => Some(BaseUnits { amount, denomination: self.denomination }),
            None => None,
        }
    }
}

/// The unrecoverable failures of a migration pass. Each aborts the pass as a
/// whole: no partial state change is committed.
#[derive(PartialEq, Eq, Structural, Clone, Copy, Debug)]
pub enum MigrationError {
    /// A checked multiplication or addition during rescaling exceeded the
    /// representable range.
    ArithmeticOverflow,
    /// The recomputed expected total supply does not match the accumulated
    /// total after rescaling: the ledger was corrupt before migration.
    LedgerInconsistency,
    /// The post-migration global invariant check failed.
    InvariantViolation,
}

} // verus!
