//! The cult's money: daily income and expenses, and what transfers cost.
use vstd::prelude::*;

verus! {

/// An amount of money, in euros.
pub type FundsAmount = i64;

/// The cult's current funds; they may go negative.
#[derive(Debug, Clone, Copy, PartialEq, Eq, Structural)]
pub struct Funds(pub FundsAmount);

/// A daily expense: the amount per budget entry, the category, and the number
/// of budget entries it stands for.
#[derive(Debug, Clone)]
pub struct Expense(pub FundsAmount, pub String, pub usize);

/// A daily income: the amount per budget entry, the category, and the number
/// of budget entries it stands for.
#[derive(Debug, Clone)]
pub struct Income(pub FundsAmount, pub String, pub usize);

/// The sum of all daily incomes, after modifiers.
#[derive(Debug, Clone, Copy, PartialEq, Eq, Structural)]
pub struct TotalIncome(pub FundsAmount);

/// The sum of all daily expenses, after modifiers.
#[derive(Debug, Clone, Copy, PartialEq, Eq, Structural)]
pub struct TotalExpense(pub FundsAmount);

impl Default for TotalIncome {
    fn default() -> (r: Self)
        ensures
            r.0 == 0,
    {
        TotalIncome(0)
    }
}

impl Default for TotalExpense {
    fn default() -> (r: Self)
        ensures
            r.0 == 0,
    {
        TotalExpense(0)
    }
}

/// The amount that a budget line of `count` entries of `amount` each comes to.
pub fn budget_line_amount(amount: FundsAmount, count: usize) -> (r: FundsAmount)
    requires
        count <= i64::MAX,
        i64::MIN <= amount * count <= i64::MAX,
    ensures
        r == amount * count,
{
    amount * (count as i64)
}

impl Income {
    /// The daily amount of this income before modifiers.
    pub fn amount(&self) -> (r: FundsAmount)
        requires
            self.2 <= i64::MAX,
            i64::MIN <= self.0 * self.2 <= i64::MAX,
        ensures
            r == self.0 * self.2,
    {
        budget_line_amount(self.0, self.2)
    }
}

impl Expense {
    /// The daily amount of this expense before modifiers.
    pub fn amount(&self) -> (r: FundsAmount)
        requires
            self.2 <= i64::MAX,
            i64::MIN <= self.0 * self.2 <= i64::MAX,
        ensures
            r == self.0 * self.2,
    {
        budget_line_amount(self.0, self.2)
    }
}

/// The day's balance: the funds grow by the total income and shrink by the
/// total expense.
pub fn update_funds(funds: &mut Funds, total_income: &TotalIncome, total_expense: &TotalExpense)
    requires
        i64::MIN <= total_income.0 - total_expense.0 <= i64::MAX,
        i64::MIN <= old(funds).0 + (total_income.0 - total_expense.0) <= i64::MAX,
    ensures
        final(funds).0 == old(funds).0 + total_income.0 - total_expense.0,
{
    funds.0 = funds.0 + (total_income.0 - total_expense.0);
}

/// Funds cost of moving one follower to a base in the same region.
pub const INTRA_REGION_FUNDS_COST: FundsAmount = -1000;

/// Funds cost of moving one follower to a base in another region.
pub const INTER_REGION_FUNDS_COST: FundsAmount = -5000;

/// Intelligence suspicion raised by moving one follower.
pub const INTEL_SUSPICION_COST: u32 = 5;

/// The change in funds (negative) and the intelligence suspicion that moving
/// `count` followers costs, `same_region` telling whether both bases lie in
/// the same region. The count is taken modulo 2^32 for the suspicion, as a
/// cast to `u32` does.
pub fn transfer_follower_costs(same_region: bool, count: usize) -> (r: (FundsAmount, u32))
    requires
        i64::MIN <= (if same_region {
            INTRA_REGION_FUNDS_COST
        } else {
            INTER_REGION_FUNDS_COST
        }) * (count as i64) <= i64::MAX,
        INTEL_SUSPICION_COST * (count as u32) <= u32::MAX,
    ensures
        r.0 == (if same_region {
            INTRA_REGION_FUNDS_COST
        } else {
            INTER_REGION_FUNDS_COST
        }) * (count as i64),
        r.1 == INTEL_SUSPICION_COST * (count as u32),
{
    let c: i64 = count as i64;
    let s: u32 = count as u32;
    if same_region {
        (INTRA_REGION_FUNDS_COST * c, INTEL_SUSPICION_COST * s)
    } else {
        (INTER_REGION_FUNDS_COST * c, INTEL_SUSPICION_COST * s)
    }
}

/// Whether the cult can pay `cost` out of `funds`.
pub fn can_afford(funds: FundsAmount, cost: FundsAmount) -> (r: bool)
    ensures
        r == (funds >= cost),
{
    funds >= cost
}

/// Whether the funds stay non-negative after a change of `change`.
pub fn funds_stay_non_negative(funds: FundsAmount, change: FundsAmount) -> (r: bool)
    requires
        i64::MIN <= funds + change <= i64::MAX,
    ensures
        r == (funds + change >= 0),
{
    funds + change >= 0
}

} // verus!
