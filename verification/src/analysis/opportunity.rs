//! The vocabulary of trading opportunities.
use vstd::prelude::*;
use vstd::string::*;

verus! {

/// Side of a trade leg.
#[derive(Debug, Clone, Copy, PartialEq, Eq, Structural)]
pub enum Action {
    Buy,
    Sell,
}

/// Currency in which a leg's price is quoted.
#[derive(Debug, Clone, Copy, PartialEq, Eq, Structural)]
pub enum PriceUnit {
    Btc,
    Usd,
}

/// How much an opportunity's profit depends on the market.
#[derive(Debug, Clone, Copy, PartialEq, Eq, Structural)]
pub enum RiskLevel {
    Low,
    Medium,
    High,
}

/// How an action is displayed.
pub open spec fn action_label(a: Action) -> Seq<char> {
    match a {
        Action::Buy => "BUY"@,
        Action::Sell => "SELL"@,
    }
}

/// How a price unit is displayed.
pub open spec fn price_unit_label(u: PriceUnit) -> Seq<char> {
    match u {
        PriceUnit::Btc => "BTC"@,
        PriceUnit::Usd => "USD"@,
    }
}

/// How a risk level is displayed.
pub open spec fn risk_level_label(r: RiskLevel) -> Seq<char> {
    match r {
        RiskLevel::Low => "low"@,
        RiskLevel::Medium => "medium"@,
        RiskLevel::High => "high"@,
    }
}

impl Action {
    /// `"BUY"` or `"SELL"`.
    pub fn to_string(&self) -> (s: String)
        ensures
            s@ == action_label(*self),
    {
        match self {
            Action::Buy => String::from_str("BUY"),
            Action::Sell => String::from_str("SELL"),
        }
    }
}

impl PriceUnit {
    /// `"BTC"` or `"USD"`.
    pub fn to_string(&self) -> (s: String)
        ensures
            s@ == price_unit_label(*self),
    {
        match self {
            PriceUnit::Btc => String::from_str("BTC"),
            PriceUnit::Usd => String::from_str("USD"),
        }
    }
}

impl RiskLevel {
    /// `"low"`, `"medium"` or `"high"`.
    pub fn to_string(&self) -> (s: String)
        ensures
            s@ == risk_level_label(*self),
    {
        match self {
            RiskLevel::Low => String::from_str("low"),
            RiskLevel::Medium => String::from_str("medium"),
            RiskLevel::High => String::from_str("high"),
        }
    }
}


/// The labels of actions, price units and risk levels.
pub proof fn labels()
    ensures
        action_label(Action::Buy) == "BUY"@,
        action_label(Action::Sell) == "SELL"@,
        price_unit_label(PriceUnit::Btc) == "BTC"@,
        price_unit_label(PriceUnit::Usd) == "USD"@,
        risk_level_label(RiskLevel::Low) == "low"@,
        risk_level_label(RiskLevel::Medium) == "medium"@,
        risk_level_label(RiskLevel::High) == "high"@,
{
}

} // verus!
