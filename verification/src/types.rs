use vstd::prelude::*;

verus! {

/// Whether an option contract is a call or a put.
#[derive(Debug, Clone, Copy, PartialEq, Eq, Hash, Structural)]
pub enum OptionType {
    Call,
    Put,
}

/// The display name of an option type.
pub open spec fn option_type_name(t: OptionType) -> Seq<char> {
    match t {
        OptionType::Call => "Call"@,
        OptionType::Put => "Put"@,
    }
}

impl OptionType {
    /// The text shown for this option type ("Call" or "Put").
    pub fn name(&self) -> (r: String)
        ensures
            r@ == option_type_name(*self),
            *self == OptionType::Call ==> r@ == "Call"@,
            *self == OptionType::Put ==> r@ == "Put"@,
    {
        match self {
            OptionType::Call => String::from_str("Call"),
            OptionType::Put => String::from_str("Put"),
        }
    }
}


/// The kind of trade an opportunity belongs to.
#[derive(Debug, Clone, Copy, PartialEq, Eq, Hash, Structural)]
pub enum StrategyType {
    UnusualVolume,
    IvCrush,
    WheelSetup,
    CheapDirectional,
    CreditSpread,
    DebitSpread,
    IronCondor,
    Straddle,
    Strangle,
    CalendarSpread,
    CoveredCall,
    Butterfly,
    RatioSpread,
}

/// The display name of a strategy type.
pub open spec fn strategy_label(s: StrategyType) -> Seq<char> {
    match s {
        StrategyType::UnusualVolume => "Unusual Volume"@,
        StrategyType::IvCrush => "IV Crush"@,
        StrategyType::WheelSetup => "Wheel Setup"@,
        StrategyType::CheapDirectional => "Cheap Directional"@,
        StrategyType::CreditSpread => "Credit Spread"@,
        StrategyType::DebitSpread => "Debit Spread"@,
        StrategyType::IronCondor => "Iron Condor"@,
        StrategyType::Straddle => "Straddle"@,
        StrategyType::Strangle => "Strangle"@,
        StrategyType::CalendarSpread => "Calendar Spread"@,
        StrategyType::CoveredCall => "Covered Call"@,
        StrategyType::Butterfly => "Butterfly"@,
        StrategyType::RatioSpread => "Ratio Spread"@,
    }
}

impl StrategyType {
    /// The text shown for this strategy type.
    pub fn label(&self) -> (r: String)
        ensures
            r@ == strategy_label(*self),
            *self == StrategyType::UnusualVolume ==> r@ == "Unusual Volume"@,
            *self == StrategyType::IvCrush ==> r@ == "IV Crush"@,
            *self == StrategyType::WheelSetup ==> r@ == "Wheel Setup"@,
            *self == StrategyType::CheapDirectional ==> r@ == "Cheap Directional"@,
            *self == StrategyType::CreditSpread ==> r@ == "Credit Spread"@,
            *self == StrategyType::DebitSpread ==> r@ == "Debit Spread"@,
            *self == StrategyType::IronCondor ==> r@ == "Iron Condor"@,
            *self == StrategyType::Straddle ==> r@ == "Straddle"@,
            *self == StrategyType::Strangle ==> r@ == "Strangle"@,
            *self == StrategyType::CalendarSpread ==> r@ == "Calendar Spread"@,
            *self == StrategyType::CoveredCall ==> r@ == "Covered Call"@,
            *self == StrategyType::Butterfly ==> r@ == "Butterfly"@,
            *self == StrategyType::RatioSpread ==> r@ == "Ratio Spread"@,
    {
        match self {
            StrategyType::UnusualVolume => String::from_str("Unusual Volume"),
            StrategyType::IvCrush => String::from_str("IV Crush"),
            StrategyType::WheelSetup => String::from_str("Wheel Setup"),
            StrategyType::CheapDirectional => String::from_str("Cheap Directional"),
            StrategyType::CreditSpread => String::from_str("Credit Spread"),
            StrategyType::DebitSpread => String::from_str("Debit Spread"),
            StrategyType::IronCondor => String::from_str("Iron Condor"),
            StrategyType::Straddle => String::from_str("Straddle"),
            StrategyType::Strangle => String::from_str("Strangle"),
            StrategyType::CalendarSpread => String::from_str("Calendar Spread"),
            StrategyType::CoveredCall => String::from_str("Covered Call"),
            StrategyType::Butterfly => String::from_str("Butterfly"),
            StrategyType::RatioSpread => String::from_str("Ratio Spread"),
        }
    }
}

} // verus!
