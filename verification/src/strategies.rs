//! The scanning strategies: their names, and the whole-number rules that
//! decide which contracts and chains each one considers. Each looks for one
//! kind of trade; the pricing and scoring work on floating-point prices and
//! Greeks.
use vstd::prelude::*;

verus! {

/// The "Unusual Volume" strategy.
pub struct UnusualVolumeStrategy;

impl UnusualVolumeStrategy {
    /// Whether contracts this many days from expiration are considered: at least 1 days.
    pub fn accepts_dte(&self, dte: u32) -> (r: bool)
        ensures
            r == (1 <= dte),
    {
        1 <= dte
    }

    /// Whether a contract trades enough: at least `min_volume` contracts
    /// today, and some open interest to compare them with.
    pub fn accepts_activity(&self, volume: u64, open_interest: u64, min_volume: u64) -> (r: bool)
        ensures
            r == (volume >= min_volume && open_interest > 0),
    {
        volume >= min_volume && open_interest > 0
    }

    /// The strategy's name.
    pub fn name(&self) -> (r: &'static str)
        ensures
            r@ == "Unusual Volume"@,
    {
        "Unusual Volume"
    }

    /// What the strategy looks for.
    pub fn description(&self) -> (r: &'static str)
        ensures
            r@ == "Finds contracts where today's volume is significantly higher than open interest, suggesting big institutional positioning."@,
    {
        "Finds contracts where today's volume is significantly higher than open interest, suggesting big institutional positioning."
    }
}

/// The "IV Crush" strategy.
pub struct IvCrushStrategy;

impl IvCrushStrategy {
    /// Whether contracts this many days from expiration are considered: 1 to 60 days.
    pub fn accepts_dte(&self, dte: u32) -> (r: bool)
        ensures
            r == (1 <= dte && dte <= 60),
    {
        1 <= dte && dte <= 60
    }

    /// Whether a contract traded today.
    pub fn accepts_volume(&self, volume: u64) -> (r: bool)
        ensures
            r == (volume > 0),
    {
        volume > 0
    }

    /// The strategy's name.
    pub fn name(&self) -> (r: &'static str)
        ensures
            r@ == "IV Crush"@,
    {
        "IV Crush"
    }

    /// What the strategy looks for.
    pub fn description(&self) -> (r: &'static str)
        ensures
            r@ == "Finds options with unusually high implied volatility that are likely to drop after an event (earnings, FDA, etc)."@,
    {
        "Finds options with unusually high implied volatility that are likely to drop after an event (earnings, FDA, etc)."
    }
}

/// The "Wheel Setup" strategy.
pub struct WheelStrategy;

impl WheelStrategy {
    /// Whether contracts this many days from expiration are considered: 20 to 60 days.
    pub fn accepts_dte(&self, dte: u32) -> (r: bool)
        ensures
            r == (20 <= dte && dte <= 60),
    {
        20 <= dte && dte <= 60
    }

    /// Whether a contract traded today.
    pub fn accepts_volume(&self, volume: u64) -> (r: bool)
        ensures
            r == (volume > 0),
    {
        volume > 0
    }

    /// The strategy's name.
    pub fn name(&self) -> (r: &'static str)
        ensures
            r@ == "Wheel Setup"@,
    {
        "Wheel Setup"
    }

    /// What the strategy looks for.
    pub fn description(&self) -> (r: &'static str)
        ensures
            r@ == "Finds good candidates for the wheel strategy — selling cash-secured puts on stocks you'd be happy to own, then covered calls if assigned."@,
    {
        "Finds good candidates for the wheel strategy — selling cash-secured puts on stocks you'd be happy to own, then covered calls if assigned."
    }
}

/// The "Cheap Directional" strategy.
pub struct CheapDirectionalStrategy;

impl CheapDirectionalStrategy {
    /// Whether contracts this many days from expiration are considered: 14 to 90 days.
    pub fn accepts_dte(&self, dte: u32) -> (r: bool)
        ensures
            r == (14 <= dte && dte <= 90),
    {
        14 <= dte && dte <= 90
    }

    /// Whether a contract trades enough: at least 10 contracts today.
    pub fn accepts_volume(&self, volume: u64) -> (r: bool)
        ensures
            r == (volume >= 10),
    {
        volume >= 10
    }

    /// The strategy's name.
    pub fn name(&self) -> (r: &'static str)
        ensures
            r@ == "Cheap Directional"@,
    {
        "Cheap Directional"
    }

    /// What the strategy looks for.
    pub fn description(&self) -> (r: &'static str)
        ensures
            r@ == "Finds cheap, slightly OTM options with reasonable time left — low-cost bets on a moderate move."@,
    {
        "Finds cheap, slightly OTM options with reasonable time left — low-cost bets on a moderate move."
    }
}

/// The "Credit Spread" strategy.
pub struct SpreadStrategy;

impl SpreadStrategy {
    /// Whether chains this many days from expiration are considered: 14 to 60 days.
    pub fn accepts_dte(&self, dte: u32) -> (r: bool)
        ensures
            r == (14 <= dte && dte <= 60),
    {
        14 <= dte && dte <= 60
    }

    /// The strategy's name.
    pub fn name(&self) -> (r: &'static str)
        ensures
            r@ == "Credit Spread"@,
    {
        "Credit Spread"
    }

    /// What the strategy looks for.
    pub fn description(&self) -> (r: &'static str)
        ensures
            r@ == "Finds vertical credit spread opportunities — selling a near-the-money option and buying a further OTM one to collect premium with defined risk."@,
    {
        "Finds vertical credit spread opportunities — selling a near-the-money option and buying a further OTM one to collect premium with defined risk."
    }
}

/// The "Straddle" strategy.
pub struct StraddleStrategy;

impl StraddleStrategy {
    /// Whether chains this many days from expiration are considered: 7 to 60 days.
    pub fn accepts_dte(&self, dte: u32) -> (r: bool)
        ensures
            r == (7 <= dte && dte <= 60),
    {
        7 <= dte && dte <= 60
    }

    /// The strategy's name.
    pub fn name(&self) -> (r: &'static str)
        ensures
            r@ == "Straddle"@,
    {
        "Straddle"
    }

    /// What the strategy looks for.
    pub fn description(&self) -> (r: &'static str)
        ensures
            r@ == "Finds straddle opportunities — buying both a call and put at the same strike when you expect a big move but don't know which direction."@,
    {
        "Finds straddle opportunities — buying both a call and put at the same strike when you expect a big move but don't know which direction."
    }
}

/// The "Calendar Spread" strategy.
pub struct CalendarStrategy;

impl CalendarStrategy {
    /// Whether enough expirations were fetched to pair them: two.
    pub fn accepts_chain_count(&self, chains: usize) -> (r: bool)
        ensures
            r == (chains >= 2),
    {
        chains >= 2
    }

    /// Whether a chain this many days out can be the short (near) leg: 7 to 45 days.
    pub fn accepts_near_dte(&self, dte: u32) -> (r: bool)
        ensures
            r == (7 <= dte && dte <= 45),
    {
        7 <= dte && dte <= 45
    }

    /// Whether a chain this many days out can be the long (far) leg: 30 to 90 days.
    pub fn accepts_far_dte(&self, dte: u32) -> (r: bool)
        ensures
            r == (30 <= dte && dte <= 90),
    {
        30 <= dte && dte <= 90
    }

    /// Whether the legs lie far enough apart: at least 14 days.
    pub fn accepts_gap(&self, near_dte: u32, far_dte: u32) -> (r: bool)
        requires
            near_dte <= far_dte,
        ensures
            r == (far_dte - near_dte >= 14),
    {
        far_dte - near_dte >= 14
    }

    /// The strategy's name.
    pub fn name(&self) -> (r: &'static str)
        ensures
            r@ == "Calendar Spread"@,
    {
        "Calendar Spread"
    }

    /// What the strategy looks for.
    pub fn description(&self) -> (r: &'static str)
        ensures
            r@ == "Finds calendar spread opportunities — selling a near-term option and buying a longer-term one at the same strike to profit from time decay differential."@,
    {
        "Finds calendar spread opportunities — selling a near-term option and buying a longer-term one at the same strike to profit from time decay differential."
    }
}

/// The "Covered Call" strategy.
pub struct CoveredCallStrategy;

impl CoveredCallStrategy {
    /// Whether chains this many days from expiration are considered: 14 to 60 days.
    pub fn accepts_dte(&self, dte: u32) -> (r: bool)
        ensures
            r == (14 <= dte && dte <= 60),
    {
        14 <= dte && dte <= 60
    }

    /// The strategy's name.
    pub fn name(&self) -> (r: &'static str)
        ensures
            r@ == "Covered Call"@,
    {
        "Covered Call"
    }

    /// What the strategy looks for.
    pub fn description(&self) -> (r: &'static str)
        ensures
            r@ == "Finds covered call setups — selling OTM calls against stock you own or could buy, generating income while holding the underlying."@,
    {
        "Finds covered call setups — selling OTM calls against stock you own or could buy, generating income while holding the underlying."
    }
}

/// The "Butterfly" strategy.
pub struct ButterflyStrategy;

impl ButterflyStrategy {
    /// Whether chains this many days from expiration are considered: 14 to 60 days.
    pub fn accepts_dte(&self, dte: u32) -> (r: bool)
        ensures
            r == (14 <= dte && dte <= 60),
    {
        14 <= dte && dte <= 60
    }

    /// Whether enough liquid calls are listed to look for a butterfly: five.
    pub fn accepts_call_count(&self, calls: usize) -> (r: bool)
        ensures
            r == (calls >= 5),
    {
        calls >= 5
    }

    /// The strategy's name.
    pub fn name(&self) -> (r: &'static str)
        ensures
            r@ == "Butterfly"@,
    {
        "Butterfly"
    }

    /// What the strategy looks for.
    pub fn description(&self) -> (r: &'static str)
        ensures
            r@ == "Finds long call butterfly setups — buy 1 ITM call, sell 2 ATM calls, buy 1 OTM call for a low-cost, high-reward pin play."@,
    {
        "Finds long call butterfly setups — buy 1 ITM call, sell 2 ATM calls, buy 1 OTM call for a low-cost, high-reward pin play."
    }
}

/// The "Iron Condor" strategy.
pub struct IronCondorStrategy;

impl IronCondorStrategy {
    /// Whether chains this many days from expiration are considered: 20 to 60 days.
    pub fn accepts_dte(&self, dte: u32) -> (r: bool)
        ensures
            r == (20 <= dte && dte <= 60),
    {
        20 <= dte && dte <= 60
    }

    /// Whether enough liquid wings are listed: two puts and two calls.
    pub fn accepts_wing_counts(&self, puts: usize, calls: usize) -> (r: bool)
        ensures
            r == (puts >= 2 && calls >= 2),
    {
        puts >= 2 && calls >= 2
    }

    /// The strategy's name.
    pub fn name(&self) -> (r: &'static str)
        ensures
            r@ == "Iron Condor"@,
    {
        "Iron Condor"
    }

    /// What the strategy looks for.
    pub fn description(&self) -> (r: &'static str)
        ensures
            r@ == "Finds iron condor setups — selling a put spread and call spread around the current price to collect premium when expecting low volatility."@,
    {
        "Finds iron condor setups — selling a put spread and call spread around the current price to collect premium when expecting low volatility."
    }
}

/// The "Ratio Spread" strategy.
pub struct RatioSpreadStrategy;

impl RatioSpreadStrategy {
    /// Whether chains this many days from expiration are considered: 20 to 60 days.
    pub fn accepts_dte(&self, dte: u32) -> (r: bool)
        ensures
            r == (20 <= dte && dte <= 60),
    {
        20 <= dte && dte <= 60
    }

    /// Whether enough liquid calls are listed to look for a ratio spread: four.
    pub fn accepts_call_count(&self, calls: usize) -> (r: bool)
        ensures
            r == (calls >= 4),
    {
        calls >= 4
    }

    /// The strategy's name.
    pub fn name(&self) -> (r: &'static str)
        ensures
            r@ == "Ratio Spread"@,
    {
        "Ratio Spread"
    }

    /// What the strategy looks for.
    pub fn description(&self) -> (r: &'static str)
        ensures
            r@ == "Finds ratio call spreads — buy 1 ITM call, sell 2 OTM calls for near-zero cost with big upside if the stock rises modestly."@,
    {
        "Finds ratio call spreads — buy 1 ITM call, sell 2 OTM calls for near-zero cost with big upside if the stock rises modestly."
    }
}

} // verus!
