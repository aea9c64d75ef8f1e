//! Coins and the purses that hold them.

use vstd::prelude::*;

verus! {

/// The kinds of coin, from least to most valuable.
#[derive(Clone, Copy, Debug, PartialEq, Eq, Structural, PartialOrd, Ord, Hash)]
pub enum Kind {
    Copper,
    Silver,
    Electrum,
    Gold,
    Platinum,
}

/// The worth of one coin in copper pieces.
pub open spec fn spec_multiplier(kind: Kind) -> nat {
    match kind {
        Kind::Copper => 1,
        Kind::Silver => 10,
        Kind::Electrum => 50,
        Kind::Gold => 100,
        Kind::Platinum => 1000,
    }
}

/// The usual abbreviation of a coin.
pub open spec fn spec_abbreviation(kind: Kind) -> Seq<char> {
    match kind {
        Kind::Copper => "cp"@,
        Kind::Silver => "sp"@,
        Kind::Electrum => "ep"@,
        Kind::Gold => "gp"@,
        Kind::Platinum => "pp"@,
    }
}

impl Kind {
    /// The worth of one coin of this kind in copper pieces.
    pub fn multiplier(&self) -> (r: u64)
        ensures
            r == spec_multiplier(*self),
    {
        match self {
            Kind::Copper => 1,
            Kind::Silver => 10,
            Kind::Electrum => 50,
            Kind::Gold => 100,
            Kind::Platinum => 1000,
        }
    }

    /// The abbreviation of this kind, such as `gp`.
    pub fn abbreviation(&self) -> (s: &'static str)
        ensures
            s@ == spec_abbreviation(*self),
    {
        match self {
            Kind::Copper => "cp",
            Kind::Silver => "sp",
            Kind::Electrum => "ep",
            Kind::Gold => "gp",
            Kind::Platinum => "pp",
        }
    }
}

/// A purse of coins: how many of each kind it holds.
#[derive(Clone, Copy, Debug, PartialEq, Eq, Structural)]
pub struct Wallet {
    pub copper: u64,
    pub silver: u64,
    pub electrum: u64,
    pub gold: u64,
    pub platinum: u64,
}

/// The number of coins of one kind in a purse.
pub open spec fn spec_get(w: Wallet, kind: Kind) -> u64 {
    match kind {
        Kind::Copper => w.copper,
        Kind::Silver => w.silver,
        Kind::Electrum => w.electrum,
        Kind::Gold => w.gold,
        Kind::Platinum => w.platinum,
    }
}

/// The worth of a whole purse in copper pieces.
pub open spec fn wallet_value(w: Wallet) -> nat {
    w.copper as nat + 10 * w.silver as nat + 50 * w.electrum as nat + 100 * w.gold as nat + 1000
        * w.platinum as nat
}

/// Whether a purse holds at least as many coins of every kind as another.
pub open spec fn covers_each(w: Wallet, other: Wallet) -> bool {
    &&& w.copper >= other.copper
    &&& w.silver >= other.silver
    &&& w.electrum >= other.electrum
    &&& w.gold >= other.gold
    &&& w.platinum >= other.platinum
}

/// Whether `other` can be taken out of `w`: coin by coin, or by worth when coins may be exchanged.
pub open spec fn spec_contains(w: Wallet, other: Wallet, auto_exchange: bool) -> bool {
    if auto_exchange {
        wallet_value(w) >= wallet_value(other)
    } else {
        covers_each(w, other)
    }
}

/// The purse with the fewest coins worth exactly `value` copper: as many platinum as fit,
/// then gold, electrum, silver and copper for what remains.
pub open spec fn spec_from_value(value: nat) -> Wallet {
    Wallet {
        platinum: (value / 1000) as u64,
        gold: ((value % 1000) / 100) as u64,
        electrum: (((value % 1000) % 100) / 50) as u64,
        silver: ((((value % 1000) % 100) % 50) / 10) as u64,
        copper: ((((value % 1000) % 100) % 50) % 10) as u64,
    }
}

/// Whether no count of the sum of two purses overflows.
pub open spec fn can_add(w: Wallet, other: Wallet) -> bool {
    &&& w.copper + other.copper <= u64::MAX
    &&& w.silver + other.silver <= u64::MAX
    &&& w.electrum + other.electrum <= u64::MAX
    &&& w.gold + other.gold <= u64::MAX
    &&& w.platinum + other.platinum <= u64::MAX
}

/// The coin-by-coin sum of two purses.
pub open spec fn spec_add(w: Wallet, other: Wallet) -> Wallet {
    Wallet {
        copper: (w.copper + other.copper) as u64,
        silver: (w.silver + other.silver) as u64,
        electrum: (w.electrum + other.electrum) as u64,
        gold: (w.gold + other.gold) as u64,
        platinum: (w.platinum + other.platinum) as u64,
    }
}

/// The coin-by-coin difference of two purses.
pub open spec fn spec_sub(w: Wallet, other: Wallet) -> Wallet {
    Wallet {
        copper: (w.copper - other.copper) as u64,
        silver: (w.silver - other.silver) as u64,
        electrum: (w.electrum - other.electrum) as u64,
        gold: (w.gold - other.gold) as u64,
        platinum: (w.platinum - other.platinum) as u64,
    }
}

/// What a purse holds after `other` is taken out: coin by coin when it holds each coin,
/// otherwise (only when exchange is allowed) the fewest coins worth what is left.
pub open spec fn spec_remove(w: Wallet, other: Wallet) -> Wallet {
    if covers_each(w, other) {
        spec_sub(w, other)
    } else {
        spec_from_value((wallet_value(w) - wallet_value(other)) as nat)
    }
}

/// Whether the fewest-coins purse of this worth can be held (its platinum count fits).
pub open spec fn fits_in_wallet(value: nat) -> bool {
    value / 1000 <= u64::MAX
}

proof fn lemma_from_value(value: nat)
    requires
        fits_in_wallet(value),
    ensures
        wallet_value(spec_from_value(value)) == value,
{
    assert(value == 1000 * (value / 1000) + value % 1000);
    let r = value % 1000;
    assert(r == 100 * (r / 100) + r % 100);
    let r2 = r % 100;
    assert(r2 == 50 * (r2 / 50) + r2 % 50);
    let r3 = r2 % 50;
    assert(r3 == 10 * (r3 / 10) + r3 % 10);
}

impl Wallet {
    /// An empty purse.
    pub fn empty() -> (w: Wallet)
        ensures
            w == (Wallet { copper: 0, silver: 0, electrum: 0, gold: 0, platinum: 0 }),
            wallet_value(w) == 0,
    {
        Wallet { copper: 0, silver: 0, electrum: 0, gold: 0, platinum: 0 }
    }

    /// The number of coins of one kind.
    pub fn get(&self, kind: Kind) -> (r: u64)
        ensures
            r == spec_get(*self, kind),
    {
        match kind {
            Kind::Copper => self.copper,
            Kind::Silver => self.silver,
            Kind::Electrum => self.electrum,
            Kind::Gold => self.gold,
            Kind::Platinum => self.platinum,
        }
    }

    /// Sets the number of coins of one kind, leaving the others.
    pub fn set(&mut self, kind: Kind, amount: u64)
        ensures
            spec_get(*final(self), kind) == amount,
            forall|k: Kind| k != kind ==> spec_get(*final(self), k) == spec_get(*old(self), k),
    {
        match kind {
            Kind::Copper => self.copper = amount,
            Kind::Silver => self.silver = amount,
            Kind::Electrum => self.electrum = amount,
            Kind::Gold => self.gold = amount,
            Kind::Platinum => self.platinum = amount,
        }
    }

    /// Whether the purse holds no coins.
    pub fn is_empty(&self) -> (r: bool)
        ensures
            r == (wallet_value(*self) == 0),
    {
        self.copper == 0 && self.silver == 0 && self.electrum == 0 && self.gold == 0 && self.platinum == 0
    }

    /// The worth of the purse in copper pieces.
    pub fn total_value(&self) -> (r: u128)
        ensures
            r == wallet_value(*self),
    {
        self.copper as u128 + 10 * self.silver as u128 + 50 * self.electrum as u128 + 100 * self.gold as u128
            + 1000 * self.platinum as u128
    }

    /// The estimated worth of the purse in whole gold pieces, rounded down.
    pub fn total_value_in_gold(&self) -> (r: u128)
        ensures
            r == wallet_value(*self) / 100,
    {
        self.total_value() / 100
    }

    /// The coins held, from the most valuable kind down, leaving out kinds with none.
    pub fn coins_descending(&self) -> (r: Vec<(Kind, u64)>)
        ensures
            r@ == seq![
                (Kind::Platinum, self.platinum),
                (Kind::Gold, self.gold),
                (Kind::Electrum, self.electrum),
                (Kind::Silver, self.silver),
                (Kind::Copper, self.copper),
            ].filter(|e: (Kind, u64)| e.1 != 0),
    {
        let all = vec![
            (Kind::Platinum, self.platinum),
            (Kind::Gold, self.gold),
            (Kind::Electrum, self.electrum),
            (Kind::Silver, self.silver),
            (Kind::Copper, self.copper),
        ];
        let ghost full = seq![
            (Kind::Platinum, self.platinum),
            (Kind::Gold, self.gold),
            (Kind::Electrum, self.electrum),
            (Kind::Silver, self.silver),
            (Kind::Copper, self.copper),
        ];
        assert(all@ =~= full);
        let mut r: Vec<(Kind, u64)> = Vec::new();
        let mut i: usize = 0;
        while i < all.len()
            invariant
                all@ == full,
                i <= all@.len(),
                r@ == all@.take(i as int).filter(|e: (Kind, u64)| e.1 != 0),
            decreases all@.len() - i,
        {
            proof {
                reveal(Seq::filter);
                assert(all@.take(i as int + 1).drop_last() =~= all@.take(i as int));
            }
            if all[i].1 != 0 {
                r.push(all[i]);
            }
            i = i + 1;
        }
        assert(all@.take(all@.len() as int) =~= all@);
        r
    }

    /// Whether `other` can be taken out of this purse: it holds at least as many coins of
    /// every kind, or, when coins may be exchanged, at least the same worth.
    pub fn contains(&self, other: &Wallet, auto_exchange: bool) -> (r: bool)
        ensures
            r == spec_contains(*self, *other, auto_exchange),
    {
        if auto_exchange {
            self.total_value() >= other.total_value()
        } else {
            self.copper >= other.copper && self.silver >= other.silver && self.electrum >= other.electrum
                && self.gold >= other.gold && self.platinum >= other.platinum
        }
    }

    /// Puts the coins of `other` into this purse.
    pub fn add(&mut self, other: Wallet)
        requires
            can_add(*old(self), other),
        ensures
            *final(self) == spec_add(*old(self), other),
            wallet_value(*final(self)) == wallet_value(*old(self)) + wallet_value(other),
    {
        self.copper = self.copper + other.copper;
        self.silver = self.silver + other.silver;
        self.electrum = self.electrum + other.electrum;
        self.gold = self.gold + other.gold;
        self.platinum = self.platinum + other.platinum;
    }

    /// The purse with the fewest coins worth exactly `value` copper.
    pub fn from_value(value: u128) -> (w: Wallet)
        requires
            fits_in_wallet(value as nat),
        ensures
            w == spec_from_value(value as nat),
            wallet_value(w) == value,
    {
        proof { lemma_from_value(value as nat); }
        let r = value % 1000;
        let r2 = r % 100;
        let r3 = r2 % 50;
        Wallet {
            platinum: (value / 1000) as u64,
            gold: (r / 100) as u64,
            electrum: (r2 / 50) as u64,
            silver: (r3 / 10) as u64,
            copper: (r3 % 10) as u64,
        }
    }

    /// Exchanges the coins for the fewest coins of the same worth.
    pub fn normalize(&mut self)
        requires
            fits_in_wallet(wallet_value(*old(self))),
        ensures
            *final(self) == spec_from_value(wallet_value(*old(self))),
            wallet_value(*final(self)) == wallet_value(*old(self)),
    {
        let value = self.total_value();
        *self = Wallet::from_value(value);
    }

    /// Takes the coins of `other` out of this purse. When the purse holds every coin this is
    /// done coin by coin; otherwise (possible only with exchange) the purse is left with the
    /// fewest coins worth what remains.
    pub fn remove(&mut self, other: Wallet, auto_exchange: bool)
        requires
            spec_contains(*old(self), other, auto_exchange),
            fits_in_wallet(wallet_value(*old(self))),
        ensures
            *final(self) == spec_remove(*old(self), other),
            wallet_value(*final(self)) == wallet_value(*old(self)) - wallet_value(other),
    {
        if self.contains(&other, false) {
            self.copper = self.copper - other.copper;
            self.silver = self.silver - other.silver;
            self.electrum = self.electrum - other.electrum;
            self.gold = self.gold - other.gold;
            self.platinum = self.platinum - other.platinum;
        } else {
            let left = self.total_value() - other.total_value();
            *self = Wallet::from_value(left);
        }
    }
}

/// Putting coins into a purse and taking the same coins out again leaves the purse as it was.
pub proof fn law_add_then_remove(w: Wallet, other: Wallet)
    requires
        can_add(w, other),
    ensures
        spec_contains(spec_add(w, other), other, false),
        spec_contains(spec_add(w, other), other, true),
        spec_remove(spec_add(w, other), other) == w,
{
}

/// A purse that holds every coin of another also holds its worth.
pub proof fn law_contains_without_exchange_implies_with(w: Wallet, other: Wallet)
    requires
        spec_contains(w, other, false),
    ensures
        spec_contains(w, other, true),
{
}

/// Exchanging coins keeps the worth of the purse, and exchanging twice changes nothing more.
pub proof fn law_normalize_keeps_value(w: Wallet)
    requires
        fits_in_wallet(wallet_value(w)),
    ensures
        wallet_value(spec_from_value(wallet_value(w))) == wallet_value(w),
        spec_from_value(wallet_value(spec_from_value(wallet_value(w)))) == spec_from_value(wallet_value(w)),
{
    lemma_from_value(wallet_value(w));
}

/// Taking coins out of a purse lowers its worth by exactly their worth.
pub proof fn law_remove_value(w: Wallet, other: Wallet, auto_exchange: bool)
    requires
        spec_contains(w, other, auto_exchange),
        fits_in_wallet(wallet_value(w)),
    ensures
        wallet_value(spec_remove(w, other)) == wallet_value(w) - wallet_value(other),
{
    if !covers_each(w, other) {
        lemma_from_value((wallet_value(w) - wallet_value(other)) as nat);
    }
}

} // verus!
