//! Adding items to the inventory from the item browser, for free or by buying them.

use vstd::prelude::*;
use crate::currency::{fits_in_wallet, spec_contains, spec_from_value, spec_remove, wallet_value, Wallet};
use crate::item::{Item, ItemKind};
use crate::text::{decimal, push_decimal};

verus! {

/// The smallest and largest amounts the browser accepts.
pub const MIN_AMOUNT: u32 = 1;

/// The largest amount the browser accepts.
pub const MAX_AMOUNT: u32 = 999;

/// An amount typed or stepped in the browser, held between 1 and 999.
pub fn clamp_amount(value: u32) -> (r: u32)
    ensures
        r == if value < 1 { 1 } else if value > 999 { 999 } else { value },
{
    if value < 1 {
        1
    } else if value > 999 {
        999
    } else {
        value
    }
}

/// The amount after the plus (`up`) or minus button, held between 1 and 999.
pub fn step_amount(value: u32, up: bool) -> (r: u32)
    ensures
        r == ({
            let stepped: int = if up {
                if value == u32::MAX { value as int } else { value + 1 }
            } else {
                if value == 0 { 0 } else { value - 1 }
            };
            if stepped < 1 { 1 } else if stepped > 999 { 999 } else { stepped }
        }),
{
    let stepped = if up {
        if value == u32::MAX { value } else { value + 1 }
    } else {
        if value == 0 { 0 } else { value - 1 }
    };
    clamp_amount(stepped)
}

/// The sentence describing what a button does with `n` batches of `batch` items:
/// `<verb> 1 item`, `<verb> N items` (when either number is 1), or `<verb> N batches of B items`.
pub open spec fn amount_phrase(verb: Seq<char>, n: u32, batch: u32) -> Seq<char> {
    if n == 1 && batch == 1 {
        verb + " 1 item"@
    } else if batch == 1 {
        verb + " "@ + decimal(n as nat) + " items"@
    } else if n == 1 {
        verb + " "@ + decimal(batch as nat) + " items"@
    } else {
        verb + " "@ + decimal(n as nat) + " batches of "@ + decimal(batch as nat) + " items"@
    }
}

fn push_amount_phrase(s: &mut String, verb: &str, n: u32, batch: u32)
    ensures
        final(s)@ == old(s)@ + amount_phrase(verb@, n, batch),
{
    s.append(verb);
    if n == 1 && batch == 1 {
        s.append(" 1 item");
    } else if batch == 1 {
        s.append(" ");
        push_decimal(s, n as u64);
        s.append(" items");
    } else if n == 1 {
        s.append(" ");
        push_decimal(s, batch as u64);
        s.append(" items");
    } else {
        s.append(" ");
        push_decimal(s, n as u64);
        s.append(" batches of ");
        push_decimal(s, batch as u64);
        s.append(" items");
    }
    assert(final(s)@ =~= old(s)@ + amount_phrase(verb@, n, batch));
}

/// The note under the add button, such as `Add 3 batches of 20 items to your equipment.`
pub fn add_items_message(n: u32, batch: u32) -> (s: String)
    ensures
        s@ == amount_phrase("Add"@, n, batch) + " to your equipment."@,
{
    let mut s = String::new();
    push_amount_phrase(&mut s, "Add", n, batch);
    s.append(" to your equipment.");
    assert(s@ =~= amount_phrase("Add"@, n, batch) + " to your equipment."@);
    s
}

/// The note under the buy button, followed on the sheet by the cost, such as `Buy 2 items for `.
pub fn buy_items_message(n: u32, batch: u32) -> (s: String)
    ensures
        s@ == amount_phrase("Buy"@, n, batch) + " for "@,
{
    let mut s = String::new();
    push_amount_phrase(&mut s, "Buy", n, batch);
    s.append(" for ");
    assert(s@ =~= amount_phrase("Buy"@, n, batch) + " for "@);
    s
}

/// Whether every count of a purse times `amount` fits.
pub open spec fn can_scale(w: Wallet, amount: nat) -> bool {
    &&& w.copper * amount <= u64::MAX
    &&& w.silver * amount <= u64::MAX
    &&& w.electrum * amount <= u64::MAX
    &&& w.gold * amount <= u64::MAX
    &&& w.platinum * amount <= u64::MAX
}

/// Every count of a purse times `amount`.
pub open spec fn spec_scale(w: Wallet, amount: nat) -> Wallet {
    Wallet {
        copper: (w.copper * amount) as u64,
        silver: (w.silver * amount) as u64,
        electrum: (w.electrum * amount) as u64,
        gold: (w.gold * amount) as u64,
        platinum: (w.platinum * amount) as u64,
    }
}

/// The price of `amount` batches of an item worth `worth`: every coin of the worth times the
/// amount, exchanged for the fewest coins when auto-exchange is on.
pub open spec fn spec_purchase_cost(worth: Wallet, amount: nat, auto_exchange: bool) -> Wallet {
    if auto_exchange {
        spec_from_value(wallet_value(spec_scale(worth, amount)))
    } else {
        spec_scale(worth, amount)
    }
}

/// The price of buying `amount` batches of an item.
pub fn purchase_cost(worth: Wallet, amount: u32, auto_exchange: bool) -> (r: Wallet)
    requires
        can_scale(worth, amount as nat),
        fits_in_wallet(wallet_value(spec_scale(worth, amount as nat))),
    ensures
        r == spec_purchase_cost(worth, amount as nat, auto_exchange),
        wallet_value(r) == wallet_value(worth) * amount,
{
    let a = amount as u64;
    let mut cost = Wallet {
        copper: worth.copper * a,
        silver: worth.silver * a,
        electrum: worth.electrum * a,
        gold: worth.gold * a,
        platinum: worth.platinum * a,
    };
    proof {
        let w = worth;
        let n = amount as int;
        assert(wallet_value(spec_scale(w, n as nat)) == wallet_value(w) * n) by (nonlinear_arith)
            requires
                wallet_value(spec_scale(w, n as nat)) == (w.copper * n) + 10 * (w.silver * n)
                    + 50 * (w.electrum * n) + 100 * (w.gold * n) + 1000 * (w.platinum * n),
                wallet_value(w) == w.copper + 10 * w.silver + 50 * w.electrum + 100 * w.gold + 1000 * w.platinum;
    }
    if auto_exchange {
        cost.normalize();
    }
    cost
}

/// The count of a stack after adding `amount` batches of it: the count times the amount.
pub fn stacked_count(count: u32, amount: u32) -> (r: u32)
    requires
        count * amount <= u32::MAX,
    ensures
        r == count * amount,
{
    count * amount
}

/// What adding items puts into the inventory: one stack holding the whole count, or a
/// number of copies of an item that does not stack.
pub enum AddedItems {
    Stack(Item),
    Copies(Item, u32),
}

/// Adds `amount` batches of `item` from the item browser: a simple item becomes one stack of
/// its count times the amount, any other item `amount` copies; the cost is taken out of the
/// purse (with exchange when `auto_exchange`) unless it is nothing.
pub fn add_items(wallet: &mut Wallet, item: Item, amount: u32, cost: Wallet, auto_exchange: bool) -> (r: AddedItems)
    requires
        item.kind matches ItemKind::Simple { count } ==> count * amount <= u32::MAX,
        wallet_value(cost) != 0 ==> spec_contains(*old(wallet), cost, auto_exchange)
            && fits_in_wallet(wallet_value(*old(wallet))),
    ensures
        *final(wallet) == if wallet_value(cost) == 0 { *old(wallet) } else { spec_remove(*old(wallet), cost) },
        match item.kind {
            ItemKind::Simple { count } => r == AddedItems::Stack(
                Item { kind: ItemKind::Simple { count: (count * amount) as u32 }, ..item },
            ),
            ItemKind::Equipment(_) => r == AddedItems::Copies(item, amount),
        },
{
    if !cost.is_empty() {
        wallet.remove(cost, auto_exchange);
    }
    let Item { name, description, weight, worth, notes, kind } = item;
    match kind {
        ItemKind::Simple { count } => AddedItems::Stack(
            Item { name, description, weight, worth, notes, kind: ItemKind::Simple { count: count * amount } },
        ),
        ItemKind::Equipment(e) => AddedItems::Copies(
            Item { name, description, weight, worth, notes, kind: ItemKind::Equipment(e) },
            amount,
        ),
    }
}

} // verus!
