//! Dice and rolls.

use vstd::prelude::*;
use crate::text::{decimal, push_decimal};
use rand::Rng;

verus! {

/// A polyhedral die.
#[derive(Clone, Copy, Debug, PartialEq, Eq, Structural, PartialOrd, Ord, Hash)]
pub enum Die {
    D4,
    D6,
    D8,
    D10,
    D12,
    D20,
}

/// The number of faces of a die.
pub open spec fn spec_sides(die: Die) -> nat {
    match die {
        Die::D4 => 4,
        Die::D6 => 6,
        Die::D8 => 8,
        Die::D10 => 10,
        Die::D12 => 12,
        Die::D20 => 20,
    }
}

/// Position of a die from smallest (0) to largest (5).
pub open spec fn die_index(die: Die) -> nat {
    match die {
        Die::D4 => 0,
        Die::D6 => 1,
        Die::D8 => 2,
        Die::D10 => 3,
        Die::D12 => 4,
        Die::D20 => 5,
    }
}

/// All dice from smallest to largest.
pub open spec fn all_dice() -> Seq<Die> {
    seq![Die::D4, Die::D6, Die::D8, Die::D10, Die::D12, Die::D20]
}

impl Die {
    /// The number of faces.
    pub fn sides(&self) -> (r: u32)
        ensures
            r == spec_sides(*self),
    {
        match self {
            Die::D4 => 4,
            Die::D6 => 6,
            Die::D8 => 8,
            Die::D10 => 10,
            Die::D12 => 12,
            Die::D20 => 20,
        }
    }

    /// Every die, from smallest to largest.
    pub fn all() -> (r: Vec<Die>)
        ensures
            r@ == all_dice(),
    {
        let r = vec![Die::D4, Die::D6, Die::D8, Die::D10, Die::D12, Die::D20];
        assert(r@ =~= all_dice());
        r
    }
}

/// Advantage or disadvantage on a roll.
#[derive(Clone, Copy, Debug, PartialEq, Eq, Structural, PartialOrd, Ord, Hash)]
pub enum Modifier {
    Advantage,
    Disadvantage,
}

/// A number of dice of one kind, such as `2d6`.
#[derive(Clone, Copy, Debug, PartialEq, Eq, Structural)]
pub struct Roll {
    pub amount: u32,
    pub die: Die,
}

/// The notation of a roll, such as `2d6`.
pub open spec fn roll_text(roll: Roll) -> Seq<char> {
    decimal(roll.amount as nat) + seq!['d'] + decimal(spec_sides(roll.die))
}

/// Rolls one die with `sides` faces on the thread-local generator of the `rand` crate
/// (`rand::thread_rng` and `Rng::gen_range` over `1..=sides`). The contract claims only
/// that the face lies in that range, which `gen_range` documents for a non-empty range;
/// which face comes up is chance and is not stated.
#[verifier::external_body]
fn roll_face(sides: u32) -> (face: u32)
    requires
        sides >= 1,
    ensures
        1 <= face <= sides,
{
    rand::thread_rng().gen_range(1..=sides)
}

impl Roll {
    /// Makes a roll of `amount` dice of kind `die`.
    pub fn new(amount: u32, die: Die) -> (r: Roll)
        ensures
            r.amount == amount,
            r.die == die,
    {
        Roll { amount, die }
    }

    /// Rolls every die and returns the sum: the faces drawn are `amount` numbers, each
    /// between 1 and the faces of the die, and the total is their sum.
    pub fn roll(&self) -> (total: u32)
        requires
            self.amount * spec_sides(self.die) <= u32::MAX,
        ensures
            exists|faces: Seq<u32>| faces.len() == self.amount
                && (forall|i: int| 0 <= i < faces.len() ==> 1 <= #[trigger] faces[i] <= spec_sides(self.die))
                && total == sum_of(faces),
    {
        let faces = self.draw_faces();
        proof { lemma_sum_bounded(faces@, spec_sides(self.die)); }
        total_of(&faces)
    }

    /// Draws one face of the die for each die of the roll.
    fn draw_faces(&self) -> (faces: Vec<u32>)
        ensures
            faces@.len() == self.amount,
            forall|i: int| 0 <= i < faces@.len() ==> 1 <= #[trigger] faces@[i] <= spec_sides(self.die),
    {
        let sides = self.die.sides();
        let mut faces: Vec<u32> = Vec::new();
        let mut i: u32 = 0;
        while i < self.amount
            invariant
                i <= self.amount,
                sides == spec_sides(self.die),
                faces@.len() == i,
                forall|k: int| 0 <= k < faces@.len() ==> 1 <= #[trigger] faces@[k] <= sides,
            decreases self.amount - i,
        {
            let face = roll_face(sides);
            faces.push(face);
            i = i + 1;
        }
        faces
    }

    /// The notation of the roll, such as `1d8`.
    pub fn to_string(&self) -> (s: String)
        ensures
            s@ == roll_text(*self),
    {
        let mut s = String::new();
        push_decimal(&mut s, self.amount as u64);
        proof { reveal_strlit("d"); }
        s.append("d");
        push_decimal(&mut s, self.die.sides() as u64);
        assert(s@ =~= roll_text(*self));
        s
    }
}

/// The sum of the faces drawn.
pub open spec fn sum_of(faces: Seq<u32>) -> nat
    decreases faces.len(),
{
    if faces.len() == 0 { 0 } else { sum_of(faces.drop_last()) + (faces.last() as nat) }
}

/// Faces of at most `sides` each add up to at most their number times `sides`.
proof fn lemma_sum_bounded(faces: Seq<u32>, sides: nat)
    requires
        forall|i: int| 0 <= i < faces.len() ==> #[trigger] faces[i] <= sides,
    ensures
        sum_of(faces) <= faces.len() * sides,
    decreases faces.len(),
{
    if faces.len() > 0 {
        lemma_sum_bounded(faces.drop_last(), sides);
        assert(faces.last() == faces[faces.len() - 1]);
        assert((faces.len() - 1) * sides + sides == faces.len() * sides) by (nonlinear_arith);
    }
}

/// The total of a roll whose faces came up as `faces`: their sum.
pub fn total_of(faces: &Vec<u32>) -> (t: u32)
    requires
        sum_of(faces@) <= u32::MAX,
    ensures
        t == sum_of(faces@),
{
    let mut t: u32 = 0;
    let mut i: usize = 0;
    while i < faces.len()
        invariant
            i <= faces@.len(),
            sum_of(faces@) <= u32::MAX,
            t == sum_of(faces@.take(i as int)),
        decreases faces@.len() - i,
    {
        assert(faces@.take(i as int + 1).drop_last() =~= faces@.take(i as int));
        proof { lemma_sum_prefix(faces@, i as int + 1); }
        t = t + faces[i];
        i = i + 1;
    }
    assert(faces@.take(faces@.len() as int) =~= faces@);
    t
}

/// A prefix of the faces sums to no more than all of them.
proof fn lemma_sum_prefix(faces: Seq<u32>, n: int)
    requires
        0 <= n <= faces.len(),
    ensures
        sum_of(faces.take(n)) <= sum_of(faces),
    decreases faces.len() - n,
{
    if n < faces.len() {
        lemma_sum_prefix(faces, n + 1);
        assert(faces.take(n + 1).drop_last() =~= faces.take(n));
    } else {
        assert(faces.take(n) =~= faces);
    }
}

} // verus!
