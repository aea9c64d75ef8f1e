//! Generating ability scores by point buy or from the standard array.

use vstd::prelude::*;

verus! {

/// The points a point-buy character may spend.
pub const PT_BUY_BUDGET: u32 = 27;

/// The lowest score point buy allows.
pub const PT_BUY_MIN: u32 = 8;

/// The highest score point buy allows.
pub const PT_BUY_MAX: u32 = 15;

/// The scores of the standard array.
pub open spec fn std_array_options() -> Seq<u32> {
    seq![8u32, 10, 12, 13, 14, 15]
}

/// The point-buy cost of a score: one point per step above 8 up to 13, then 7 for 14 and
/// 9 for 15; scores outside 8 to 15 cost nothing.
pub open spec fn spec_pt_buy_cost(score: u32) -> nat {
    if 8 <= score <= 13 {
        (score - 8) as nat
    } else if score == 14 {
        7
    } else if score == 15 {
        9
    } else {
        0
    }
}

/// The point-buy cost of a score.
pub fn get_pt_buy_cost(score: u32) -> (r: u32)
    ensures
        r == spec_pt_buy_cost(score),
{
    if 8 <= score && score <= 13 {
        score - 8
    } else if score == 14 {
        7
    } else if score == 15 {
        9
    } else {
        0
    }
}

/// The scores after the first `n` abilities are checked for point buy, and the budget left:
/// a score outside 8 to 15, or one that costs more than the budget left, becomes 8.
pub open spec fn point_buy_prefix(scores: Seq<u32>, n: nat) -> (Seq<u32>, nat)
    decreases n,
{
    if n == 0 {
        (Seq::empty(), PT_BUY_BUDGET as nat)
    } else {
        let (out, left) = point_buy_prefix(scores, (n - 1) as nat);
        let s = scores[n - 1];
        let cost = spec_pt_buy_cost(s);
        if !(8 <= s <= 15) || left < cost {
            (out.push(8), left)
        } else {
            (out.push(s), (left - cost) as nat)
        }
    }
}

/// The total point-buy cost of some scores.
pub open spec fn total_cost(scores: Seq<u32>) -> nat
    decreases scores.len(),
{
    if scores.len() == 0 { 0 } else { total_cost(scores.drop_last()) + spec_pt_buy_cost(scores.last()) }
}

proof fn lemma_point_buy_prefix(scores: Seq<u32>, n: nat)
    requires
        n <= scores.len(),
    ensures
        point_buy_prefix(scores, n).0.len() == n,
        total_cost(point_buy_prefix(scores, n).0) + point_buy_prefix(scores, n).1 == PT_BUY_BUDGET,
        forall|i: int| 0 <= i < n ==> 8 <= #[trigger] point_buy_prefix(scores, n).0[i] <= 15,
    decreases n,
{
    if n > 0 {
        lemma_point_buy_prefix(scores, (n - 1) as nat);
        let out = point_buy_prefix(scores, n).0;
        assert(out.drop_last() =~= point_buy_prefix(scores, (n - 1) as nat).0);
    }
}

/// The scores to start point buy from: each of the current scores, in order, is kept when it
/// lies in 8 to 15 and its cost fits in what is left of the 27 points; otherwise it becomes 8.
pub fn point_buy_start(scores: &Vec<u32>) -> (r: Vec<u32>)
    requires
        scores@.len() == 6,
    ensures
        r@ == point_buy_prefix(scores@, 6).0,
{
    let mut r: Vec<u32> = Vec::new();
    let mut left: u32 = PT_BUY_BUDGET;
    let mut i: usize = 0;
    while i < 6
        invariant
            scores@.len() == 6,
            i <= 6,
            (r@, left as nat) == point_buy_prefix(scores@, i as nat),
        decreases 6 - i,
    {
        let s = scores[i];
        let cost = get_pt_buy_cost(s);
        if !(8 <= s && s <= 15) || left < cost {
            r.push(8);
        } else {
            r.push(s);
            left = left - cost;
        }
        i = i + 1;
    }
    r
}

/// Starting point buy always gives scores from 8 to 15 that cost at most the 27 points.
pub proof fn law_point_buy_start_valid(scores: Seq<u32>)
    requires
        scores.len() == 6,
    ensures
        total_cost(point_buy_prefix(scores, 6).0) <= PT_BUY_BUDGET,
        forall|i: int| 0 <= i < 6 ==> 8 <= #[trigger] point_buy_prefix(scores, 6).0[i] <= 15,
{
    lemma_point_buy_prefix(scores, 6);
}

proof fn lemma_total_cost_bound(scores: Seq<u32>)
    ensures
        total_cost(scores) <= 9 * scores.len(),
    decreases scores.len(),
{
    if scores.len() > 0 {
        lemma_total_cost_bound(scores.drop_last());
    }
}

/// The points spent on some scores.
pub fn points_used(scores: &Vec<u32>) -> (r: u32)
    requires
        scores@.len() <= 6,
    ensures
        r == total_cost(scores@),
{
    let mut total: u32 = 0;
    let mut i: usize = 0;
    while i < scores.len()
        invariant
            scores@.len() <= 6,
            i <= scores@.len(),
            total == total_cost(scores@.take(i as int)),
        decreases scores@.len() - i,
    {
        proof {
            assert(scores@.take(i as int + 1).drop_last() =~= scores@.take(i as int));
            lemma_total_cost_bound(scores@.take(i as int + 1));
        }
        total = total + get_pt_buy_cost(scores[i]);
        i = i + 1;
    }
    assert(scores@.take(scores@.len() as int) =~= scores@);
    total
}

/// The points left to spend; the scores must not cost more than the budget.
pub fn points_remaining(scores: &Vec<u32>) -> (r: u32)
    requires
        scores@.len() <= 6,
        total_cost(scores@) <= PT_BUY_BUDGET,
    ensures
        r == PT_BUY_BUDGET - total_cost(scores@),
{
    PT_BUY_BUDGET - points_used(scores)
}

/// Whether the choice `option` for an ability now at `current` is out of reach: the extra
/// points it costs exceed the points remaining.
pub fn point_buy_option_disabled(current: u32, option: u32, remaining: u32) -> (r: bool)
    ensures
        r == (({
            let extra = spec_pt_buy_cost(option) - spec_pt_buy_cost(current);
            if extra < 0 { 0 } else { extra }
        }) > remaining),
{
    let option_cost = get_pt_buy_cost(option);
    let current_cost = get_pt_buy_cost(current);
    let extra = if option_cost < current_cost { 0 } else { option_cost - current_cost };
    extra > remaining
}

/// The scores after the first `n` abilities take standard array values, with the values
/// still unused (a flag per value of the array): a score equal to an unused value takes it,
/// any other score becomes 0.
pub open spec fn standard_array_prefix(scores: Seq<u32>, n: nat) -> (Seq<u32>, Seq<bool>)
    decreases n,
{
    if n == 0 {
        (Seq::empty(), seq![true, true, true, true, true, true])
    } else {
        let (out, unused) = standard_array_prefix(scores, (n - 1) as nat);
        let s = scores[n - 1];
        if exists|k: int| 0 <= k < 6 && unused[k] && std_array_options()[k] == s {
            let k = choose|k: int| 0 <= k < 6 && unused[k] && std_array_options()[k] == s;
            (out.push(s), unused.update(k, false))
        } else {
            (out.push(0), unused)
        }
    }
}

proof fn lemma_standard_array_prefix(scores: Seq<u32>, n: nat)
    requires
        n <= scores.len(),
    ensures
        ({
            let (out, unused) = standard_array_prefix(scores, n);
            &&& out.len() == n
            &&& unused.len() == 6
            &&& forall|i: int| 0 <= i < n && out[i] != 0 ==> std_array_options().contains(#[trigger] out[i])
            &&& forall|i: int, k: int| 0 <= i < n && 0 <= k < 6 && out[i] == std_array_options()[k] ==> !unused[k]
            &&& forall|i: int, j: int| 0 <= i < j < n && out[i] != 0 ==> out[i] != out[j]
        }),
    decreases n,
{
    if n > 0 {
        lemma_standard_array_prefix(scores, (n - 1) as nat);
        let (prev, prev_unused) = standard_array_prefix(scores, (n - 1) as nat);
        let (out, unused) = standard_array_prefix(scores, n);
        let s = scores[n - 1];
        if exists|k: int| 0 <= k < 6 && prev_unused[k] && std_array_options()[k] == s {
            let k = choose|k: int| 0 <= k < 6 && prev_unused[k] && std_array_options()[k] == s;
            assert(std_array_options()[k] == s);
            assert forall|i: int| 0 <= i < n - 1 && #[trigger] out[i] != 0 implies out[i] != out[n - 1] by {
                assert(out[i] == prev[i]);
                if out[i] == s {
                    assert(!prev_unused[k]);
                }
            }
            assert forall|i: int, k2: int| 0 <= i < n && 0 <= k2 < 6 && out[i] == std_array_options()[k2] implies !unused[k2] by {
                if i < n - 1 {
                    assert(out[i] == prev[i]);
                } else {
                    // the options are distinct, so the value names exactly one slot
                    assert(std_array_options()[k2] == std_array_options()[k]);
                    assert(k2 == k);
                }
            }
        } else {
            assert forall|i: int, k2: int| 0 <= i < n && 0 <= k2 < 6 && out[i] == std_array_options()[k2] implies !unused[k2] by {
                if i < n - 1 {
                    assert(out[i] == prev[i]);
                }
            }
        }
    }
}

/// Taking the standard array never gives a value twice, and gives only values of the array
/// (or 0 for an ability still to be assigned).
pub proof fn law_standard_array_start_valid(scores: Seq<u32>)
    requires
        scores.len() == 6,
    ensures
        forall|i: int| 0 <= i < 6 && (#[trigger] standard_array_prefix(scores, 6).0[i]) != 0
            ==> std_array_options().contains(standard_array_prefix(scores, 6).0[i]),
        forall|i: int, j: int| 0 <= i < j < 6 && standard_array_prefix(scores, 6).0[i] != 0
            ==> standard_array_prefix(scores, 6).0[i] != standard_array_prefix(scores, 6).0[j],
{
    lemma_standard_array_prefix(scores, 6);
}

/// The scores to start the standard array from: each current score that is a still unused
/// value of the array keeps it; every other score becomes 0.
pub fn standard_array_start(scores: &Vec<u32>) -> (r: Vec<u32>)
    requires
        scores@.len() == 6,
    ensures
        r@ == standard_array_prefix(scores@, 6).0,
{
    let options: Vec<u32> = vec![8, 10, 12, 13, 14, 15];
    assert(options@ =~= std_array_options());
    let mut unused: Vec<bool> = vec![true, true, true, true, true, true];
    let mut r: Vec<u32> = Vec::new();
    let mut i: usize = 0;
    assert(unused@ =~= seq![true, true, true, true, true, true]);
    while i < 6
        invariant
            scores@.len() == 6,
            options@ == std_array_options(),
            i <= 6,
            (r@, unused@) == standard_array_prefix(scores@, i as nat),
        decreases 6 - i,
    {
        let s = scores[i];
        proof { lemma_standard_array_prefix(scores@, i as nat); }
        let mut found: Option<usize> = None;
        let mut k: usize = 0;
        while k < 6
            invariant
                options@ == std_array_options(),
                unused@.len() == 6,
                k <= 6,
                found is None ==> forall|j: int| 0 <= j < k ==> !(unused@[j] && options@[j] == s),
                found matches Some(f) ==> f < 6 && unused@[f as int] && options@[f as int] == s,
            decreases 6 - k,
        {
            if found.is_none() && unused[k] && options[k] == s {
                found = Some(k);
            }
            k = k + 1;
        }
        let ghost prev_unused = unused@;
        match found {
            Some(f) => {
                proof {
                    let c = choose|c: int| 0 <= c < 6 && prev_unused[c] && std_array_options()[c] == s;
                    // the options are distinct, so the chosen slot is the one found
                    assert(std_array_options()[c] == std_array_options()[f as int]);
                    assert(c == f);
                }
                r.push(s);
                unused.set(f, false);
            },
            None => {
                r.push(0);
            },
        }
        i = i + 1;
    }
    r
}

/// The values of the standard array that no score holds yet, in ascending order.
pub fn standard_array_remaining(scores: &Vec<u32>) -> (r: Vec<u32>)
    ensures
        r@ == std_array_options().filter(|o: u32| !scores@.contains(o)),
{
    let options: Vec<u32> = vec![8, 10, 12, 13, 14, 15];
    assert(options@ =~= std_array_options());
    let mut r: Vec<u32> = Vec::new();
    let mut k: usize = 0;
    while k < 6
        invariant
            options@ == std_array_options(),
            k <= 6,
            r@ == options@.take(k as int).filter(|o: u32| !scores@.contains(o)),
        decreases 6 - k,
    {
        proof {
            reveal(Seq::filter);
            assert(options@.take(k as int + 1).drop_last() =~= options@.take(k as int));
        }
        let o = options[k];
        let mut held = false;
        let mut j: usize = 0;
        while j < scores.len()
            invariant
                j <= scores@.len(),
                held == exists|x: int| 0 <= x < j && scores@[x] == o,
            decreases scores@.len() - j,
        {
            if scores[j] == o {
                held = true;
            }
            j = j + 1;
        }
        if !held {
            r.push(o);
        }
        k = k + 1;
    }
    assert(options@.take(6) =~= options@);
    r
}

/// A way of generating ability scores.
#[derive(Clone, Copy, Debug, PartialEq, Eq, Structural, PartialOrd, Ord, Hash)]
pub enum GeneratorMethod {
    PointBuy,
    StandardArray,
}

impl GeneratorMethod {
    /// Every method, in sort order.
    pub fn all() -> (r: Vec<GeneratorMethod>)
        ensures
            r@ == seq![GeneratorMethod::PointBuy, GeneratorMethod::StandardArray],
    {
        let r = vec![GeneratorMethod::PointBuy, GeneratorMethod::StandardArray];
        assert(r@ =~= seq![GeneratorMethod::PointBuy, GeneratorMethod::StandardArray]);
        r
    }

    /// The name shown for the method.
    pub fn display_name(&self) -> (s: &'static str)
        ensures
            s@ == match self {
                GeneratorMethod::PointBuy => "Point Buy"@,
                GeneratorMethod::StandardArray => "Standard Array"@,
            },
    {
        match self {
            Self::PointBuy => "Point Buy",
            Self::StandardArray => "Standard Array",
        }
    }

    /// The identifier of the method, as stored in a form value.
    pub fn to_string(&self) -> (s: String)
        ensures
            s@ == spec_method_id(*self),
    {
        match self {
            Self::PointBuy => "PointBuy".to_owned(),
            Self::StandardArray => "StandardArray".to_owned(),
        }
    }

    /// The method with the given identifier; none for any other text.
    pub fn from_str(s: &str) -> (r: Option<GeneratorMethod>)
        ensures
            r == if s@ == "PointBuy"@ {
                Some(GeneratorMethod::PointBuy)
            } else if s@ == "StandardArray"@ {
                Some(GeneratorMethod::StandardArray)
            } else {
                None
            },
    {
        if crate::text::str_eq(s, "PointBuy") {
            Some(Self::PointBuy)
        } else if crate::text::str_eq(s, "StandardArray") {
            Some(Self::StandardArray)
        } else {
            None
        }
    }
}

/// The identifier of a method.
pub open spec fn spec_method_id(m: GeneratorMethod) -> Seq<char> {
    match m {
        GeneratorMethod::PointBuy => "PointBuy"@,
        GeneratorMethod::StandardArray => "StandardArray"@,
    }
}

/// Reading back the identifier of a method gives the same method.
pub proof fn law_method_id_round_trip(m: GeneratorMethod)
    ensures
        (if spec_method_id(m) == "PointBuy"@ {
            Some(GeneratorMethod::PointBuy)
        } else if spec_method_id(m) == "StandardArray"@ {
            Some(GeneratorMethod::StandardArray)
        } else {
            None
        }) == Some(m),
{
    reveal_strlit("PointBuy");
    reveal_strlit("StandardArray");
    assert("PointBuy"@ != "StandardArray"@) by {
        assert("PointBuy"@.len() != "StandardArray"@.len());
    }
}

proof fn lemma_point_buy_entries(scores: Seq<u32>, n: nat)
    requires
        n <= scores.len(),
    ensures
        point_buy_prefix(scores, n).0.len() == n,
        forall|i: int| 0 <= i < n ==> (#[trigger] point_buy_prefix(scores, n).0[i] == scores[i]
            || point_buy_prefix(scores, n).0[i] == 8),
        forall|i: int| 0 <= i < n && !(8 <= scores[i] <= 15) ==> #[trigger] point_buy_prefix(scores, n).0[i] == 8,
    decreases n,
{
    if n > 0 {
        lemma_point_buy_entries(scores, (n - 1) as nat);
        let prev = point_buy_prefix(scores, (n - 1) as nat).0;
        let out = point_buy_prefix(scores, n).0;
        assert forall|i: int| 0 <= i < n - 1 implies out[i] == prev[i] by {}
    }
}

/// Starting point buy keeps each score or resets it to 8, and resets every score outside
/// 8 to 15.
pub proof fn law_point_buy_start_keeps_or_resets(scores: Seq<u32>)
    requires
        scores.len() == 6,
    ensures
        point_buy_prefix(scores, 6).0.len() == 6,
        forall|i: int| 0 <= i < 6 ==> (#[trigger] point_buy_prefix(scores, 6).0[i] == scores[i]
            || point_buy_prefix(scores, 6).0[i] == 8),
        forall|i: int| 0 <= i < 6 && !(8 <= scores[i] <= 15) ==> #[trigger] point_buy_prefix(scores, 6).0[i] == 8,
{
    lemma_point_buy_entries(scores, 6);
}

proof fn lemma_point_buy_fitting(scores: Seq<u32>, n: nat)
    requires
        n <= scores.len(),
        forall|i: int| 0 <= i < scores.len() ==> 8 <= #[trigger] scores[i] <= 15,
        total_cost(scores.take(n as int)) <= PT_BUY_BUDGET,
    ensures
        point_buy_prefix(scores, n) == (scores.take(n as int), (PT_BUY_BUDGET - total_cost(scores.take(n as int))) as nat),
    decreases n,
{
    if n > 0 {
        assert(scores.take(n as int).drop_last() =~= scores.take(n - 1));
        assert(scores.take(n as int).last() == scores[n - 1]);
        lemma_point_buy_fitting(scores, (n - 1) as nat);
        assert(scores.take(n - 1).push(scores[n - 1]) =~= scores.take(n as int));
    } else {
        assert(scores.take(0) =~= Seq::<u32>::empty());
    }
}

/// Scores that all lie in 8 to 15 and together cost at most the 27 points are kept as they
/// are.
pub proof fn law_point_buy_start_keeps_fitting(scores: Seq<u32>)
    requires
        scores.len() == 6,
        forall|i: int| 0 <= i < 6 ==> 8 <= #[trigger] scores[i] <= 15,
        total_cost(scores) <= PT_BUY_BUDGET,
    ensures
        point_buy_prefix(scores, 6).0 == scores,
{
    assert(scores.take(6) =~= scores);
    lemma_point_buy_fitting(scores, 6);
}

/// Point-buy costs: a score from 8 to 13 costs one point per step above 8, 14 costs 7 and 15
/// costs 9; a higher score in that range always costs more, and 15 costs the most.
pub proof fn law_point_buy_costs(a: u32, b: u32)
    ensures
        8 <= a <= 13 ==> spec_pt_buy_cost(a) + 8 == a,
        spec_pt_buy_cost(14) == 7,
        spec_pt_buy_cost(15) == 9,
        8 <= a < b <= 15 ==> spec_pt_buy_cost(a) < spec_pt_buy_cost(b),
        8 <= a <= 15 ==> spec_pt_buy_cost(a) <= 9,
{
}

} // verus!
