//! The order in which the sheet lists named things: texts compared character by character,
//! feature paths compared component by component, and entries compared by name, then path.

use vstd::prelude::*;

verus! {

/// The outcome of comparing two values.
#[derive(Clone, Copy, Debug, PartialEq, Eq, Structural)]
pub enum Order {
    Less,
    Equal,
    Greater,
}

/// The number that stands for an outcome: -1, 0 or 1.
pub open spec fn order_value(o: Order) -> int {
    match o {
        Order::Less => -1,
        Order::Equal => 0,
        Order::Greater => 1,
    }
}

/// How two texts compare, as `str::cmp` orders them: character by character, a proper
/// prefix before the longer text. The result is -1, 0 or 1.
pub open spec fn text_order(a: Seq<char>, b: Seq<char>) -> int
    decreases a.len(),
{
    if a.len() == 0 {
        if b.len() == 0 { 0 } else { -1 }
    } else if b.len() == 0 {
        1
    } else if a[0] < b[0] {
        -1
    } else if b[0] < a[0] {
        1
    } else {
        text_order(a.drop_first(), b.drop_first())
    }
}

/// How two paths compare, as `Path::cmp` orders them: component by component, a proper
/// prefix before the longer path.
pub open spec fn path_order(a: Seq<Seq<char>>, b: Seq<Seq<char>>) -> int
    decreases a.len(),
{
    if a.len() == 0 {
        if b.len() == 0 { 0 } else { -1 }
    } else if b.len() == 0 {
        1
    } else if text_order(a[0], b[0]) != 0 {
        text_order(a[0], b[0])
    } else {
        path_order(a.drop_first(), b.drop_first())
    }
}

/// How two named entries compare: by name, then by path.
pub open spec fn key_order(a_name: Seq<char>, a_path: Seq<Seq<char>>, b_name: Seq<char>, b_path: Seq<Seq<char>>) -> int {
    if text_order(a_name, b_name) != 0 {
        text_order(a_name, b_name)
    } else {
        path_order(a_path, b_path)
    }
}

/// The path of a feature as texts.
pub open spec fn path_view(p: Vec<String>) -> Seq<Seq<char>> {
    p@.map_values(|s: String| s@)
}

/// Comparing texts gives -1, 0 or 1, zero exactly for equal texts, and the opposite outcome
/// with the arguments swapped.
pub proof fn lemma_text_order_basics(a: Seq<char>, b: Seq<char>)
    ensures
        -1 <= text_order(a, b) <= 1,
        (text_order(a, b) == 0) == (a == b),
        text_order(b, a) == -text_order(a, b),
    decreases a.len(),
{
    if a.len() > 0 && b.len() > 0 && a[0] == b[0] {
        lemma_text_order_basics(a.drop_first(), b.drop_first());
        if a.drop_first() == b.drop_first() {
            assert(a =~= seq![a[0]] + a.drop_first());
            assert(b =~= seq![b[0]] + b.drop_first());
        }
    }
    if a.len() == 0 && b.len() == 0 {
        assert(a =~= b);
    }
}

/// Comparing texts is transitive.
pub proof fn lemma_text_order_transitive(a: Seq<char>, b: Seq<char>, c: Seq<char>)
    requires
        text_order(a, b) <= 0,
        text_order(b, c) <= 0,
    ensures
        text_order(a, c) <= 0,
        text_order(a, b) < 0 || text_order(b, c) < 0 ==> text_order(a, c) < 0,
    decreases a.len(),
{
    lemma_text_order_basics(a, b);
    lemma_text_order_basics(b, c);
    lemma_text_order_basics(a, c);
    if a.len() > 0 && b.len() > 0 && c.len() > 0 && a[0] == b[0] && b[0] == c[0] {
        lemma_text_order_transitive(a.drop_first(), b.drop_first(), c.drop_first());
    }
}

/// Comparing paths gives -1, 0 or 1, zero exactly for equal paths, and the opposite outcome
/// with the arguments swapped.
pub proof fn lemma_path_order_basics(a: Seq<Seq<char>>, b: Seq<Seq<char>>)
    ensures
        -1 <= path_order(a, b) <= 1,
        (path_order(a, b) == 0) == (a == b),
        path_order(b, a) == -path_order(a, b),
    decreases a.len(),
{
    if a.len() > 0 && b.len() > 0 {
        lemma_text_order_basics(a[0], b[0]);
        if a[0] == b[0] {
            lemma_path_order_basics(a.drop_first(), b.drop_first());
            if a.drop_first() == b.drop_first() {
                assert(a =~= seq![a[0]] + a.drop_first());
                assert(b =~= seq![b[0]] + b.drop_first());
            }
        }
    }
    if a.len() == 0 && b.len() == 0 {
        assert(a =~= b);
    }
}

/// Comparing paths is transitive.
pub proof fn lemma_path_order_transitive(a: Seq<Seq<char>>, b: Seq<Seq<char>>, c: Seq<Seq<char>>)
    requires
        path_order(a, b) <= 0,
        path_order(b, c) <= 0,
    ensures
        path_order(a, c) <= 0,
        path_order(a, b) < 0 || path_order(b, c) < 0 ==> path_order(a, c) < 0,
    decreases a.len(),
{
    lemma_path_order_basics(a, b);
    lemma_path_order_basics(b, c);
    lemma_path_order_basics(a, c);
    if a.len() > 0 && b.len() > 0 && c.len() > 0 {
        lemma_text_order_basics(a[0], b[0]);
        lemma_text_order_basics(b[0], c[0]);
        lemma_text_order_basics(a[0], c[0]);
        if text_order(a[0], b[0]) <= 0 && text_order(b[0], c[0]) <= 0 {
            lemma_text_order_transitive(a[0], b[0], c[0]);
        }
        if a[0] == b[0] && b[0] == c[0] {
            lemma_path_order_transitive(a.drop_first(), b.drop_first(), c.drop_first());
        }
    }
}

/// Comparing entries by name and path gives -1, 0 or 1, zero exactly for equal names and
/// paths, the opposite outcome with the arguments swapped, and is transitive.
pub proof fn lemma_key_order(
    a_name: Seq<char>, a_path: Seq<Seq<char>>,
    b_name: Seq<char>, b_path: Seq<Seq<char>>,
    c_name: Seq<char>, c_path: Seq<Seq<char>>,
)
    ensures
        -1 <= key_order(a_name, a_path, b_name, b_path) <= 1,
        (key_order(a_name, a_path, b_name, b_path) == 0) == (a_name == b_name && a_path == b_path),
        key_order(b_name, b_path, a_name, a_path) == -key_order(a_name, a_path, b_name, b_path),
        key_order(a_name, a_path, b_name, b_path) <= 0 && key_order(b_name, b_path, c_name, c_path) <= 0
            ==> key_order(a_name, a_path, c_name, c_path) <= 0,
        key_order(a_name, a_path, b_name, b_path) <= 0 && key_order(b_name, b_path, c_name, c_path) < 0
            ==> key_order(a_name, a_path, c_name, c_path) < 0,
        key_order(a_name, a_path, b_name, b_path) < 0 && key_order(b_name, b_path, c_name, c_path) <= 0
            ==> key_order(a_name, a_path, c_name, c_path) < 0,
{
    lemma_text_order_basics(a_name, b_name);
    lemma_text_order_basics(b_name, c_name);
    lemma_text_order_basics(a_name, c_name);
    lemma_path_order_basics(a_path, b_path);
    lemma_path_order_basics(b_path, c_path);
    lemma_path_order_basics(a_path, c_path);
    if text_order(a_name, b_name) <= 0 && text_order(b_name, c_name) <= 0 {
        lemma_text_order_transitive(a_name, b_name, c_name);
    }
    if path_order(a_path, b_path) <= 0 && path_order(b_path, c_path) <= 0 {
        lemma_path_order_transitive(a_path, b_path, c_path);
    }
}

/// Compares two texts as `str::cmp` does.
pub fn compare_text(a: &str, b: &str) -> (r: Order)
    ensures
        order_value(r) == text_order(a@, b@),
{
    let na = a.unicode_len();
    let nb = b.unicode_len();
    let mut i: usize = 0;
    assert(a@.skip(0) =~= a@);
    assert(b@.skip(0) =~= b@);
    while i < na && i < nb
        invariant
            na == a@.len(),
            nb == b@.len(),
            i <= na,
            i <= nb,
            text_order(a@, b@) == text_order(a@.skip(i as int), b@.skip(i as int)),
        decreases na - i,
    {
        let ca = a.get_char(i);
        let cb = b.get_char(i);
        assert(a@.skip(i as int)[0] == ca);
        assert(b@.skip(i as int)[0] == cb);
        if ca < cb {
            return Order::Less;
        }
        if cb < ca {
            return Order::Greater;
        }
        assert(a@.skip(i as int).drop_first() =~= a@.skip(i as int + 1));
        assert(b@.skip(i as int).drop_first() =~= b@.skip(i as int + 1));
        i = i + 1;
    }
    if i < na {
        Order::Greater
    } else if i < nb {
        Order::Less
    } else {
        Order::Equal
    }
}

/// Compares two paths as `Path::cmp` does.
pub fn compare_path(a: &Vec<String>, b: &Vec<String>) -> (r: Order)
    ensures
        order_value(r) == path_order(path_view(*a), path_view(*b)),
{
    let ghost va = path_view(*a);
    let ghost vb = path_view(*b);
    let mut i: usize = 0;
    assert(va.skip(0) =~= va);
    assert(vb.skip(0) =~= vb);
    while i < a.len() && i < b.len()
        invariant
            va == path_view(*a),
            vb == path_view(*b),
            i <= a@.len(),
            i <= b@.len(),
            path_order(va, vb) == path_order(va.skip(i as int), vb.skip(i as int)),
        decreases a@.len() - i,
    {
        assert(va.skip(i as int)[0] == a@[i as int]@);
        assert(vb.skip(i as int)[0] == b@[i as int]@);
        let c = compare_text(a[i].as_str(), b[i].as_str());
        match c {
            Order::Less => { return Order::Less; },
            Order::Greater => { return Order::Greater; },
            Order::Equal => {},
        }
        assert(va.skip(i as int).drop_first() =~= va.skip(i as int + 1));
        assert(vb.skip(i as int).drop_first() =~= vb.skip(i as int + 1));
        i = i + 1;
    }
    if i < a.len() {
        Order::Greater
    } else if i < b.len() {
        Order::Less
    } else {
        Order::Equal
    }
}

/// Compares two named entries by name, then by path.
pub fn compare_key(a_name: &str, a_path: &Vec<String>, b_name: &str, b_path: &Vec<String>) -> (r: Order)
    ensures
        order_value(r) == key_order(a_name@, path_view(*a_path), b_name@, path_view(*b_path)),
{
    let c = compare_text(a_name, b_name);
    match c {
        Order::Equal => compare_path(a_path, b_path),
        _ => c,
    }
}

/// Whether two paths are equal.
pub fn path_eq(a: &Vec<String>, b: &Vec<String>) -> (r: bool)
    ensures
        r == (path_view(*a) == path_view(*b)),
{
    proof { lemma_path_order_basics(path_view(*a), path_view(*b)); }
    match compare_path(a, b) {
        Order::Equal => true,
        _ => false,
    }
}

/// The texts of a list of strings.
pub open spec fn texts_view(v: Vec<String>) -> Seq<Seq<char>> {
    v@.map_values(|s: String| s@)
}

/// Whether texts are in `str::cmp` order.
pub open spec fn texts_sorted(s: Seq<Seq<char>>) -> bool {
    forall|i: int, j: int| 0 <= i < j < s.len() ==> text_order(s[i], s[j]) <= 0
}

/// The texts in `str::cmp` order, as `Itertools::sorted` gives them: the same texts, each as
/// often, sorted.
pub fn sorted_texts(v: &Vec<String>) -> (r: Vec<String>)
    ensures
        texts_sorted(texts_view(r)),
        texts_view(r).to_multiset() == texts_view(*v).to_multiset(),
{
    let ghost vv = texts_view(*v);
    let mut r: Vec<String> = Vec::new();
    let mut i: usize = 0;
    proof {
        assert(vv.take(0) =~= Seq::<Seq<char>>::empty());
        assert(texts_view(r) =~= Seq::<Seq<char>>::empty());
    }
    while i < v.len()
        invariant
            i <= v@.len(),
            vv == texts_view(*v),
            texts_sorted(texts_view(r)),
            texts_view(r).to_multiset() == vv.take(i as int).to_multiset(),
        decreases v@.len() - i,
    {
        let x = v[i].clone();
        let ghost xv = x@;
        assert(xv == vv[i as int]);
        let ghost rv = texts_view(r);
        // the place after every text that does not come after `x`
        let mut pos: usize = r.len();
        while pos > 0
            invariant
                pos <= r@.len(),
                rv == texts_view(r),
                xv == x@,
                forall|a: int| pos <= a < rv.len() ==> text_order(xv, #[trigger] rv[a]) < 0,
            ensures
                pos <= r@.len(),
                forall|a: int| pos <= a < rv.len() ==> text_order(xv, #[trigger] rv[a]) < 0,
                pos == 0 || text_order(rv[pos - 1], xv) <= 0,
            decreases pos,
        {
            assert(rv[pos - 1] == r@[pos - 1]@);
            match compare_text(r[pos - 1].as_str(), x.as_str()) {
                Order::Greater => {
                    proof { lemma_text_order_basics(rv[pos - 1], xv); }
                    pos = pos - 1;
                },
                _ => { break; },
            }
        }
        r.insert(pos, x);
        proof {
            let nv = texts_view(r);
            assert(nv =~= rv.insert(pos as int, xv));
            assert forall|a: int, b: int| 0 <= a < b < nv.len() implies text_order(nv[a], nv[b]) <= 0 by {
                if b < pos {
                } else if a > pos {
                    assert(nv[a] == rv[a - 1] && nv[b] == rv[b - 1]);
                } else if a < pos && b > pos {
                    assert(nv[b] == rv[b - 1]);
                } else if a == pos {
                    assert(nv[b] == rv[b - 1]);
                } else {
                    // a < pos == b
                    if a < pos - 1 {
                        lemma_text_order_transitive(rv[a], rv[pos - 1], xv);
                    }
                }
            }
            assert(vv.take(i as int + 1) =~= vv.take(i as int).push(xv));
            vstd::seq_lib::to_multiset_insert(rv, pos as int, xv);
            vstd::seq_lib::to_multiset_build(vv.take(i as int), xv);
            assert(nv.to_multiset() == rv.to_multiset().insert(xv));
            assert(vv.take(i as int + 1).to_multiset() == vv.take(i as int).to_multiset().insert(xv));
        }
        i = i + 1;
    }
    assert(vv.take(vv.len() as int) =~= vv);
    r
}

} // verus!
