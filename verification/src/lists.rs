//! Membership in lists of names, positions and values.

use crate::text::{cat3, count_text, nat_text, owned, same_text};
use crate::value::{views, Value};
use vstd::prelude::*;

verus! {

/// Whether a list of names holds a name.
pub(crate) fn has_name(names: &Vec<String>, name: &str) -> (r: bool)
    ensures
        r == views(names@).contains(name@),
{
    let mut i: usize = 0;
    while i < names.len()
        invariant
            i <= names.len(),
            forall|k: int| 0 <= k < i ==> views(names@)[k] != name@,
        decreases names.len() - i,
    {
        if same_text(names[i].as_str(), name) {
            assert(views(names@)[i as int] == name@);
            return true;
        }
        i = i + 1;
    }
    false
}

/// Whether a list of values holds a value.
pub(crate) fn has_value(values: &Vec<Value>, v: &Value) -> (r: bool)
    ensures
        r == views(values@).contains(v@),
{
    let mut i: usize = 0;
    while i < values.len()
        invariant
            i <= values.len(),
            forall|k: int| 0 <= k < i ==> views(values@)[k] != v@,
        decreases values.len() - i,
    {
        if values[i].same(v) {
            assert(views(values@)[i as int] == v@);
            return true;
        }
        i = i + 1;
    }
    false
}

/// Whether a list of positions holds a position.
pub(crate) fn has_index(list: &Vec<usize>, n: usize) -> (r: bool)
    ensures
        r == list@.contains(n),
{
    let mut i: usize = 0;
    while i < list.len()
        invariant
            i <= list.len(),
            forall|k: int| 0 <= k < i ==> list@[k] != n,
        decreases list.len() - i,
    {
        if list[i] == n {
            assert(list@[i as int] == n);
            return true;
        }
        i = i + 1;
    }
    false
}

/// An ascending list with a number put in behind those that are not greater.
pub open spec fn inserted(s: Seq<usize>, x: usize) -> Seq<usize>
    decreases s.len(),
{
    if s.len() == 0 {
        seq![x]
    } else if s.last() <= x {
        s.push(x)
    } else {
        inserted(s.drop_last(), x).push(s.last())
    }
}

/// The numbers of a list in ascending order.
pub open spec fn sorted(s: Seq<usize>) -> Seq<usize>
    decreases s.len(),
{
    if s.len() == 0 {
        Seq::empty()
    } else {
        inserted(sorted(s.drop_last()), s.last())
    }
}

/// Sorting keeps the length, and what it gives comes from the list.
pub proof fn lemma_sorted(s: Seq<usize>)
    ensures
        sorted(s).len() == s.len(),
        forall|i: int| 0 <= i < s.len() ==> s.contains(#[trigger] sorted(s)[i]),
        forall|i: int, j: int| 0 <= i <= j < s.len() ==> sorted(s)[i] <= sorted(s)[j],
    decreases s.len(),
{
    if s.len() > 0 {
        let front = s.drop_last();
        lemma_sorted(front);
        lemma_inserted(sorted(front), s.last());
        assert forall|i: int| 0 <= i < s.len() implies s.contains(#[trigger] sorted(s)[i]) by {
            let x = sorted(s)[i];
            if x == s.last() {
                assert(s[s.len() - 1] == x);
            } else {
                let k = choose|k: int| 0 <= k < sorted(front).len() && sorted(front)[k] == x;
                assert(front.contains(sorted(front)[k]));
                let m = choose|m: int| 0 <= m < front.len() && front[m] == x;
                assert(s[m] == x);
            }
        }
    }
}

proof fn lemma_inserted(s: Seq<usize>, x: usize)
    requires
        forall|i: int, j: int| 0 <= i <= j < s.len() ==> s[i] <= s[j],
    ensures
        inserted(s, x).len() == s.len() + 1,
        forall|i: int|
            0 <= i < inserted(s, x).len() ==> (#[trigger] inserted(s, x)[i] == x || s.contains(
                inserted(s, x)[i],
            )),
        forall|i: int, j: int|
            0 <= i <= j < inserted(s, x).len() ==> inserted(s, x)[i] <= inserted(s, x)[j],
    decreases s.len(),
{
    if s.len() > 0 {
        if s.last() <= x {
            assert forall|i: int| 0 <= i < inserted(s, x).len() implies (#[trigger] inserted(s, x)[i]
                == x || s.contains(inserted(s, x)[i])) by {
                if i < s.len() {
                    assert(s.contains(s[i]));
                }
            }
        } else {
            let front = s.drop_last();
            lemma_inserted(front, x);
            assert forall|i: int| 0 <= i < inserted(s, x).len() implies (#[trigger] inserted(s, x)[i]
                == x || s.contains(inserted(s, x)[i])) by {
                if i < s.len() {
                    let y = inserted(front, x)[i];
                    if y != x {
                        let k = choose|k: int| 0 <= k < front.len() && front[k] == y;
                        assert(s[k] == y);
                    }
                } else {
                    assert(s[s.len() - 1] == s.last());
                }
            }
            assert forall|i: int, j: int| 0 <= i <= j < inserted(s, x).len() implies inserted(s, x)[i]
                <= inserted(s, x)[j] by {
                if i < s.len() && j == s.len() {
                    let y = inserted(front, x)[i];
                    if y != x {
                        let k = choose|k: int| 0 <= k < front.len() && front[k] == y;
                        assert(s[k] <= s[s.len() - 1]);
                    }
                }
            }
        }
    } else {
        assert(inserted(s, x)[0] == x);
    }
}

/// Puts a number into an ascending list.
pub(crate) fn insert_sorted(list: Vec<usize>, x: usize) -> (r: Vec<usize>)
    ensures
        r@ == inserted(list@, x),
{
    let mut front = list;
    let ghost whole = front@;
    let mut n: usize = front.len();
    while n > 0 && front[n - 1] > x
        invariant
            n <= front.len(),
            front@ == whole,
            forall|k: int| n <= k < whole.len() ==> whole[k] > x,
        decreases n,
    {
        n = n - 1;
    }
    front.insert(n, x);
    proof {
        lemma_inserted_at(whole, x, n as int);
    }
    front
}

proof fn lemma_inserted_at(s: Seq<usize>, x: usize, n: int)
    requires
        0 <= n <= s.len(),
        forall|k: int| n <= k < s.len() ==> s[k] > x,
        n > 0 ==> s[n - 1] <= x,
    ensures
        inserted(s, x) == s.insert(n, x),
    decreases s.len(),
{
    if s.len() == 0 {
        assert(s.insert(n, x) =~= seq![x]);
    } else if n == s.len() {
        assert(s.insert(n, x) =~= s.push(x));
    } else {
        assert(s.last() > x);
        lemma_inserted_at(s.drop_last(), x, n);
        assert(s.insert(n, x) =~= s.drop_last().insert(n, x).push(s.last()));
    }
}

/// The first `n` numbers of a list, separated by commas.
pub open spec fn joined(s: Seq<usize>, n: int) -> Seq<char>
    decreases n,
{
    if n <= 0 || n > s.len() {
        ""@
    } else if n == 1 {
        nat_text(s[0] as nat)
    } else {
        joined(s, n - 1) + ", "@ + nat_text(s[n - 1] as nat)
    }
}

/// A list of numbers as it is shown.
pub open spec fn list_text(s: Seq<usize>) -> Seq<char> {
    "["@ + joined(s, s.len() as int) + "]"@
}

/// A list of numbers as it is shown.
pub(crate) fn text_of_list(list: &Vec<usize>) -> (r: String)
    ensures
        r@ == list_text(list@),
{
    let mut out = owned("");
    let mut i: usize = 0;
    while i < list.len()
        invariant
            i <= list.len(),
            out@ == joined(list@, i as int),
        decreases list.len() - i,
    {
        let n = count_text(list[i]);
        if i == 0 {
            out = n;
        } else {
            out = cat3(out.as_str(), ", ", n.as_str());
        }
        i = i + 1;
    }
    cat3("[", out.as_str(), "]")
}

/// The position from the `i`-th on at which a number stands.
pub open spec fn place_of(list: Seq<usize>, n: usize, i: int) -> Option<int>
    decreases list.len() - i,
{
    if i < 0 || i >= list.len() {
        None
    } else if list[i] == n {
        Some(i)
    } else {
        place_of(list, n, i + 1)
    }
}

/// What is found is the number, and what is not found does not occur.
pub proof fn lemma_place_of(list: Seq<usize>, n: usize, i: int)
    requires
        0 <= i <= list.len(),
    ensures
        match place_of(list, n, i) {
            Some(k) => i <= k < list.len() && list[k] == n,
            None => forall|k: int| i <= k < list.len() ==> list[k] != n,
        },
    decreases list.len() - i,
{
    if i < list.len() && list[i] != n {
        lemma_place_of(list, n, i + 1);
    }
}

/// The position at which a number stands.
pub(crate) fn find_place(list: &Vec<usize>, n: usize) -> (r: Option<usize>)
    ensures
        match r {
            Some(k) => k < list@.len() && place_of(list@, n, 0) == Some(k as int),
            None => place_of(list@, n, 0) is None,
        },
{
    let mut i: usize = 0;
    while i < list.len()
        invariant
            i <= list.len(),
            place_of(list@, n, 0) == place_of(list@, n, i as int),
        decreases list.len() - i,
    {
        if list[i] == n {
            return Some(i);
        }
        i = i + 1;
    }
    None
}

} // verus!
