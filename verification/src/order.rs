//! Lexicographic order, and lists of texts kept in it.
use crate::text;
use vstd::prelude::*;

verus! {

/// Whether `a` comes before `b` when sequences are compared element by element
/// and a sequence comes before all that continue it.
pub open spec fn less<T>(a: Seq<T>, b: Seq<T>, lt: spec_fn(T, T) -> bool) -> bool
    decreases a.len(),
{
    if b.len() == 0 {
        false
    } else if a.len() == 0 {
        true
    } else if a.first() == b.first() {
        less(a.skip(1), b.skip(1), lt)
    } else {
        lt(a.first(), b.first())
    }
}

/// Whether `lt` puts any two different values in one order.
pub open spec fn strict_order<T>(lt: spec_fn(T, T) -> bool) -> bool {
    &&& forall|x: T| !#[trigger] lt(x, x)
    &&& forall|x: T, y: T, z: T| #[trigger] lt(x, y) && #[trigger] lt(y, z) ==> lt(x, z)
    &&& forall|x: T, y: T| x == y || #[trigger] lt(x, y) || lt(y, x)
}

/// No sequence comes before itself.
pub proof fn lemma_less_irreflexive<T>(a: Seq<T>, lt: spec_fn(T, T) -> bool)
    ensures
        !less(a, a, lt),
    decreases a.len(),
{
    if a.len() > 0 {
        lemma_less_irreflexive(a.skip(1), lt);
    }
}

/// What comes before a sequence comes before all that come after it.
pub proof fn lemma_less_transitive<T>(
    a: Seq<T>,
    b: Seq<T>,
    c: Seq<T>,
    lt: spec_fn(T, T) -> bool,
)
    requires
        strict_order(lt),
        less(a, b, lt),
        less(b, c, lt),
    ensures
        less(a, c, lt),
    decreases a.len(),
{
    if a.len() > 0 && b.len() > 0 && c.len() > 0 {
        if a.first() == b.first() && b.first() == c.first() {
            lemma_less_transitive(a.skip(1), b.skip(1), c.skip(1), lt);
        }
    }
}

/// Of two different sequences one comes before the other.
pub proof fn lemma_less_total<T>(a: Seq<T>, b: Seq<T>, lt: spec_fn(T, T) -> bool)
    requires
        strict_order(lt),
    ensures
        a == b || less(a, b, lt) || less(b, a, lt),
    decreases a.len(),
{
    if a.len() > 0 && b.len() > 0 && a.first() == b.first() {
        lemma_less_total(a.skip(1), b.skip(1), lt);
        if a.skip(1) == b.skip(1) {
            assert(a =~= seq![a.first()] + a.skip(1));
            assert(b =~= seq![b.first()] + b.skip(1));
        }
    } else if a.len() == 0 && b.len() == 0 {
        assert(a =~= b);
    }
}

/// The order of characters.
pub open spec fn char_order() -> spec_fn(char, char) -> bool {
    |x: char, y: char| x < y
}

/// Whether one text comes before another.
pub open spec fn text_less(a: Seq<char>, b: Seq<char>) -> bool {
    less(a, b, char_order())
}

/// The order of texts.
pub open spec fn text_order() -> spec_fn(Seq<char>, Seq<char>) -> bool {
    |x: Seq<char>, y: Seq<char>| text_less(x, y)
}

/// Texts are in one order.
pub proof fn lemma_text_order()
    ensures
        strict_order(text_order()),
{
    assert(strict_order(char_order()));
    assert forall|x: Seq<char>| !#[trigger] (text_order())(x, x) by {
        lemma_less_irreflexive(x, char_order());
    }
    assert forall|x: Seq<char>, y: Seq<char>, z: Seq<char>| #[trigger]
        (text_order())(x, y) && #[trigger] (text_order())(y, z) implies (text_order())(x, z) by {
        lemma_less_transitive(x, y, z, char_order());
    }
    assert forall|x: Seq<char>, y: Seq<char>|
        x == y || #[trigger] (text_order())(x, y) || (text_order())(y, x) by {
        lemma_less_total(x, y, char_order());
    }
}

/// Whether one text comes before another.
pub fn text_before(a: &str, b: &str) -> (before: bool)
    ensures
        before == text_less(a@, b@),
{
    let first = text::to_chars(a);
    let second = text::to_chars(b);
    let mut i: usize = 0;
    assert(a@.skip(0) =~= a@);
    assert(b@.skip(0) =~= b@);
    while i < first.len() && i < second.len() && first[i] == second[i]
        invariant
            first@ == a@,
            second@ == b@,
            i <= first@.len(),
            i <= second@.len(),
            text_less(a@, b@) == text_less(a@.skip(i as int), b@.skip(i as int)),
        decreases first@.len() - i,
    {
        assert(a@.skip(i as int).skip(1) =~= a@.skip(i + 1));
        assert(b@.skip(i as int).skip(1) =~= b@.skip(i + 1));
        i = i + 1;
    }
    if i >= second.len() {
        false
    } else if i >= first.len() {
        true
    } else {
        char_before(first[i], second[i])
    }
}

/// Whether one character comes before another.
fn char_before(x: char, y: char) -> (before: bool)
    ensures
        before == (x < y),
{
    x < y
}

/// Whether each text of a list comes before all that follow it.
pub open spec fn ascending(list: Seq<Seq<char>>) -> bool {
    forall|i: int, j: int|
        0 <= i < j < list.len() ==> text_less(#[trigger] list[i], #[trigger] list[j])
}

/// Puts a text into an ascending list, unless it is in it already.
pub fn insert_ascending(list: &mut Vec<String>, entry: String)
    requires
        ascending(text::texts(old(list)@)),
    ensures
        ascending(text::texts(final(list)@)),
        text::texts(final(list)@).to_set() == text::texts(old(list)@).to_set().insert(entry@),
{
    let ghost before = text::texts(list@);
    let mut at: usize = 0;
    proof {
        lemma_text_order();
    }
    while at < list.len() && text_before(list[at].as_str(), entry.as_str())
        invariant
            before == text::texts(list@),
            at <= list@.len(),
            forall|i: int| 0 <= i < at ==> text_less(#[trigger] before[i], entry@),
        decreases list@.len() - at,
    {
        assert(before[at as int] == list@[at as int]@);
        at = at + 1;
    }
    if at < list.len() && text::same_text(list[at].as_str(), entry.as_str()) {
        assert(before[at as int] == entry@);
        assert(before.to_set().insert(entry@) =~= before.to_set());
        return;
    }
    list.insert(at, entry);
    let ghost after = text::texts(list@);
    assert(after =~= before.insert(at as int, entry@));
    proof {
        let order = text_order();
        assert forall|i: int, j: int| 0 <= i < j < after.len() implies text_less(
            #[trigger] after[i],
            #[trigger] after[j],
        ) by {
            if at < before.len() {
                assert(order(entry@, before[at as int]) || order(before[at as int], entry@)
                    || entry@ == before[at as int]);
                if i == at && j > at + 1 {
                    assert(order(entry@, before[at as int]));
                    assert(text_less(before[at as int], before[j - 1]));
                    assert(order(before[at as int], before[j - 1]));
                    assert(order(entry@, before[j - 1]));
                }
            }
        }
        assert forall|x: Seq<char>| #[trigger]
            after.to_set().contains(x) <==> before.to_set().insert(entry@).contains(x) by {
            if after.contains(x) {
                let k = choose|k: int| 0 <= k < after.len() && after[k] == x;
                if k < at {
                    assert(before[k] == x);
                } else if k > at {
                    assert(before[k - 1] == x);
                }
            }
            if before.contains(x) {
                let k = choose|k: int| 0 <= k < before.len() && before[k] == x;
                if k < at {
                    assert(after[k] == x);
                } else {
                    assert(after[k + 1] == x);
                }
            }
            assert(after[at as int] == entry@);
        }
        assert(after.to_set() =~= before.to_set().insert(entry@));
    }
}

/// A text comes before another exactly if the other continues it, or if at the
/// first place where they differ its character is the smaller one.
pub proof fn law_texts_are_ordered_by_their_first_difference(a: Seq<char>, b: Seq<char>)
    ensures
        text_less(a, b) <==> exists|k: int|
            0 <= k <= a.len() && k < b.len() && #[trigger] a.take(k) == b.take(k) && (k == a.len()
                || a[k] < b[k]),
    decreases a.len(),
{
    if b.len() == 0 {
    } else if a.len() == 0 {
        assert(a.take(0) =~= b.take(0));
    } else if a.first() == b.first() {
        let x = a.skip(1);
        let y = b.skip(1);
        law_texts_are_ordered_by_their_first_difference(x, y);
        if text_less(a, b) {
            let k = choose|k: int|
                0 <= k <= x.len() && k < y.len() && #[trigger] x.take(k) == y.take(k) && (k
                    == x.len() || x[k] < y[k]);
            assert(a.take(k + 1) =~= seq![a[0]] + x.take(k));
            assert(b.take(k + 1) =~= seq![b[0]] + y.take(k));
            assert(a.take(k + 1) == b.take(k + 1));
        }
        if exists|k: int|
            0 <= k <= a.len() && k < b.len() && #[trigger] a.take(k) == b.take(k) && (k == a.len()
                || a[k] < b[k]) {
            let k = choose|k: int|
                0 <= k <= a.len() && k < b.len() && #[trigger] a.take(k) == b.take(k) && (k
                    == a.len() || a[k] < b[k]);
            assert(k > 0);
            assert(x.take(k - 1) =~= a.take(k).skip(1));
            assert(y.take(k - 1) =~= b.take(k).skip(1));
            assert(x.take(k - 1) == y.take(k - 1));
        }
    } else {
        if text_less(a, b) {
            assert(a.take(0) =~= b.take(0));
        }
        if exists|k: int|
            0 <= k <= a.len() && k < b.len() && #[trigger] a.take(k) == b.take(k) && (k == a.len()
                || a[k] < b[k]) {
            let k = choose|k: int|
                0 <= k <= a.len() && k < b.len() && #[trigger] a.take(k) == b.take(k) && (k
                    == a.len() || a[k] < b[k]);
            if k > 0 {
                assert(a.take(k)[0] == a[0] && b.take(k)[0] == b[0]);
            }
        }
    }
}

/// An ascending list holds each text once, and of two lists with the same texts
/// in ascending order both begin alike: their first texts come before all others.
pub proof fn law_ascending_lists_have_one_order(list: Seq<Seq<char>>)
    requires
        ascending(list),
    ensures
        list.no_duplicates(),
        forall|i: int, j: int|
            0 <= i < list.len() && 0 <= j < list.len() ==> (text_less(
                #[trigger] list[i],
                #[trigger] list[j],
            ) <==> i < j),
{
    lemma_text_order();
    let order = text_order();
    assert forall|i: int, j: int|
        0 <= i < list.len() && 0 <= j < list.len() implies (text_less(
        #[trigger] list[i],
        #[trigger] list[j],
    ) <==> i < j) by {
        assert(!order(list[i], list[i]));
        if j < i {
            assert(order(list[j], list[i]));
            if order(list[i], list[j]) {
                assert(order(list[i], list[i]));
            }
        }
    }
    assert forall|i: int, j: int| 0 <= i < list.len() && 0 <= j < list.len() && i
        != j implies list[i] != list[j] by {
        if i < j {
            assert(text_less(list[i], list[j]));
        } else {
            assert(text_less(list[j], list[i]));
        }
        assert(!order(list[i], list[i]));
    }
}

} // verus!
