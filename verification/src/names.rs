//! Sets of names, kept in lexicographic order.

use crate::text::chars_of;
use vstd::prelude::*;

verus! {

/// Whether `a` comes before `b` in lexicographic order of code points.
pub open spec fn before(a: Seq<char>, b: Seq<char>) -> bool
    decreases a.len(),
{
    if b.len() == 0 {
        false
    } else if a.len() == 0 {
        true
    } else if a[0] != b[0] {
        (a[0] as int) < (b[0] as int)
    } else {
        before(a.drop_first(), b.drop_first())
    }
}

/// Whether each name of `names` comes before all that follow it.
pub open spec fn increasing(names: Seq<Seq<char>>) -> bool {
    forall|i: int, j: int| 0 <= i < j < names.len() ==> before(names[i], names[j])
}

/// The names of a finite set in lexicographic order, each once.
pub open spec fn sorted(set: Set<Seq<char>>) -> Seq<Seq<char>> {
    choose|names: Seq<Seq<char>>| increasing(names) && names.to_set() == set
}

/// No name comes before itself.
pub proof fn lemma_before_irreflexive(a: Seq<char>)
    ensures
        !before(a, a),
    decreases a.len(),
{
    if a.len() > 0 {
        lemma_before_irreflexive(a.drop_first());
    }
}

/// Of two different names one comes before the other.
pub proof fn lemma_before_total(a: Seq<char>, b: Seq<char>)
    ensures
        a == b || before(a, b) || before(b, a),
    decreases a.len(),
{
    if a.len() > 0 && b.len() > 0 && a[0] == b[0] {
        lemma_before_total(a.drop_first(), b.drop_first());
        if a.drop_first() == b.drop_first() {
            assert(a =~= seq![a[0]] + a.drop_first());
        }
    }
}

/// The order is transitive.
pub proof fn lemma_before_transitive(a: Seq<char>, b: Seq<char>, c: Seq<char>)
    requires
        before(a, b),
        before(b, c),
    ensures
        before(a, c),
    decreases a.len(),
{
    if a.len() > 0 && a[0] == b[0] && b[0] == c[0] {
        lemma_before_transitive(a.drop_first(), b.drop_first(), c.drop_first());
    }
}

/// No two names come before each other.
pub proof fn lemma_before_asymmetric(a: Seq<char>, b: Seq<char>)
    requires
        before(a, b),
    ensures
        !before(b, a),
{
    if before(b, a) {
        lemma_before_transitive(a, b, a);
        lemma_before_irreflexive(a);
    }
}

/// A sequence in increasing order holds no name twice.
pub proof fn lemma_increasing_no_duplicates(names: Seq<Seq<char>>)
    requires
        increasing(names),
    ensures
        names.no_duplicates(),
{
    assert forall|i: int, j: int| 0 <= i < names.len() && 0 <= j < names.len() && i != j implies names[i]
        != names[j] by {
        lemma_before_irreflexive(names[i]);
    }
}

/// Two sequences in increasing order that hold the same names are equal.
pub proof fn lemma_increasing_unique(a: Seq<Seq<char>>, b: Seq<Seq<char>>)
    requires
        increasing(a),
        increasing(b),
        a.to_set() == b.to_set(),
    ensures
        a == b,
    decreases a.len(),
{
    if a.len() == 0 {
        if b.len() > 0 {
            assert(b.to_set().contains(b[0]));
        }
    } else if b.len() == 0 {
        assert(a.to_set().contains(a[0]));
    } else {
        assert(a.to_set().contains(a[0]));
        let j = choose|j: int| 0 <= j < b.len() && b[j] == a[0];
        assert(b.to_set().contains(b[0]));
        let k = choose|k: int| 0 <= k < a.len() && a[k] == b[0];
        if j > 0 {
            if k > 0 {
                lemma_before_asymmetric(a[0], a[k]);
            } else {
                lemma_before_irreflexive(a[0]);
            }
        }
        let x = a.drop_first();
        let y = b.drop_first();
        lemma_increasing_no_duplicates(a);
        lemma_increasing_no_duplicates(b);
        assert(x.to_set() =~= y.to_set()) by {
            assert forall|n: Seq<char>| x.to_set().contains(n) <==> y.to_set().contains(n) by {
                if x.contains(n) {
                    assert(a.to_set().contains(n));
                    let m = choose|m: int| 0 <= m < b.len() && b[m] == n;
                    assert(y[m - 1] == n);
                }
                if y.contains(n) {
                    assert(b.to_set().contains(n));
                    let m = choose|m: int| 0 <= m < a.len() && a[m] == n;
                    assert(x[m - 1] == n);
                }
            }
        }
        lemma_increasing_unique(x, y);
        assert(a =~= seq![a[0]] + x);
    }
}

/// A sequence in increasing order is the sorted sequence of its names.
pub proof fn lemma_sorted_of_increasing(names: Seq<Seq<char>>)
    requires
        increasing(names),
    ensures
        sorted(names.to_set()) == names,
{
    let other = sorted(names.to_set());
    lemma_increasing_unique(other, names);
}

/// The code point of a character fits 32 bits.
pub proof fn lemma_code_point(c: char)
    ensures
        c as u32 == c as int,
{
}

/// Whether `a` comes before `b` in lexicographic order.
pub fn precedes(a: &[char], b: &[char]) -> (r: bool)
    ensures
        r == before(a@, b@),
{
    let mut i: usize = 0;
    assert(a@.skip(0) =~= a@ && b@.skip(0) =~= b@);
    while i < a.len() && i < b.len()
        invariant
            i <= a.len(),
            i <= b.len(),
            before(a@, b@) == before(a@.skip(i as int), b@.skip(i as int)),
        decreases a.len() - i,
    {
        if a[i] != b[i] {
            let x: u32 = a[i] as u32;
            let y: u32 = b[i] as u32;
            proof {
                lemma_code_point(a@[i as int]);
                lemma_code_point(b@[i as int]);
            }
            return x < y;
        }
        assert(a@.skip(i as int).drop_first() =~= a@.skip(i + 1));
        assert(b@.skip(i as int).drop_first() =~= b@.skip(i + 1));
        i += 1;
    }
    i < b.len()
}

/// A finite set of names.
///
/// The names are held in increasing order, so that listing them needs no
/// sorting and always gives the same sequence for the same set.
pub struct NameSet {
    names: Vec<String>,
}

impl View for NameSet {
    type V = Set<Seq<char>>;

    closed spec fn view(&self) -> Set<Seq<char>> {
        self.names.deep_view().to_set()
    }
}

impl NameSet {
    #[verifier::type_invariant]
    spec fn ordered(&self) -> bool {
        increasing(self.names.deep_view())
    }

    /// The empty set.
    pub fn new() -> (set: Self)
        ensures
            set@ == Set::<Seq<char>>::empty(),
    {
        let set = NameSet { names: Vec::new() };
        set
    }

    /// The number of names in the set.
    pub fn len(&self) -> (n: usize)
        ensures
            self@.finite(),
            n == self@.len(),
    {
        proof {
            use_type_invariant(self);
            lemma_increasing_no_duplicates(self.names.deep_view());
            self.names.deep_view().unique_seq_to_set();
            vstd::seq_lib::seq_to_set_is_finite(self.names.deep_view());
        }
        self.names.len()
    }

    /// Whether the set holds no name.
    pub fn is_empty(&self) -> (r: bool)
        ensures
            r == (self@ == Set::<Seq<char>>::empty()),
    {
        proof {
            if self.names.len() > 0 {
                assert(self.names.deep_view()[0] == self.names[0]@);
                assert(self@.contains(self.names[0]@));
            } else {
                assert(self@ =~= Set::<Seq<char>>::empty());
            }
        }
        self.names.len() == 0
    }

    /// The position of the first name that does not come before `name`.
    fn position(&self, name: &[char]) -> (at: usize)
        ensures
            at <= self.names.len(),
            forall|k: int| 0 <= k < at ==> before(#[trigger] self.names.deep_view()[k], name@),
            at < self.names.len() ==> !before(self.names.deep_view()[at as int], name@),
    {
        let mut i: usize = 0;
        while i < self.names.len()
            invariant
                i <= self.names.len(),
                forall|k: int| 0 <= k < i ==> before(#[trigger] self.names.deep_view()[k], name@),
            decreases self.names.len() - i,
        {
            let other = chars_of(self.names[i].as_str());
            if !precedes(other.as_slice(), name) {
                return i;
            }
            i += 1;
        }
        i
    }

    /// Whether the set holds `name`.
    pub fn contains(&self, name: &str) -> (r: bool)
        ensures
            r == self@.contains(name@),
    {
        let wanted = chars_of(name);
        let at = self.position(wanted.as_slice());
        let ghost all = self.names.deep_view();
        proof {
            use_type_invariant(self);
        }
        if at < self.names.len() {
            let other = chars_of(self.names[at].as_str());
            let found = !precedes(wanted.as_slice(), other.as_slice());
            proof {
                lemma_before_total(wanted@, other@);
                if !found {
                    lemma_absent(all, name@, at as int);
                }
            }
            found
        } else {
            proof {
                lemma_absent(all, name@, at as int);
            }
            false
        }
    }

    /// Puts `name` into the set. Returns whether it was new.
    pub fn insert(&mut self, name: &str) -> (added: bool)
        ensures
            final(self)@ == old(self)@.insert(name@),
            added == !old(self)@.contains(name@),
    {
        let wanted = chars_of(name);
        let at = self.position(wanted.as_slice());
        let ghost all = self.names.deep_view();
        proof {
            use_type_invariant(&*self);
        }
        if at < self.names.len() {
            let other = chars_of(self.names[at].as_str());
            if !precedes(wanted.as_slice(), other.as_slice()) {
                proof {
                    lemma_before_total(wanted@, other@);
                }
                return false;
            }
        }
        proof {
            lemma_absent(all, name@, at as int);
        }
        let mut fresh: Vec<String> = Vec::new();
        let mut i: usize = 0;
        while i < self.names.len()
            invariant
                i <= self.names.len(),
                at <= self.names.len(),
                all == self.names.deep_view(),
                fresh.deep_view() == all.insert(at as int, name@).take(
                    if i <= at {
                        i as int
                    } else {
                        i + 1
                    },
                ),
            decreases self.names.len() - i,
        {
            let ghost before_push = fresh.deep_view();
            if i == at {
                fresh.push(name.to_owned());
                fresh.push(self.names[i].clone());
            } else {
                fresh.push(self.names[i].clone());
                assert(fresh.deep_view() =~= before_push.push(all[i as int]));
            }
            i += 1;
        }
        if at == self.names.len() {
            let ghost before_push = fresh.deep_view();
            fresh.push(name.to_owned());
            assert(fresh.deep_view() =~= before_push.push(name@));
        }
        proof {
            lemma_insert_keeps_order(all, name@, at as int);
        }
        self.names = fresh;
        proof {
            let now = self.names.deep_view();
            assert(now.to_set() =~= all.to_set().insert(name@)) by {
                assert forall|n: Seq<char>| now.to_set().contains(n) <==> all.to_set().insert(
                    name@,
                ).contains(n) by {
                    if all.contains(n) {
                        let i = choose|i: int| 0 <= i < all.len() && all[i] == n;
                        if i < at {
                            assert(now[i] == n);
                        } else {
                            assert(now[i + 1] == n);
                        }
                    }
                    if n == name@ {
                        assert(now[at as int] == n);
                    }
                }
            }
        }
        true
    }

    /// The names of the set in lexicographic order.
    pub fn names(&self) -> (list: &Vec<String>)
        ensures
            list.deep_view() == sorted(self@),
            list.deep_view().to_set() == self@,
            increasing(list.deep_view()),
    {
        proof {
            use_type_invariant(self);
            lemma_sorted_of_increasing(self.names.deep_view());
        }
        &self.names
    }
}

/// In an increasing sequence, a name that belongs between position `at - 1`
/// and position `at` and differs from the name at `at` is not there.
proof fn lemma_absent(all: Seq<Seq<char>>, name: Seq<char>, at: int)
    requires
        increasing(all),
        0 <= at <= all.len(),
        forall|k: int| 0 <= k < at ==> before(#[trigger] all[k], name),
        at < all.len() ==> before(name, all[at]),
    ensures
        !all.to_set().contains(name),
{
    if all.contains(name) {
        let i = choose|i: int| 0 <= i < all.len() && all[i] == name;
        lemma_before_irreflexive(name);
        if i > at {
            lemma_before_asymmetric(name, all[at]);
        }
    }
}

/// Putting a name where it belongs keeps the order.
proof fn lemma_insert_keeps_order(all: Seq<Seq<char>>, name: Seq<char>, at: int)
    requires
        increasing(all),
        0 <= at <= all.len(),
        forall|k: int| 0 <= k < at ==> before(#[trigger] all[k], name),
        at < all.len() ==> before(name, all[at]),
    ensures
        increasing(all.insert(at, name)),
{
    let now = all.insert(at, name);
    assert forall|i: int, j: int| 0 <= i < j < now.len() implies before(now[i], now[j]) by {
        if j > at && i <= at {
            if j - 1 > at {
                lemma_before_transitive(name, all[at], all[j - 1]);
            }
            if i < at {
                lemma_before_transitive(all[i], name, all[j - 1]);
            }
        }
    }
}

} // verus!
