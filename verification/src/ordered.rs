//! Maps and sets that keep their keys in ascending order, and the two traits
//! that values and keys of such collections have.

use crate::text::{text_before, text_eq, text_order, Order};
use crate::text::{text_before_irreflexive, text_before_total, text_before_transitive};
use vstd::prelude::*;

verus! {

/// A value with a mathematical model that can be copied and compared.
pub trait Value: DeepView + Sized {
    /// A copy with the same model.
    fn duplicate(&self) -> (r: Self)
        ensures
            r.deep_view() == self.deep_view(),
    ;

    /// Whether two values have the same model.
    fn same(&self, other: &Self) -> (r: bool)
        ensures
            r == (self.deep_view() == other.deep_view()),
    ;
}

/// A value whose models are totally ordered.
pub trait Key: Value {
    /// True when `a` comes strictly before `b`.
    spec fn precedes(a: Self::V, b: Self::V) -> bool;

    proof fn irreflexive(a: Self::V)
        ensures
            !Self::precedes(a, a),
    ;

    proof fn transitive(a: Self::V, b: Self::V, c: Self::V)
        requires
            Self::precedes(a, b),
            Self::precedes(b, c),
        ensures
            Self::precedes(a, c),
    ;

    proof fn total(a: Self::V, b: Self::V)
        ensures
            a == b || Self::precedes(a, b) || Self::precedes(b, a),
    ;

    /// Where this key stands relative to another.
    fn order(&self, other: &Self) -> (r: Order)
        ensures
            match r {
                Order::Before => Self::precedes(self.deep_view(), other.deep_view()),
                Order::Same => self.deep_view() == other.deep_view(),
                Order::After => Self::precedes(other.deep_view(), self.deep_view()),
            },
    ;
}

impl Value for bool {
    fn duplicate(&self) -> (r: Self) {
        *self
    }

    fn same(&self, other: &Self) -> (r: bool) {
        *self == *other
    }
}

impl Value for u8 {
    fn duplicate(&self) -> (r: Self) {
        *self
    }

    fn same(&self, other: &Self) -> (r: bool) {
        *self == *other
    }
}

impl Value for u16 {
    fn duplicate(&self) -> (r: Self) {
        *self
    }

    fn same(&self, other: &Self) -> (r: bool) {
        *self == *other
    }
}

impl Value for u32 {
    fn duplicate(&self) -> (r: Self) {
        *self
    }

    fn same(&self, other: &Self) -> (r: bool) {
        *self == *other
    }
}

impl Value for u64 {
    fn duplicate(&self) -> (r: Self) {
        *self
    }

    fn same(&self, other: &Self) -> (r: bool) {
        *self == *other
    }
}

impl Value for usize {
    fn duplicate(&self) -> (r: Self) {
        *self
    }

    fn same(&self, other: &Self) -> (r: bool) {
        *self == *other
    }
}

impl Value for i64 {
    fn duplicate(&self) -> (r: Self) {
        *self
    }

    fn same(&self, other: &Self) -> (r: bool) {
        *self == *other
    }
}

impl Key for u8 {
    open spec fn precedes(a: u8, b: u8) -> bool {
        a < b
    }

    proof fn irreflexive(a: u8) {
    }

    proof fn transitive(a: u8, b: u8, c: u8) {
    }

    proof fn total(a: u8, b: u8) {
    }

    fn order(&self, other: &Self) -> (r: Order) {
        if *self < *other {
            Order::Before
        } else if *other < *self {
            Order::After
        } else {
            Order::Same
        }
    }
}

impl Key for i64 {
    open spec fn precedes(a: i64, b: i64) -> bool {
        a < b
    }

    proof fn irreflexive(a: i64) {
    }

    proof fn transitive(a: i64, b: i64, c: i64) {
    }

    proof fn total(a: i64, b: i64) {
    }

    fn order(&self, other: &Self) -> (r: Order) {
        if *self < *other {
            Order::Before
        } else if *other < *self {
            Order::After
        } else {
            Order::Same
        }
    }
}

impl Key for u32 {
    open spec fn precedes(a: u32, b: u32) -> bool {
        a < b
    }

    proof fn irreflexive(a: u32) {
    }

    proof fn transitive(a: u32, b: u32, c: u32) {
    }

    proof fn total(a: u32, b: u32) {
    }

    fn order(&self, other: &Self) -> (r: Order) {
        if *self < *other {
            Order::Before
        } else if *other < *self {
            Order::After
        } else {
            Order::Same
        }
    }
}

impl Key for u64 {
    open spec fn precedes(a: u64, b: u64) -> bool {
        a < b
    }

    proof fn irreflexive(a: u64) {
    }

    proof fn transitive(a: u64, b: u64, c: u64) {
    }

    proof fn total(a: u64, b: u64) {
    }

    fn order(&self, other: &Self) -> (r: Order) {
        if *self < *other {
            Order::Before
        } else if *other < *self {
            Order::After
        } else {
            Order::Same
        }
    }
}

impl<K: Key> Key for Option<K> {
    open spec fn precedes(a: Option<K::V>, b: Option<K::V>) -> bool {
        match (a, b) {
            (Some(x), Some(y)) => K::precedes(x, y),
            (None, Some(_)) => true,
            _ => false,
        }
    }

    proof fn irreflexive(a: Option<K::V>) {
        if let Some(x) = a {
            K::irreflexive(x);
        }
    }

    proof fn transitive(a: Option<K::V>, b: Option<K::V>, c: Option<K::V>) {
        if let (Some(x), Some(y), Some(z)) = (a, b, c) {
            K::transitive(x, y, z);
        }
    }

    proof fn total(a: Option<K::V>, b: Option<K::V>) {
        if let (Some(x), Some(y)) = (a, b) {
            K::total(x, y);
        }
    }

    fn order(&self, other: &Self) -> (r: Order) {
        match (self, other) {
            (Some(a), Some(b)) => a.order(b),
            (None, Some(_)) => Order::Before,
            (Some(_), None) => Order::After,
            (None, None) => Order::Same,
        }
    }
}

impl<A: Key, B: Key> Key for (A, B) {
    open spec fn precedes(a: (A::V, B::V), b: (A::V, B::V)) -> bool {
        if a.0 == b.0 {
            B::precedes(a.1, b.1)
        } else {
            A::precedes(a.0, b.0)
        }
    }

    proof fn irreflexive(a: (A::V, B::V)) {
        B::irreflexive(a.1);
    }

    proof fn transitive(a: (A::V, B::V), b: (A::V, B::V), c: (A::V, B::V)) {
        if a.0 == b.0 && b.0 == c.0 {
            B::transitive(a.1, b.1, c.1);
        } else if a.0 != b.0 && b.0 != c.0 {
            A::transitive(a.0, b.0, c.0);
            A::irreflexive(a.0);
        }
    }

    proof fn total(a: (A::V, B::V), b: (A::V, B::V)) {
        A::total(a.0, b.0);
        B::total(a.1, b.1);
    }

    fn order(&self, other: &Self) -> (r: Order) {
        match self.0.order(&other.0) {
            Order::Before => {
                proof {
                    A::irreflexive(self.0.deep_view());
                }
                Order::Before
            },
            Order::After => {
                proof {
                    A::irreflexive(self.0.deep_view());
                }
                Order::After
            },
            Order::Same => self.1.order(&other.1),
        }
    }
}

impl Value for String {
    fn duplicate(&self) -> (r: Self) {
        self.clone()
    }

    fn same(&self, other: &Self) -> (r: bool) {
        text_eq(self.as_str(), other.as_str())
    }
}

impl Key for String {
    open spec fn precedes(a: Seq<char>, b: Seq<char>) -> bool {
        text_before(a, b)
    }

    proof fn irreflexive(a: Seq<char>) {
        text_before_irreflexive(a);
    }

    proof fn transitive(a: Seq<char>, b: Seq<char>, c: Seq<char>) {
        text_before_transitive(a, b, c);
    }

    proof fn total(a: Seq<char>, b: Seq<char>) {
        text_before_total(a, b);
    }

    fn order(&self, other: &Self) -> (r: Order) {
        text_order(self.as_str(), other.as_str())
    }
}

impl<A: Value, B: Value> Value for (A, B) {
    fn duplicate(&self) -> (r: Self) {
        (self.0.duplicate(), self.1.duplicate())
    }

    fn same(&self, other: &Self) -> (r: bool) {
        self.0.same(&other.0) && self.1.same(&other.1)
    }
}

impl<T: Value> Value for Option<T> {
    fn duplicate(&self) -> (r: Self) {
        match self {
            Some(value) => Some(value.duplicate()),
            None => None,
        }
    }

    fn same(&self, other: &Self) -> (r: bool) {
        match (self, other) {
            (Some(a), Some(b)) => a.same(b),
            (None, None) => true,
            _ => false,
        }
    }
}

/// The model of a result: the model of its value or of its error.
pub open spec fn result_view<T: DeepView, E: DeepView>(r: Result<T, E>) -> Result<T::V, E::V> {
    match r {
        Ok(value) => Ok(value.deep_view()),
        Err(error) => Err(error.deep_view()),
    }
}

impl<T: Value> Value for Vec<T> {
    fn duplicate(&self) -> (r: Self) {
        let mut r: Vec<T> = Vec::new();
        let mut i: usize = 0;
        while i < self.len()
            invariant
                i <= self.len(),
                r.deep_view() == self.deep_view().take(i as int),
            decreases self.len() - i,
        {
            let ghost before = r.deep_view();
            let item = self[i].duplicate();
            r.push(item);
            assert(r.deep_view() =~= before.push(item.deep_view()));
            assert(self.deep_view().take(i + 1) =~= self.deep_view().take(i as int).push(
                self.deep_view()[i as int],
            ));
            i += 1;
        }
        assert(self.deep_view().take(i as int) =~= self.deep_view());
        r
    }

    fn same(&self, other: &Self) -> (r: bool) {
        if self.len() != other.len() {
            assert(self.deep_view().len() != other.deep_view().len());
            return false;
        }
        let mut i: usize = 0;
        while i < self.len()
            invariant
                i <= self.len(),
                self.len() == other.len(),
                forall|j: int|
                    0 <= j < i ==> #[trigger] self.deep_view()[j] == other.deep_view()[j],
            decreases self.len() - i,
        {
            if !self[i].same(&other[i]) {
                assert(self.deep_view()[i as int] != other.deep_view()[i as int]);
                return false;
            }
            assert(self.deep_view()[i as int] == other.deep_view()[i as int]);
            i += 1;
        }
        assert(self.deep_view() =~= other.deep_view());
        true
    }
}

/// True when `a` comes strictly before `b` in dictionary order.
pub open spec fn list_before<K: Key>(a: Seq<K::V>, b: Seq<K::V>) -> bool
    decreases a.len(),
{
    if b.len() == 0 {
        false
    } else if a.len() == 0 {
        true
    } else if a[0] == b[0] {
        list_before::<K>(a.drop_first(), b.drop_first())
    } else {
        K::precedes(a[0], b[0])
    }
}

proof fn lemma_list_after_prefix<K: Key>(a: Seq<K::V>, b: Seq<K::V>, n: int)
    requires
        0 <= n <= a.len(),
        n <= b.len(),
        a.take(n) == b.take(n),
    ensures
        list_before::<K>(a, b) == list_before::<K>(a.skip(n), b.skip(n)),
    decreases n,
{
    if n > 0 {
        assert(a.take(n)[0] == a[0]);
        assert(b.take(n)[0] == b[0]);
        let x = a.drop_first();
        let y = b.drop_first();
        assert(x.take(n - 1) =~= a.take(n).drop_first());
        assert(y.take(n - 1) =~= b.take(n).drop_first());
        lemma_list_after_prefix::<K>(x, y, n - 1);
        assert(x.skip(n - 1) =~= a.skip(n));
        assert(y.skip(n - 1) =~= b.skip(n));
    } else {
        assert(a.skip(0) =~= a);
        assert(b.skip(0) =~= b);
    }
}

impl<K: Key> Key for Vec<K> {
    open spec fn precedes(a: Seq<K::V>, b: Seq<K::V>) -> bool {
        list_before::<K>(a, b)
    }

    proof fn irreflexive(a: Seq<K::V>)
        decreases a.len(),
    {
        if a.len() > 0 {
            Self::irreflexive(a.drop_first());
        }
    }

    proof fn transitive(a: Seq<K::V>, b: Seq<K::V>, c: Seq<K::V>)
        decreases a.len(),
    {
        if a.len() > 0 && b.len() > 0 && c.len() > 0 {
            if a[0] == b[0] && b[0] == c[0] {
                Self::transitive(a.drop_first(), b.drop_first(), c.drop_first());
            } else if a[0] != b[0] && b[0] != c[0] {
                K::transitive(a[0], b[0], c[0]);
                if a[0] == c[0] {
                    K::irreflexive(a[0]);
                }
            }
        }
    }

    proof fn total(a: Seq<K::V>, b: Seq<K::V>)
        decreases a.len(),
    {
        if a.len() > 0 && b.len() > 0 {
            if a[0] == b[0] {
                Self::total(a.drop_first(), b.drop_first());
                if a.drop_first() == b.drop_first() {
                    assert(a =~= seq![a[0]] + a.drop_first());
                    assert(b =~= seq![b[0]] + b.drop_first());
                }
            } else {
                K::total(a[0], b[0]);
            }
        } else if a.len() == 0 && b.len() == 0 {
            assert(a =~= b);
        }
    }

    fn order(&self, other: &Self) -> (r: Order) {
        let ghost a = self.deep_view();
        let ghost b = other.deep_view();
        let mut i: usize = 0;
        while i < self.len() && i < other.len()
            invariant
                i <= self.len(),
                i <= other.len(),
                a == self.deep_view(),
                b == other.deep_view(),
                a.take(i as int) == b.take(i as int),
            decreases self.len() - i,
        {
            proof {
                lemma_list_after_prefix::<K>(a, b, i as int);
                lemma_list_after_prefix::<K>(b, a, i as int);
                assert(a.skip(i as int)[0] == self@[i as int].deep_view());
                assert(b.skip(i as int)[0] == other@[i as int].deep_view());
            }
            match self[i].order(&other[i]) {
                Order::Before => {
                    proof {
                        K::irreflexive(a[i as int]);
                    }
                    return Order::Before;
                },
                Order::After => {
                    proof {
                        K::irreflexive(a[i as int]);
                    }
                    return Order::After;
                },
                Order::Same => {},
            }
            assert(a.take(i + 1) =~= a.take(i as int).push(a[i as int]));
            assert(b.take(i + 1) =~= b.take(i as int).push(b[i as int]));
            i += 1;
        }
        proof {
            lemma_list_after_prefix::<K>(a, b, i as int);
            lemma_list_after_prefix::<K>(b, a, i as int);
        }
        if i < self.len() {
            Order::After
        } else if i < other.len() {
            Order::Before
        } else {
            assert(a =~= a.take(i as int));
            assert(b =~= b.take(i as int));
            Order::Same
        }
    }
}

/// A step of a filter over a sequence.
pub proof fn lemma_filter_step<A>(s: Seq<A>, p: spec_fn(A) -> bool, i: int)
    requires
        0 <= i < s.len(),
    ensures
        s.take(i + 1).filter(p) == if p(s[i]) {
            s.take(i).filter(p).push(s[i])
        } else {
            s.take(i).filter(p)
        },
{
    assert(s.take(i + 1).drop_last() =~= s.take(i));
    assert(s.take(i + 1).last() == s[i]);
    reveal(Seq::filter);
}

/// Whether a list holds a value.
pub fn list_contains<T: Value>(list: &Vec<T>, value: &T) -> (r: bool)
    ensures
        r == list.deep_view().contains(value.deep_view()),
{
    let ghost models = list.deep_view();
    let mut i: usize = 0;
    while i < list.len()
        invariant
            i <= list.len(),
            models == list.deep_view(),
            forall|j: int| 0 <= j < i ==> #[trigger] models[j] != value.deep_view(),
        ensures
            i == list.len(),
        decreases list.len() - i,
    {
        assert(models[i as int] == list@[i as int].deep_view());
        if list[i].same(value) {
            return true;
        }
        i += 1;
    }
    false
}

/// True when every key comes strictly before the ones after it.
pub open spec fn ascending<K: Key>(keys: Seq<K::V>) -> bool {
    forall|i: int, j: int|
        0 <= i < j < keys.len() ==> K::precedes(#[trigger] keys[i], #[trigger] keys[j])
}

/// The members of a set in ascending order.
pub closed spec fn in_order<K: Key>(members: Set<K::V>) -> Seq<K::V> {
    choose|keys: Seq<K::V>|
        ascending::<K>(keys) && (forall|k: K::V| #[trigger] keys.contains(k) <==> members.contains(k))
}

/// The values of a map in ascending order of their keys.
pub open spec fn values_in_order<K: Key, W>(m: Map<K::V, W>) -> Seq<W> {
    in_order::<K>(m.dom()).map_values(|k: K::V| m[k])
}

/// There is one ascending sequence of the same keys.
pub proof fn lemma_ascending_unique<K: Key>(s: Seq<K::V>, t: Seq<K::V>)
    requires
        ascending::<K>(s),
        ascending::<K>(t),
        forall|k: K::V| #[trigger] s.contains(k) <==> t.contains(k),
    ensures
        s == t,
    decreases s.len(),
{
    if s.len() == 0 {
        if t.len() > 0 {
            assert(t.contains(t[0]));
            assert(s.contains(t[0]));
        }
        assert(s =~= t);
    } else {
        assert(s.contains(s[0]));
        assert(t.len() > 0);
        let a = s.last();
        let b = t.last();
        assert(s.contains(a) && t.contains(b));
        assert(t.contains(a));
        assert(s.contains(b));
        if a != b {
            let j = t.index_of(a);
            let i = s.index_of(b);
            assert(K::precedes(t[j], t[t.len() - 1]));
            assert(K::precedes(s[i], s[s.len() - 1]));
            K::transitive(a, b, a);
            K::irreflexive(a);
        }
        let x = s.drop_last();
        let y = t.drop_last();
        assert forall|k: K::V| #[trigger] x.contains(k) <==> y.contains(k) by {
            if x.contains(k) {
                let i = x.index_of(k);
                assert(s[i] == k);
                assert(K::precedes(s[i], s[s.len() - 1]));
                K::irreflexive(a);
                assert(s.contains(k));
                let j = t.index_of(k);
                assert(t[j] == k);
                assert(y[j] == k);
            }
            if y.contains(k) {
                let j = y.index_of(k);
                assert(t[j] == k);
                assert(K::precedes(t[j], t[t.len() - 1]));
                K::irreflexive(b);
                assert(t.contains(k));
                assert(s.contains(k));
                let i = s.index_of(k);
                assert(s[i] == k);
                assert(x[i] == k);
            }
        }
        assert(ascending::<K>(x));
        assert(ascending::<K>(y));
        lemma_ascending_unique::<K>(x, y);
        assert(s =~= x.push(a));
        assert(t =~= y.push(b));
    }
}

/// An ascending sequence is the ordering of its own members.
pub proof fn lemma_in_order_is<K: Key>(members: Set<K::V>, keys: Seq<K::V>)
    requires
        ascending::<K>(keys),
        forall|k: K::V| #[trigger] keys.contains(k) <==> members.contains(k),
    ensures
        in_order::<K>(members) == keys,
{
    let chosen = in_order::<K>(members);
    assert(ascending::<K>(chosen) && (forall|k: K::V| #[trigger]
        chosen.contains(k) <==> members.contains(k)));
    lemma_ascending_unique::<K>(chosen, keys);
}

/// Puts a key into its place in an ascending sequence that lacks it.
proof fn lemma_insert_place<K: Key>(keys: Seq<K::V>, place: int, key: K::V)
    requires
        ascending::<K>(keys),
        0 <= place <= keys.len(),
        forall|i: int| 0 <= i < place ==> K::precedes(#[trigger] keys[i], key),
        forall|i: int| place <= i < keys.len() ==> K::precedes(key, #[trigger] keys[i]),
    ensures
        ascending::<K>(keys.insert(place, key)),
        forall|k: K::V| #[trigger]
            keys.insert(place, key).contains(k) <==> (k == key || keys.contains(k)),
{
    let after = keys.insert(place, key);
    assert forall|i: int, j: int| 0 <= i < j < after.len() implies K::precedes(
        #[trigger] after[i],
        #[trigger] after[j],
    ) by {
        let a = if i < place { i } else { i - 1 };
        let b = if j < place { j } else { j - 1 };
        if i == place {
            assert(after[j] == keys[b]);
        } else if j == place {
            assert(after[i] == keys[a]);
        } else {
            assert(after[i] == keys[a] && after[j] == keys[b]);
        }
    }
    assert forall|k: K::V| #[trigger] after.contains(k) <==> (k == key || keys.contains(k)) by {
        if k == key {
            assert(after[place] == k);
        }
        if keys.contains(k) {
            let i = keys.index_of(k);
            assert(after[if i < place { i } else { i + 1 }] == k);
        }
        if after.contains(k) && k != key {
            let i = after.index_of(k);
            assert(keys[if i < place { i } else { i - 1 }] == k);
        }
    }
}

/// Every finite set has its members in one ascending sequence.
pub proof fn lemma_in_order<K: Key>(members: Set<K::V>)
    requires
        members.finite(),
    ensures
        ascending::<K>(in_order::<K>(members)),
        forall|k: K::V| #[trigger] in_order::<K>(members).contains(k) <==> members.contains(k),
    decreases members.len(),
{
    if members.len() == 0 {
        let none = Seq::<K::V>::empty();
        assert(members =~= Set::empty());
        assert forall|k: K::V| #[trigger] none.contains(k) <==> members.contains(k) by {}
        lemma_in_order_is::<K>(members, none);
    } else {
        let key = members.choose();
        let rest = members.remove(key);
        lemma_in_order::<K>(rest);
        let keys = in_order::<K>(rest);
        let place = lemma_place::<K>(keys, key, keys.len() as int);
        assert forall|i: int| place <= i < keys.len() implies K::precedes(
            key,
            #[trigger] keys[i],
        ) by {
            assert(keys.contains(keys[i]));
            K::total(keys[i], key);
        }
        lemma_insert_place::<K>(keys, place, key);
        lemma_in_order_is::<K>(members, keys.insert(place, key));
    }
}

/// The number of leading keys that come before a given one.
proof fn lemma_place<K: Key>(keys: Seq<K::V>, key: K::V, upto: int) -> (place: int)
    requires
        ascending::<K>(keys),
        0 <= upto <= keys.len(),
        forall|i: int| upto <= i < keys.len() ==> !K::precedes(#[trigger] keys[i], key),
    ensures
        0 <= place <= keys.len(),
        forall|i: int| 0 <= i < place ==> K::precedes(#[trigger] keys[i], key),
        forall|i: int| place <= i < keys.len() ==> !K::precedes(#[trigger] keys[i], key),
    decreases upto,
{
    if upto == 0 {
        0
    } else if K::precedes(keys[upto - 1], key) {
        assert forall|i: int| 0 <= i < upto implies K::precedes(#[trigger] keys[i], key) by {
            if i < upto - 1 {
                K::transitive(keys[i], keys[upto - 1], key);
            }
        }
        upto
    } else {
        lemma_place::<K>(keys, key, upto - 1)
    }
}

/// A map that keeps its entries in ascending order of their keys.
#[derive(Debug, PartialEq, Eq)]
pub struct OrderedMap<K: Key, T: Value> {
    entries: Vec<(K, T)>,
}

impl<K: Key, T: Value> Clone for OrderedMap<K, T> {
    fn clone(&self) -> (r: Self)
        ensures
            r.deep_view() == self.deep_view(),
    {
        self.duplicate()
    }
}

impl<K: Key, T: Value> OrderedMap<K, T> {
    spec fn keys(self) -> Seq<K::V> {
        Seq::new(self.entries@.len(), |i: int| self.entries@[i].0.deep_view())
    }

    #[verifier::type_invariant]
    spec fn well_formed(self) -> bool {
        ascending::<K>(self.keys())
    }
}

spec fn entry_keys<K: Key, T: Value>(entries: Seq<(K, T)>) -> Seq<K::V> {
    Seq::new(entries.len(), |i: int| entries[i].0.deep_view())
}

spec fn entry_map<K: Key, T: Value>(entries: Seq<(K, T)>) -> Map<K::V, T::V> {
    let keys = entry_keys(entries);
    Map::new(
        |k: K::V| keys.contains(k),
        |k: K::V| entries[keys.index_of(k)].1.deep_view(),
    )
}

impl<K: Key, T: Value> DeepView for OrderedMap<K, T> {
    type V = Map<K::V, T::V>;

    closed spec fn deep_view(&self) -> Map<K::V, T::V> {
        entry_map(self.entries@)
    }
}

/// Looking up the key at an index of ascending entries finds that entry.
proof fn lemma_entry_at<K: Key, T: Value>(entries: Seq<(K, T)>, i: int)
    requires
        ascending::<K>(entry_keys(entries)),
        0 <= i < entries.len(),
    ensures
        entry_map(entries).dom().contains(entries[i].0.deep_view()),
        entry_map(entries)[entries[i].0.deep_view()] == entries[i].1.deep_view(),
        in_order::<K>(entry_map(entries).dom()) == entry_keys(entries),
{
    let keys = entry_keys(entries);
    assert(keys[i] == entries[i].0.deep_view());
    assert(keys.contains(keys[i]));
    let j = keys.index_of(keys[i]);
    if i < j {
        assert(K::precedes(keys[i], keys[j]));
        K::irreflexive(keys[i]);
    } else if j < i {
        assert(K::precedes(keys[j], keys[i]));
        K::irreflexive(keys[i]);
    }
    lemma_entries_in_order(entries);
}

proof fn lemma_entries_in_order<K: Key, T: Value>(entries: Seq<(K, T)>)
    requires
        ascending::<K>(entry_keys(entries)),
    ensures
        in_order::<K>(entry_map(entries).dom()) == entry_keys(entries),
{
    lemma_in_order_is::<K>(entry_map(entries).dom(), entry_keys(entries));
}

proof fn lemma_entries_finite<K: Key, T: Value>(entries: Seq<(K, T)>)
    ensures
        entry_map(entries).dom().finite(),
{
    assert(entry_map(entries).dom() =~= entry_keys(entries).to_set());
    vstd::seq_lib::seq_to_set_is_finite(entry_keys(entries));
}

impl<K: Key, T: Value> OrderedMap<K, T> {
    /// The empty map.
    pub fn new() -> (r: Self)
        ensures
            r.deep_view() == Map::<K::V, T::V>::empty(),
    {
        let r = OrderedMap { entries: Vec::new() };
        assert(entry_map(r.entries@) =~= Map::<K::V, T::V>::empty());
        r
    }

    /// The number of entries.
    pub fn len(&self) -> (r: usize)
        ensures
            r == in_order::<K>(self.deep_view().dom()).len(),
            self.deep_view().dom().finite(),
            ascending::<K>(in_order::<K>(self.deep_view().dom())),
            forall|k: K::V| #[trigger]
                in_order::<K>(self.deep_view().dom()).contains(k)
                    <==> self.deep_view().dom().contains(k),
    {
        proof {
            use_type_invariant(self);
            lemma_entries_in_order(self.entries@);
            lemma_entries_finite(self.entries@);
            assert(self.keys() =~= entry_keys(self.entries@));
        }
        self.entries.len()
    }

    /// Whether the map has no entries.
    pub fn is_empty(&self) -> (r: bool)
        ensures
            r == (self.deep_view() == Map::<K::V, T::V>::empty()),
    {
        proof {
            if self.entries@.len() == 0 {
                assert(self.deep_view() =~= Map::<K::V, T::V>::empty());
            } else {
                let k = self.entries@[0].0.deep_view();
                assert(entry_keys(self.entries@)[0] == k);
                assert(self.deep_view().dom().contains(k));
            }
        }
        self.entries.len() == 0
    }

    /// The key at a position of the ascending order.
    pub fn key_at(&self, i: usize) -> (r: &K)
        requires
            i < in_order::<K>(self.deep_view().dom()).len(),
        ensures
            r.deep_view() == in_order::<K>(self.deep_view().dom())[i as int],
            self.deep_view().dom().contains(r.deep_view()),
    {
        proof {
            use_type_invariant(self);
            lemma_entries_in_order(self.entries@);
            assert(self.keys() =~= entry_keys(self.entries@));
            lemma_entry_at(self.entries@, i as int);
        }
        &self.entries[i].0
    }

    /// The value at a position of the ascending order of the keys.
    pub fn value_at(&self, i: usize) -> (r: &T)
        requires
            i < in_order::<K>(self.deep_view().dom()).len(),
        ensures
            r.deep_view() == self.deep_view()[in_order::<K>(self.deep_view().dom())[i as int]],
            r.deep_view() == values_in_order::<K, T::V>(self.deep_view())[i as int],
    {
        proof {
            use_type_invariant(self);
            lemma_entries_in_order(self.entries@);
            assert(self.keys() =~= entry_keys(self.entries@));
            lemma_entry_at(self.entries@, i as int);
        }
        &self.entries[i].1
    }

    /// The values in ascending order of their keys.
    pub fn values(&self) -> (r: Vec<T>)
        ensures
            r.deep_view() == values_in_order::<K, T::V>(self.deep_view()),
    {
        let ghost wanted = values_in_order::<K, T::V>(self.deep_view());
        let n: usize = self.len();
        let mut r: Vec<T> = Vec::new();
        let mut i: usize = 0;
        while i < n
            invariant
                i <= n,
                n == in_order::<K>(self.deep_view().dom()).len(),
                wanted == values_in_order::<K, T::V>(self.deep_view()),
                r.deep_view() == wanted.take(i as int),
            decreases n - i,
        {
            let ghost before = r.deep_view();
            let value = self.value_at(i).duplicate();
            r.push(value);
            assert(r.deep_view() =~= before.push(value.deep_view()));
            assert(wanted.take(i + 1) =~= wanted.take(i as int).push(wanted[i as int]));
            i += 1;
        }
        assert(wanted.take(i as int) =~= wanted);
        r
    }

    /// The number of keys that come before the given one.
    fn place(&self, key: &K) -> (r: usize)
        ensures
            r <= self.entries@.len(),
            forall|i: int|
                0 <= i < r ==> K::precedes(#[trigger] entry_keys(self.entries@)[i], key.deep_view()),
            forall|i: int|
                r <= i < self.entries@.len() ==> !K::precedes(
                    #[trigger] entry_keys(self.entries@)[i],
                    key.deep_view(),
                ),
    {
        proof {
            use_type_invariant(self);
            assert(self.keys() =~= entry_keys(self.entries@));
        }
        let ghost keys = entry_keys(self.entries@);
        let mut low: usize = 0;
        let mut high: usize = self.entries.len();
        while low < high
            invariant
                low <= high <= self.entries@.len(),
                keys == entry_keys(self.entries@),
                ascending::<K>(keys),
                forall|i: int| 0 <= i < low ==> K::precedes(#[trigger] keys[i], key.deep_view()),
                forall|i: int|
                    high <= i < keys.len() ==> !K::precedes(#[trigger] keys[i], key.deep_view()),
            decreases high - low,
        {
            let middle: usize = low + (high - low) / 2;
            let order = self.entries[middle].0.order(key);
            assert(keys[middle as int] == self.entries@[middle as int].0.deep_view());
            match order {
                Order::Before => {
                    proof {
                        assert forall|i: int| 0 <= i < middle + 1 implies K::precedes(
                            #[trigger] keys[i],
                            key.deep_view(),
                        ) by {
                            if i < middle {
                                K::transitive(keys[i], keys[middle as int], key.deep_view());
                            }
                        }
                    }
                    low = middle + 1;
                },
                _ => {
                    proof {
                        assert forall|i: int| middle <= i < keys.len() implies !K::precedes(
                            #[trigger] keys[i],
                            key.deep_view(),
                        ) by {
                            if K::precedes(keys[i], key.deep_view()) {
                                if middle < i {
                                    K::transitive(keys[middle as int], keys[i], key.deep_view());
                                }
                                if order is After {
                                    K::transitive(
                                        keys[middle as int],
                                        key.deep_view(),
                                        keys[middle as int],
                                    );
                                }
                                K::irreflexive(keys[middle as int]);
                            }
                        }
                    }
                    high = middle;
                },
            }
        }
        low
    }

    /// The value of a key.
    pub fn get(&self, key: &K) -> (r: Option<&T>)
        ensures
            match r {
                Some(value) => self.deep_view().dom().contains(key.deep_view())
                    && value.deep_view() == self.deep_view()[key.deep_view()],
                None => !self.deep_view().dom().contains(key.deep_view()),
            },
    {
        let place = self.place(key);
        proof {
            use_type_invariant(self);
            assert(self.keys() =~= entry_keys(self.entries@));
        }
        if place < self.entries.len() && self.entries[place].0.same(key) {
            proof {
                lemma_entry_at(self.entries@, place as int);
            }
            Some(&self.entries[place].1)
        } else {
            proof {
                lemma_absent(self.entries@, place as int, key.deep_view());
            }
            None
        }
    }

    /// Whether a key has a value.
    pub fn contains_key(&self, key: &K) -> (r: bool)
        ensures
            r == self.deep_view().dom().contains(key.deep_view()),
    {
        self.get(key).is_some()
    }

    /// Gives a key a value.
    pub fn insert(&mut self, key: K, value: T)
        ensures
            final(self).deep_view() == old(self).deep_view().insert(
                key.deep_view(),
                value.deep_view(),
            ),
    {
        let place = self.place(&key);
        proof {
            use_type_invariant(&*self);
            assert(self.keys() =~= entry_keys(self.entries@));
        }
        let mut entries: Vec<(K, T)> = Vec::new();
        assert(OrderedMap::<K, T> { entries }.keys() =~= Seq::<K::V>::empty());
        std::mem::swap(&mut entries, &mut self.entries);
        let ghost before = entries@;
        let ghost keys = entry_keys(before);
        let ghost k = key.deep_view();
        let ghost v = value.deep_view();
        if place < entries.len() && entries[place].0.same(&key) {
            entries[place] = (key, value);
            proof {
                assert(entry_keys(entries@) =~= keys);
                assert(keys[place as int] == k);
                lemma_entry_at(before, place as int);
                assert(keys.contains(k));
                assert forall|j: K::V| #[trigger] keys.contains(j) implies entry_map(
                    entries@,
                )[j] == entry_map(before).insert(k, v)[j] by {
                    let i = keys.index_of(j);
                    if i == place {
                        lemma_entry_at(entries@, place as int);
                    } else if j == k {
                        lemma_entry_at(before, place as int);
                        lemma_entry_at(before, i);
                        assert(false) by {
                            if i < place {
                                assert(K::precedes(keys[i], keys[place as int]));
                            } else {
                                assert(K::precedes(keys[place as int], keys[i]));
                            }
                            K::irreflexive(k);
                        }
                    }
                }
                assert(entry_map(entries@) =~= entry_map(before).insert(k, v));
            }
        } else {
            proof {
                lemma_absent(before, place as int, k);
                assert forall|i: int| place <= i < keys.len() implies K::precedes(
                    k,
                    #[trigger] keys[i],
                ) by {
                    K::total(keys[i], k);
                    assert(keys.contains(keys[i]));
                }
                lemma_insert_place::<K>(keys, place as int, k);
            }
            entries.insert(place, (key, value));
            proof {
                assert(entry_keys(entries@) =~= keys.insert(place as int, k));
                assert forall|j: K::V| #[trigger] entry_keys(entries@).contains(j) implies entry_map(
                    entries@,
                )[j] == entry_map(before).insert(k, v)[j] by {
                    if j == k {
                        lemma_entry_at(entries@, place as int);
                    } else {
                        let i = keys.index_of(j);
                        assert(keys.contains(j));
                        lemma_entry_at(before, i);
                        let n = if i < place { i } else { i + 1 };
                        assert(entries@[n] == before[i]);
                        lemma_entry_at(entries@, n);
                    }
                }
                assert(entry_map(entries@) =~= entry_map(before).insert(k, v));
            }
        }
        assert(OrderedMap::<K, T> { entries }.keys() =~= entry_keys(entries@));
        self.entries = entries;
    }

    /// Takes a key and its value out of the map.
    pub fn remove(&mut self, key: &K)
        ensures
            final(self).deep_view() == old(self).deep_view().remove(key.deep_view()),
    {
        let place = self.place(key);
        proof {
            use_type_invariant(&*self);
            assert(self.keys() =~= entry_keys(self.entries@));
        }
        let mut entries: Vec<(K, T)> = Vec::new();
        assert(OrderedMap::<K, T> { entries }.keys() =~= Seq::<K::V>::empty());
        std::mem::swap(&mut entries, &mut self.entries);
        let ghost before = entries@;
        let ghost keys = entry_keys(before);
        let ghost k = key.deep_view();
        if place < entries.len() && entries[place].0.same(key) {
            entries.remove(place);
            proof {
                assert(keys[place as int] == k);
                assert(entry_keys(entries@) =~= keys.remove(place as int));
                let after = entry_keys(entries@);
                assert forall|i: int, j: int| 0 <= i < j < after.len() implies K::precedes(
                    #[trigger] after[i],
                    #[trigger] after[j],
                ) by {
                    let a = if i < place { i } else { i + 1 };
                    let b = if j < place { j } else { j + 1 };
                    assert(after[i] == keys[a] && after[j] == keys[b]);
                }
                assert forall|j: K::V| #[trigger] after.contains(j) <==> (keys.contains(j) && j
                    != k) by {
                    if after.contains(j) {
                        let i = after.index_of(j);
                        let a = if i < place { i } else { i + 1 };
                        assert(keys[a] == j);
                        if a < place {
                            assert(K::precedes(keys[a], keys[place as int]));
                        } else {
                            assert(K::precedes(keys[place as int], keys[a]));
                        }
                        K::irreflexive(k);
                    }
                    if keys.contains(j) && j != k {
                        let a = keys.index_of(j);
                        assert(after[if a < place { a } else { a - 1 }] == j);
                    }
                }
                assert forall|j: K::V| #[trigger] after.contains(j) implies entry_map(
                    entries@,
                )[j] == entry_map(before)[j] by {
                    let i = after.index_of(j);
                    lemma_entry_at(entries@, i);
                    let a = if i < place { i } else { i + 1 };
                    lemma_entry_at(before, a);
                }
                assert(entry_map(entries@) =~= entry_map(before).remove(k));
            }
        } else {
            proof {
                lemma_absent(before, place as int, k);
                assert(entry_map(before).remove(k) =~= entry_map(before));
            }
        }
        assert(OrderedMap::<K, T> { entries }.keys() =~= entry_keys(entries@));
        self.entries = entries;
    }
}

/// A key that is not at its place is not in the map.
proof fn lemma_absent<K: Key, T: Value>(entries: Seq<(K, T)>, place: int, key: K::V)
    requires
        ascending::<K>(entry_keys(entries)),
        0 <= place <= entries.len(),
        forall|i: int| 0 <= i < place ==> K::precedes(#[trigger] entry_keys(entries)[i], key),
        forall|i: int|
            place <= i < entries.len() ==> !K::precedes(#[trigger] entry_keys(entries)[i], key),
        place < entries.len() ==> entries[place].0.deep_view() != key,
    ensures
        !entry_keys(entries).contains(key),
{
    let keys = entry_keys(entries);
    if keys.contains(key) {
        let i = keys.index_of(key);
        K::irreflexive(key);
        if i > place {
            assert(K::precedes(keys[place], keys[i]));
        }
    }
}

impl<K: Key, T: Value> Value for OrderedMap<K, T> {
    fn duplicate(&self) -> (r: Self) {
        proof {
            use_type_invariant(self);
            assert(self.keys() =~= entry_keys(self.entries@));
        }
        let entries = self.entries.duplicate();
        proof {
            assert(entries.deep_view().len() == self.entries.deep_view().len());
            assert forall|i: int| 0 <= i < entries@.len() implies (#[trigger] entries@[i]).0.deep_view()
                == self.entries@[i].0.deep_view() && entries@[i].1.deep_view()
                == self.entries@[i].1.deep_view() by {
                assert(entries.deep_view()[i] == self.entries.deep_view()[i]);
            }
            assert(entry_keys(entries@) =~= entry_keys(self.entries@));
            lemma_same_entries(entries@, self.entries@);
        }
        assert(OrderedMap::<K, T> { entries }.keys() =~= entry_keys(entries@));
        OrderedMap { entries }
    }

    fn same(&self, other: &Self) -> (r: bool) {
        proof {
            use_type_invariant(self);
            use_type_invariant(other);
            assert(self.keys() =~= entry_keys(self.entries@));
            assert(other.keys() =~= entry_keys(other.entries@));
        }
        let r = self.entries.same(&other.entries);
        proof {
            let a = self.entries@;
            let b = other.entries@;
            if r {
                assert(self.entries.deep_view().len() == other.entries.deep_view().len());
                assert forall|i: int| 0 <= i < a.len() implies (#[trigger] a[i]).0.deep_view()
                    == b[i].0.deep_view() && a[i].1.deep_view() == b[i].1.deep_view() by {
                    assert(self.entries.deep_view()[i] == other.entries.deep_view()[i]);
                }
                assert(entry_keys(a) =~= entry_keys(b));
                lemma_same_entries(a, b);
            } else if self.deep_view() == other.deep_view() {
                lemma_entries_in_order(a);
                lemma_entries_in_order(b);
                assert(entry_keys(a) == entry_keys(b));
                assert(entry_keys(a).len() == a.len() && entry_keys(b).len() == b.len());
                assert forall|i: int| 0 <= i < a.len() implies #[trigger] self.entries.deep_view()[i]
                    == other.entries.deep_view()[i] by {
                    lemma_entry_at(a, i);
                    lemma_entry_at(b, i);
                    assert(entry_keys(a)[i] == entry_keys(b)[i]);
                }
                assert(self.entries.deep_view() =~= other.entries.deep_view());
            }
        }
        r
    }
}

proof fn lemma_same_entries<K: Key, T: Value>(a: Seq<(K, T)>, b: Seq<(K, T)>)
    requires
        a.len() == b.len(),
        entry_keys(a) == entry_keys(b),
        ascending::<K>(entry_keys(a)),
        forall|i: int| 0 <= i < a.len() ==> (#[trigger] a[i]).1.deep_view() == b[i].1.deep_view(),
    ensures
        entry_map(a) == entry_map(b),
{
    assert(entry_map(a) =~= entry_map(b));
}

impl<K: Key, T: Value> OrderedMap<K, T> {
    /// Gives every key of another map the value that it has there.
    pub fn extend(&mut self, other: &OrderedMap<K, T>)
        ensures
            final(self).deep_view() == old(self).deep_view().union_prefer_right(other.deep_view()),
    {
        let ghost start = self.deep_view();
        let ghost added = other.deep_view();
        let ghost keys = in_order::<K>(added.dom());
        let n: usize = other.len();
        let mut i: usize = 0;
        while i < n
            invariant
                i <= n,
                n == keys.len(),
                added == other.deep_view(),
                keys == in_order::<K>(added.dom()),
                forall|k: K::V| #[trigger]
                    self.deep_view().dom().contains(k) <==> (start.dom().contains(k) || keys.take(
                        i as int,
                    ).contains(k)),
                forall|k: K::V| #[trigger]
                    self.deep_view().dom().contains(k) ==> self.deep_view()[k] == if keys.take(
                        i as int,
                    ).contains(k) {
                        added[k]
                    } else {
                        start[k]
                    },
            decreases n - i,
        {
            let ghost before = self.deep_view();
            let ghost part = keys.take(i as int);
            let ghost next = keys.take(i + 1);
            self.insert(other.key_at(i).duplicate(), other.value_at(i).duplicate());
            proof {
                assert(next =~= part.push(keys[i as int]));
                assert forall|k: K::V| #[trigger] next.contains(k) <==> (part.contains(k) || k
                    == keys[i as int]) by {
                    if part.contains(k) {
                        let j = choose|j: int| 0 <= j < part.len() && part[j] == k;
                        assert(next[j] == k);
                    }
                    if k == keys[i as int] {
                        assert(next[i as int] == k);
                    }
                    if next.contains(k) {
                        let j = choose|j: int| 0 <= j < next.len() && next[j] == k;
                        if j < i {
                            assert(part[j] == k);
                        }
                    }
                }
                assert forall|k: K::V| #[trigger]
                    self.deep_view().dom().contains(k) <==> (start.dom().contains(k)
                        || next.contains(k)) by {
                    assert(before.dom().contains(k) <==> (start.dom().contains(k) || part.contains(k)));
                }
                assert forall|k: K::V| #[trigger]
                    self.deep_view().dom().contains(k) implies self.deep_view()[k] == if next.contains(
                    k,
                ) {
                    added[k]
                } else {
                    start[k]
                } by {
                    if k != keys[i as int] {
                        assert(before.dom().contains(k));
                    }
                }
            }
            i += 1;
        }
        proof {
            assert(keys.take(i as int) =~= keys);
            assert forall|k: K::V| #[trigger] self.deep_view().dom().contains(k) <==> (
            start.dom().contains(k) || added.dom().contains(k)) by {
                assert(keys.contains(k) <==> added.dom().contains(k));
            }
            assert(self.deep_view() =~= start.union_prefer_right(added));
        }
    }
}

impl<T: Value> OrderedMap<String, T> {
    /// The value of a text key.
    pub fn get_text(&self, key: &str) -> (r: Option<&T>)
        ensures
            match r {
                Some(value) => self.deep_view().dom().contains(key@) && value.deep_view()
                    == self.deep_view()[key@],
                None => !self.deep_view().dom().contains(key@),
            },
    {
        let owned = key.to_owned();
        self.get(&owned)
    }
}

} // verus!
