use vstd::prelude::*;

verus! {

#[verifier::external_type_specification]
#[verifier::external_body]
pub struct ExJsonValue(serde_json::Value);

/// Name of a structured field.
#[derive(Clone, Debug, Hash, PartialEq, Eq, PartialOrd, Ord)]
pub struct Key {
    name: String,
}

impl View for Key {
    type V = Seq<char>;

    closed spec fn view(&self) -> Seq<char> {
        self.name@
    }
}

impl Key {
    pub fn new(s: &'static str) -> (r: Key)
        ensures
            r@ == s@,
    {
        Key { name: s.to_owned() }
    }

    pub fn new_owned(s: String) -> (r: Key)
        ensures
            r@ == s@,
    {
        Key { name: s }
    }

    pub fn as_str(&self) -> (r: &Key)
        ensures
            r == self,
    {
        self
    }

    pub fn deref(&self) -> (r: &str)
        ensures
            r@ == self@,
    {
        self.name.as_str()
    }

    /// Whether this key's name comes before the other's.
    pub fn precedes(&self, other: &Key) -> (r: bool)
        ensures
            r == key_lt(self@, other@),
    {
        let a = crate::text::chars_of(self.name.as_str());
        let b = crate::text::chars_of(other.name.as_str());
        let ghost sa = self@;
        let ghost sb = other@;
        let mut i: usize = 0;
        assert(sa.subrange(0, sa.len() as int) =~= sa);
        assert(sb.subrange(0, sb.len() as int) =~= sb);
        while i < a.len() && i < b.len()
            invariant
                a@ == sa,
                b@ == sb,
                sa == self@,
                sb == other@,
                i <= a.len(),
                i <= b.len(),
                key_lt(sa, sb) == key_lt(
                    sa.subrange(i as int, sa.len() as int),
                    sb.subrange(i as int, sb.len() as int),
                ),
            decreases a.len() - i,
        {
            let ghost ta = sa.subrange(i as int, sa.len() as int);
            let ghost tb = sb.subrange(i as int, sb.len() as int);
            assert(ta[0] == a[i as int] && tb[0] == b[i as int]);
            if a[i] < b[i] {
                return true;
            }
            if a[i] != b[i] {
                return false;
            }
            assert(ta.drop_first() =~= sa.subrange(i + 1, sa.len() as int));
            assert(tb.drop_first() =~= sb.subrange(i + 1, sb.len() as int));
            i = i + 1;
        }
        i < b.len()
    }

    /// Whether two keys have the same name.
    pub fn same_name(&self, other: &Key) -> (r: bool)
        ensures
            r == (self@ == other@),
    {
        self.name == other.name
    }
}

/// Lexicographic order of key names by character code, the order of `Key`'s
/// `Ord`.
pub open spec fn key_lt(a: Seq<char>, b: Seq<char>) -> bool
    decreases a.len(),
{
    if a.len() == 0 {
        b.len() > 0
    } else if b.len() == 0 {
        false
    } else if a[0] < b[0] {
        true
    } else if a[0] == b[0] {
        key_lt(a.drop_first(), b.drop_first())
    } else {
        false
    }
}

pub proof fn lemma_key_lt_irreflexive(a: Seq<char>)
    ensures
        !key_lt(a, a),
    decreases a.len(),
{
    if a.len() > 0 {
        lemma_key_lt_irreflexive(a.drop_first());
    }
}

pub proof fn lemma_key_lt_asymmetric(a: Seq<char>, b: Seq<char>)
    ensures
        !(key_lt(a, b) && key_lt(b, a)),
    decreases a.len(),
{
    if a.len() > 0 && b.len() > 0 && a[0] == b[0] {
        lemma_key_lt_asymmetric(a.drop_first(), b.drop_first());
    }
}

pub proof fn lemma_key_lt_transitive(a: Seq<char>, b: Seq<char>, c: Seq<char>)
    requires
        key_lt(a, b),
        key_lt(b, c),
    ensures
        key_lt(a, c),
    decreases a.len(),
{
    if a.len() > 0 && b.len() > 0 && c.len() > 0 && a[0] == b[0] && b[0] == c[0] {
        lemma_key_lt_transitive(a.drop_first(), b.drop_first(), c.drop_first());
    }
}

pub proof fn lemma_key_lt_total(a: Seq<char>, b: Seq<char>)
    ensures
        a == b || key_lt(a, b) || key_lt(b, a),
    decreases a.len(),
{
    if a.len() == 0 {
        if b.len() == 0 {
            assert(a =~= b);
        }
    } else if b.len() > 0 && a[0] == b[0] {
        lemma_key_lt_total(a.drop_first(), b.drop_first());
        if a.drop_first() == b.drop_first() {
            assert(a.drop_first().len() == b.drop_first().len());
            assert forall|i: int| 0 <= i < a.len() implies a[i] == b[i] by {
                if i > 0 {
                    assert(a[i] == a.drop_first()[i - 1]);
                    assert(b[i] == b.drop_first()[i - 1]);
                }
            }
            assert(a =~= b);
        }
    }
}

/// A field as plain values: its key's name and its normalised value.
pub type FieldView = (Seq<char>, serde_json::Value);

pub open spec fn field_views(es: Seq<(Key, serde_json::Value)>) -> Seq<FieldView> {
    es.map_values(|e: (Key, serde_json::Value)| (e.0@, e.1))
}

/// Index of the last field named `k`.
pub open spec fn find_key(es: Seq<FieldView>, k: Seq<char>) -> Option<int>
    decreases es.len(),
{
    if es.len() == 0 {
        None
    } else if es.last().0 == k {
        Some(es.len() - 1)
    } else {
        find_key(es.drop_last(), k)
    }
}

/// The value stored under `k`.
pub open spec fn lookup(es: Seq<FieldView>, k: Seq<char>) -> Option<serde_json::Value> {
    match find_key(es, k) {
        Some(i) => Some(es[i].1),
        None => None,
    }
}

/// Fields whose keys strictly increase: sorted, and no key twice.
pub open spec fn sorted_keys(es: Seq<FieldView>) -> bool {
    forall|i: int, j: int| 0 <= i < j < es.len() ==> key_lt(#[trigger] es[i].0, #[trigger] es[j].0)
}

/// Number of fields whose key comes before `k`.
pub open spec fn count_less(es: Seq<FieldView>, k: Seq<char>) -> nat
    decreases es.len(),
{
    if es.len() == 0 {
        0
    } else {
        count_less(es.drop_last(), k) + if key_lt(es.last().0, k) {
            1nat
        } else {
            0nat
        }
    }
}

/// Stores `v` under `k`: an existing field takes the new value; a new key
/// goes to its place in key order.
pub open spec fn insert_field(es: Seq<FieldView>, k: Seq<char>, v: serde_json::Value) -> Seq<
    FieldView,
> {
    match find_key(es, k) {
        Some(i) => es.update(i, (k, v)),
        None => es.insert(count_less(es, k) as int, (k, v)),
    }
}

/// The fields that storing each pair in turn yields.
pub open spec fn fold_fields(ps: Seq<FieldView>) -> Seq<FieldView>
    decreases ps.len(),
{
    if ps.len() == 0 {
        Seq::empty()
    } else {
        insert_field(fold_fields(ps.drop_last()), ps.last().0, ps.last().1)
    }
}

/// The value of the last pair named `k`.
pub open spec fn last_value(ps: Seq<FieldView>, k: Seq<char>) -> Option<serde_json::Value>
    decreases ps.len(),
{
    if ps.len() == 0 {
        None
    } else if ps.last().0 == k {
        Some(ps.last().1)
    } else {
        last_value(ps.drop_last(), k)
    }
}

pub proof fn lemma_find_key_bounds(es: Seq<FieldView>, k: Seq<char>)
    ensures
        find_key(es, k) matches Some(i) ==> 0 <= i < es.len() && es[i].0 == k && forall|j: int|
            i < j < es.len() ==> (#[trigger] es[j]).0 != k,
        find_key(es, k) is None ==> forall|j: int| 0 <= j < es.len() ==> (#[trigger] es[j]).0 != k,
    decreases es.len(),
{
    if es.len() > 0 {
        if es.last().0 != k {
            let rest = es.drop_last();
            lemma_find_key_bounds(rest, k);
            assert forall|j: int| 0 <= j < es.len() - 1 implies #[trigger] rest[j] == es[j] by {}
            match find_key(rest, k) {
                Some(i) => {
                    assert forall|j: int| i < j < es.len() implies (#[trigger] es[j]).0 != k by {
                        if j < es.len() - 1 {
                            assert(rest[j] == es[j]);
                        }
                    }
                },
                None => {
                    assert forall|j: int| 0 <= j < es.len() implies (#[trigger] es[j]).0 != k by {
                        if j < es.len() - 1 {
                            assert(rest[j] == es[j]);
                        }
                    }
                },
            }
        }
    }
}

pub proof fn lemma_find_key_at(es: Seq<FieldView>, q: Seq<char>, i: int)
    requires
        0 <= i < es.len(),
        es[i].0 == q,
        forall|j: int| i < j < es.len() ==> (#[trigger] es[j]).0 != q,
    ensures
        find_key(es, q) == Some(i),
    decreases es.len(),
{
    if i < es.len() - 1 {
        assert(es[es.len() - 1].0 != q);
        let rest = es.drop_last();
        assert forall|j: int| i < j < rest.len() implies (#[trigger] rest[j]).0 != q by {
            assert(rest[j] == es[j]);
        }
        lemma_find_key_at(rest, q, i);
    }
}

pub proof fn lemma_find_key_absent(es: Seq<FieldView>, q: Seq<char>)
    requires
        forall|j: int| 0 <= j < es.len() ==> (#[trigger] es[j]).0 != q,
    ensures
        find_key(es, q) is None,
    decreases es.len(),
{
    if es.len() > 0 {
        assert(es[es.len() - 1].0 != q);
        let rest = es.drop_last();
        assert forall|j: int| 0 <= j < rest.len() implies (#[trigger] rest[j]).0 != q by {
            assert(rest[j] == es[j]);
        }
        lemma_find_key_absent(rest, q);
    }
}

proof fn lemma_count_less_prefix(es: Seq<FieldView>, k: Seq<char>, p: int)
    requires
        0 <= p <= es.len(),
        forall|i: int| 0 <= i < p ==> key_lt((#[trigger] es[i]).0, k),
        forall|i: int| p <= i < es.len() ==> !key_lt((#[trigger] es[i]).0, k),
    ensures
        count_less(es, k) == p,
    decreases es.len(),
{
    if es.len() > 0 {
        let rest = es.drop_last();
        let n = es.len() - 1;
        assert forall|i: int| 0 <= i < rest.len() implies #[trigger] rest[i] == es[i] by {}
        if p == es.len() {
            assert(key_lt(es[n].0, k));
            assert forall|i: int| 0 <= i < p - 1 implies key_lt((#[trigger] rest[i]).0, k) by {
                assert(rest[i] == es[i]);
            }
            lemma_count_less_prefix(rest, k, p - 1);
        } else {
            assert(!key_lt(es[n].0, k));
            assert forall|i: int| 0 <= i < p implies key_lt((#[trigger] rest[i]).0, k) by {
                assert(rest[i] == es[i]);
            }
            assert forall|i: int| p <= i < rest.len() implies !key_lt((#[trigger] rest[i]).0, k) by {
                assert(rest[i] == es[i]);
            }
            lemma_count_less_prefix(rest, k, p);
        }
    }
}

/// In sorted fields, the fields before `k` come first, and `k` stands right
/// after them if it is there at all.
pub proof fn lemma_sorted_position(es: Seq<FieldView>, k: Seq<char>, p: int)
    requires
        sorted_keys(es),
        0 <= p <= es.len(),
        forall|i: int| 0 <= i < p ==> key_lt((#[trigger] es[i]).0, k),
        p == es.len() || !key_lt(es[p].0, k),
    ensures
        count_less(es, k) == p,
        p < es.len() && es[p].0 == k ==> find_key(es, k) == Some(p),
        !(p < es.len() && es[p].0 == k) ==> find_key(es, k) is None,
        !(p < es.len() && es[p].0 == k) ==> forall|i: int|
            p <= i < es.len() ==> key_lt(k, (#[trigger] es[i]).0),
{
    assert forall|i: int| p <= i < es.len() implies !key_lt((#[trigger] es[i]).0, k) by {
        if i > p && key_lt(es[i].0, k) {
            lemma_key_lt_transitive(es[p].0, es[i].0, k);
        }
    }
    lemma_count_less_prefix(es, k, p);
    if p < es.len() && es[p].0 == k {
        assert forall|j: int| p < j < es.len() implies (#[trigger] es[j]).0 != k by {
            assert(key_lt(es[p].0, es[j].0));
            lemma_key_lt_irreflexive(k);
        }
        lemma_find_key_at(es, k, p);
    } else {
        assert forall|i: int| p <= i < es.len() implies key_lt(k, (#[trigger] es[i]).0) by {
            lemma_key_lt_total(es[p].0, k);
            if i > p {
                lemma_key_lt_transitive(k, es[p].0, es[i].0);
            }
        }
        assert forall|j: int| 0 <= j < es.len() implies (#[trigger] es[j]).0 != k by {
            lemma_key_lt_irreflexive(k);
        }
        lemma_find_key_absent(es, k);
    }
}

proof fn lemma_count_less_is_position(es: Seq<FieldView>, k: Seq<char>)
    requires
        sorted_keys(es),
    ensures
        count_less(es, k) <= es.len(),
        forall|i: int| 0 <= i < count_less(es, k) ==> key_lt((#[trigger] es[i]).0, k),
        count_less(es, k) == es.len() || !key_lt(es[count_less(es, k) as int].0, k),
    decreases es.len(),
{
    if es.len() > 0 {
        let rest = es.drop_last();
        let n = es.len() - 1;
        assert(sorted_keys(rest)) by {
            assert forall|i: int, j: int| 0 <= i < j < rest.len() implies key_lt(
                #[trigger] rest[i].0,
                #[trigger] rest[j].0,
            ) by {
                assert(rest[i] == es[i] && rest[j] == es[j]);
            }
        }
        lemma_count_less_is_position(rest, k);
        let p = count_less(rest, k) as int;
        if key_lt(es[n].0, k) {
            if p < n {
                assert(rest[p] == es[p]);
                assert(key_lt(es[p].0, es[n].0));
                lemma_key_lt_transitive(es[p].0, es[n].0, k);
            }
            assert forall|i: int| 0 <= i < count_less(es, k) implies key_lt((#[trigger] es[i]).0, k) by {
                if i < n {
                    assert(rest[i] == es[i]);
                }
            }
        } else {
            assert forall|i: int| 0 <= i < count_less(es, k) implies key_lt((#[trigger] es[i]).0, k) by {
                assert(rest[i] == es[i]);
            }
            if p < n {
                assert(rest[p] == es[p]);
            }
        }
    }
}

/// Storing a field keeps the keys sorted.
pub proof fn lemma_insert_sorted(es: Seq<FieldView>, k: Seq<char>, v: serde_json::Value)
    requires
        sorted_keys(es),
    ensures
        sorted_keys(insert_field(es, k, v)),
{
    lemma_find_key_bounds(es, k);
    match find_key(es, k) {
        Some(i) => {
            let u = es.update(i, (k, v));
            assert forall|a: int, b: int| 0 <= a < b < u.len() implies key_lt(
                #[trigger] u[a].0,
                #[trigger] u[b].0,
            ) by {
                assert(u[a].0 == es[a].0 && u[b].0 == es[b].0);
            }
        },
        None => {
            let p = count_less(es, k) as int;
            lemma_count_less_is_position(es, k);
            lemma_sorted_position(es, k, p);
            let u = es.insert(p, (k, v));
            assert forall|a: int, b: int| 0 <= a < b < u.len() implies key_lt(
                #[trigger] u[a].0,
                #[trigger] u[b].0,
            ) by {
                if b < p {
                    assert(u[a] == es[a] && u[b] == es[b]);
                } else if b == p {
                    assert(u[a] == es[a]);
                } else if a < p {
                    assert(u[a] == es[a] && u[b] == es[b - 1]);
                } else if a == p {
                    assert(u[b] == es[b - 1]);
                } else {
                    assert(u[a] == es[a - 1] && u[b] == es[b - 1]);
                }
            }
        },
    }
}

proof fn lemma_find_after_update(es: Seq<FieldView>, i: int, k: Seq<char>, v: serde_json::Value, q: Seq<char>)
    requires
        find_key(es, k) == Some(i),
    ensures
        find_key(es.update(i, (k, v)), q) == find_key(es, q),
    decreases es.len(),
{
    lemma_find_key_bounds(es, k);
    let u = es.update(i, (k, v));
    if i < es.len() - 1 {
        assert(u.last() == es.last());
        assert(u.drop_last() =~= es.drop_last().update(i, (k, v)));
        if es.last().0 != q {
            lemma_find_after_update(es.drop_last(), i, k, v, q);
        }
    } else {
        assert(u.drop_last() =~= es.drop_last());
    }
}

/// Storing a pair makes it the value of its key and leaves other keys alone.
pub proof fn lemma_lookup_insert(es: Seq<FieldView>, k: Seq<char>, v: serde_json::Value, q: Seq<char>)
    requires
        sorted_keys(es),
    ensures
        lookup(insert_field(es, k, v), q) == if q == k {
            Some(v)
        } else {
            lookup(es, q)
        },
{
    lemma_find_key_bounds(es, k);
    match find_key(es, k) {
        Some(i) => {
            lemma_find_after_update(es, i, k, v, q);
            lemma_find_key_bounds(es, q);
        },
        None => {
            let p = count_less(es, k) as int;
            lemma_count_less_is_position(es, k);
            lemma_sorted_position(es, k, p);
            let u = es.insert(p, (k, v));
            if q == k {
                assert forall|j: int| p < j < u.len() implies (#[trigger] u[j]).0 != q by {
                    assert(u[j] == es[j - 1]);
                    lemma_key_lt_irreflexive(k);
                }
                lemma_find_key_at(u, q, p);
            } else {
                lemma_find_key_bounds(es, q);
                match find_key(es, q) {
                    Some(i) => {
                        let i2 = if i < p {
                            i
                        } else {
                            i + 1
                        };
                        assert(u[i2] == es[i]);
                        assert forall|j: int| i2 < j < u.len() implies (#[trigger] u[j]).0 != q by {
                            if j < p {
                                assert(u[j] == es[j]);
                            } else if j > p {
                                assert(u[j] == es[j - 1]);
                            }
                        }
                        lemma_find_key_at(u, q, i2);
                    },
                    None => {
                        assert forall|j: int| 0 <= j < u.len() implies (#[trigger] u[j]).0 != q by {
                            if j < p {
                                assert(u[j] == es[j]);
                            } else if j > p {
                                assert(u[j] == es[j - 1]);
                            }
                        }
                        lemma_find_key_absent(u, q);
                    },
                }
            }
        },
    }
}

/// Fields built from any list of pairs have sorted keys.
pub proof fn lemma_fold_sorted(ps: Seq<FieldView>)
    ensures
        sorted_keys(fold_fields(ps)),
    decreases ps.len(),
{
    if ps.len() > 0 {
        lemma_fold_sorted(ps.drop_last());
        lemma_insert_sorted(fold_fields(ps.drop_last()), ps.last().0, ps.last().1);
    }
}

/// Reading back the fields built from a list of pairs gives, for each key,
/// the value of the last pair with that key, and no other keys.
pub proof fn lemma_fields_round_trip(ps: Seq<FieldView>, q: Seq<char>)
    ensures
        lookup(fold_fields(ps), q) == last_value(ps, q),
        lookup(fold_fields(ps), q) is Some <==> exists|i: int|
            0 <= i < ps.len() && (#[trigger] ps[i]).0 == q,
    decreases ps.len(),
{
    if ps.len() > 0 {
        let rest = ps.drop_last();
        lemma_fields_round_trip(rest, q);
        lemma_fold_sorted(rest);
        lemma_lookup_insert(fold_fields(rest), ps.last().0, ps.last().1, q);
        if ps.last().0 != q {
            if exists|i: int| 0 <= i < ps.len() && (#[trigger] ps[i]).0 == q {
                let i = choose|i: int| 0 <= i < ps.len() && (#[trigger] ps[i]).0 == q;
                assert(rest[i] == ps[i]);
            }
            if exists|i: int| 0 <= i < rest.len() && (#[trigger] rest[i]).0 == q {
                let i = choose|i: int| 0 <= i < rest.len() && (#[trigger] rest[i]).0 == q;
                assert(rest[i] == ps[i]);
            }
        } else {
            assert(ps[ps.len() - 1].0 == q);
        }
    }
}

/// Structured fields of an event, in key order; a key stored twice keeps the
/// last value.
pub struct FieldMap {
    entries: Vec<(Key, serde_json::Value)>,
}

impl View for FieldMap {
    type V = Seq<FieldView>;

    closed spec fn view(&self) -> Seq<FieldView> {
        field_views(self.entries@)
    }
}

impl FieldMap {
    pub fn new() -> (r: FieldMap)
        ensures
            r@ == Seq::<FieldView>::empty(),
            r.wf(),
    {
        let r = FieldMap { entries: Vec::new() };
        assert(r@ =~= Seq::<FieldView>::empty());
        r
    }

    /// The keys are sorted and unique.
    pub open spec fn wf(&self) -> bool {
        sorted_keys(self@)
    }

    /// Stores `value` under `key`, replacing an earlier value of that key.
    pub fn insert(&mut self, key: Key, value: serde_json::Value)
        requires
            old(self).wf(),
        ensures
            final(self)@ == insert_field(old(self)@, key@, value),
            final(self).wf(),
    {
        let ghost es = self@;
        let n = self.entries.len();
        let mut p: usize = 0;
        while p < n && self.entries[p].0.precedes(&key)
            invariant
                n == self.entries.len(),
                es == self@,
                p <= n,
                forall|i: int| 0 <= i < p ==> key_lt((#[trigger] es[i]).0, key@),
            decreases n - p,
        {
            assert(es[p as int].0 == self.entries@[p as int].0@);
            p = p + 1;
        }
        proof {
            if p < n {
                assert(es[p as int].0 == self.entries@[p as int].0@);
            }
            lemma_sorted_position(es, key@, p as int);
            lemma_insert_sorted(es, key@, value);
        }
        let ghost kv = key@;
        if p < n && self.entries[p].0.same_name(&key) {
            let _ = self.entries.remove(p);
            self.entries.insert(p, (key, value));
            assert(self@ =~= es.update(p as int, (kv, value)));
        } else {
            self.entries.insert(p, (key, value));
            assert(self@ =~= es.insert(p as int, (kv, value)));
        }
    }

    /// Builds the fields of a list of pairs, stored in turn.
    pub fn from_pairs(pairs: Vec<(Key, serde_json::Value)>) -> (r: FieldMap)
        ensures
            r@ == fold_fields(field_views(pairs@)),
            r.wf(),
    {
        let ghost ps = field_views(pairs@);
        let n = pairs.len();
        let mut rest = pairs;
        let mut m = FieldMap::new();
        let mut i: usize = 0;
        assert(ps.subrange(0, 0) =~= Seq::<FieldView>::empty());
        assert(field_views(rest@) =~= ps.subrange(0, n as int));
        while i < n
            invariant
                n == ps.len(),
                i <= n,
                rest.len() == n - i,
                field_views(rest@) == ps.subrange(i as int, n as int),
                m@ == fold_fields(ps.subrange(0, i as int)),
                m.wf(),
            decreases n - i,
        {
            let ghost before = rest@;
            assert(field_views(before)[0] == ps[i as int]);
            let e = rest.remove(0);
            assert forall|j: int| 0 <= j < rest@.len() implies field_views(rest@)[j] == ps[i + 1
                + j] by {
                assert(rest@[j] == before[j + 1]);
                assert(field_views(before)[j + 1] == ps[i + 1 + j]);
            }
            assert(field_views(rest@) =~= ps.subrange(i + 1, n as int));
            assert(ps.subrange(0, i + 1).drop_last() =~= ps.subrange(0, i as int));
            m.insert(e.0, e.1);
            i = i + 1;
        }
        assert(ps.subrange(0, n as int) =~= ps);
        m
    }

    pub fn len(&self) -> (r: usize)
        ensures
            r == self@.len(),
    {
        self.entries.len()
    }

    pub fn is_empty(&self) -> (r: bool)
        ensures
            r == (self@.len() == 0),
    {
        self.entries.len() == 0
    }

    pub fn key_at(&self, i: usize) -> (r: &Key)
        requires
            i < self@.len(),
        ensures
            r@ == self@[i as int].0,
    {
        &self.entries[i].0
    }

    pub fn value_at(&self, i: usize) -> (r: &serde_json::Value)
        requires
            i < self@.len(),
        ensures
            *r == self@[i as int].1,
    {
        &self.entries[i].1
    }

    /// The value stored under `key`.
    pub fn get(&self, key: &str) -> (r: Option<&serde_json::Value>)
        ensures
            r is Some <==> lookup(self@, key@) is Some,
            r matches Some(v) ==> lookup(self@, key@) == Some(*v),
    {
        let ghost es = self@;
        let mut j = self.entries.len();
        assert(es.subrange(0, j as int) =~= es);
        while j > 0
            invariant
                j <= self.entries.len(),
                es == self@,
                find_key(es, key@) == find_key(es.subrange(0, j as int), key@),
            decreases j,
        {
            assert(es.subrange(0, j as int).drop_last() =~= es.subrange(0, j - 1));
            assert(es.subrange(0, j as int).last() == es[j - 1]);
            if crate::text::str_eq(self.entries[j - 1].0.deref(), key) {
                return Some(&self.entries[j - 1].1);
            }
            j = j - 1;
        }
        None
    }
}

} // verus!
