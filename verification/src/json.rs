//! JSON values as the configuration file holds them, and the merging of one
//! value into another.
use vstd::prelude::*;

verus! {

/// A JSON value. A number is kept as the text that denotes it; an object as
/// its entries, in order.
#[derive(Debug)]
pub enum JsonValue {
    Null,
    Bool(bool),
    Number(String),
    Str(String),
    Array(Vec<JsonValue>),
    Object(Vec<(String, JsonValue)>),
}

/// A JSON value as a mathematical value.
pub enum JsonView {
    Null,
    Bool(bool),
    Number(Seq<char>),
    Str(Seq<char>),
    Array(Seq<JsonView>),
    Object(Seq<(Seq<char>, JsonView)>),
}

impl JsonValue {
    /// The value of this JSON value.
    pub open spec fn json_view(&self) -> JsonView
        decreases self,
    {
        match self {
            JsonValue::Null => JsonView::Null,
            JsonValue::Bool(b) => JsonView::Bool(*b),
            JsonValue::Number(n) => JsonView::Number(n@),
            JsonValue::Str(s) => JsonView::Str(s@),
            JsonValue::Array(items) => JsonView::Array(
                Seq::new(
                    items@.len(),
                    |i: int|
                        if 0 <= i < items@.len() {
                            items@[i].json_view()
                        } else {
                            JsonView::Null
                        },
                ),
            ),
            JsonValue::Object(entries) => JsonView::Object(
                Seq::new(
                    entries@.len(),
                    |i: int|
                        if 0 <= i < entries@.len() {
                            (entries@[i].0@, entries@[i].1.json_view())
                        } else {
                            (Seq::empty(), JsonView::Null)
                        },
                ),
            ),
        }
    }
}

impl View for JsonValue {
    type V = JsonView;

    open spec fn view(&self) -> JsonView {
        self.json_view()
    }
}

impl JsonValue {
    /// A copy of this value.
    pub fn duplicate(&self) -> (r: JsonValue)
        ensures
            r@ == self@,
        decreases self,
    {
        match self {
            JsonValue::Null => JsonValue::Null,
            JsonValue::Bool(b) => JsonValue::Bool(*b),
            JsonValue::Number(n) => JsonValue::Number(n.clone()),
            JsonValue::Str(s) => JsonValue::Str(s.clone()),
            JsonValue::Array(items) => {
                let mut out: Vec<JsonValue> = Vec::new();
                let mut i: usize = 0;
                while i < items.len()
                    invariant
                        *self == JsonValue::Array(*items),
                        i <= items@.len(),
                        out@.len() == i,
                        forall|k: int| 0 <= k < i ==> (#[trigger] out@[k])@ == items@[k]@,
                    decreases items@.len() - i,
                {
                    proof {
                        assert(decreases_to!(*self => (*self)->Array_0));
                        assert(decreases_to!(*items => items@));
                        assert(decreases_to!(items@ => items@[i as int]));
                        assert(decreases_to!(*self => items@[i as int]));
                    }
                    let c = items[i].duplicate();
                    out.push(c);
                    i += 1;
                }
                let r = JsonValue::Array(out);
                proof {
                    if let (JsonView::Array(x), JsonView::Array(y)) = (r@, self@) {
                        assert(x =~= y);
                    }
                }
                r
            },
            JsonValue::Object(entries) => {
                let mut out: Vec<(String, JsonValue)> = Vec::new();
                let mut i: usize = 0;
                while i < entries.len()
                    invariant
                        *self == JsonValue::Object(*entries),
                        i <= entries@.len(),
                        out@.len() == i,
                        forall|k: int|
                            0 <= k < i ==> (#[trigger] out@[k]).0@ == entries@[k].0@ && out@[k].1@
                                == entries@[k].1@,
                    decreases entries@.len() - i,
                {
                    let key = entries[i].0.clone();
                    proof {
                        assert(decreases_to!(*self => (*self)->Object_0));
                        assert(decreases_to!(*entries => entries@));
                        assert(decreases_to!(entries@ => entries@[i as int]));
                        assert(decreases_to!(entries@[i as int] => entries@[i as int].1));
                        assert(decreases_to!(*self => entries@[i as int].1));
                    }
                    let value = entries[i].1.duplicate();
                    out.push((key, value));
                    i += 1;
                }
                let r = JsonValue::Object(out);
                proof {
                    if let (JsonView::Object(x), JsonView::Object(y)) = (r@, self@) {
                        assert(x =~= y);
                    }
                }
                r
            },
        }
    }
}

/// The values of the entries of an object.
pub open spec fn entries_view(entries: Seq<(String, JsonValue)>) -> Seq<(Seq<char>, JsonView)> {
    Seq::new(entries.len(), |i: int| (entries[i].0@, entries[i].1@))
}

/// Appends the entry `key`, `value` to the entries of an object.
pub fn push_entry(entries: &mut Vec<(String, JsonValue)>, key: String, value: JsonValue)
    ensures
        entries_view(final(entries)@) == entries_view(old(entries)@).push((key@, value@)),
{
    entries.push((key, value));
    assert(entries_view(entries@) =~= entries_view(old(entries)@).push((key@, value@)));
}

/// The object with these entries.
pub fn object(entries: Vec<(String, JsonValue)>) -> (j: JsonValue)
    ensures
        j@ == JsonView::Object(entries_view(entries@)),
{
    let j = JsonValue::Object(entries);
    proof {
        if let JsonView::Object(x) = j@ {
            assert(x =~= entries_view(entries@));
        }
    }
    j
}

/// The index of the first entry at or after `from` whose key is `k`.
pub open spec fn key_index(entries: Seq<(Seq<char>, JsonView)>, k: Seq<char>, from: nat) -> Option<nat>
    decreases entries.len() - from,
{
    if from >= entries.len() {
        None
    } else if entries[from as int].0 == k {
        Some(from)
    } else {
        key_index(entries, k, from + 1)
    }
}

/// `b` merged into `a`: where both are objects, each entry of `b` in turn
/// is merged into `a` (see `merge_entries`); otherwise the result is `b`.
pub open spec fn json_merge(a: JsonView, b: JsonView) -> JsonView
    decreases b,
{
    match b {
        JsonView::Object(bs) => match a {
            JsonView::Object(acc) => JsonView::Object(merge_entries(acc, bs)),
            _ => b,
        },
        _ => b,
    }
}

/// The entries `acc` after each entry of `bs` in turn is merged in: its
/// value is merged into that of the first entry with the same key, or the
/// entry is added at the end where no entry has that key.
pub open spec fn merge_entries(
    acc: Seq<(Seq<char>, JsonView)>,
    bs: Seq<(Seq<char>, JsonView)>,
) -> Seq<(Seq<char>, JsonView)>
    decreases bs,
{
    if bs.len() == 0 {
        acc
    } else {
        let k = bs[0].0;
        let v = bs[0].1;
        let next = match key_index(acc, k, 0) {
            Some(i) => acc.update(i as int, (k, json_merge(acc[i as int].1, v))),
            None => acc.push((k, v)),
        };
        merge_entries(next, bs.subrange(1, bs.len() as int))
    }
}

proof fn lemma_key_index_bounds(entries: Seq<(Seq<char>, JsonView)>, k: Seq<char>, from: nat)
    ensures
        key_index(entries, k, from) matches Some(i) ==> from <= i < entries.len()
            && entries[i as int].0 == k,
    decreases entries.len() - from,
{
    if from < entries.len() && entries[from as int].0 != k {
        lemma_key_index_bounds(entries, k, from + 1);
    }
}

/// The index of the first entry whose key is `k`.
fn find_key(entries: &Vec<(String, JsonValue)>, k: &String) -> (r: Option<usize>)
    ensures
        match r {
            Some(i) => key_index(entries_view(entries@), k@, 0) == Some(i as nat),
            None => key_index(entries_view(entries@), k@, 0) is None,
        },
{
    let ghost ev = entries_view(entries@);
    let mut i: usize = 0;
    while i < entries.len()
        invariant
            i <= entries@.len(),
            ev == entries_view(entries@),
            key_index(ev, k@, 0) == key_index(ev, k@, i as nat),
        decreases entries@.len() - i,
    {
        if entries[i].0 == *k {
            return Some(i);
        }
        i = i + 1;
    }
    None
}

proof fn lemma_key_index_absent(entries: Seq<(Seq<char>, JsonView)>, k: Seq<char>, from: nat)
    requires
        forall|i: int| from <= i < entries.len() ==> (#[trigger] entries[i]).0 != k,
    ensures
        key_index(entries, k, from) is None,
    decreases entries.len() - from,
{
    if from < entries.len() {
        lemma_key_index_absent(entries, k, from + 1);
    }
}

/// Merging entries whose keys are distinct and absent from `acc` adds them
/// after the entries of `acc`, in their order.
pub proof fn lemma_merge_fresh_entries(
    acc: Seq<(Seq<char>, JsonView)>,
    bs: Seq<(Seq<char>, JsonView)>,
)
    requires
        forall|i: int, j: int|
            0 <= i < bs.len() && 0 <= j < acc.len() ==> (#[trigger] bs[i]).0 != (#[trigger] acc[j]).0,
        forall|i: int, j: int| 0 <= i < j < bs.len() ==> (#[trigger] bs[i]).0 != (#[trigger] bs[j]).0,
    ensures
        merge_entries(acc, bs) == acc + bs,
    decreases bs.len(),
{
    if bs.len() == 0 {
        assert(acc + bs =~= acc);
    } else {
        let next = acc.push(bs[0]);
        let rest = bs.subrange(1, bs.len() as int);
        lemma_key_index_absent(acc, bs[0].0, 0);
        assert forall|i: int, j: int| 0 <= i < rest.len() && 0 <= j < next.len() implies (
        #[trigger] rest[i]).0 != (#[trigger] next[j]).0 by {
            assert(rest[i] == bs[i + 1]);
            if j < acc.len() {
                assert(next[j] == acc[j]);
            } else {
                assert(next[j] == bs[0]);
            }
        }
        assert forall|i: int, j: int| 0 <= i < j < rest.len() implies (#[trigger] rest[i]).0 != (
        #[trigger] rest[j]).0 by {
            assert(rest[i] == bs[i + 1]);
            assert(rest[j] == bs[j + 1]);
        }
        lemma_merge_fresh_entries(next, rest);
        assert(next + rest =~= acc + bs);
    }
}

/// Whether no two entries share a key, as in a JSON object.
pub open spec fn distinct_keys(entries: Seq<(Seq<char>, JsonView)>) -> bool {
    forall|i: int, j: int|
        0 <= i < j < entries.len() ==> (#[trigger] entries[i]).0 != (#[trigger] entries[j]).0
}

/// The value of the entry with key `k`, if any.
pub open spec fn lookup(entries: Seq<(Seq<char>, JsonView)>, k: Seq<char>) -> Option<JsonView> {
    match key_index(entries, k, 0) {
        Some(i) => Some(entries[i as int].1),
        None => None,
    }
}

proof fn lemma_key_index_found(entries: Seq<(Seq<char>, JsonView)>, k: Seq<char>, from: nat, i: int)
    requires
        distinct_keys(entries),
        from <= i < entries.len(),
        entries[i].0 == k,
    ensures
        key_index(entries, k, from) == Some(i as nat),
    decreases entries.len() - from,
{
    if from < i {
        assert(entries[from as int].0 != k);
        lemma_key_index_found(entries, k, from + 1, i);
    }
}

/// The value of the entry with key `k` in entries with distinct keys.
proof fn lemma_lookup(entries: Seq<(Seq<char>, JsonView)>, k: Seq<char>)
    requires
        distinct_keys(entries),
    ensures
        (exists|i: int| 0 <= i < entries.len() && entries[i].0 == k) ==> lookup(entries, k)
            == Some(entries[choose|i: int| 0 <= i < entries.len() && entries[i].0 == k].1),
        (forall|i: int| 0 <= i < entries.len() ==> (#[trigger] entries[i]).0 != k) ==> lookup(
            entries,
            k,
        ) is None,
{
    if exists|i: int| 0 <= i < entries.len() && entries[i].0 == k {
        let i = choose|i: int| 0 <= i < entries.len() && entries[i].0 == k;
        lemma_key_index_found(entries, k, 0, i);
    } else {
        lemma_key_index_absent(entries, k, 0);
    }
}

/// What merging `bs` into `acc` does to each key, when each holds distinct
/// keys: a key of `bs` holds its value merged into the value `acc` had for
/// it (or its own value where `acc` had none), any other key keeps its value
/// in `acc`, and the keys stay distinct.
pub proof fn lemma_merge_entries_lookup(
    acc: Seq<(Seq<char>, JsonView)>,
    bs: Seq<(Seq<char>, JsonView)>,
    k: Seq<char>,
)
    requires
        distinct_keys(acc),
        distinct_keys(bs),
    ensures
        distinct_keys(merge_entries(acc, bs)),
        lookup(merge_entries(acc, bs), k) == match lookup(bs, k) {
            Some(v) => Some(
                match lookup(acc, k) {
                    Some(a) => json_merge(a, v),
                    None => v,
                },
            ),
            None => lookup(acc, k),
        },
    decreases bs.len(),
{
    if bs.len() == 0 {
        lemma_key_index_absent(bs, k, 0);
    } else {
        let k0 = bs[0].0;
        let v0 = bs[0].1;
        let rest = bs.subrange(1, bs.len() as int);
        let next = match key_index(acc, k0, 0) {
            Some(i) => acc.update(i as int, (k0, json_merge(acc[i as int].1, v0))),
            None => acc.push((k0, v0)),
        };
        lemma_key_index_bounds(acc, k0, 0);
        if key_index(acc, k0, 0) is None {
            lemma_lookup(acc, k0);
        }
        assert(distinct_keys(next)) by {
            assert forall|i: int, j: int| 0 <= i < j < next.len() implies (#[trigger] next[i]).0
                != (#[trigger] next[j]).0 by {
                if key_index(acc, k0, 0) is None {
                    if j == acc.len() {
                        assert(next[i] == acc[i]);
                    } else {
                        assert(next[i] == acc[i] && next[j] == acc[j]);
                    }
                } else {
                    assert(next[i].0 == acc[i].0 && next[j].0 == acc[j].0);
                }
            }
        }
        assert(distinct_keys(rest)) by {
            assert forall|i: int, j: int| 0 <= i < j < rest.len() implies (#[trigger] rest[i]).0
                != (#[trigger] rest[j]).0 by {
                assert(rest[i] == bs[i + 1] && rest[j] == bs[j + 1]);
            }
        }
        lemma_merge_entries_lookup(next, rest, k);
        lemma_lookup(acc, k);
        lemma_lookup(next, k);
        lemma_lookup(bs, k);
        lemma_lookup(rest, k);
        if k == k0 {
            assert forall|i: int| 0 <= i < rest.len() implies (#[trigger] rest[i]).0 != k by {
                assert(rest[i] == bs[i + 1]);
            }
            lemma_key_index_found(bs, k, 0, 0);
            match key_index(acc, k0, 0) {
                Some(i) => {
                    lemma_key_index_found(next, k, 0, i as int);
                },
                None => {
                    lemma_key_index_found(next, k, 0, acc.len() as int);
                },
            }
        } else {
            if exists|i: int| 0 <= i < bs.len() && bs[i].0 == k {
                let i = choose|i: int| 0 <= i < bs.len() && bs[i].0 == k;
                assert(rest[i - 1] == bs[i]);
                lemma_key_index_found(bs, k, 0, i);
                lemma_key_index_found(rest, k, 0, i - 1);
            } else {
                assert forall|i: int| 0 <= i < rest.len() implies (#[trigger] rest[i]).0 != k by {
                    assert(rest[i] == bs[i + 1]);
                }
            }
            if exists|i: int| 0 <= i < acc.len() && acc[i].0 == k {
                let i = choose|i: int| 0 <= i < acc.len() && acc[i].0 == k;
                assert(next[i].0 == k);
                lemma_key_index_found(acc, k, 0, i);
                lemma_key_index_found(next, k, 0, i);
            } else {
                assert forall|i: int| 0 <= i < next.len() implies (#[trigger] next[i]).0 != k by {
                    if i < acc.len() {
                        assert(next[i].0 == acc[i].0);
                    }
                }
            }
        }
    }
}

/// Merging objects with distinct keys: each key of `b` holds its value
/// merged into what `a` held for it (or its own value where `a` had none);
/// every other key keeps its value in `a`.
pub proof fn lemma_merge_objects(
    a: Seq<(Seq<char>, JsonView)>,
    b: Seq<(Seq<char>, JsonView)>,
    k: Seq<char>,
)
    requires
        distinct_keys(a),
        distinct_keys(b),
    ensures
        json_merge(JsonView::Object(a), JsonView::Object(b)) matches JsonView::Object(m) && distinct_keys(m)
            && lookup(m, k) == match lookup(b, k) {
            Some(v) => Some(
                match lookup(a, k) {
                    Some(x) => json_merge(x, v),
                    None => v,
                },
            ),
            None => lookup(a, k),
        },
{
    lemma_merge_entries_lookup(a, b, k);
}

/// Whether every object in `v`, at any depth of objects, has distinct keys,
/// as JSON objects do.
pub open spec fn well_formed(v: JsonView) -> bool
    decreases v,
{
    match v {
        JsonView::Object(es) => distinct_keys(es) && forall|i: int|
            0 <= i < es.len() ==> well_formed(#[trigger] es[i].1),
        _ => true,
    }
}

/// Whether the value of every entry is well formed.
pub open spec fn values_well_formed(es: Seq<(Seq<char>, JsonView)>) -> bool {
    forall|i: int| 0 <= i < es.len() ==> well_formed(#[trigger] es[i].1)
}

proof fn lemma_merge_entries_values(acc: Seq<(Seq<char>, JsonView)>, bs: Seq<(Seq<char>, JsonView)>)
    requires
        values_well_formed(acc),
        values_well_formed(bs),
        forall|j: int, x: JsonView|
            0 <= j < bs.len() && well_formed(x) ==> well_formed(#[trigger] json_merge(x, bs[j].1)),
    ensures
        values_well_formed(merge_entries(acc, bs)),
    decreases bs.len(),
{
    if bs.len() > 0 {
        let k = bs[0].0;
        let v = bs[0].1;
        let rest = bs.subrange(1, bs.len() as int);
        lemma_key_index_bounds(acc, k, 0);
        let next = match key_index(acc, k, 0) {
            Some(i) => acc.update(i as int, (k, json_merge(acc[i as int].1, v))),
            None => acc.push((k, v)),
        };
        assert(well_formed(v));
        assert(values_well_formed(next)) by {
            match key_index(acc, k, 0) {
                Some(i) => {
                    assert(well_formed(acc[i as int].1));
                    assert(well_formed(json_merge(acc[i as int].1, bs[0].1)));
                    assert forall|n: int| 0 <= n < next.len() implies well_formed(#[trigger] next[n].1) by {
                        if n != i {
                            assert(next[n] == acc[n]);
                        }
                    }
                },
                None => {
                    assert forall|n: int| 0 <= n < next.len() implies well_formed(#[trigger] next[n].1) by {
                        if n < acc.len() {
                            assert(next[n] == acc[n]);
                        }
                    }
                },
            }
        }
        assert forall|n: int| 0 <= n < rest.len() implies well_formed(#[trigger] rest[n].1) by {
            assert(rest[n] == bs[n + 1]);
        }
        assert forall|j: int, x: JsonView| 0 <= j < rest.len() && well_formed(x) implies well_formed(
            #[trigger] json_merge(x, rest[j].1),
        ) by {
            assert(rest[j] == bs[j + 1]);
        }
        lemma_merge_entries_values(next, rest);
    }
}

/// Merging keeps values well formed: where every object in `x` and in `b`
/// has distinct keys, so does every object in `b` merged into `x`.
pub proof fn lemma_merge_well_formed(x: JsonView, b: JsonView)
    requires
        well_formed(x),
        well_formed(b),
    ensures
        well_formed(json_merge(x, b)),
    decreases b,
{
    if let JsonView::Object(bs) = b {
        if let JsonView::Object(xs) = x {
            assert forall|j: int, y: JsonView| 0 <= j < bs.len() && well_formed(y) implies well_formed(
                #[trigger] json_merge(y, bs[j].1),
            ) by {
                assert(well_formed(bs[j].1));
                assert(decreases_to!(b => bs));
                assert(decreases_to!(bs => bs[j]));
                assert(decreases_to!(bs[j] => bs[j].1));
                lemma_merge_well_formed(y, bs[j].1);
            }
            lemma_merge_entries_values(xs, bs);
            lemma_merge_entries_lookup(xs, bs, Seq::empty());
            let m = merge_entries(xs, bs);
            assert(values_well_formed(m));
            assert(distinct_keys(m));
        }
    }
}

proof fn lemma_merge_absorbed(acc: Seq<(Seq<char>, JsonView)>, bs: Seq<(Seq<char>, JsonView)>)
    requires
        forall|j: int|
            0 <= j < bs.len() ==> (key_index(acc, (#[trigger] bs[j]).0, 0) matches Some(i)
                && json_merge(acc[i as int].1, bs[j].1) == acc[i as int].1),
    ensures
        merge_entries(acc, bs) == acc,
    decreases bs.len(),
{
    if bs.len() > 0 {
        let k = bs[0].0;
        lemma_key_index_bounds(acc, k, 0);
        let i = key_index(acc, k, 0).unwrap();
        assert(acc.update(i as int, (k, json_merge(acc[i as int].1, bs[0].1))) =~= acc);
        let rest = bs.subrange(1, bs.len() as int);
        assert forall|j: int| 0 <= j < rest.len() implies (key_index(acc, (#[trigger] rest[j]).0, 0) matches Some(i)
            && json_merge(acc[i as int].1, rest[j].1) == acc[i as int].1) by {
            assert(rest[j] == bs[j + 1]);
        }
        lemma_merge_absorbed(acc, rest);
    }
}

/// Merging the same value twice is merging it once: for well-formed `x` and
/// `b`, merging `b` into the result of merging `b` into `x` changes nothing.
pub proof fn lemma_merge_twice(x: JsonView, b: JsonView)
    requires
        well_formed(x),
        well_formed(b),
    ensures
        json_merge(json_merge(x, b), b) == json_merge(x, b),
    decreases b,
{
    if let JsonView::Object(bs) = b {
        match x {
            JsonView::Object(xs) => {
                let m = merge_entries(xs, bs);
                assert forall|j: int| 0 <= j < bs.len() implies (key_index(m, (#[trigger] bs[j]).0, 0) matches Some(i)
                    && json_merge(m[i as int].1, bs[j].1) == m[i as int].1) by {
                    let k = bs[j].0;
                    let v = bs[j].1;
                    assert(well_formed(v));
                    lemma_merge_entries_lookup(xs, bs, k);
                    lemma_key_index_found(bs, k, 0, j);
                    lemma_key_index_bounds(m, k, 0);
                    assert(decreases_to!(b => bs));
                    assert(decreases_to!(bs => bs[j]));
                    assert(decreases_to!(bs[j] => bs[j].1));
                    match key_index(xs, k, 0) {
                        Some(a) => {
                            lemma_key_index_bounds(xs, k, 0);
                            assert(well_formed(xs[a as int].1));
                            lemma_merge_twice(xs[a as int].1, v);
                        },
                        None => {
                            lemma_merge_twice(JsonView::Null, v);
                        },
                    }
                }
                lemma_merge_absorbed(m, bs);
            },
            _ => {
                assert forall|j: int| 0 <= j < bs.len() implies (key_index(bs, (#[trigger] bs[j]).0, 0) matches Some(i)
                    && json_merge(bs[i as int].1, bs[j].1) == bs[i as int].1) by {
                    lemma_key_index_found(bs, bs[j].0, 0, j);
                    assert(well_formed(bs[j].1));
                    assert(decreases_to!(b => bs));
                    assert(decreases_to!(bs => bs[j]));
                    assert(decreases_to!(bs[j] => bs[j].1));
                    lemma_merge_twice(JsonView::Null, bs[j].1);
                }
                lemma_merge_absorbed(bs, bs);
            },
        }
    }
}

/// Merges `b` into `a`: where both are objects, each entry of `b` is merged
/// into the entry of `a` with its key, or added where `a` has none;
/// otherwise `a` becomes a copy of `b`.
pub fn merge(a: &mut JsonValue, b: &JsonValue)
    ensures
        final(a)@ == json_merge(old(a)@, b@),
        well_formed(old(a)@) && well_formed(b@) ==> well_formed(final(a)@),
    decreases b,
{
    match b {
        JsonValue::Object(bs) => {
            let mut taken = JsonValue::Null;
            std::mem::swap(a, &mut taken);
            match taken {
                JsonValue::Object(mut entries) => {
                    let ghost start = entries_view(entries@);
                    let ghost be = entries_view(bs@);
                    proof {
                        assert(old(a)@ == JsonView::Object(start)) by {
                            if let JsonView::Object(x) = old(a)@ {
                                assert(x =~= start);
                            }
                        }
                        assert(b@ == JsonView::Object(be)) by {
                            if let JsonView::Object(x) = b@ {
                                assert(x =~= be);
                            }
                        }
                        assert(be.skip(0) =~= be);
                    }
                    let mut j: usize = 0;
                    while j < bs.len()
                        invariant
                            *b == JsonValue::Object(*bs),
                            be == entries_view(bs@),
                            j <= bs@.len(),
                            merge_entries(start, be) == merge_entries(
                                entries_view(entries@),
                                be.skip(j as int),
                            ),
                        decreases bs@.len() - j,
                    {
                        let ghost cur = entries_view(entries@);
                        let ghost rest = be.skip(j as int);
                        let key = &bs[j].0;
                        let value = &bs[j].1;
                        assert(rest[0] == (key@, value@));
                        assert(rest.subrange(1, rest.len() as int) =~= be.skip(j + 1));
                        match find_key(&entries, key) {
                            Some(i) => {
                                proof {
                                    lemma_key_index_bounds(cur, key@, 0);
                                }
                                let (ek, mut ev) = entries.remove(i);
                                proof {
                                    assert(decreases_to!(*b => (*b)->Object_0));
                                    assert(decreases_to!(*bs => bs@));
                                    assert(decreases_to!(bs@ => bs@[j as int]));
                                    assert(decreases_to!(bs@[j as int] => bs@[j as int].1));
                                }
                                merge(&mut ev, value);
                                entries.insert(i, (ek, ev));
                                assert(entries_view(entries@) =~= cur.update(
                                    i as int,
                                    (key@, json_merge(cur[i as int].1, value@)),
                                ));
                            },
                            None => {
                                entries.push((key.clone(), value.duplicate()));
                                assert(entries_view(entries@) =~= cur.push((key@, value@)));
                            },
                        }
                        j = j + 1;
                    }
                    assert(be.skip(j as int) =~= Seq::<(Seq<char>, JsonView)>::empty());
                    let merged = JsonValue::Object(entries);
                    proof {
                        if let JsonView::Object(x) = merged@ {
                            assert(x =~= entries_view(entries@));
                        }
                    }
                    *a = merged;
                },
                _ => {
                    *a = b.duplicate();
                },
            }
        },
        _ => {
            *a = b.duplicate();
        },
    }
    proof {
        if well_formed(old(a)@) && well_formed(b@) {
            lemma_merge_well_formed(old(a)@, b@);
        }
    }
}

} // verus!
