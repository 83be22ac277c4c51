//! Environment variables of a session, kept in the order of their names.

use crate::text::blank;
use vstd::prelude::*;
use vstd::utf8::{encode_utf8, encode_utf8_decode_utf8};

verus! {

/// A name and its value.
pub type Pair = (Seq<char>, Seq<char>);

/// Whether byte string `a` comes before `b`, deciding from index `i` on: at
/// the first index where they differ the smaller byte comes first, and a
/// proper prefix comes before what it is a prefix of.
pub open spec fn before_from(a: Seq<u8>, b: Seq<u8>, i: int) -> bool
    decreases a.len() - i,
{
    if i < 0 || i >= b.len() {
        false
    } else if i >= a.len() {
        true
    } else if a[i] != b[i] {
        a[i] < b[i]
    } else {
        before_from(a, b, i + 1)
    }
}

/// Whether name `a` comes before name `b`: the order of their UTF-8 bytes,
/// which is the order of `str`.
pub open spec fn key_before(a: Seq<char>, b: Seq<char>) -> bool {
    before_from(encode_utf8(a), encode_utf8(b), 0)
}

/// How one name stands to another.
#[derive(Clone, Copy, Debug, PartialEq, Eq, Structural)]
pub enum KeyOrder {
    Before,
    Same,
    After,
}

/// Texts with the same bytes are the same text.
pub proof fn lemma_same_bytes_same_text(a: Seq<char>, b: Seq<char>)
    requires
        encode_utf8(a) == encode_utf8(b),
    ensures
        a == b,
{
    encode_utf8_decode_utf8(a);
    encode_utf8_decode_utf8(b);
}

/// Compares two names.
pub fn key_order(a: &str, b: &str) -> (r: KeyOrder)
    ensures
        r == KeyOrder::Before <==> key_before(a@, b@),
        r == KeyOrder::Same <==> a@ == b@,
{
    let x = a.as_bytes();
    let y = b.as_bytes();
    let mut i: usize = 0;
    while i < x.len() && i < y.len()
        invariant
            i <= x.len(),
            i <= y.len(),
            x@ == encode_utf8(a@),
            y@ == encode_utf8(b@),
            x@.take(i as int) == y@.take(i as int),
            before_from(x@, y@, 0) == before_from(x@, y@, i as int),
        decreases x.len() - i,
    {
        if x[i] != y[i] {
            assert(x@ != y@);
            return if x[i] < y[i] {
                KeyOrder::Before
            } else {
                KeyOrder::After
            };
        }
        assert(x@.take(i + 1) == x@.take(i as int).push(x@[i as int]));
        assert(y@.take(i + 1) == y@.take(i as int).push(y@[i as int]));
        i += 1;
    }
    if x.len() == y.len() {
        assert(x@.take(i as int) == x@);
        assert(y@.take(i as int) == y@);
        proof {
            lemma_same_bytes_same_text(a@, b@);
        }
        KeyOrder::Same
    } else if i == x.len() {
        assert(x@.len() != y@.len());
        KeyOrder::Before
    } else {
        assert(x@.len() != y@.len());
        KeyOrder::After
    }
}

/// The listing with `key` set to `value`: an entry of that name is replaced,
/// and a new one goes before the first entry whose name comes after it.
pub open spec fn put(list: Seq<Pair>, key: Seq<char>, value: Seq<char>) -> Seq<Pair>
    decreases list.len(),
{
    if list.len() == 0 {
        seq![(key, value)]
    } else if key_before(key, list[0].0) {
        seq![(key, value)] + list
    } else if key == list[0].0 {
        seq![(key, value)] + list.drop_first()
    } else {
        seq![list[0]] + put(list.drop_first(), key, value)
    }
}

/// Entries whose names come before `key` stay where they are.
proof fn lemma_put_behind(list: Seq<Pair>, key: Seq<char>, value: Seq<char>, i: int)
    requires
        0 <= i <= list.len(),
        forall|j: int| 0 <= j < i ==> !key_before(key, #[trigger] list[j].0) && key != list[j].0,
    ensures
        put(list, key, value) == list.take(i) + put(list.skip(i), key, value),
    decreases i,
{
    if i == 0 {
        assert(list.skip(0) == list);
        assert(list.take(0) + put(list, key, value) == put(list, key, value));
    } else {
        let rest = list.drop_first();
        assert forall|j: int| 0 <= j < i - 1 implies !key_before(key, #[trigger] rest[j].0) && key
            != rest[j].0 by {
            assert(rest[j] == list[j + 1]);
        }
        lemma_put_behind(rest, key, value, i - 1);
        assert(rest.skip(i - 1) == list.skip(i));
        assert(seq![list[0]] + (rest.take(i - 1) + put(list.skip(i), key, value)) == list.take(i)
            + put(list.skip(i), key, value));
    }
}

/// The listing with each of `pairs` set in turn, so that a later pair
/// overrides an earlier one of the same name.
pub open spec fn put_all(list: Seq<Pair>, pairs: Seq<Pair>) -> Seq<Pair>
    decreases pairs.len(),
{
    if pairs.len() == 0 {
        list
    } else {
        put_all(put(list, pairs[0].0, pairs[0].1), pairs.drop_first())
    }
}

/// As [`put_all`], but pairs with a blank name are passed over.
pub open spec fn put_named(list: Seq<Pair>, pairs: Seq<Pair>) -> Seq<Pair>
    decreases pairs.len(),
{
    if pairs.len() == 0 {
        list
    } else if blank(pairs[0].0) {
        put_named(list, pairs.drop_first())
    } else {
        put_named(put(list, pairs[0].0, pairs[0].1), pairs.drop_first())
    }
}

/// The value that a listing holds for `key`.
pub open spec fn lookup(list: Seq<Pair>, key: Seq<char>) -> Option<Seq<char>>
    decreases list.len(),
{
    if list.len() == 0 {
        None
    } else if list[0].0 == key {
        Some(list[0].1)
    } else {
        lookup(list.drop_first(), key)
    }
}

/// The names of a listing are in strictly ascending order.
pub open spec fn in_order(list: Seq<Pair>) -> bool {
    forall|i: int, j: int| 0 <= i < j < list.len() ==> key_before(#[trigger] list[i].0, #[trigger] list[j].0)
}

/// A listing written as lines of the form `NAME=VALUE`.
pub open spec fn lines(list: Seq<Pair>) -> Seq<Seq<char>> {
    Seq::new(list.len(), |i: int| list[i].0 + seq!['='] + list[i].1)
}

/// The value that the first pair of this name holds.
pub fn value_of<'a>(pairs: &'a Vec<(String, String)>, key: &str) -> (r: Option<&'a str>)
    ensures
        match r {
            Some(value) => lookup(pairs.deep_view(), key@) == Some(value@),
            None => lookup(pairs.deep_view(), key@) is None,
        },
{
    let ghost all = pairs.deep_view();
    let mut i: usize = 0;
    assert(all.skip(0) == all);
    while i < pairs.len()
        invariant
            i <= pairs.len(),
            all == pairs.deep_view(),
            lookup(all, key@) == lookup(all.skip(i as int), key@),
        decreases pairs.len() - i,
    {
        let ghost rest = all.skip(i as int);
        assert(rest[0] == all[i as int]);
        assert(rest.drop_first() == all.skip(i + 1));
        match key_order(pairs[i].0.as_str(), key) {
            KeyOrder::Same => {
                return Some(pairs[i].1.as_str());
            },
            _ => {},
        }
        i += 1;
    }
    None
}

/// Environment variables in the order of their names, each name once.
#[derive(Debug, PartialEq, Eq)]
pub struct EnvMap {
    entries: Vec<(String, String)>,
}

impl View for EnvMap {
    type V = Seq<Pair>;

    closed spec fn view(&self) -> Seq<Pair> {
        self.entries.deep_view()
    }
}

impl Clone for EnvMap {
    fn clone(&self) -> (copy: Self)
        ensures
            copy@ == self@,
    {
        proof {
            use_type_invariant(self);
        }
        let mut entries: Vec<(String, String)> = Vec::new();
        let mut i: usize = 0;
        while i < self.entries.len()
            invariant
                i <= self.entries.len(),
                entries.len() == i,
                forall|j: int|
                    0 <= j < i ==> (#[trigger] entries@[j]).0@ == self.entries@[j].0@
                        && entries@[j].1@ == self.entries@[j].1@,
            decreases self.entries.len() - i,
        {
            entries.push((self.entries[i].0.clone(), self.entries[i].1.clone()));
            i += 1;
        }
        assert(entries.deep_view() =~= self.entries.deep_view());
        EnvMap { entries }
    }
}

impl EnvMap {
    /// The names are in strictly ascending order, so that each is there once.
    #[verifier::type_invariant]
    closed spec fn ordered(self) -> bool {
        in_order(self.entries.deep_view())
    }

    /// An environment without variables.
    pub fn new() -> (m: Self)
        ensures
            m@ == Seq::<Pair>::empty(),
    {
        let m = EnvMap { entries: Vec::new() };
        assert(m.entries.deep_view() =~= Seq::<Pair>::empty());
        m
    }

    /// How many variables there are.
    pub fn len(&self) -> (n: usize)
        ensures
            n == self@.len(),
            in_order(self@),
    {
        proof {
            use_type_invariant(self);
        }
        self.entries.len()
    }

    pub fn is_empty(&self) -> (b: bool)
        ensures
            b == (self@.len() == 0),
    {
        self.entries.len() == 0
    }

    /// The name and the value at position `i`.
    pub fn entry(&self, i: usize) -> (r: (&str, &str))
        requires
            i < self@.len(),
        ensures
            r.0@ == self@[i as int].0,
            r.1@ == self@[i as int].1,
    {
        let e = &self.entries[i];
        (e.0.as_str(), e.1.as_str())
    }

    /// Where `key` is or belongs: the index of the first entry whose name
    /// does not come before it, and whether that entry has this very name.
    fn position(&self, key: &str) -> (r: (usize, bool))
        ensures
            r.0 <= self@.len(),
            forall|j: int|
                0 <= j < r.0 ==> !key_before(key@, #[trigger] self@[j].0) && key@ != self@[j].0,
            r.1 ==> r.0 < self@.len() && key@ == self@[r.0 as int].0 && !key_before(
                key@,
                self@[r.0 as int].0,
            ),
            !r.1 && r.0 < self@.len() ==> key_before(key@, self@[r.0 as int].0),
    {
        let n = self.entries.len();
        let mut i: usize = 0;
        while i < n
            invariant
                i <= n,
                n == self.entries.len(),
                forall|j: int|
                    0 <= j < i ==> !key_before(key@, #[trigger] self@[j].0) && key@ != self@[j].0,
            decreases n - i,
        {
            match key_order(key, self.entries[i].0.as_str()) {
                KeyOrder::Before => {
                    return (i, false);
                },
                KeyOrder::Same => {
                    return (i, true);
                },
                KeyOrder::After => {},
            }
            i += 1;
        }
        (n, false)
    }

    /// The variables as pairs, in the order of their names.
    pub fn into_pairs(self) -> (pairs: Vec<(String, String)>)
        ensures
            pairs.deep_view() == self@,
            in_order(self@),
    {
        proof {
            use_type_invariant(&self);
        }
        self.entries
    }

    /// Sets `key` to `value`.
    pub fn insert(&mut self, key: String, value: String)
        ensures
            final(self)@ == put(old(self)@, key@, value@),
            in_order(final(self)@),
    {
        proof {
            use_type_invariant(&*self);
            lemma_put_keeps_order(self@, key@, value@);
        }
        let ghost before = self@;
        let (i, found) = self.position(key.as_str());
        let ghost pair = (key@, value@);
        let ghost rest = before.skip(i as int);
        proof {
            lemma_put_behind(before, key@, value@, i as int);
            if i < before.len() {
                assert(rest[0] == before[i as int]);
            }
        }
        let mut entries: Vec<(String, String)> = Vec::new();
        assert(entries.deep_view() =~= Seq::<Pair>::empty());
        core::mem::swap(&mut entries, &mut self.entries);
        if found {
            entries.set(i, (key, value));
            proof {
                assert(put(rest, pair.0, pair.1) == seq![pair] + rest.drop_first());
                assert(entries.deep_view() =~= before.take(i as int) + (seq![pair]
                    + rest.drop_first()));
            }
        } else {
            entries.insert(i, (key, value));
            proof {
                if i < before.len() {
                    assert(put(rest, pair.0, pair.1) == seq![pair] + rest);
                } else {
                    assert(put(rest, pair.0, pair.1) == seq![pair]);
                    assert(seq![pair] =~= seq![pair] + rest);
                }
                assert(entries.deep_view() =~= before.take(i as int) + (seq![pair] + rest));
            }
        }
        self.entries = entries;
    }

    /// Sets every pair of `pairs` in turn.
    pub fn extend(&mut self, pairs: Vec<(String, String)>)
        ensures
            final(self)@ == put_all(old(self)@, pairs.deep_view()),
            in_order(final(self)@),
    {
        proof {
            use_type_invariant(&*self);
        }
        let ghost all = pairs.deep_view();
        let ghost start = self@;
        assert(all.skip(0) == all);
        for pair in it: pairs
            invariant
                in_order(self@),
                all.len() == it.seq().len(),
                forall|k: int|
                    0 <= k < all.len() ==> all[k] == (#[trigger] it.seq()[k]).deep_view(),
                put_all(self@, all.skip(it.index() as int)) == put_all(start, all),
        {
            let ghost rest = all.skip(it.index() as int);
            assert(rest.drop_first() == all.skip(it.index() + 1));
            assert(rest[0] == all[it.index() as int]);
            self.insert(pair.0, pair.1);
        }
    }

    /// The variables as lines of the form `NAME=VALUE`, in the order of
    /// their names.
    pub fn to_lines(&self) -> (out: Vec<String>)
        ensures
            out.deep_view() == lines(self@),
            in_order(self@),
    {
        proof {
            use_type_invariant(self);
        }
        let mut out: Vec<String> = Vec::new();
        let mut i: usize = 0;
        while i < self.entries.len()
            invariant
                i <= self.entries.len(),
                out.deep_view() == lines(self@).take(i as int),
            decreases self.entries.len() - i,
        {
            let mut line = self.entries[i].0.as_str().to_owned();
            line.append("=");
            line.append(self.entries[i].1.as_str());
            proof {
                reveal_strlit("=");
                assert("="@ == seq!['=']);
            }
            let ghost prev = out.deep_view();
            out.push(line);
            assert(out.deep_view() == prev.push(line@));
            assert(lines(self@).take(i + 1) == lines(self@).take(i as int).push(lines(self@)[i as int]));
            i += 1;
        }
        out
    }
}

// ---------------------------------------------------------------------------
// What holds of listings
// ---------------------------------------------------------------------------

proof fn lemma_before_from_transitive(a: Seq<u8>, b: Seq<u8>, c: Seq<u8>, i: int)
    requires
        before_from(a, b, i),
        before_from(b, c, i),
    ensures
        before_from(a, c, i),
    decreases a.len() - i,
{
    if 0 <= i < a.len() && i < b.len() && i < c.len() && a[i] == b[i] && b[i] == c[i] {
        lemma_before_from_transitive(a, b, c, i + 1);
    }
}

proof fn lemma_before_from_total(a: Seq<u8>, b: Seq<u8>, i: int)
    requires
        0 <= i <= a.len(),
        i <= b.len(),
        a.take(i) == b.take(i),
        !before_from(a, b, i),
        !before_from(b, a, i),
    ensures
        a == b,
    decreases a.len() - i,
{
    if i < a.len() && i < b.len() {
        assert(a[i] == b[i]);
        assert(a.take(i + 1) == a.take(i).push(a[i]));
        assert(b.take(i + 1) == b.take(i).push(b[i]));
        lemma_before_from_total(a, b, i + 1);
    } else {
        assert(a.take(i) == a);
        assert(b.take(i) == b);
    }
}

proof fn lemma_before_from_irreflexive(a: Seq<u8>, i: int)
    ensures
        !before_from(a, a, i),
    decreases a.len() - i,
{
    if 0 <= i < a.len() {
        lemma_before_from_irreflexive(a, i + 1);
    }
}

/// The order of names is a strict total order: no name comes before itself,
/// of two different names one comes before the other, and what comes before
/// a name comes before everything after that name.
pub proof fn lemma_names_are_ordered(a: Seq<char>, b: Seq<char>, c: Seq<char>)
    ensures
        !key_before(a, a),
        a != b ==> key_before(a, b) || key_before(b, a),
        key_before(a, b) && key_before(b, c) ==> key_before(a, c),
        key_before(a, b) ==> !key_before(b, a),
{
    lemma_before_from_irreflexive(encode_utf8(a), 0);
    if a != b && !key_before(a, b) && !key_before(b, a) {
        assert(encode_utf8(a).take(0) == encode_utf8(b).take(0));
        lemma_before_from_total(encode_utf8(a), encode_utf8(b), 0);
        lemma_same_bytes_same_text(a, b);
    }
    if key_before(a, b) && key_before(b, c) {
        lemma_before_from_transitive(encode_utf8(a), encode_utf8(b), encode_utf8(c), 0);
    }
    if key_before(a, b) && key_before(b, a) {
        lemma_before_from_transitive(encode_utf8(a), encode_utf8(b), encode_utf8(a), 0);
    }
}

/// The listing holds an entry of this name.
pub open spec fn has_key(list: Seq<Pair>, key: Seq<char>) -> bool {
    exists|i: int| 0 <= i < list.len() && (#[trigger] list[i]).0 == key
}

proof fn lemma_put_names(list: Seq<Pair>, key: Seq<char>, value: Seq<char>)
    ensures
        forall|j: int|
            0 <= j < put(list, key, value).len() ==> (#[trigger] put(list, key, value)[j]).0 == key
                || has_key(list, put(list, key, value)[j].0),
    decreases list.len(),
{
    let out = put(list, key, value);
    if list.len() == 0 {
    } else if key_before(key, list[0].0) {
        assert forall|j: int| 0 <= j < out.len() implies (#[trigger] out[j]).0 == key || has_key(
            list,
            out[j].0,
        ) by {
            if j > 0 {
                assert(out[j] == list[j - 1]);
            }
        }
    } else if key == list[0].0 {
        assert forall|j: int| 0 <= j < out.len() implies (#[trigger] out[j]).0 == key || has_key(
            list,
            out[j].0,
        ) by {
            if j > 0 {
                assert(out[j] == list[j]);
            }
        }
    } else {
        let rest = list.drop_first();
        lemma_put_names(rest, key, value);
        let inner = put(rest, key, value);
        assert forall|j: int| 0 <= j < out.len() implies (#[trigger] out[j]).0 == key || has_key(
            list,
            out[j].0,
        ) by {
            if j == 0 {
                assert(out[0] == list[0]);
            } else {
                assert(out[j] == inner[j - 1]);
                if inner[j - 1].0 != key {
                    let i = choose|i: int| 0 <= i < rest.len() && (#[trigger] rest[i]).0 == inner[j
                        - 1].0;
                    assert(list[i + 1] == rest[i]);
                }
            }
        }
    }
}

/// Setting a variable keeps a listing in order: the names stay in strictly
/// ascending order, so that each name is there once.
pub proof fn lemma_put_keeps_order(list: Seq<Pair>, key: Seq<char>, value: Seq<char>)
    requires
        in_order(list),
    ensures
        in_order(put(list, key, value)),
    decreases list.len(),
{
    let out = put(list, key, value);
    if list.len() == 0 {
    } else if key_before(key, list[0].0) {
        assert forall|i: int, j: int| 0 <= i < j < out.len() implies key_before(
            #[trigger] out[i].0,
            #[trigger] out[j].0,
        ) by {
            assert(out[j] == list[j - 1]);
            if i == 0 {
                if j > 1 {
                    lemma_names_are_ordered(key, list[0].0, list[j - 1].0);
                }
            } else {
                assert(out[i] == list[i - 1]);
            }
        }
    } else if key == list[0].0 {
        assert forall|i: int, j: int| 0 <= i < j < out.len() implies key_before(
            #[trigger] out[i].0,
            #[trigger] out[j].0,
        ) by {
            assert(out[j] == list[j]);
            assert(out[i].0 == list[i].0);
        }
    } else {
        let rest = list.drop_first();
        assert(in_order(rest)) by {
            assert forall|i: int, j: int| 0 <= i < j < rest.len() implies key_before(
                #[trigger] rest[i].0,
                #[trigger] rest[j].0,
            ) by {
                assert(rest[i] == list[i + 1]);
                assert(rest[j] == list[j + 1]);
            }
        }
        lemma_put_keeps_order(rest, key, value);
        lemma_put_names(rest, key, value);
        let inner = put(rest, key, value);
        lemma_names_are_ordered(list[0].0, key, key);
        assert forall|i: int, j: int| 0 <= i < j < out.len() implies key_before(
            #[trigger] out[i].0,
            #[trigger] out[j].0,
        ) by {
            assert(out[j] == inner[j - 1]);
            if i == 0 {
                assert(out[0] == list[0]);
                if inner[j - 1].0 != key {
                    let k = choose|k: int| 0 <= k < rest.len() && (#[trigger] rest[k]).0 == inner[j
                        - 1].0;
                    assert(rest[k] == list[k + 1]);
                }
            } else {
                assert(out[i] == inner[i - 1]);
            }
        }
    }
}

/// After a variable is set, the listing holds the new value for its name and
/// what it held before for every other name.
pub proof fn lemma_put_sets(list: Seq<Pair>, key: Seq<char>, value: Seq<char>, other: Seq<char>)
    ensures
        lookup(put(list, key, value), key) == Some(value),
        other != key ==> lookup(put(list, key, value), other) == lookup(list, other),
    decreases list.len(),
{
    let out = put(list, key, value);
    if list.len() == 0 {
        assert(out.drop_first().len() == 0);
        assert(out[0] == (key, value));
        assert(lookup(out.drop_first(), other) is None);
    } else if key_before(key, list[0].0) {
        assert(out.drop_first() == list);
        assert(out[0] == (key, value));
    } else if key == list[0].0 {
        assert(out.drop_first() == list.drop_first());
        assert(out[0] == (key, value));
    } else {
        lemma_put_sets(list.drop_first(), key, value, other);
        assert(out.drop_first() == put(list.drop_first(), key, value));
        assert(out[0] == list[0]);
    }
}

/// Setting several variables keeps a listing in order.
pub proof fn lemma_put_all_keeps_order(list: Seq<Pair>, pairs: Seq<Pair>)
    requires
        in_order(list),
    ensures
        in_order(put_all(list, pairs)),
        in_order(put_named(list, pairs)),
    decreases pairs.len(),
{
    if pairs.len() > 0 {
        lemma_put_keeps_order(list, pairs[0].0, pairs[0].1);
        lemma_put_all_keeps_order(put(list, pairs[0].0, pairs[0].1), pairs.drop_first());
        lemma_put_all_keeps_order(list, pairs.drop_first());
    }
}

/// What an overlay holds for a name: the value of the last of `pairs` that
/// bears this name, provided the name is not blank; else what the listing
/// held.
pub open spec fn overlaid(list: Seq<Pair>, pairs: Seq<Pair>, key: Seq<char>) -> Option<Seq<char>>
    decreases pairs.len(),
{
    if pairs.len() == 0 {
        lookup(list, key)
    } else if pairs.last().0 == key && !blank(key) {
        Some(pairs.last().1)
    } else {
        overlaid(list, pairs.drop_last(), key)
    }
}

proof fn lemma_overlaid_shift(list: Seq<Pair>, first: Pair, rest: Seq<Pair>, key: Seq<char>)
    ensures
        overlaid(list, seq![first] + rest, key) == overlaid(
            if blank(first.0) {
                list
            } else {
                put(list, first.0, first.1)
            },
            rest,
            key,
        ),
    decreases rest.len(),
{
    let all = seq![first] + rest;
    let under = if blank(first.0) {
        list
    } else {
        put(list, first.0, first.1)
    };
    if rest.len() == 0 {
        assert(all.drop_last() == Seq::<Pair>::empty());
        assert(all.last() == first);
        lemma_put_sets(list, first.0, first.1, key);
        assert(overlaid(list, all.drop_last(), key) == lookup(list, key));
        assert(overlaid(under, rest, key) == lookup(under, key));
    } else {
        assert(all.drop_last() == seq![first] + rest.drop_last());
        assert(all.last() == rest.last());
        lemma_overlaid_shift(list, first, rest.drop_last(), key);
    }
}

/// In an overlay a later pair overrides an earlier one and every pair
/// overrides the listing, name by name; pairs with a blank name count for
/// nothing.
pub proof fn lemma_put_named_overlays(list: Seq<Pair>, pairs: Seq<Pair>, key: Seq<char>)
    ensures
        lookup(put_named(list, pairs), key) == overlaid(list, pairs, key),
    decreases pairs.len(),
{
    if pairs.len() > 0 {
        let first = pairs[0];
        let rest = pairs.drop_first();
        assert(pairs == seq![first] + rest);
        lemma_overlaid_shift(list, first, rest, key);
        if blank(first.0) {
            lemma_put_named_overlays(list, rest, key);
        } else {
            lemma_put_named_overlays(put(list, first.0, first.1), rest, key);
        }
    }
}

} // verus!
