//! A document tree for YAML and JSON configuration files, with the map and
//! sequence operations the configuration logic performs on it.
use vstd::prelude::*;

use crate::text::{owned, str_eq};

verus! {

/// A number as YAML and JSON documents hold it: a non-negative integer, a
/// negative integer, or any other number kept in its textual form.
#[derive(Debug, Clone, PartialEq, Eq)]
pub enum Number {
    PosInt(u64),
    NegInt(i64),
    Float(String),
}

/// A YAML or JSON value. A mapping keeps its entries in order; YAML values
/// may carry a tag (`!tag value`).
#[derive(Debug, PartialEq, Eq)]
pub enum Value {
    Null,
    Bool(bool),
    Num(Number),
    Str(String),
    Array(Vec<Value>),
    Mapping(Vec<(Value, Value)>),
    Tagged(String, Box<Value>),
}

/// The mathematical model of a [`Number`].
pub enum NumberModel {
    PosInt(u64),
    NegInt(i64),
    Float(Seq<char>),
}

/// The mathematical model of a [`Value`]: strings become `Seq<char>`.
pub enum Tree {
    Null,
    Bool(bool),
    Num(NumberModel),
    Str(Seq<char>),
    Array(Seq<Tree>),
    Mapping(Seq<(Tree, Tree)>),
    Tagged(Seq<char>, Box<Tree>),
}

impl Number {
    pub open spec fn model(self) -> NumberModel {
        match self {
            Number::PosInt(n) => NumberModel::PosInt(n),
            Number::NegInt(n) => NumberModel::NegInt(n),
            Number::Float(s) => NumberModel::Float(s@),
        }
    }
}

impl Value {
    pub open spec fn model(self) -> Tree
        decreases self,
    {
        match self {
            Value::Null => Tree::Null,
            Value::Bool(b) => Tree::Bool(b),
            Value::Num(n) => Tree::Num(n.model()),
            Value::Str(s) => Tree::Str(s@),
            Value::Array(v) => Tree::Array(models(v@)),
            Value::Mapping(m) => Tree::Mapping(entry_models(m@)),
            Value::Tagged(t, b) => Tree::Tagged(t@, Box::new((*b).model())),
        }
    }
}

/// The models of a sequence of values.
pub open spec fn models(s: Seq<Value>) -> Seq<Tree>
    decreases s,
{
    if s.len() == 0 {
        Seq::empty()
    } else {
        models(s.drop_last()).push(s.last().model())
    }
}

/// The models of a sequence of mapping entries.
pub open spec fn entry_models(s: Seq<(Value, Value)>) -> Seq<(Tree, Tree)>
    decreases s,
{
    if s.len() == 0 {
        Seq::empty()
    } else {
        entry_models(s.drop_last()).push((s.last().0.model(), s.last().1.model()))
    }
}


/// The value a tag wraps, with every tag removed (`untag` in serde_yaml).
pub open spec fn untag(t: Tree) -> Tree
    decreases t,
{
    match t {
        Tree::Tagged(_, b) => untag(*b),
        _ => t,
    }
}

/// The string a value holds, tags aside (`Value::as_str`).
pub open spec fn as_str(t: Tree) -> Option<Seq<char>> {
    match untag(t) {
        Tree::Str(s) => Some(s),
        _ => None,
    }
}

/// Entry `i` of `m` has the string key `k`.
pub open spec fn key_at(m: Seq<(Tree, Tree)>, k: Seq<char>, i: int) -> bool {
    0 <= i < m.len() && m[i].0 == Tree::Str(k)
}

/// `m` has an entry with the string key `k`.
#[verifier::opaque]
pub open spec fn has_key(m: Seq<(Tree, Tree)>, k: Seq<char>) -> bool {
    exists|i: int| key_at(m, k, i)
}

/// The position of the first entry of `m` with the string key `k`.
#[verifier::opaque]
pub open spec fn key_pos(m: Seq<(Tree, Tree)>, k: Seq<char>) -> int {
    choose|i: int| key_at(m, k, i) && forall|j: int| 0 <= j < i ==> !key_at(m, k, j)
}

/// The value under the string key `k` (`Mapping::get`, `Map::get`).
pub open spec fn get_key(m: Seq<(Tree, Tree)>, k: Seq<char>) -> Option<Tree> {
    if has_key(m, k) {
        Some(m[key_pos(m, k)].1)
    } else {
        None
    }
}

/// `m` with `v` under the string key `k`: the value of an existing entry is
/// replaced in place, otherwise the entry is added at the end (`Mapping::insert`).
pub open spec fn insert_key(m: Seq<(Tree, Tree)>, k: Seq<char>, v: Tree) -> Seq<(Tree, Tree)> {
    if has_key(m, k) {
        m.update(key_pos(m, k), (m[key_pos(m, k)].0, v))
    } else {
        m.push((Tree::Str(k), v))
    }
}

/// `m` with a `k` entry holding `v` when it had none (`entry(k).or_insert(v)`).
pub open spec fn ensure_key(m: Seq<(Tree, Tree)>, k: Seq<char>, v: Tree) -> Seq<(Tree, Tree)> {
    if has_key(m, k) {
        m
    } else {
        m.push((Tree::Str(k), v))
    }
}

/// The value under the string key `k` of a mapping value, tags aside (`Value::get`).
pub open spec fn member(t: Tree, k: Seq<char>) -> Option<Tree> {
    match untag(t) {
        Tree::Mapping(m) => get_key(m, k),
        _ => None,
    }
}

pub proof fn lemma_models(s: Seq<Value>)
    ensures
        models(s).len() == s.len(),
        forall|i: int| 0 <= i < s.len() ==> #[trigger] models(s)[i] == s[i].model(),
    decreases s.len(),
{
    if s.len() > 0 {
        lemma_models(s.drop_last());
    }
}

pub proof fn lemma_entry_models(s: Seq<(Value, Value)>)
    ensures
        entry_models(s).len() == s.len(),
        forall|i: int|
            0 <= i < s.len() ==> #[trigger] entry_models(s)[i] == (s[i].0.model(), s[i].1.model()),
    decreases s.len(),
{
    if s.len() > 0 {
        lemma_entry_models(s.drop_last());
    }
}

pub proof fn lemma_models_push(s: Seq<Value>, x: Value)
    ensures
        models(s.push(x)) == models(s).push(x.model()),
{
    assert(s.push(x).drop_last() =~= s);
}

pub proof fn lemma_entry_models_push(s: Seq<(Value, Value)>, x: (Value, Value))
    ensures
        entry_models(s.push(x)) == entry_models(s).push((x.0.model(), x.1.model())),
{
    assert(s.push(x).drop_last() =~= s);
}

pub proof fn lemma_models_concat(a: Seq<Value>, b: Seq<Value>)
    ensures
        models(a + b) == models(a) + models(b),
{
    lemma_models(a);
    lemma_models(b);
    lemma_models(a + b);
    assert(models(a + b) =~= models(a) + models(b));
}

pub proof fn lemma_ensure_key_has(m: Seq<(Tree, Tree)>, k: Seq<char>, v: Tree)
    ensures
        has_key(ensure_key(m, k, v), k),
{
    reveal(has_key);
    if !has_key(m, k) {
        assert(key_at(ensure_key(m, k, v), k, m.len() as int));
    }
}

/// The least position of an entry with the key exists.
pub proof fn lemma_least_key(m: Seq<(Tree, Tree)>, k: Seq<char>, w: int) -> (i: int)
    requires
        key_at(m, k, w),
    ensures
        key_at(m, k, i),
        forall|j: int| 0 <= j < i ==> !key_at(m, k, j),
    decreases w,
{
    if exists|j: int| 0 <= j < w && key_at(m, k, j) {
        let j = choose|j: int| 0 <= j < w && key_at(m, k, j);
        lemma_least_key(m, k, j)
    } else {
        w
    }
}

/// `key_pos` is the first position of the key.
pub proof fn lemma_key_pos_props(m: Seq<(Tree, Tree)>, k: Seq<char>)
    requires
        has_key(m, k),
    ensures
        key_at(m, k, key_pos(m, k)),
        forall|j: int| 0 <= j < key_pos(m, k) ==> !key_at(m, k, j),
{
    reveal(has_key);
    reveal(key_pos);
    let w = choose|w: int| key_at(m, k, w);
    let i = lemma_least_key(m, k, w);
}

/// Reading a key just written gives the value written.
pub proof fn lemma_get_insert(m: Seq<(Tree, Tree)>, k: Seq<char>, v: Tree)
    ensures
        get_key(insert_key(m, k, v), k) == Some(v),
{
    let t = insert_key(m, k, v);
    if has_key(m, k) {
        let p = key_pos(m, k);
        lemma_key_pos_props(m, k);
        assert(key_at(t, k, p));
        assert forall|j: int| 0 <= j < p implies !key_at(t, k, j) by {
            assert(t[j] == m[j]);
            assert(!key_at(m, k, j));
        }
        lemma_key_pos(t, k, p);
    } else {
        let p = m.len() as int;
        assert(key_at(t, k, p));
        assert forall|j: int| 0 <= j < p implies !key_at(t, k, j) by {
            assert(t[j] == m[j]);
            reveal(has_key);
            if key_at(m, k, j) {
                assert(has_key(m, k));
            }
        }
        lemma_key_pos(t, k, p);
    }
}

/// Writing a key leaves the other keys' values as they were.
pub proof fn lemma_get_insert_other(m: Seq<(Tree, Tree)>, k: Seq<char>, k2: Seq<char>, v: Tree)
    requires
        k2 != k,
    ensures
        get_key(insert_key(m, k, v), k2) == get_key(m, k2),
{
    reveal(has_key);
    reveal(key_pos);
    let t = insert_key(m, k, v);
    if has_key(m, k) {
        lemma_key_pos_props(m, k);
    }
    assert forall|j: int| 0 <= j < m.len() implies (key_at(t, k2, j) <==> key_at(m, k2, j)) by {
        if has_key(m, k) && j == key_pos(m, k) {
            assert(key_at(m, k, j));
        }
    }
    if !has_key(m, k) {
        assert(!key_at(t, k2, m.len() as int));
    }
    if has_key(m, k2) {
        let p = key_pos(m, k2);
        lemma_key_pos_props(m, k2);
        assert(key_at(t, k2, p));
        lemma_key_pos(t, k2, p);
        if has_key(m, k) && p == key_pos(m, k) {
            assert(key_at(m, k, p));
        }
    } else {
        if has_key(t, k2) {
            let q = choose|q: int| key_at(t, k2, q);
            if q < m.len() {
                assert(key_at(m, k2, q));
            }
        }
    }
}

/// Replacing the value at a key's position makes it the key's value.
pub proof fn lemma_get_update(m: Seq<(Tree, Tree)>, k: Seq<char>, v: Tree)
    requires
        has_key(m, k),
    ensures
        get_key(m.update(key_pos(m, k), (m[key_pos(m, k)].0, v)), k) == Some(v),
        has_key(m.update(key_pos(m, k), (m[key_pos(m, k)].0, v)), k),
        key_pos(m.update(key_pos(m, k), (m[key_pos(m, k)].0, v)), k) == key_pos(m, k),
{
    let p = key_pos(m, k);
    let t = m.update(p, (m[p].0, v));
    lemma_key_pos_props(m, k);
    assert(key_at(t, k, p));
    assert forall|j: int| 0 <= j < p implies !key_at(t, k, j) by {
        assert(t[j] == m[j]);
        assert(!key_at(m, k, j));
    }
    lemma_key_pos(t, k, p);
}

/// Replacing the value at a key's position leaves the other keys' values.
pub proof fn lemma_get_update_other(m: Seq<(Tree, Tree)>, k: Seq<char>, k2: Seq<char>, v: Tree)
    requires
        has_key(m, k),
        k2 != k,
    ensures
        get_key(m.update(key_pos(m, k), (m[key_pos(m, k)].0, v)), k2) == get_key(m, k2),
{
    reveal(has_key);
    reveal(key_pos);
    lemma_get_insert_other(m, k, k2, v);
}

/// Adding a missing key gives it the value added.
pub proof fn lemma_get_ensure(m: Seq<(Tree, Tree)>, k: Seq<char>, v: Tree)
    ensures
        !has_key(m, k) ==> get_key(ensure_key(m, k, v), k) == Some(v),
        has_key(m, k) ==> get_key(ensure_key(m, k, v), k) == get_key(m, k),
{
    if !has_key(m, k) {
        lemma_get_insert(m, k, v);
    }
}

/// Adding a missing key leaves the other keys' values as they were.
pub proof fn lemma_get_ensure_other(m: Seq<(Tree, Tree)>, k: Seq<char>, k2: Seq<char>, v: Tree)
    requires
        k2 != k,
    ensures
        get_key(ensure_key(m, k, v), k2) == get_key(m, k2),
{
    if !has_key(m, k) {
        lemma_get_insert_other(m, k, k2, v);
    }
}

/// The value under a key is at the key's position.
pub proof fn lemma_get_key_pos(m: Seq<(Tree, Tree)>, k: Seq<char>)
    requires
        has_key(m, k),
    ensures
        get_key(m, k) == Some(m[key_pos(m, k)].1),
        0 <= key_pos(m, k) < m.len(),
{
    lemma_key_pos_props(m, k);
}

/// The value of the first entry, when its key is `k`.
pub proof fn lemma_get_first(m: Seq<(Tree, Tree)>, k: Seq<char>)
    requires
        m.len() > 0,
        m[0].0 == Tree::Str(k),
    ensures
        get_key(m, k) == Some(m[0].1),
{
    lemma_key_pos(m, k, 0);
}

/// The value of the second entry, when its key is `k` and the first's is not.
pub proof fn lemma_get_second(m: Seq<(Tree, Tree)>, k: Seq<char>)
    requires
        m.len() > 1,
        m[1].0 == Tree::Str(k),
        m[0].0 != Tree::Str(k),
    ensures
        get_key(m, k) == Some(m[1].1),
{
    lemma_key_pos(m, k, 1);
}

/// The first index among equal candidates is unique.
pub proof fn lemma_key_pos(m: Seq<(Tree, Tree)>, k: Seq<char>, i: int)
    requires
        key_at(m, k, i),
        forall|j: int| 0 <= j < i ==> !key_at(m, k, j),
    ensures
        has_key(m, k),
        key_pos(m, k) == i,
{
    reveal(has_key);
    reveal(key_pos);
    let p = key_pos(m, k);
    assert(key_at(m, k, p) && forall|j: int| 0 <= j < p ==> !key_at(m, k, j));
    if p < i {
        assert(!key_at(m, k, p));
    } else if p > i {
        assert(!key_at(m, k, i));
    }
}

/// A string value.
pub fn str_value(s: &str) -> (v: Value)
    ensures
        v.model() == Tree::Str(s@),
{
    Value::Str(owned(s))
}

/// Whether `v` is the string `k`, with no tag.
pub fn is_str(v: &Value, k: &str) -> (r: bool)
    ensures
        r == (v.model() == Tree::Str(k@)),
{
    match v {
        Value::Str(s) => str_eq(s.as_str(), k),
        _ => false,
    }
}

/// The position of the first entry of `m` with the string key `k`.
pub fn find_key(m: &Vec<(Value, Value)>, k: &str) -> (r: Option<usize>)
    ensures
        r is Some <==> has_key(entry_models(m@), k@),
        r matches Some(i) ==> i < m.len() && i == key_pos(entry_models(m@), k@),
{
    proof {
        lemma_entry_models(m@);
    }
    let ghost em = entry_models(m@);
    let mut i: usize = 0;
    while i < m.len()
        invariant
            em == entry_models(m@),
            em.len() == m.len(),
            forall|j: int| 0 <= j < m.len() ==> #[trigger] em[j] == (m@[j].0.model(), m@[j].1.model()),
            0 <= i <= m.len(),
            forall|j: int| 0 <= j < i ==> !key_at(em, k@, j),
        decreases m.len() - i,
    {
        if is_str(&m[i].0, k) {
            proof {
                lemma_key_pos(em, k@, i as int);
            }
            return Some(i);
        }
        i += 1;
    }
    proof {
        reveal(has_key);
    }
    None
}

/// `m` with `v` under the string key `k` (`Mapping::insert`).
pub fn insert_entry(m: &mut Vec<(Value, Value)>, k: &str, v: Value)
    ensures
        entry_models(final(m)@) == insert_key(entry_models(old(m)@), k@, v.model()),
{
    proof {
        lemma_entry_models(m@);
    }
    let ghost em = entry_models(m@);
    match find_key(m, k) {
        Some(i) => {
            let (key, _old) = m.remove(i);
            m.insert(i, (key, v));
            proof {
                lemma_entry_models(m@);
                assert(entry_models(m@) =~= em.update(i as int, (em[i as int].0, v.model())));
            }
        },
        None => {
            m.push((str_value(k), v));
            proof {
                lemma_entry_models(m@);
                assert(entry_models(m@) =~= em.push((Tree::Str(k@), v.model())));
            }
        },
    }
}

/// `m` with a `k` entry holding `v` when it had none.
pub fn ensure_entry(m: &mut Vec<(Value, Value)>, k: &str, v: Value)
    ensures
        entry_models(final(m)@) == ensure_key(entry_models(old(m)@), k@, v.model()),
{
    proof {
        lemma_entry_models(m@);
    }
    let ghost em = entry_models(m@);
    match find_key(m, k) {
        Some(_) => {},
        None => {
            m.push((str_value(k), v));
            proof {
                lemma_entry_models(m@);
                assert(entry_models(m@) =~= em.push((Tree::Str(k@), v.model())));
            }
        },
    }
}

/// The value under the string key `k` of `m`.
pub fn get_entry<'a>(m: &'a Vec<(Value, Value)>, k: &str) -> (r: Option<&'a Value>)
    ensures
        r is Some <==> get_key(entry_models(m@), k@) is Some,
        r matches Some(v) ==> get_key(entry_models(m@), k@) == Some(v.model()),
{
    proof {
        lemma_entry_models(m@);
    }
    match find_key(m, k) {
        Some(i) => Some(&m[i].1),
        None => None,
    }
}

/// The value `v` wraps, tags removed.
pub fn untagged(v: &Value) -> (r: &Value)
    ensures
        r.model() == untag(v.model()),
    decreases v,
{
    match v {
        Value::Tagged(_, b) => untagged(b),
        _ => v,
    }
}

/// Whether the value under the string key `k` of `m` is the untagged string `expected`.
pub fn entry_is_str(m: &Vec<(Value, Value)>, k: &str, expected: &str) -> (r: bool)
    ensures
        r == (get_key(entry_models(m@), k@) == Some(Tree::Str(expected@))),
{
    match get_entry(m, k) {
        Some(v) => is_str(v, expected),
        None => false,
    }
}

/// The value under the string key `k` of a mapping value (`Value::get`).
pub fn member_of<'a>(v: &'a Value, k: &str) -> (r: Option<&'a Value>)
    ensures
        r is Some <==> member(v.model(), k@) is Some,
        r matches Some(x) ==> member(v.model(), k@) == Some(x.model()),
{
    match untagged(v) {
        Value::Mapping(m) => get_entry(m, k),
        _ => None,
    }
}

/// The string a value holds, tags aside (`Value::as_str`).
pub fn str_of(v: &Value) -> (r: Option<&String>)
    ensures
        r is Some <==> as_str(v.model()) is Some,
        r matches Some(s) ==> as_str(v.model()) == Some(s@),
{
    match untagged(v) {
        Value::Str(s) => Some(s),
        _ => None,
    }
}

} // verus!
