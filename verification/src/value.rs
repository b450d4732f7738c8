//! The values that plans and variable stores are made of, their mathematical
//! model, and the ordered string-keyed map that holds them.

use vstd::prelude::*;
use crate::text::{
    all_digits, append_chars, chars_of, decimal_text, digits_value, format_i64,
    lemma_text_lt_order, parse_digits, precedes, string_of, text_lt,
};

verus! {

/// The mathematical model of a `Value`.
pub enum Json {
    Null,
    Bool(bool),
    Integer(i64),
    /// A number that is no `i64`, as its decimal text.
    Real(Seq<char>),
    Text(Seq<char>),
    Array(Seq<Json>),
    /// The members, as they are written out. Storing under a key keeps members
    /// that are in the order of their keys in that order.
    Object(Seq<(Seq<char>, Json)>),
}

/// A value of a plan document or of a variable store.
#[derive(Debug, PartialEq, Eq)]
pub enum Value {
    Null,
    Bool(bool),
    Integer(i64),
    /// A number that is no `i64`, as its decimal text.
    Real(String),
    Text(String),
    Array(Vec<Value>),
    /// The members, as they are written out. Storing under a key keeps members
    /// that are in the order of their keys in that order.
    Object(Vec<(String, Value)>),
}

/// The model of a value: the same shape, with sequences for vectors and strings.
pub open spec fn model_of(v: Value) -> Json
    decreases v,
{
    match v {
        Value::Null => Json::Null,
        Value::Bool(b) => Json::Bool(b),
        Value::Integer(n) => Json::Integer(n),
        Value::Real(s) => Json::Real(s@),
        Value::Text(s) => Json::Text(s@),
        Value::Array(items) => Json::Array(
            Seq::new(
                items@.len(),
                |i: int|
                    if 0 <= i < items@.len() {
                        model_of(items@[i])
                    } else {
                        Json::Null
                    },
            ),
        ),
        Value::Object(entries) => Json::Object(
            Seq::new(
                entries@.len(),
                |i: int|
                    if 0 <= i < entries@.len() {
                        (entries@[i].0@, model_of(entries@[i].1))
                    } else {
                        (Seq::empty(), Json::Null)
                    },
            ),
        ),
    }
}

impl View for Value {
    type V = Json;

    open spec fn view(&self) -> Json {
        model_of(*self)
    }
}

/// The models of the items of an array.
pub open spec fn items_model(items: Seq<Value>) -> Seq<Json> {
    Seq::new(items.len(), |i: int| items[i]@)
}

/// The models of the members of an object.
pub open spec fn entries_model(entries: Seq<(String, Value)>) -> Seq<(Seq<char>, Json)> {
    Seq::new(entries.len(), |i: int| (entries[i].0@, entries[i].1@))
}

/// The character sequences that a vector of character vectors holds.
pub open spec fn texts(v: Seq<Vec<char>>) -> Seq<Seq<char>> {
    Seq::new(v.len(), |i: int| v[i]@)
}

/// The character sequences that a vector of strings holds.
pub open spec fn strings(v: Seq<String>) -> Seq<Seq<char>> {
    Seq::new(v.len(), |i: int| v[i]@)
}

/// The model of an array is the array of the models of its items.
pub proof fn lemma_array_view(v: Value)
    requires
        v is Array,
    ensures
        v@ == Json::Array(items_model(v->Array_0@)),
{
    reveal_with_fuel(model_of, 2);
    assert(v@->Array_0 =~= items_model(v->Array_0@));
}

/// The model of an object is the object of the models of its members.
pub proof fn lemma_object_view(v: Value)
    requires
        v is Object,
    ensures
        v@ == Json::Object(entries_model(v->Object_0@)),
{
    reveal_with_fuel(model_of, 2);
    assert(v@->Object_0 =~= entries_model(v->Object_0@));
}

/// The value of the first member whose key is `key`.
pub open spec fn entries_get(entries: Seq<(Seq<char>, Json)>, key: Seq<char>) -> Option<Json>
    decreases entries.len(),
{
    if entries.len() == 0 {
        None
    } else if entries[0].0 == key {
        Some(entries[0].1)
    } else {
        entries_get(entries.drop_first(), key)
    }
}

/// Where `key` belongs among the members: the position of the first member
/// whose key does not come before `key` in the order of strings, or the end.
pub open spec fn entries_slot(entries: Seq<(Seq<char>, Json)>, key: Seq<char>) -> int
    decreases entries.len(),
{
    if entries.len() == 0 {
        0
    } else if text_lt(entries[0].0, key) {
        1 + entries_slot(entries.drop_first(), key)
    } else {
        0
    }
}

/// The members after `key` was given `value`: the member where `key` belongs
/// has the new value where its key is `key`, and else a new member stands
/// before it. Members that are in the order of their keys stay so.
pub open spec fn entries_insert(
    entries: Seq<(Seq<char>, Json)>,
    key: Seq<char>,
    value: Json,
) -> Seq<(Seq<char>, Json)> {
    let i = entries_slot(entries, key);
    if i < entries.len() && entries[i].0 == key {
        entries.update(i, (key, value))
    } else {
        entries.insert(i, (key, value))
    }
}

/// Whether the members are in the order of their keys, no key twice.
pub open spec fn ascending_keys(entries: Seq<(Seq<char>, Json)>) -> bool {
    forall|i: int, j: int|
        0 <= i < j < entries.len() ==> text_lt(#[trigger] entries[i].0, #[trigger] entries[j].0)
}

/// Where a key belongs, all members before it have lesser keys, and the member
/// there, if any, has none.
pub proof fn lemma_entries_slot(entries: Seq<(Seq<char>, Json)>, key: Seq<char>)
    ensures
        0 <= entries_slot(entries, key) <= entries.len(),
        forall|j: int|
            0 <= j < entries_slot(entries, key) ==> text_lt(#[trigger] entries[j].0, key),
        entries_slot(entries, key) < entries.len() ==> !text_lt(
            entries[entries_slot(entries, key)].0,
            key,
        ),
    decreases entries.len(),
{
    if entries.len() > 0 && text_lt(entries[0].0, key) {
        let rest = entries.drop_first();
        lemma_entries_slot(rest, key);
        assert forall|j: int| 0 <= j < entries_slot(entries, key) implies text_lt(
            #[trigger] entries[j].0,
            key,
        ) by {
            if j > 0 {
                assert(rest[j - 1] == entries[j]);
            }
        }
        if entries_slot(entries, key) < entries.len() {
            assert(rest[entries_slot(rest, key)] == entries[entries_slot(entries, key)]);
        }
    }
}

/// The position of the first member whose key is `key`.
pub open spec fn entries_position(entries: Seq<(Seq<char>, Json)>, key: Seq<char>) -> Option<
    int,
>
    decreases entries.len(),
{
    if entries.len() == 0 {
        None
    } else if entries[0].0 == key {
        Some(0int)
    } else {
        match entries_position(entries.drop_first(), key) {
            Some(i) => Some(i + 1),
            None => None,
        }
    }
}

/// The position of a key is that of the member that looking the key up finds.
pub proof fn lemma_entries_position(entries: Seq<(Seq<char>, Json)>, key: Seq<char>)
    ensures
        match entries_position(entries, key) {
            Some(i) => 0 <= i < entries.len() && entries[i].0 == key && entries_get(
                entries,
                key,
            ) == Some(entries[i].1) && (forall|j: int| 0 <= j < i ==> entries[j].0 != key),
            None => entries_get(entries, key) is None && (forall|j: int|
                0 <= j < entries.len() ==> entries[j].0 != key),
        },
    decreases entries.len(),
{
    if entries.len() > 0 && entries[0].0 != key {
        let rest = entries.drop_first();
        lemma_entries_position(rest, key);
        match entries_position(rest, key) {
            Some(i) => {
                assert(rest[i] == entries[i + 1]);
                assert forall|j: int| 0 <= j < i + 1 implies entries[j].0 != key by {
                    if j > 0 {
                        assert(rest[j - 1] == entries[j]);
                    }
                }
            },
            None => {
                assert forall|j: int| 0 <= j < entries.len() implies entries[j].0 != key by {
                    if j > 0 {
                        assert(rest[j - 1] == entries[j]);
                    }
                }
            },
        }
    }
}

/// The first member with the key `key` is what looking `key` up finds.
pub proof fn lemma_entries_get_at(entries: Seq<(Seq<char>, Json)>, key: Seq<char>, i: int)
    requires
        0 <= i < entries.len(),
        entries[i].0 == key,
        forall|j: int| 0 <= j < i ==> entries[j].0 != key,
    ensures
        entries_get(entries, key) == Some(entries[i].1),
    decreases i,
{
    if i > 0 {
        let rest = entries.drop_first();
        assert(rest[i - 1] == entries[i]);
        assert forall|j: int| 0 <= j < i - 1 implies rest[j].0 != key by {
            assert(rest[j] == entries[j + 1]);
        }
        lemma_entries_get_at(rest, key, i - 1);
    }
}

/// What was stored under a key is what looking the key up finds, and what is
/// found under any other key is what was found before.
pub proof fn law_get_after_insert(
    entries: Seq<(Seq<char>, Json)>,
    key: Seq<char>,
    value: Json,
    other: Seq<char>,
)
    ensures
        entries_get(entries_insert(entries, key, value), key) == Some(value),
        other != key ==> entries_get(entries_insert(entries, key, value), other) == entries_get(
            entries,
            other,
        ),
{
    let after = entries_insert(entries, key, value);
    let i = entries_slot(entries, key);
    lemma_entries_slot(entries, key);
    assert(after[i] == (key, value));
    assert forall|j: int| 0 <= j < i implies after[j].0 != key by {
        assert(after[j] == entries[j]);
        lemma_text_lt_order(entries[j].0, key, key);
    }
    lemma_entries_get_at(after, key, i);
    if other != key {
        lemma_entries_position(entries, other);
        lemma_entries_position(after, other);
        let replaced = i < entries.len() && entries[i].0 == key;
        match entries_position(entries, other) {
            Some(p) => {
                let q = if replaced || p < i {
                    p
                } else {
                    p + 1
                };
                assert(after[q] == entries[p]);
                assert forall|j: int| 0 <= j < q implies after[j].0 != other by {
                    if j < i {
                        assert(after[j] == entries[j]);
                    } else if j > i {
                        if replaced {
                            assert(after[j] == entries[j]);
                        } else {
                            assert(after[j] == entries[j - 1]);
                        }
                    }
                }
                lemma_entries_get_at(after, other, q);
            },
            None => {
                match entries_position(after, other) {
                    Some(q) => {
                        if q < i {
                            assert(after[q] == entries[q]);
                        } else if q > i {
                            if replaced {
                                assert(after[q] == entries[q]);
                            } else {
                                assert(after[q] == entries[q - 1]);
                            }
                        }
                    },
                    None => {},
                }
            },
        }
    }
}

/// Members that are in the order of their keys are so after a key was given a
/// value.
pub proof fn law_insert_keeps_order(entries: Seq<(Seq<char>, Json)>, key: Seq<char>, value: Json)
    requires
        ascending_keys(entries),
    ensures
        ascending_keys(entries_insert(entries, key, value)),
{
    let after = entries_insert(entries, key, value);
    let i = entries_slot(entries, key);
    lemma_entries_slot(entries, key);
    let replaced = i < entries.len() && entries[i].0 == key;
    assert forall|x: int, y: int| 0 <= x < y < after.len() implies text_lt(
        #[trigger] after[x].0,
        #[trigger] after[y].0,
    ) by {
        if replaced {
            assert(after[x].0 == entries[x].0 && after[y].0 == entries[y].0);
        } else {
            if i < entries.len() {
                lemma_text_lt_order(entries[i].0, key, key);
                assert(text_lt(key, entries[i].0));
            }
            if y < i {
                assert(after[x] == entries[x] && after[y] == entries[y]);
            } else if y == i {
                assert(after[x] == entries[x]);
            } else if x == i {
                assert(after[y] == entries[y - 1]);
                if y - 1 > i {
                    assert(text_lt(entries[i].0, entries[y - 1].0));
                    lemma_text_lt_order(key, entries[i].0, entries[y - 1].0);
                }
            } else if x < i {
                assert(after[x] == entries[x] && after[y] == entries[y - 1]);
                assert(text_lt(entries[x].0, entries[y - 1].0));
            } else {
                assert(after[x] == entries[x - 1] && after[y] == entries[y - 1]);
                assert(text_lt(entries[x - 1].0, entries[y - 1].0));
            }
        }
    }
}

/// The position of the first member of `entries` whose key is `key`.
pub fn position_of(entries: &Vec<(String, Value)>, key: &str) -> (r: Option<usize>)
    ensures
        match r {
            Some(i) => entries_position(entries_model(entries@), key@) == Some(i as int),
            None => entries_position(entries_model(entries@), key@) is None,
        },
{
    let wanted = key.to_owned();
    let ghost model = entries_model(entries@);
    let mut i: usize = 0;
    assert(model.skip(0) == model);
    while i < entries.len()
        invariant
            i <= entries.len(),
            model == entries_model(entries@),
            wanted@ == key@,
            match entries_position(model.skip(i as int), key@) {
                Some(k) => entries_position(model, key@) == Some(k + i),
                None => entries_position(model, key@) is None,
            },
        decreases entries.len() - i,
    {
        assert(model.skip(i as int)[0] == model[i as int]);
        if entries[i].0 == wanted {
            return Some(i);
        }
        assert(model.skip(i as int).drop_first() == model.skip(i + 1));
        i += 1;
    }
    None
}

/// Members that were stored one after the other are in the order of their
/// keys, no key twice.
pub proof fn law_stored_is_ascending(members: Seq<(Seq<char>, Json)>, n: nat)
    ensures
        ascending_keys(stored(members, n)),
    decreases n,
{
    if n > 0 && n <= members.len() {
        law_stored_is_ascending(members, (n - 1) as nat);
        law_insert_keeps_order(
            stored(members, (n - 1) as nat),
            members[n - 1].0,
            members[n - 1].1,
        );
    }
}

/// Where `key` belongs among `entries`.
fn slot_of(entries: &Vec<(String, Value)>, key: &str) -> (r: usize)
    ensures
        r == entries_slot(entries_model(entries@), key@),
        r <= entries.len(),
{
    let wanted = chars_of(key);
    let ghost model = entries_model(entries@);
    let mut i: usize = 0;
    assert(model.skip(0) == model);
    while i < entries.len() && precedes(&chars_of(entries[i].0.as_str()), &wanted)
        invariant
            i <= entries.len(),
            wanted@ == key@,
            model == entries_model(entries@),
            entries_slot(model, key@) == i + entries_slot(model.skip(i as int), key@),
        decreases entries.len() - i,
    {
        assert(model.skip(i as int)[0] == model[i as int]);
        assert(model.skip(i as int).drop_first() == model.skip(i + 1));
        i += 1;
    }
    proof {
        if i < entries.len() {
            assert(model.skip(i as int)[0] == model[i as int]);
        }
    }
    i
}

/// Gives `key` the value `value` among `entries`.
pub fn insert_entry(entries: &mut Vec<(String, Value)>, key: String, value: Value)
    ensures
        entries_model(final(entries)@) == entries_insert(
            entries_model(old(entries)@),
            key@,
            value@,
        ),
{
    let ghost before = entries_model(entries@);
    let i = slot_of(entries, key.as_str());
    if i < entries.len() && entries[i].0 == key {
        entries.set(i, (key, value));
        assert(entries_model(entries@) =~= before.update(i as int, (key@, value@)));
    } else {
        entries.insert(i, (key, value));
        assert(entries_model(entries@) =~= before.insert(i as int, (key@, value@)));
    }
}

/// The object with the members `members`, stored one after the other.
pub fn object_of(members: Vec<(String, Value)>) -> (r: Value)
    ensures
        r@ == Json::Object(stored(entries_model(members@), members@.len())),
{
    let mut entries: Vec<(String, Value)> = Vec::new();
    let mut i: usize = 0;
    assert(entries_model(entries@) =~= Seq::<(Seq<char>, Json)>::empty());
    while i < members.len()
        invariant
            i <= members.len(),
            entries_model(entries@) == stored(entries_model(members@), i as nat),
        decreases members.len() - i,
    {
        insert_entry(&mut entries, members[i].0.clone(), members[i].1.clone());
        i += 1;
    }
    let r = Value::Object(entries);
    proof {
        lemma_object_view(r);
    }
    r
}

/// The members that hold the first `n` of `members`, stored one after the
/// other: in the order of their keys, and of two with one key the later one.
pub open spec fn stored(members: Seq<(Seq<char>, Json)>, n: nat) -> Seq<(Seq<char>, Json)>
    decreases n,
{
    if n == 0 || n > members.len() {
        Seq::empty()
    } else {
        entries_insert(stored(members, (n - 1) as nat), members[n - 1].0, members[n - 1].1)
    }
}

/// The value of the first member of `entries` whose key is `key`.
pub fn member<'a>(entries: &'a Vec<(String, Value)>, key: &str) -> (r: Option<&'a Value>)
    ensures
        match r {
            Some(v) => entries_get(entries_model(entries@), key@) == Some(v@),
            None => entries_get(entries_model(entries@), key@) is None,
        },
{
    proof {
        lemma_entries_position(entries_model(entries@), key@);
    }
    match position_of(entries, key) {
        Some(i) => Some(&entries[i].1),
        None => None,
    }
}

/// The array index that a path segment stands for: decimal digits without a
/// sign and without a leading zero, but for `0` itself.
pub open spec fn index_of_token(token: Seq<char>) -> Option<nat> {
    if all_digits(token) && (token.len() == 1 || token[0] != '0') {
        Some(digits_value(token))
    } else {
        None
    }
}

/// What one path segment selects in a value: the member of that name in an
/// object, the item at that index in an array, nothing elsewhere.
pub open spec fn step_into(j: Json, token: Seq<char>) -> Option<Json> {
    match j {
        Json::Object(entries) => entries_get(entries, token),
        Json::Array(items) => match index_of_token(token) {
            Some(n) => if n < items.len() {
                Some(items[n as int])
            } else {
                None
            },
            None => None,
        },
        _ => None,
    }
}

/// What a sequence of path segments selects, taken one after the other.
pub open spec fn walk(j: Json, tokens: Seq<Seq<char>>) -> Option<Json>
    decreases tokens.len(),
{
    if tokens.len() == 0 {
        Some(j)
    } else {
        match step_into(j, tokens[0]) {
            Some(next) => walk(next, tokens.drop_first()),
            None => None,
        }
    }
}

impl Value {
    /// What the path segment `token` selects in this value.
    pub fn select(&self, token: &Vec<char>) -> (r: Option<&Value>)
        ensures
            match r {
                Some(v) => step_into(self@, token@) == Some(v@),
                None => step_into(self@, token@) is None,
            },
    {
        match self {
            Value::Object(entries) => {
                proof {
                    lemma_object_view(*self);
                }
                let key = string_of(token);
                member(entries, key.as_str())
            },
            Value::Array(items) => {
                proof {
                    lemma_array_view(*self);
                }
                if token.len() == 0 || (token[0] == '0' && token.len() != 1) {
                    return None;
                }
                assert(token@.skip(0) == token@);
                match parse_digits(token, 0, usize::MAX as u64) {
                    Some(n) => {
                        if n < items.len() as u64 {
                            return Some(&items[n as usize]);
                        } else {
                            return None;
                        }
                    },
                    None => {
                        assert(items.len() <= usize::MAX);
                        return None;
                    },
                }
            },
            _ => None,
        }
    }

    /// What the path segments `tokens[from..]` select, starting at this value.
    pub fn descend(&self, tokens: &Vec<Vec<char>>, from: usize) -> (r: Option<&Value>)
        requires
            from <= tokens.len(),
        ensures
            match r {
                Some(v) => walk(self@, texts(tokens@).skip(from as int)) == Some(v@),
                None => walk(self@, texts(tokens@).skip(from as int)) is None,
            },
    {
        let mut current: &Value = self;
        let mut i: usize = from;
        while i < tokens.len()
            invariant
                from <= i <= tokens.len(),
                walk(self@, texts(tokens@).skip(from as int)) == walk(
                    current@,
                    texts(tokens@).skip(i as int),
                ),
            decreases tokens.len() - i,
        {
            assert(texts(tokens@).skip(i as int)[0] == tokens@[i as int]@);
            assert(texts(tokens@).skip(i as int).drop_first() == texts(tokens@).skip(i + 1));
            match current.select(&tokens[i]) {
                Some(next) => {
                    current = next;
                },
                None => {
                    return None;
                },
            }
            i += 1;
        }
        Some(current)
    }
}

impl Clone for Value {
    #[verifier::loop_isolation(false)]
    fn clone(&self) -> (r: Value)
        ensures
            r@ == self@,
        decreases self,
    {
        match self {
            Value::Null => Value::Null,
            Value::Bool(b) => Value::Bool(*b),
            Value::Integer(n) => Value::Integer(*n),
            Value::Real(s) => Value::Real(s.clone()),
            Value::Text(s) => Value::Text(s.clone()),
            Value::Array(items) => {
                let mut out: Vec<Value> = Vec::new();
                let mut i: usize = 0;
                while i < items.len()
                    invariant
                        i <= items.len(),
                        out@.len() == i,
                        forall|j: int| 0 <= j < i ==> out@[j]@ == items@[j]@,
                    decreases items.len() - i,
                {
                    out.push(items[i].clone());
                    i += 1;
                }
                let r = Value::Array(out);
                proof {
                    lemma_array_view(r);
                    lemma_array_view(*self);
                    assert(items_model(out@) =~= items_model(items@));
                }
                r
            },
            Value::Object(entries) => {
                let mut out: Vec<(String, Value)> = Vec::new();
                let mut i: usize = 0;
                while i < entries.len()
                    invariant
                        i <= entries.len(),
                        out@.len() == i,
                        forall|j: int|
                            0 <= j < i ==> out@[j].0@ == entries@[j].0@ && out@[j].1@
                                == entries@[j].1@,
                    decreases entries.len() - i,
                {
                    out.push((entries[i].0.clone(), entries[i].1.clone()));
                    i += 1;
                }
                let r = Value::Object(out);
                proof {
                    lemma_object_view(r);
                    lemma_object_view(*self);
                    assert(entries_model(out@) =~= entries_model(entries@));
                }
                r
            },
        }
    }
}

/// A copy of the members `entries`.
pub fn clone_entries(entries: &Vec<(String, Value)>) -> (r: Vec<(String, Value)>)
    ensures
        entries_model(r@) == entries_model(entries@),
{
    let mut out: Vec<(String, Value)> = Vec::new();
    let mut i: usize = 0;
    while i < entries.len()
        invariant
            i <= entries.len(),
            out@.len() == i,
            forall|j: int|
                0 <= j < i ==> out@[j].0@ == entries@[j].0@ && out@[j].1@ == entries@[j].1@,
        decreases entries.len() - i,
    {
        out.push((entries[i].0.clone(), entries[i].1.clone()));
        i += 1;
    }
    assert(entries_model(out@) =~= entries_model(entries@));
    out
}

/// The variable store of one iteration: a map from names to values, in the
/// order of the names.
#[derive(Debug, PartialEq, Eq)]
pub struct Context {
    pub entries: Vec<(String, Value)>,
}

impl View for Context {
    type V = Seq<(Seq<char>, Json)>;

    open spec fn view(&self) -> Seq<(Seq<char>, Json)> {
        entries_model(self.entries@)
    }
}

impl Context {
    /// An empty store.
    pub fn new() -> (r: Context)
        ensures
            r@ == Seq::<(Seq<char>, Json)>::empty(),
    {
        let r = Context { entries: Vec::new() };
        assert(r@ =~= Seq::<(Seq<char>, Json)>::empty());
        r
    }

    /// How many names the store holds.
    pub fn len(&self) -> (r: usize)
        ensures
            r == self@.len(),
    {
        self.entries.len()
    }

    /// The value stored under `key`.
    pub fn get(&self, key: &str) -> (r: Option<&Value>)
        ensures
            match r {
                Some(v) => entries_get(self@, key@) == Some(v@),
                None => entries_get(self@, key@) is None,
            },
    {
        member(&self.entries, key)
    }

    /// Stores `value` under `key`, in place of what was stored there.
    pub fn insert(&mut self, key: String, value: Value)
        ensures
            final(self)@ == entries_insert(old(self)@, key@, value@),
    {
        insert_entry(&mut self.entries, key, value);
    }
}

impl Clone for Context {
    fn clone(&self) -> (r: Context)
        ensures
            r@ == self@,
    {
        let mut out: Vec<(String, Value)> = Vec::new();
        let mut i: usize = 0;
        while i < self.entries.len()
            invariant
                i <= self.entries.len(),
                out@.len() == i,
                forall|j: int|
                    0 <= j < i ==> out@[j].0@ == self.entries@[j].0@ && out@[j].1@
                        == self.entries@[j].1@,
            decreases self.entries.len() - i,
        {
            out.push((self.entries[i].0.clone(), self.entries[i].1.clone()));
            i += 1;
        }
        let r = Context { entries: out };
        assert(r@ =~= self@);
        r
    }
}


/// What `serde_json::to_string` makes of a string: the string as JSON text,
/// between double quotes, with the characters escaped that JSON wants escaped.
pub uninterp spec fn json_quoted(s: Seq<char>) -> Seq<char>;

/// `serde_json::to_string` of a string: the JSON text of the string, which
/// depends on its characters alone. Writing a string cannot fail.
#[verifier::external_body]
pub(crate) fn quote(s: &str) -> (r: String)
    ensures
        r@ == json_quoted(s@),
{
    serde_json::to_string(s).unwrap_or_default()
}

/// The compact JSON text of a value: no white space between the tokens. A
/// string is written as the JSON library writes it.
pub open spec fn json_text(j: Json) -> Seq<char>
    decreases j, 0nat,
{
    match j {
        Json::Null => seq!['n', 'u', 'l', 'l'],
        Json::Bool(b) => if b {
            seq!['t', 'r', 'u', 'e']
        } else {
            seq!['f', 'a', 'l', 's', 'e']
        },
        Json::Integer(n) => decimal_text(n as int),
        Json::Real(t) => t,
        Json::Text(t) => json_quoted(t),
        Json::Array(items) => seq!['['] + items_text(items, items.len()) + seq![']'],
        Json::Object(entries) => seq!['{'] + members_text(entries, entries.len()) + seq!['}'],
    }
}

/// The JSON texts of the first `n` items, with a comma between two of them.
pub open spec fn items_text(items: Seq<Json>, n: nat) -> Seq<char>
    decreases items, n,
{
    if n == 0 || n > items.len() {
        Seq::<char>::empty()
    } else if n == 1 {
        json_text(items[0])
    } else {
        items_text(items, (n - 1) as nat) + seq![','] + json_text(items[n - 1])
    }
}

/// The JSON texts of the first `n` members, each as its quoted key, a colon and
/// its value, with a comma between two of them.
pub open spec fn members_text(entries: Seq<(Seq<char>, Json)>, n: nat) -> Seq<char>
    decreases entries, n,
{
    if n == 0 || n > entries.len() {
        Seq::<char>::empty()
    } else if n == 1 {
        json_quoted(entries[0].0) + seq![':'] + json_text(entries[0].1)
    } else {
        members_text(entries, (n - 1) as nat) + seq![','] + json_quoted(entries[n - 1].0)
            + seq![':'] + json_text(entries[n - 1].1)
    }
}

/// The text that stands for a value where it is put into a template: nothing
/// for null, the word for a boolean, the decimal text of a number, a string as
/// it is, and the compact JSON text of an array or an object.
pub open spec fn display_text(j: Json) -> Seq<char> {
    match j {
        Json::Null => Seq::<char>::empty(),
        Json::Text(t) => t,
        _ => json_text(j),
    }
}

/// Appends `s` as a JSON string.
pub fn push_quoted(out: &mut Vec<char>, s: &str)
    ensures
        final(out)@ == old(out)@ + json_quoted(s@),
{
    let quoted = quote(s);
    let chars = chars_of(quoted.as_str());
    append_chars(out, &chars);
}

/// Appends the word for `b`.
fn push_bool(out: &mut Vec<char>, b: bool)
    ensures
        final(out)@ == old(out)@ + json_text(Json::Bool(b)),
{
    if b {
        out.push('t');
        out.push('r');
        out.push('u');
        out.push('e');
    } else {
        out.push('f');
        out.push('a');
        out.push('l');
        out.push('s');
        out.push('e');
    }
    assert(out@ =~= old(out)@ + json_text(Json::Bool(b)));
}

/// Appends the word `null`.
fn push_null(out: &mut Vec<char>)
    ensures
        final(out)@ == old(out)@ + json_text(Json::Null),
{
    out.push('n');
    out.push('u');
    out.push('l');
    out.push('l');
    assert(out@ =~= old(out)@ + json_text(Json::Null));
}

proof fn lemma_items_text_next(prefix: Seq<char>, items: Seq<Json>, i: nat)
    requires
        i < items.len(),
    ensures
        i == 0 ==> prefix + items_text(items, i) + json_text(items[i as int]) == prefix
            + items_text(items, i + 1),
        i > 0 ==> (prefix + items_text(items, i)).push(',') + json_text(items[i as int])
            == prefix + items_text(items, i + 1),
{
    if i == 0 {
        assert(prefix + items_text(items, i) + json_text(items[i as int]) =~= prefix
            + items_text(items, i + 1));
    } else {
        assert((prefix + items_text(items, i)).push(',') + json_text(items[i as int]) =~= prefix
            + items_text(items, i + 1));
    }
}

proof fn lemma_members_text_next(prefix: Seq<char>, entries: Seq<(Seq<char>, Json)>, i: nat)
    requires
        i < entries.len(),
    ensures
        i == 0 ==> (prefix + members_text(entries, i) + json_quoted(entries[i as int].0)).push(
            ':',
        ) + json_text(entries[i as int].1) == prefix + members_text(entries, i + 1),
        i > 0 ==> ((prefix + members_text(entries, i)).push(',') + json_quoted(
            entries[i as int].0,
        )).push(':') + json_text(entries[i as int].1) == prefix + members_text(entries, i + 1),
{
    if i == 0 {
        assert((prefix + members_text(entries, i) + json_quoted(entries[i as int].0)).push(':')
            + json_text(entries[i as int].1) =~= prefix + members_text(entries, i + 1));
    } else {
        assert(((prefix + members_text(entries, i)).push(',') + json_quoted(
            entries[i as int].0,
        )).push(':') + json_text(entries[i as int].1) =~= prefix + members_text(
            entries,
            i + 1,
        ));
    }
}

impl Value {
    /// Appends the compact JSON text of this value.
    pub fn write_json(&self, out: &mut Vec<char>)
        ensures
            final(out)@ == old(out)@ + json_text(self@),
        decreases self,
    {
        match self {
            Value::Null => {
                push_null(out);
            },
            Value::Bool(b) => {
                push_bool(out, *b);
            },
            Value::Integer(n) => {
                let digits = format_i64(*n);
                append_chars(out, &digits);
            },
            Value::Real(t) => {
                let v = chars_of(t.as_str());
                append_chars(out, &v);
            },
            Value::Text(t) => {
                push_quoted(out, t.as_str());
            },
            Value::Array(items) => {
                proof {
                    lemma_array_view(*self);
                }
                let ghost model = items_model(items@);
                out.push('[');
                let ghost prefix = out@;
                let mut i: usize = 0;
                assert(out@ =~= prefix + items_text(model, 0));
                while i < items.len()
                    invariant
                        i <= items.len(),
                        self is Array,
                        self->Array_0 == *items,
                        model == items_model(items@),
                        out@ == prefix + items_text(model, i as nat),
                    decreases items.len() - i,
                {
                    if i > 0 {
                        out.push(',');
                    }
                    items[i].write_json(out);
                    proof {
                        assert(model[i as int] == items@[i as int]@);
                        lemma_items_text_next(prefix, model, i as nat);
                    }
                    i += 1;
                }
                out.push(']');
                assert(out@ =~= old(out)@ + json_text(self@));
            },
            Value::Object(entries) => {
                proof {
                    lemma_object_view(*self);
                }
                let ghost model = entries_model(entries@);
                out.push('{');
                let ghost prefix = out@;
                let mut i: usize = 0;
                assert(out@ =~= prefix + members_text(model, 0));
                while i < entries.len()
                    invariant
                        i <= entries.len(),
                        self is Object,
                        self->Object_0 == *entries,
                        model == entries_model(entries@),
                        out@ == prefix + members_text(model, i as nat),
                    decreases entries.len() - i,
                {
                    if i > 0 {
                        out.push(',');
                    }
                    push_quoted(out, entries[i].0.as_str());
                    out.push(':');
                    entries[i].1.write_json(out);
                    proof {
                        assert(model[i as int] == (entries@[i as int].0@, entries@[i as int].1@));
                        lemma_members_text_next(prefix, model, i as nat);
                    }
                    i += 1;
                }
                out.push('}');
                assert(out@ =~= old(out)@ + json_text(self@));
            },
        }
    }

    /// The compact JSON text of this value.
    pub fn to_json(&self) -> (r: String)
        ensures
            r@ == json_text(self@),
    {
        let mut out: Vec<char> = Vec::new();
        self.write_json(&mut out);
        assert(out@ =~= json_text(self@));
        string_of(&out)
    }

    /// The text that stands for this value where it is put into a template.
    pub fn to_text(&self) -> (r: String)
        ensures
            r@ == display_text(self@),
    {
        match self {
            Value::Null => String::new(),
            Value::Text(t) => t.clone(),
            _ => self.to_json(),
        }
    }
}


/// The member `key` of an object; nothing in any other value.
pub open spec fn field(j: Json, key: Seq<char>) -> Option<Json> {
    match j {
        Json::Object(entries) => entries_get(entries, key),
        _ => None,
    }
}

/// The member `key` of `j` where it is a string.
pub open spec fn text_field(j: Json, key: Seq<char>) -> Option<Seq<char>> {
    match field(j, key) {
        Some(Json::Text(t)) => Some(t),
        _ => None,
    }
}

/// The member `key` of `j` where it is a whole number.
pub open spec fn integer_field(j: Json, key: Seq<char>) -> Option<i64> {
    match field(j, key) {
        Some(Json::Integer(n)) => Some(n),
        _ => None,
    }
}

/// The member `key` of `j` where it is a boolean.
pub open spec fn bool_field(j: Json, key: Seq<char>) -> Option<bool> {
    match field(j, key) {
        Some(Json::Bool(b)) => Some(b),
        _ => None,
    }
}

/// The items of the member `key` of `j` where it is an array.
pub open spec fn array_field(j: Json, key: Seq<char>) -> Option<Seq<Json>> {
    match field(j, key) {
        Some(Json::Array(items)) => Some(items),
        _ => None,
    }
}

/// The members of the member `key` of `j` where it is an object.
pub open spec fn object_field(j: Json, key: Seq<char>) -> Option<Seq<(Seq<char>, Json)>> {
    match field(j, key) {
        Some(Json::Object(entries)) => Some(entries),
        _ => None,
    }
}

impl Value {
    /// The member `key` of an object.
    pub fn get(&self, key: &str) -> (r: Option<&Value>)
        ensures
            match r {
                Some(v) => field(self@, key@) == Some(v@),
                None => field(self@, key@) is None,
            },
    {
        match self {
            Value::Object(entries) => {
                proof {
                    lemma_object_view(*self);
                }
                member(entries, key)
            },
            _ => None,
        }
    }

    /// The string that this value is.
    pub fn as_str(&self) -> (r: Option<&String>)
        ensures
            match r {
                Some(t) => self@ == Json::Text(t@),
                None => !(self@ is Text),
            },
    {
        match self {
            Value::Text(t) => Some(t),
            _ => None,
        }
    }

    /// The whole number that this value is.
    pub fn as_i64(&self) -> (r: Option<i64>)
        ensures
            match r {
                Some(n) => self@ == Json::Integer(n),
                None => !(self@ is Integer),
            },
    {
        match self {
            Value::Integer(n) => Some(*n),
            _ => None,
        }
    }

    /// The boolean that this value is.
    pub fn as_bool(&self) -> (r: Option<bool>)
        ensures
            match r {
                Some(b) => self@ == Json::Bool(b),
                None => !(self@ is Bool),
            },
    {
        match self {
            Value::Bool(b) => Some(*b),
            _ => None,
        }
    }

    /// The items of the array that this value is.
    pub fn as_sequence(&self) -> (r: Option<&Vec<Value>>)
        ensures
            match r {
                Some(items) => self@ == Json::Array(items_model(items@)),
                None => !(self@ is Array),
            },
    {
        match self {
            Value::Array(items) => {
                proof {
                    lemma_array_view(*self);
                }
                Some(items)
            },
            _ => None,
        }
    }

    /// The members of the object that this value is.
    pub fn as_mapping(&self) -> (r: Option<&Vec<(String, Value)>>)
        ensures
            match r {
                Some(entries) => self@ == Json::Object(entries_model(entries@)),
                None => !(self@ is Object),
            },
    {
        match self {
            Value::Object(entries) => {
                proof {
                    lemma_object_view(*self);
                }
                Some(entries)
            },
            _ => None,
        }
    }

    /// The member `key` where it is a string.
    pub fn get_str(&self, key: &str) -> (r: Option<&String>)
        ensures
            match r {
                Some(t) => text_field(self@, key@) == Some(t@),
                None => text_field(self@, key@) is None,
            },
    {
        match self.get(key) {
            Some(v) => v.as_str(),
            None => None,
        }
    }

    /// The member `key` where it is a whole number.
    pub fn get_i64(&self, key: &str) -> (r: Option<i64>)
        ensures
            r == integer_field(self@, key@),
    {
        match self.get(key) {
            Some(v) => v.as_i64(),
            None => None,
        }
    }

    /// The member `key` where it is a boolean.
    pub fn get_bool(&self, key: &str) -> (r: Option<bool>)
        ensures
            r == bool_field(self@, key@),
    {
        match self.get(key) {
            Some(v) => v.as_bool(),
            None => None,
        }
    }

    /// The items of the member `key` where it is an array.
    pub fn get_sequence(&self, key: &str) -> (r: Option<&Vec<Value>>)
        ensures
            match r {
                Some(items) => array_field(self@, key@) == Some(items_model(items@)),
                None => array_field(self@, key@) is None,
            },
    {
        match self.get(key) {
            Some(v) => v.as_sequence(),
            None => None,
        }
    }

    /// The members of the member `key` where it is an object.
    pub fn get_mapping(&self, key: &str) -> (r: Option<&Vec<(String, Value)>>)
        ensures
            match r {
                Some(entries) => object_field(self@, key@) == Some(entries_model(entries@)),
                None => object_field(self@, key@) is None,
            },
    {
        match self.get(key) {
            Some(v) => v.as_mapping(),
            None => None,
        }
    }
}


} // verus!
