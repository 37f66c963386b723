//! Structured payload values: a tree of scalars, sequences, and
//! string-keyed mappings, the shape an event payload carries.

use vstd::prelude::*;

verus! {

/// One key/value pair of a mapping.
#[derive(Debug)]
pub struct ValueEntry {
    pub key: String,
    pub value: Value,
}

/// A structured payload value.
#[derive(Debug)]
pub enum Value {
    Null,
    Bool(bool),
    Int(i64),
    Str(String),
    Arr(Vec<Value>),
    Obj(Vec<ValueEntry>),
}

/// The mathematical shape of one key/value pair of a mapping.
#[verifier::ext_equal]
pub struct EntryV {
    pub key: Seq<char>,
    pub value: ValueV,
}

/// The mathematical shape of a payload value.
#[verifier::ext_equal]
pub enum ValueV {
    Null,
    Bool(bool),
    Int(i64),
    Str(Seq<char>),
    Arr(Seq<ValueV>),
    Obj(Seq<EntryV>),
}

/// The mathematical shape of a payload value.
pub open spec fn value_view(v: Value) -> ValueV
    decreases v,
{
    match v {
        Value::Null => ValueV::Null,
        Value::Bool(b) => ValueV::Bool(b),
        Value::Int(n) => ValueV::Int(n),
        Value::Str(s) => ValueV::Str(s@),
        Value::Arr(items) => ValueV::Arr(
            Seq::new(
                items@.len(),
                |i: int| if 0 <= i < items@.len() {
                    value_view(items@[i])
                } else {
                    ValueV::Null
                },
            ),
        ),
        Value::Obj(entries) => ValueV::Obj(
            Seq::new(
                entries@.len(),
                |i: int| if 0 <= i < entries@.len() {
                    EntryV { key: entries@[i].key@, value: value_view(entries@[i].value) }
                } else {
                    EntryV { key: Seq::empty(), value: ValueV::Null }
                },
            ),
        ),
    }
}

impl View for Value {
    type V = ValueV;

    open spec fn view(&self) -> ValueV {
        value_view(*self)
    }
}

impl DeepView for Value {
    type V = ValueV;

    open spec fn deep_view(&self) -> ValueV {
        self.view()
    }
}

/// First value stored under a key of a mapping.
pub open spec fn obj_lookup(entries: Seq<EntryV>, key: Seq<char>) -> Option<ValueV>
    decreases entries.len(),
{
    if entries.len() == 0 {
        None
    } else if entries[0].key == key {
        Some(entries[0].value)
    } else {
        obj_lookup(entries.skip(1), key)
    }
}

/// Value stored under a key, when the value is a mapping.
pub open spec fn obj_get(v: ValueV, key: Seq<char>) -> Option<ValueV> {
    match v {
        ValueV::Obj(entries) => obj_lookup(entries, key),
        _ => None,
    }
}

/// String under a key of a mapping.
pub open spec fn get_str(v: ValueV, key: Seq<char>) -> Option<Seq<char>> {
    match obj_get(v, key) {
        Some(ValueV::Str(s)) => Some(s),
        _ => None,
    }
}

/// Non-negative integer under a key of a mapping.
pub open spec fn get_u64(v: ValueV, key: Seq<char>) -> Option<u64> {
    match obj_get(v, key) {
        Some(ValueV::Int(n)) => if n >= 0 {
            Some(n as u64)
        } else {
            None
        },
        _ => None,
    }
}

/// Integer under a key of a mapping.
pub open spec fn get_int(v: ValueV, key: Seq<char>) -> Option<i64> {
    match obj_get(v, key) {
        Some(ValueV::Int(n)) => Some(n),
        _ => None,
    }
}

/// Boolean under a key of a mapping.
pub open spec fn get_bool(v: ValueV, key: Seq<char>) -> Option<bool> {
    match obj_get(v, key) {
        Some(ValueV::Bool(b)) => Some(b),
        _ => None,
    }
}

/// The view of a sequence value, element by element.
pub proof fn lemma_arr_view(v: Value, items: Vec<Value>)
    requires
        v == Value::Arr(items),
    ensures
        v@ matches ValueV::Arr(vs) && vs.len() == items@.len() && forall|j: int|
            0 <= j < items@.len() ==> vs[j] == #[trigger] items@[j]@,
{
}

/// The view of a mapping value, entry by entry.
pub proof fn lemma_obj_view(v: Value, entries: Vec<ValueEntry>)
    requires
        v == Value::Obj(entries),
    ensures
        v@ matches ValueV::Obj(es) && es.len() == entries@.len() && forall|j: int|
            0 <= j < entries@.len() ==> es[j] == (EntryV {
                key: #[trigger] entries@[j].key@,
                value: entries@[j].value@,
            }),
{
}

/// Structure-preserving copy of a payload value.
#[verifier::loop_isolation(false)]
fn clone_value(v: &Value) -> (res: Value)
    ensures
        res@ == v@,
    decreases *v,
{
    match v {
        Value::Null => Value::Null,
        Value::Bool(b) => Value::Bool(*b),
        Value::Int(n) => Value::Int(*n),
        Value::Str(s) => Value::Str(s.clone()),
        Value::Arr(items) => {
            let n = items.len();
            let mut out: Vec<Value> = Vec::new();
            let mut i: usize = 0;
            while i < n
                invariant
                    i <= n,
                    out@.len() == i,
                    forall|j: int| 0 <= j < i ==> #[trigger] out@[j]@ == items@[j]@,
                decreases n - i,
            {
                proof {
                    assert(decreases_to!(*v => items@[i as int]));
                }
                let c = clone_value(&items[i]);
                out.push(c);
                i = i + 1;
            }
            let ghost gout = out@;
            let res = Value::Arr(out);
            proof {
                lemma_arr_view(*v, *items);
                lemma_arr_view(res, res->Arr_0);
                assert(res->Arr_0@ == gout);
                assert forall|j: int| 0 <= j < gout.len() implies res@->Arr_0[j] == v@->Arr_0[j]
                by {
                    assert(res@->Arr_0[j] == gout[j]@);
                    assert(gout[j]@ == items@[j]@);
                }
                assert(res@->Arr_0 =~= v@->Arr_0);
            }
            res
        },
        Value::Obj(entries) => {
            let n = entries.len();
            let mut out: Vec<ValueEntry> = Vec::new();
            let mut i: usize = 0;
            while i < n
                invariant
                    i <= n,
                    out@.len() == i,
                    forall|j: int|
                        0 <= j < i ==> #[trigger] out@[j].key@ == entries@[j].key@
                            && out@[j].value@ == entries@[j].value@,
                decreases n - i,
            {
                proof {
                    assert(decreases_to!(*v => entries@[i as int]));
                    assert(decreases_to!(entries@[i as int] => entries@[i as int].value));
                }
                let c = clone_value(&entries[i].value);
                out.push(ValueEntry { key: entries[i].key.clone(), value: c });
                i = i + 1;
            }
            let ghost gout = out@;
            let res = Value::Obj(out);
            proof {
                lemma_obj_view(*v, *entries);
                lemma_obj_view(res, res->Obj_0);
                assert(res->Obj_0@ == gout);
                assert forall|j: int| 0 <= j < gout.len() implies res@->Obj_0[j] == v@->Obj_0[j]
                by {
                    assert(res@->Obj_0[j] == EntryV { key: gout[j].key@, value: gout[j].value@ });
                    assert(gout[j].key@ == entries@[j].key@ && gout[j].value@ == entries@[j].value@);
                }
                assert(res@->Obj_0 =~= v@->Obj_0);
            }
            res
        },
    }
}

impl Clone for Value {
    fn clone(&self) -> (res: Self)
        ensures
            res@ == self@,
    {
        clone_value(self)
    }
}

impl Clone for ValueEntry {
    fn clone(&self) -> (res: Self)
        ensures
            res.key@ == self.key@,
            res.value@ == self.value@,
    {
        ValueEntry { key: self.key.clone(), value: clone_value(&self.value) }
    }
}

/// Build a mapping value, with its entries' shape pinned.
pub fn obj_value(entries: Vec<ValueEntry>) -> (r: Value)
    ensures
        r@ matches ValueV::Obj(es) && es.len() == entries@.len() && forall|j: int|
            0 <= j < entries@.len() ==> (#[trigger] es[j]) == (EntryV {
                key: entries@[j].key@,
                value: entries@[j].value@,
            }),
{
    let r = Value::Obj(entries);
    proof {
        lemma_obj_view(r, r->Obj_0);
    }
    r
}

/// Build a sequence value, with its elements' shape pinned.
pub fn arr_value(items: Vec<Value>) -> (r: Value)
    ensures
        r@ matches ValueV::Arr(vs) && vs.len() == items@.len() && forall|j: int|
            0 <= j < items@.len() ==> (#[trigger] vs[j]) == items@[j]@,
{
    let r = Value::Arr(items);
    proof {
        lemma_arr_view(r, r->Arr_0);
    }
    r
}

impl Value {
    /// First value stored under a key, when this value is a mapping.
    pub fn get<'a>(&'a self, key: &str) -> (r: Option<&'a Value>)
        ensures
            match obj_get(self@, key@) {
                Some(vv) => r matches Some(x) && x@ == vv,
                None => r is None,
            },
    {
        match self {
            Value::Obj(entries) => {
                proof {
                    lemma_obj_view(*self, *entries);
                }
                let ghost es = self@->Obj_0;
                let n = entries.len();
                let mut i: usize = 0;
                proof {
                    assert(es.skip(0) =~= es);
                }
                while i < n
                    invariant
                        n == entries@.len(),
                        obj_get(self@, key@) == obj_lookup(es, key@),
                        es.len() == n,
                        forall|j: int|
                            0 <= j < n ==> #[trigger] es[j] == (EntryV {
                                key: entries@[j].key@,
                                value: entries@[j].value@,
                            }),
                        i <= n,
                        obj_lookup(es, key@) == obj_lookup(es.skip(i as int), key@),
                    decreases n - i,
                {
                    proof {
                        assert(es.skip(i as int)[0] == es[i as int]);
                        assert(es.skip(i as int).skip(1) =~= es.skip(i + 1));
                    }
                    if crate::strutil::string_eq_str(&entries[i].key, key) {
                        proof {
                            assert(es.skip(i as int).len() > 0);
                            assert(obj_lookup(es.skip(i as int), key@) == Some(
                                es[i as int].value,
                            ));
                        }
                        return Some(&entries[i].value);
                    }
                    i = i + 1;
                }
                proof {
                    assert(es.skip(n as int).len() == 0);
                }
                None
            },
            _ => None,
        }
    }

    /// The string inside, when this value is a string.
    pub fn as_str<'a>(&'a self) -> (r: Option<&'a str>)
        ensures
            match self@ {
                ValueV::Str(s) => r matches Some(t) && t@ == s,
                _ => r is None,
            },
    {
        match self {
            Value::Str(s) => Some(s.as_str()),
            _ => None,
        }
    }

    /// The integer inside as an unsigned count, when non-negative.
    pub fn as_u64(&self) -> (r: Option<u64>)
        ensures
            match self@ {
                ValueV::Int(n) => if n >= 0 {
                    r == Some(n as u64)
                } else {
                    r is None
                },
                _ => r is None,
            },
    {
        match self {
            Value::Int(n) => {
                if *n >= 0 {
                    Some(*n as u64)
                } else {
                    None
                }
            },
            _ => None,
        }
    }

    /// The integer inside, when this value is an integer.
    pub fn as_i64(&self) -> (r: Option<i64>)
        ensures
            match self@ {
                ValueV::Int(n) => r == Some(n),
                _ => r is None,
            },
    {
        match self {
            Value::Int(n) => Some(*n),
            _ => None,
        }
    }

    /// The boolean inside, when this value is a boolean.
    pub fn as_bool(&self) -> (r: Option<bool>)
        ensures
            match self@ {
                ValueV::Bool(b) => r == Some(b),
                _ => r is None,
            },
    {
        match self {
            Value::Bool(b) => Some(*b),
            _ => None,
        }
    }
}

} // verus!
