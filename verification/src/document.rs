//! The library's model of the oplog's schemaless structured documents: an
//! ordered sequence of key/value entries, with typed accessors that fail
//! explicitly when a field is absent or holds an unexpected kind of value.

use vstd::prelude::*;

use crate::time::Timestamp;

verus! {

broadcast use vstd::string::group_string_axioms;

/// A structured value: one field of a raw oplog document.
#[derive(Debug, PartialEq)]
pub enum Value {
    /// The absent value.
    Null,
    /// A boolean.
    Boolean(bool),
    /// A 32-bit signed integer.
    Int32(i32),
    /// A 64-bit signed integer.
    Int64(i64),
    /// A UTF-8 string.
    Text(String),
    /// A native oplog timestamp.
    Timestamp(Timestamp),
    /// A nested document.
    Document(Document),
    /// An ordered array of values.
    Array(Vec<Value>),
}

/// A raw structured document: an ordered sequence of key/value entries.
#[derive(Debug, PartialEq)]
pub struct Document {
    entries: Vec<(String, Value)>,
}

/// The mathematical model of a [`Value`].
pub enum ValueView {
    /// The absent value.
    Null,
    /// A boolean.
    Boolean(bool),
    /// A 32-bit signed integer.
    Int32(i32),
    /// A 64-bit signed integer.
    Int64(i64),
    /// A string, as its character sequence.
    Text(Seq<char>),
    /// A native oplog timestamp.
    Timestamp(Timestamp),
    /// A nested document.
    Document(DocumentView),
    /// An ordered array of values.
    Array(Seq<ValueView>),
}

/// The mathematical model of a [`Document`]: its entries in order.
pub struct DocumentView {
    /// The key/value entries, in order.
    pub entries: Seq<(Seq<char>, ValueView)>,
}

impl View for Value {
    type V = ValueView;

    open spec fn view(&self) -> ValueView
        decreases self,
    {
        match self {
            Value::Null => ValueView::Null,
            Value::Boolean(b) => ValueView::Boolean(*b),
            Value::Int32(n) => ValueView::Int32(*n),
            Value::Int64(n) => ValueView::Int64(*n),
            Value::Text(s) => ValueView::Text(s@),
            Value::Timestamp(t) => ValueView::Timestamp(*t),
            Value::Document(d) => ValueView::Document(d.view()),
            Value::Array(vs) => ValueView::Array(values_view(vs@)),
        }
    }
}

/// The models of a sequence of values, element by element.
pub open spec fn values_view(vs: Seq<Value>) -> Seq<ValueView>
    decreases vs,
{
    if vs.len() == 0 {
        Seq::empty()
    } else {
        proof {
            vstd::seq::axiom_seq_subrange_decreases(vs, 1, vs.len() as int);
        }
        seq![vs[0]@] + values_view(vs.drop_first())
    }
}

/// The models of a sequence of entries, element by element.
pub open spec fn entries_view(es: Seq<(String, Value)>) -> Seq<(Seq<char>, ValueView)>
    decreases es,
{
    if es.len() == 0 {
        Seq::empty()
    } else {
        proof {
            vstd::seq::axiom_seq_subrange_decreases(es, 1, es.len() as int);
        }
        seq![(es[0].0@, es[0].1@)] + entries_view(es.drop_first())
    }
}

/// `values_view` keeps the length and models each element in place.
pub broadcast proof fn lemma_values_view(vs: Seq<Value>)
    ensures
        (#[trigger] values_view(vs)).len() == vs.len(),
        forall|i: int| 0 <= i < vs.len() ==> values_view(vs)[i] == vs[i]@,
    decreases vs.len(),
{
    if vs.len() > 0 {
        lemma_values_view(vs.drop_first());
        assert(values_view(vs) == seq![vs[0]@] + values_view(vs.drop_first()));
        assert(seq![vs[0]@].len() == 1);
        assert(values_view(vs).len() == vs.len());
        assert forall|i: int| 0 <= i < vs.len() implies values_view(vs)[i] == vs[i]@ by {
            if i > 0 {
                assert(values_view(vs)[i] == values_view(vs.drop_first())[i - 1]);
                assert(vs.drop_first()[i - 1] == vs[i]);
            }
        }
    }
}

/// `entries_view` keeps the length and models each entry in place.
pub broadcast proof fn lemma_entries_view(es: Seq<(String, Value)>)
    ensures
        (#[trigger] entries_view(es)).len() == es.len(),
        forall|i: int|
            0 <= i < es.len() ==> entries_view(es)[i] == (es[i].0@, es[i].1@),
    decreases es.len(),
{
    if es.len() > 0 {
        lemma_entries_view(es.drop_first());
        assert(entries_view(es) == seq![(es[0].0@, es[0].1@)] + entries_view(es.drop_first()));
        assert(seq![(es[0].0@, es[0].1@)].len() == 1);
        assert(entries_view(es).len() == es.len());
        assert forall|i: int|
            0 <= i < es.len() implies entries_view(es)[i] == (es[i].0@, es[i].1@) by {
            if i > 0 {
                assert(entries_view(es)[i] == entries_view(es.drop_first())[i - 1]);
                assert(es.drop_first()[i - 1] == es[i]);
            }
        }
    }
}

impl View for Document {
    type V = DocumentView;

    closed spec fn view(&self) -> DocumentView
        decreases self,
    {
        DocumentView { entries: entries_view(self.entries@) }
    }
}

/// Why a typed field access failed.
#[derive(Clone, Copy, Debug, PartialEq, Eq, Structural)]
pub enum ValueAccessError {
    /// The document holds no entry under the requested key.
    NotPresent,
    /// The entry under the requested key holds a different kind of value.
    UnexpectedType,
}

/// The index of the first entry whose key is `key`, or `-1` when there is
/// none.
pub open spec fn key_index(entries: Seq<(Seq<char>, ValueView)>, key: Seq<char>) -> int
    decreases entries.len(),
{
    if entries.len() == 0 {
        -1
    } else if entries[0].0 == key {
        0
    } else {
        let rest = key_index(entries.drop_first(), key);
        if rest == -1 {
            -1
        } else {
            rest + 1
        }
    }
}

/// `key_index` finds exactly the first entry under the key: a non-negative
/// result is a valid index, bears the key, and nothing before it does; `-1`
/// means no entry bears the key at all.
pub proof fn lemma_key_index(entries: Seq<(Seq<char>, ValueView)>, key: Seq<char>)
    ensures
        key_index(entries, key) != -1 ==> 0 <= key_index(entries, key) < entries.len(),
        key_index(entries, key) != -1 ==> entries[key_index(entries, key)].0 == key,
        forall|j: int|
            0 <= j < key_index(entries, key) ==> (#[trigger] entries[j]).0 != key,
        key_index(entries, key) == -1 ==> (forall|j: int|
            0 <= j < entries.len() ==> (#[trigger] entries[j]).0 != key),
    decreases entries.len(),
{
    if entries.len() > 0 && entries[0].0 != key {
        let rest = entries.drop_first();
        lemma_key_index(rest, key);
        assert forall|j: int| 1 <= j < entries.len() implies (#[trigger] entries[j]) == rest[j - 1]
        by {
            assert(rest[j - 1] == entries[j]);
        }
    }
}

impl DocumentView {
    /// The value under `key`, taking the first entry when several bear it.
    pub open spec fn lookup(self, key: Seq<char>) -> Option<ValueView> {
        let i = key_index(self.entries, key);
        if i == -1 {
            None
        } else {
            Some(self.entries[i].1)
        }
    }

    /// The string under `key`, or why there is none.
    pub open spec fn str_at(self, key: Seq<char>) -> Result<Seq<char>, ValueAccessError> {
        match self.lookup(key) {
            Some(ValueView::Text(s)) => Ok(s),
            Some(_) => Err(ValueAccessError::UnexpectedType),
            None => Err(ValueAccessError::NotPresent),
        }
    }

    /// The nested document under `key`, or why there is none.
    pub open spec fn document_at(self, key: Seq<char>) -> Result<DocumentView, ValueAccessError> {
        match self.lookup(key) {
            Some(ValueView::Document(d)) => Ok(d),
            Some(_) => Err(ValueAccessError::UnexpectedType),
            None => Err(ValueAccessError::NotPresent),
        }
    }

    /// The array under `key`, or why there is none.
    pub open spec fn array_at(self, key: Seq<char>) -> Result<Seq<ValueView>, ValueAccessError> {
        match self.lookup(key) {
            Some(ValueView::Array(vs)) => Ok(vs),
            Some(_) => Err(ValueAccessError::UnexpectedType),
            None => Err(ValueAccessError::NotPresent),
        }
    }

    /// The timestamp under `key`, or why there is none.
    pub open spec fn timestamp_at(self, key: Seq<char>) -> Result<Timestamp, ValueAccessError> {
        match self.lookup(key) {
            Some(ValueView::Timestamp(t)) => Ok(t),
            Some(_) => Err(ValueAccessError::UnexpectedType),
            None => Err(ValueAccessError::NotPresent),
        }
    }
}

/// Relies on str's `PartialEq`: two string slices compare equal exactly when
/// their character sequences are equal.
#[verifier::external_body]
pub(crate) fn str_eq(a: &str, b: &str) -> (r: bool)
    ensures
        r == (a@ == b@),
{
    a == b
}

impl Clone for Value {
    /// A deep copy with the same model.
    fn clone(&self) -> (r: Value)
        ensures
            r@ == self@,
        decreases self,
    {
        match self {
            Value::Null => Value::Null,
            Value::Boolean(b) => Value::Boolean(*b),
            Value::Int32(n) => Value::Int32(*n),
            Value::Int64(n) => Value::Int64(*n),
            Value::Text(s) => Value::Text(s.clone()),
            Value::Timestamp(t) => Value::Timestamp(*t),
            Value::Document(d) => Value::Document(d.clone()),
            Value::Array(vs) => {
                let n = vs.len();
                let mut out: Vec<Value> = Vec::new();
                let mut i: usize = 0;
                while i < n
                    invariant
                        n == vs.len(),
                        i <= n,
                        out@.len() == i,
                        self is Array,
                        *vs == self->Array_0,
                        forall|j: int| 0 <= j < i ==> (#[trigger] out@[j])@ == vs@[j]@,
                    decreases n - i,
                {
                    proof {
                        assert(decreases_to!(*self => self->Array_0));
                        assert(decreases_to!(self->Array_0 => self->Array_0@[i as int]));
                    }
                    out.push(vs[i].clone());
                    i = i + 1;
                }
                proof {
                    lemma_values_view(out@);
                    lemma_values_view(vs@);
                    assert(values_view(out@) =~= values_view(vs@));
                }
                Value::Array(out)
            },
        }
    }
}

impl Clone for Document {
    /// A deep copy with the same model.
    fn clone(&self) -> (r: Document)
        ensures
            r@ == self@,
        decreases self,
    {
        let n = self.entries.len();
        let mut out: Vec<(String, Value)> = Vec::new();
        let mut i: usize = 0;
        while i < n
            invariant
                n == self.entries.len(),
                i <= n,
                out@.len() == i,
                forall|j: int|
                    0 <= j < i ==> (#[trigger] out@[j]).0@ == self.entries@[j].0@ && out@[j].1@
                        == self.entries@[j].1@,
            decreases n - i,
        {
            let entry = &self.entries[i];
            proof {
                assert(decreases_to!(*self => self.entries@[i as int].1));
            }
            out.push((entry.0.clone(), entry.1.clone()));
            i = i + 1;
        }
        proof {
            lemma_entries_view(out@);
            lemma_entries_view(self.entries@);
            assert(entries_view(out@) =~= entries_view(self.entries@));
        }
        Document { entries: out }
    }
}

impl Document {
    /// An empty document.
    pub fn new() -> (r: Document)
        ensures
            r@.entries.len() == 0,
    {
        Document { entries: Vec::new() }
    }

    /// The value under `key`, if any entry bears that key.
    pub fn get<'a>(&'a self, key: &str) -> (r: Option<&'a Value>)
        ensures
            match r {
                Some(v) => self@.lookup(key@) == Some(v@) && decreases_to!(*self => *v),
                None => self@.lookup(key@) is None,
            },
    {
        let n = self.entries.len();
        let mut i: usize = 0;
        while i < n
            invariant
                n == self.entries.len(),
                i <= n,
                forall|j: int| 0 <= j < i ==> (#[trigger] self.entries@[j]).0@ != key@,
            decreases n - i,
        {
            let entry = &self.entries[i];
            if str_eq(entry.0.as_str(), key) {
                proof {
                    lemma_entries_view(self.entries@);
                    lemma_key_index(self@.entries, key@);
                    assert(self@.entries[i as int].0 == key@);
                    assert(key_index(self@.entries, key@) == i);
                    assert(decreases_to!(*self => self.entries@[i as int].1));
                }
                return Some(&entry.1);
            }
            i = i + 1;
        }
        proof {
            lemma_entries_view(self.entries@);
            lemma_key_index(self@.entries, key@);
        }
        None
    }

    /// The number of entries.
    pub fn len(&self) -> (r: usize)
        ensures
            r == self@.entries.len(),
    {
        proof {
            lemma_entries_view(self.entries@);
        }
        self.entries.len()
    }

    /// The entry at a position, in order.
    pub fn entry_at(&self, i: usize) -> (r: &(String, Value))
        requires
            i < self@.entries.len(),
        ensures
            self@.entries[i as int] == (r.0@, r.1@),
    {
        proof {
            lemma_entries_view(self.entries@);
        }
        &self.entries[i]
    }

    /// Put `value` under `key`: replace the first entry bearing the key, or
    /// append a new entry when none does.
    pub fn insert(&mut self, key: &str, value: Value)
        ensures
            key_index(old(self)@.entries, key@) == -1 ==> final(self)@.entries == old(
                self,
            )@.entries.push((key@, value@)),
            key_index(old(self)@.entries, key@) != -1 ==> final(self)@.entries == old(
                self,
            )@.entries.update(key_index(old(self)@.entries, key@), (key@, value@)),
            final(self)@.lookup(key@) == Some(value@),
    {
        let n = self.entries.len();
        let mut i: usize = 0;
        while i < n
            invariant
                *self == *old(self),
                n == self.entries.len(),
                i <= n,
                forall|j: int| 0 <= j < i ==> (#[trigger] self.entries@[j]).0@ != key@,
            decreases n - i,
        {
            let entry = &self.entries[i];
            if str_eq(entry.0.as_str(), key) {
                proof {
                    lemma_entries_view(self.entries@);
                    lemma_key_index(self@.entries, key@);
                    assert(self@.entries[i as int].0 == key@);
                    assert(key_index(self@.entries, key@) == i);
                }
                let ghost before = self@.entries;
                self.entries[i] = (key.to_string(), value);
                proof {
                    lemma_entries_view(self.entries@);
                    assert(self@.entries =~= before.update(i as int, (key@, value@)));
                    lemma_key_index(self@.entries, key@);
                    let k = key_index(self@.entries, key@);
                    if k == -1 {
                        assert(self@.entries[i as int].0 == key@);
                    }
                    assert(0 <= k <= i);
                    assert(k == i);
                }
                return ;
            }
            i = i + 1;
        }
        proof {
            lemma_entries_view(self.entries@);
            lemma_key_index(self@.entries, key@);
            assert(key_index(self@.entries, key@) == -1);
        }
        let ghost before = self@.entries;
        self.entries.push((key.to_string(), value));
        proof {
            lemma_entries_view(self.entries@);
            assert(self@.entries =~= before.push((key@, value@)));
            lemma_key_index(self@.entries, key@);
            let k = key_index(self@.entries, key@);
            assert(self@.entries[before.len() as int].0 == key@);
            assert(k != -1);
            assert(k == before.len());
        }
    }

    /// The string under `key`, or why there is none.
    pub fn get_str<'a>(&'a self, key: &str) -> (r: Result<&'a str, ValueAccessError>)
        ensures
            match r {
                Ok(s) => self@.str_at(key@) == Ok::<Seq<char>, ValueAccessError>(s@),
                Err(e) => self@.str_at(key@) == Err::<Seq<char>, ValueAccessError>(e),
            },
    {
        match self.get(key) {
            Some(v) => match v {
                Value::Text(s) => Ok(s.as_str()),
                _ => Err(ValueAccessError::UnexpectedType),
            },
            None => Err(ValueAccessError::NotPresent),
        }
    }

    /// The nested document under `key`, or why there is none.
    pub fn get_document<'a>(&'a self, key: &str) -> (r: Result<&'a Document, ValueAccessError>)
        ensures
            match r {
                Ok(d) => self@.document_at(key@) == Ok::<DocumentView, ValueAccessError>(d@)
                    && decreases_to!(*self => *d),
                Err(e) => self@.document_at(key@) == Err::<DocumentView, ValueAccessError>(e),
            },
    {
        match self.get(key) {
            Some(v) => match v {
                Value::Document(d) => {
                    proof {
                        assert(decreases_to!(*v => v->Document_0));
                    }
                    Ok(d)
                },
                _ => Err(ValueAccessError::UnexpectedType),
            },
            None => Err(ValueAccessError::NotPresent),
        }
    }

    /// The array under `key`, or why there is none.
    pub fn get_array<'a>(&'a self, key: &str) -> (r: Result<&'a Vec<Value>, ValueAccessError>)
        ensures
            match r {
                Ok(vs) => self@.array_at(key@) == Ok::<Seq<ValueView>, ValueAccessError>(
                    values_view(vs@),
                ) && decreases_to!(*self => *vs),
                Err(e) => self@.array_at(key@) == Err::<Seq<ValueView>, ValueAccessError>(e),
            },
    {
        match self.get(key) {
            Some(v) => match v {
                Value::Array(vs) => {
                    proof {
                        assert(decreases_to!(*v => v->Array_0));
                    }
                    Ok(vs)
                },
                _ => Err(ValueAccessError::UnexpectedType),
            },
            None => Err(ValueAccessError::NotPresent),
        }
    }

    /// The timestamp under `key`, or why there is none.
    pub fn get_timestamp(&self, key: &str) -> (r: Result<Timestamp, ValueAccessError>)
        ensures
            match r {
                Ok(t) => self@.timestamp_at(key@) == Ok::<Timestamp, ValueAccessError>(t),
                Err(e) => self@.timestamp_at(key@) == Err::<Timestamp, ValueAccessError>(e),
            },
    {
        match self.get(key) {
            Some(v) => match v {
                Value::Timestamp(t) => Ok(*t),
                _ => Err(ValueAccessError::UnexpectedType),
            },
            None => Err(ValueAccessError::NotPresent),
        }
    }
}

} // verus!
