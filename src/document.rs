use vstd::prelude::*;
use crate::value::{Field, Value, ValueView, EncodeError, encode, encoded};

verus! {

/// One key/value pair of a document.
#[derive(Clone, Debug, PartialEq, Eq)]
pub struct Entry {
    pub key: String,
    pub value: Value,
}

/// The entries of one log record, in the order they were emitted.
///
/// Keys may repeat: every emitted field adds an entry. A store that keeps one
/// value per key keeps the last one, which is what [`Document::get`] returns.
#[derive(Clone, Debug, PartialEq, Eq)]
pub struct Document {
    pub entries: Vec<Entry>,
}

impl View for Entry {
    type V = (Seq<char>, ValueView);

    open spec fn view(&self) -> (Seq<char>, ValueView) {
        (self.key@, self.value@)
    }
}

impl View for Document {
    type V = Seq<(Seq<char>, ValueView)>;

    open spec fn view(&self) -> Seq<(Seq<char>, ValueView)> {
        self.entries@.map_values(|e: Entry| e@)
    }
}

/// The entries that a sequence of fields produces, or `None` where one of
/// them cannot be encoded.
pub open spec fn encode_fields(fs: Seq<Field>) -> Option<Seq<(Seq<char>, ValueView)>>
    decreases fs.len(),
{
    if fs.len() == 0 {
        Some(Seq::empty())
    } else {
        match (encode_fields(fs.drop_last()), encoded(fs.last().value)) {
            (Some(es), Some(v)) => Some(es.push((fs.last().key@, v))),
            _ => None,
        }
    }
}

/// The keys of a sequence of fields, in order.
pub open spec fn field_keys(fs: Seq<Field>) -> Seq<Seq<char>> {
    fs.map_values(|f: Field| f.key@)
}

/// The keys of a document's entries, in order.
pub open spec fn entry_keys(es: Seq<(Seq<char>, ValueView)>) -> Seq<Seq<char>> {
    es.map_values(|e: (Seq<char>, ValueView)| e.0)
}

/// The value of the last entry under `k`, if any.
pub open spec fn last_value(es: Seq<(Seq<char>, ValueView)>, k: Seq<char>) -> Option<ValueView>
    decreases es.len(),
{
    if es.len() == 0 {
        None
    } else if es.last().0 == k {
        Some(es.last().1)
    } else {
        last_value(es.drop_last(), k)
    }
}

/// Builds one document, field by field.
pub struct DocumentSerializer {
    entries: Vec<Entry>,
}

impl DocumentSerializer {
    pub closed spec fn entries_view(&self) -> Seq<(Seq<char>, ValueView)> {
        self.entries@.map_values(|e: Entry| e@)
    }

    /// Starts an empty document.
    pub fn start() -> (r: DocumentSerializer)
        ensures
            r.entries_view() == Seq::<(Seq<char>, ValueView)>::empty(),
    {
        DocumentSerializer { entries: Vec::new() }
    }

    /// Appends one field; on failure the document is left as it was.
    pub fn emit(&mut self, field: &Field) -> (r: Result<(), EncodeError>)
        ensures
            r is Ok <==> encoded(field.value) is Some,
            r is Ok ==> final(self).entries_view() == old(self).entries_view().push(
                (field.key@, encoded(field.value)->Some_0),
            ),
            r is Err ==> final(self).entries_view() == old(self).entries_view(),
    {
        match encode(&field.value) {
            Ok(value) => {
                let entry = Entry { key: field.key.clone(), value };
                self.entries.push(entry);
                proof {
                    assert(self.entries@.map_values(|e: Entry| e@) =~= old(self).entries@.map_values(
                        |e: Entry| e@,
                    ).push((field.key@, encoded(field.value)->Some_0)));
                }
                Ok(())
            },
            Err(e) => Err(e),
        }
    }

    /// Appends each field in turn, stopping at the first that fails.
    pub fn emit_all(&mut self, fields: &Vec<Field>) -> (r: Result<(), EncodeError>)
        ensures
            r is Ok <==> encode_fields(fields@) is Some,
            r is Ok ==> final(self).entries_view() == old(self).entries_view() + encode_fields(
                fields@,
            )->Some_0,
    {
        let mut i: usize = 0;
        while i < fields.len()
            invariant
                i <= fields@.len(),
                encode_fields(fields@.take(i as int)) is Some,
                self.entries_view() == old(self).entries_view() + encode_fields(
                    fields@.take(i as int),
                )->Some_0,
            decreases fields@.len() - i,
        {
            proof {
                assert(fields@.take(i + 1).drop_last() =~= fields@.take(i as int));
            }
            match self.emit(&fields[i]) {
                Ok(()) => {},
                Err(e) => {
                    proof {
                        lemma_encode_fields_prefix(fields@, i + 1);
                    }
                    return Err(e);
                },
            }
            i = i + 1;
            proof {
                assert(self.entries_view() =~= old(self).entries_view() + encode_fields(
                    fields@.take(i as int),
                )->Some_0);
            }
        }
        proof {
            assert(fields@.take(i as int) =~= fields@);
        }
        Ok(())
    }

    /// Finishes the document.
    pub fn end(self) -> (r: Document)
        ensures
            r@ == self.entries_view(),
    {
        Document { entries: self.entries }
    }
}

impl Document {
    /// The value stored under `key`: that of the last entry with this key.
    pub fn get(&self, key: &str) -> (r: Option<&Value>)
        ensures
            r is None <==> last_value(self@, key@) is None,
            r is Some ==> r->Some_0@ == last_value(self@, key@)->Some_0,
    {
        let wanted = key.to_owned();
        let mut i: usize = self.entries.len();
        assert(self@.take(i as int) =~= self@);
        while i > 0
            invariant
                i <= self.entries@.len(),
                wanted@ == key@,
                last_value(self@, key@) == last_value(self@.take(i as int), key@),
            decreases i,
        {
            assert(self@.take(i as int).drop_last() =~= self@.take(i - 1));
            assert(self@.take(i as int).last() == self.entries@[i - 1]@);
            if self.entries[i - 1].key.eq(&wanted) {
                return Some(&self.entries[i - 1].value);
            }
            i = i - 1;
        }
        None
    }
}

/// Builds the document of one record from its three sources of fields: the
/// sink's static fields, then the logger's own, then those of the call.
pub fn serialize_record(statics: &Vec<Field>, instance: &Vec<Field>, call: &Vec<Field>) -> (r:
    Result<Document, EncodeError>)
    ensures
        r is Ok <==> encode_fields(statics@ + instance@ + call@) is Some,
        r is Ok ==> r->Ok_0@ == encode_fields(statics@ + instance@ + call@)->Some_0,
{
    proof {
        lemma_encode_fields_concat(statics@, instance@);
        lemma_encode_fields_concat(statics@ + instance@, call@);
    }
    let mut ser = DocumentSerializer::start();
    ser.emit_all(statics)?;
    ser.emit_all(instance)?;
    ser.emit_all(call)?;
    let doc = ser.end();
    proof {
        assert(doc@ =~= encode_fields(statics@ + instance@ + call@)->Some_0);
    }
    Ok(doc)
}

/// Encoding a concatenation encodes each part and concatenates the results.
pub proof fn lemma_encode_fields_concat(a: Seq<Field>, b: Seq<Field>)
    ensures
        encode_fields(a + b) == (match (encode_fields(a), encode_fields(b)) {
            (Some(x), Some(y)) => Some(x + y),
            _ => None,
        }),
    decreases b.len(),
{
    if b.len() == 0 {
        assert(a + b =~= a);
        assert(encode_fields(b) == Some(Seq::<(Seq<char>, ValueView)>::empty()));
        if let Some(x) = encode_fields(a) {
            assert(x + Seq::<(Seq<char>, ValueView)>::empty() =~= x);
        }
    } else {
        assert((a + b).drop_last() =~= a + b.drop_last());
        assert((a + b).last() == b.last());
        lemma_encode_fields_concat(a, b.drop_last());
        if let (Some(x), Some(y)) = (encode_fields(a), encode_fields(b.drop_last())) {
            if let Some(v) = encoded(b.last().value) {
                assert((x + y).push((b.last().key@, v)) =~= x + y.push((b.last().key@, v)));
            }
        }
    }
}

/// Encoding keeps every key, in order.
pub proof fn lemma_encode_fields_keys(fs: Seq<Field>)
    requires
        encode_fields(fs) is Some,
    ensures
        entry_keys(encode_fields(fs)->Some_0) == field_keys(fs),
    decreases fs.len(),
{
    if fs.len() == 0 {
        assert(entry_keys(encode_fields(fs)->Some_0) =~= field_keys(fs));
    } else {
        lemma_encode_fields_keys(fs.drop_last());
        let es = encode_fields(fs.drop_last())->Some_0;
        let v = encoded(fs.last().value)->Some_0;
        assert(entry_keys(es.push((fs.last().key@, v))) =~= entry_keys(es).push(fs.last().key@));
        assert(field_keys(fs) =~= field_keys(fs.drop_last()).push(fs.last().key@));
    }
}

/// A record's document lists the keys of the static fields, then those of
/// the logger's fields, then those of the call's fields, each source in its
/// own order, none dropped or merged.
pub proof fn lemma_record_key_order(statics: Seq<Field>, instance: Seq<Field>, call: Seq<Field>)
    requires
        encode_fields(statics + instance + call) is Some,
    ensures
        entry_keys(encode_fields(statics + instance + call)->Some_0) == field_keys(statics)
            + field_keys(instance) + field_keys(call),
{
    lemma_encode_fields_keys(statics + instance + call);
    assert(field_keys(statics + instance + call) =~= field_keys(statics) + field_keys(instance)
        + field_keys(call));
}

/// Looking a key up in two documents laid end to end finds the later one's
/// value where it has the key, and the earlier one's otherwise.
pub proof fn lemma_last_value_concat(x: Seq<(Seq<char>, ValueView)>, y: Seq<(Seq<char>, ValueView)>, k: Seq<char>)
    ensures
        last_value(x + y, k) == (if last_value(y, k) is Some {
            last_value(y, k)
        } else {
            last_value(x, k)
        }),
    decreases y.len(),
{
    if y.len() == 0 {
        assert(x + y =~= x);
    } else {
        assert((x + y).drop_last() =~= x + y.drop_last());
        assert((x + y).last() == y.last());
        lemma_last_value_concat(x, y.drop_last(), k);
    }
}

/// Where a key repeats across a record's sources, the store keeps the value
/// from the latest source that has it: the call's over the logger's, the
/// logger's over the static fields.
pub proof fn lemma_record_later_source_wins(
    statics: Seq<Field>,
    instance: Seq<Field>,
    call: Seq<Field>,
    k: Seq<char>,
)
    requires
        encode_fields(statics + instance + call) is Some,
    ensures
        ({
            let s = encode_fields(statics)->Some_0;
            let i = encode_fields(instance)->Some_0;
            let c = encode_fields(call)->Some_0;
            let doc = encode_fields(statics + instance + call)->Some_0;
            &&& last_value(c, k) is Some ==> last_value(doc, k) == last_value(c, k)
            &&& last_value(c, k) is None && last_value(i, k) is Some ==> last_value(doc, k)
                == last_value(i, k)
            &&& last_value(c, k) is None && last_value(i, k) is None ==> last_value(doc, k)
                == last_value(s, k)
        }),
{
    lemma_encode_fields_concat(statics, instance);
    lemma_encode_fields_concat(statics + instance, call);
    let s = encode_fields(statics)->Some_0;
    let i = encode_fields(instance)->Some_0;
    let c = encode_fields(call)->Some_0;
    lemma_last_value_concat(s + i, c, k);
    lemma_last_value_concat(s, i, k);
}

/// A sequence whose prefix cannot be encoded cannot be encoded either.
proof fn lemma_encode_fields_prefix(fs: Seq<Field>, n: int)
    requires
        0 <= n <= fs.len(),
        encode_fields(fs.take(n)) is None,
    ensures
        encode_fields(fs) is None,
    decreases fs.len() - n,
{
    if n < fs.len() {
        assert(fs.take(n + 1).drop_last() =~= fs.take(n));
        lemma_encode_fields_prefix(fs, n + 1);
    } else {
        assert(fs.take(n) =~= fs);
    }
}

} // verus!
