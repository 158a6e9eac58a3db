use vstd::prelude::*;
use crate::value::{Field, FieldValue, EncodeError};
use crate::document::{Document, encode_fields, serialize_record};
use crate::batch::{BatchBuffer, WriteAction, accept_step};

verus! {

/// Relies on chrono: `Local::now` reads the wall clock in the machine's time
/// zone and `DateTime::to_rfc3339` writes it as RFC 3339 text. The reading
/// depends on the clock and the zone, so nothing is promised of it.
#[verifier::external_body]
fn local_time_rfc3339() -> String {
    chrono::Local::now().to_rfc3339()
}

/// `f` holds the string `v` under the key `k`.
pub open spec fn is_str_field(f: Field, k: Seq<char>, v: Seq<char>) -> bool {
    &&& f.key@ == k
    &&& f.value is Str
    &&& f.value->Str_0@ == v
}

/// The fields that every record starts with: its time `ts`, the short name
/// and the rank of its level (the most severe level has the smallest rank),
/// and its message.
pub fn default_fields_at(ts: String, level: &str, level_rank: usize, msg: &str) -> (r: Vec<Field>)
    ensures
        r@.len() == 4,
        is_str_field(r@[0], seq!['t', 's'], ts@),
        is_str_field(r@[1], seq!['l', 'e', 'v', 'e', 'l'], level@),
        r@[2].key@ == seq!['l', 'e', 'v', 'e', 'l', 'i'],
        r@[2].value == FieldValue::Usize(level_rank),
        is_str_field(r@[3], seq!['m', 's', 'g'], msg@),
{
    proof {
        reveal_strlit("ts");
        reveal_strlit("level");
        reveal_strlit("leveli");
        reveal_strlit("msg");
        assert("ts"@ =~= seq!['t', 's']);
        assert("level"@ =~= seq!['l', 'e', 'v', 'e', 'l']);
        assert("leveli"@ =~= seq!['l', 'e', 'v', 'e', 'l', 'i']);
        assert("msg"@ =~= seq!['m', 's', 'g']);
    }
    let mut fields: Vec<Field> = Vec::new();
    fields.push(Field { key: "ts".to_owned(), value: FieldValue::Str(ts) });
    fields.push(Field { key: "level".to_owned(), value: FieldValue::Str(level.to_owned()) });
    fields.push(Field { key: "leveli".to_owned(), value: FieldValue::Usize(level_rank) });
    fields.push(Field { key: "msg".to_owned(), value: FieldValue::Str(msg.to_owned()) });
    fields
}

/// The default fields of a record, stamped with the local time now.
pub fn default_fields(level: &str, level_rank: usize, msg: &str) -> (r: Vec<Field>)
    ensures
        r@.len() == 4,
        r@[0].key@ == seq!['t', 's'],
        r@[0].value is Str,
        is_str_field(r@[1], seq!['l', 'e', 'v', 'e', 'l'], level@),
        r@[2].key@ == seq!['l', 'e', 'v', 'e', 'l', 'i'],
        r@[2].value == FieldValue::Usize(level_rank),
        is_str_field(r@[3], seq!['m', 's', 'g'], msg@),
{
    let ts = local_time_rfc3339();
    default_fields_at(ts, level, level_rank, msg)
}

/// Serializes one record from its three sources of fields and hands the
/// document to the buffer at time `now`. Where a field cannot be encoded the
/// record is dropped and the buffer is left as it was.
pub fn accept_record_at(
    buffer: &mut BatchBuffer,
    statics: &Vec<Field>,
    instance: &Vec<Field>,
    call: &Vec<Field>,
    now: u64,
) -> (r: Result<WriteAction, EncodeError>)
    requires
        old(buffer).wf(),
    ensures
        final(buffer).wf(),
        r is Err <==> encode_fields(statics@ + instance@ + call@) is None,
        r is Err ==> *final(buffer) == *old(buffer),
        r is Ok ==> exists|doc: Document|
            doc@ == encode_fields(statics@ + instance@ + call@)->Some_0 && accept_step(
                *old(buffer),
                doc,
                now,
                *final(buffer),
                r->Ok_0,
            ),
{
    let doc = serialize_record(statics, instance, call)?;
    Ok(buffer.accept_at(doc, now))
}

/// Serializes one record and hands the document to the buffer at the
/// current time.
pub fn accept_record(
    buffer: &mut BatchBuffer,
    statics: &Vec<Field>,
    instance: &Vec<Field>,
    call: &Vec<Field>,
) -> (r: Result<WriteAction, EncodeError>)
    requires
        old(buffer).wf(),
    ensures
        final(buffer).wf(),
        r is Err <==> encode_fields(statics@ + instance@ + call@) is None,
        r is Err ==> *final(buffer) == *old(buffer),
        r is Ok ==> exists|doc: Document, now: u64|
            doc@ == encode_fields(statics@ + instance@ + call@)->Some_0 && accept_step(
                *old(buffer),
                doc,
                now,
                *final(buffer),
                r->Ok_0,
            ),
{
    let now = buffer.now_ms();
    accept_record_at(buffer, statics, instance, call, now)
}

} // verus!
