//! The JSON text that clients read: one object per capture record, and the
//! list of all records.

use vstd::prelude::*;
use vstd::string::StringExecFns;
use crate::model::{Pcap, chip_kind_name, state_name, chip_kind_to_string, state_to_string};
use crate::text::{int_text, bool_text, push_int, push_bool, pop_char, str_eq};

verus! {

/// Keys whose values are written as JSON strings; the others are numbers or
/// booleans, written bare.
pub open spec fn quoted_key(key: Seq<char>) -> bool {
    key == "chip_kind"@ || key == "device_name"@ || key == "state"@
}

/// One `"key": value,` member, with its trailing comma.
pub open spec fn json_member(key: Seq<char>, value: Seq<char>) -> Seq<char> {
    if quoted_key(key) {
        "\""@ + key + "\": \""@ + value + "\","@
    } else {
        "\""@ + key + "\": "@ + value + ","@
    }
}

/// The members of a record, in their fixed order, each with a trailing comma.
pub open spec fn record_members(p: Pcap) -> Seq<char> {
    json_member("id"@, int_text(p.id as int))
        + json_member("chip_kind"@, chip_kind_name(p.chip_kind))
        + json_member("chip_id"@, int_text(p.chip_id as int))
        + json_member("device_name"@, p.device_name@)
        + json_member("state"@, state_name(p.state))
        + json_member("size"@, int_text(p.size as int))
        + json_member("records"@, int_text(p.records as int))
        + json_member("timestamp"@, int_text(p.timestamp as int))
        + json_member("valid"@, bool_text(p.valid))
}

/// One record as a JSON object.
pub open spec fn record_json(p: Pcap) -> Seq<char> {
    "{"@ + record_members(p).drop_last() + "}"@
}

/// The records as JSON objects, each followed by a comma.
pub open spec fn records_text(recs: Seq<Pcap>) -> Seq<char>
    decreases recs.len(),
{
    if recs.len() == 0 {
        Seq::<char>::empty()
    } else {
        records_text(recs.drop_last()) + record_json(recs.last()) + ","@
    }
}

/// The whole registry as one JSON object: `{}` when it holds nothing, else
/// the records in order under `pcaps`, separated by commas.
pub open spec fn registry_json(recs: Seq<Pcap>) -> Seq<char> {
    if recs.len() == 0 {
        "{}"@
    } else {
        "{\"pcaps\": ["@ + records_text(recs).drop_last() + "]}"@
    }
}

/// Appends one `"key": value,` member; the values of `chip_kind`,
/// `device_name` and `state` are quoted.
pub fn write_to_json_str(key: &str, value: String, out: &mut String)
    ensures
        final(out)@ == old(out)@ + json_member(key@, value@),
{
    if str_eq(key, "chip_kind") || str_eq(key, "device_name") || str_eq(key, "state") {
        out.append("\"");
        out.append(key);
        out.append("\": \"");
        out.append(value.as_str());
        out.append("\",");
    } else {
        out.append("\"");
        out.append(key);
        out.append("\": ");
        out.append(value.as_str());
        out.append(",");
    }
    assert(final(out)@ =~= old(out)@ + json_member(key@, value@));
}

fn int_string(i: i64) -> (r: String)
    ensures
        r@ == int_text(i as int),
{
    let mut s = String::new();
    push_int(i, &mut s);
    assert(s@ =~= int_text(i as int));
    s
}

fn bool_string(b: bool) -> (r: String)
    ensures
        r@ == bool_text(b),
{
    let mut s = String::new();
    push_bool(b, &mut s);
    assert(s@ =~= bool_text(b));
    s
}

/// Appends a record as a JSON object, followed by a comma.
pub fn pcap_to_string(proto: &Pcap, out: &mut String)
    ensures
        final(out)@ == old(out)@ + record_json(*proto) + ","@,
{
    let ghost start = out@;
    out.append("{");
    write_to_json_str("id", int_string(proto.id as i64), out);
    write_to_json_str("chip_kind", String::from_str(chip_kind_to_string(proto.chip_kind)), out);
    write_to_json_str("chip_id", int_string(proto.chip_id as i64), out);
    write_to_json_str("device_name", proto.device_name.clone(), out);
    write_to_json_str("state", String::from_str(state_to_string(proto.state)), out);
    write_to_json_str("size", int_string(proto.size as i64), out);
    write_to_json_str("records", int_string(proto.records as i64), out);
    write_to_json_str("timestamp", int_string(proto.timestamp), out);
    write_to_json_str("valid", bool_string(proto.valid), out);
    let ghost members = record_members(*proto);
    assert(out@ =~= start + "{"@ + members);
    proof {
        reveal_strlit("id");
        reveal_strlit("\",");
        reveal_strlit(",");
        assert(members.len() > 0);
    }
    pop_char(out);
    assert(out@ =~= start + "{"@ + members.drop_last());
    out.append("},");
    proof {
        reveal_strlit("},");
        reveal_strlit("}");
    }
    assert(out@ =~= start + record_json(*proto) + ","@);
}

/// The JSON text of a list of records, as `registry_json` states it.
pub fn records_to_json(recs: &Vec<Pcap>) -> (r: String)
    ensures
        r@ == registry_json(recs@),
{
    let mut out = String::new();
    if recs.len() == 0 {
        out.append("{}");
        return out;
    }
    out.append("{\"pcaps\": [");
    let ghost head = out@;
    let mut i: usize = 0;
    while i < recs.len()
        invariant
            0 <= i <= recs@.len(),
            out@ == head + records_text(recs@.take(i as int)),
        decreases recs@.len() - i,
    {
        pcap_to_string(&recs[i], &mut out);
        assert(recs@.take(i + 1).drop_last() =~= recs@.take(i as int));
        i = i + 1;
    }
    assert(recs@.take(recs@.len() as int) =~= recs@);
    let ghost body = records_text(recs@);
    proof {
        reveal_strlit(",");
        assert(body.len() > 0);
    }
    pop_char(&mut out);
    assert(out@ =~= head + body.drop_last());
    out.append("]}");
    assert(out@ =~= registry_json(recs@));
    out
}

} // verus!
