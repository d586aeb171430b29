//! Writing JSON text: values and flat objects.
use vstd::prelude::*;
use crate::models::condition::{JsonValue, JsonValueView};
use crate::strings::{i64_text, int_text, json_quote, push_char, push_json_string};

verus! {

/// The mathematical value of a list of object members.
pub open spec fn entries_view(s: Seq<(String, JsonValue)>) -> Seq<(Seq<char>, JsonValueView)> {
    s.map_values(|p: (String, JsonValue)| (p.0@, p.1@))
}

/// JSON text of a value: integers in decimal, other numbers and values by
/// their own text, strings quoted and escaped.
pub open spec fn value_text(v: JsonValueView) -> Seq<char> {
    match v {
        JsonValueView::Int(n) => int_text(n as int),
        JsonValueView::Number(t) => t,
        JsonValueView::Str(s) => json_quote(s),
        JsonValueView::Other(t) => t,
    }
}

/// JSON text of one object member.
pub open spec fn member_text(m: (Seq<char>, JsonValueView)) -> Seq<char> {
    json_quote(m.0) + seq![':'] + value_text(m.1)
}

/// JSON text of object members, separated by commas.
pub open spec fn members_text(ms: Seq<(Seq<char>, JsonValueView)>) -> Seq<char>
    decreases ms.len(),
{
    if ms.len() == 0 {
        Seq::empty()
    } else if ms.len() == 1 {
        member_text(ms[0])
    } else {
        members_text(ms.drop_last()) + seq![','] + member_text(ms.last())
    }
}

/// JSON text of an object with the given members, in order.
pub open spec fn object_text(ms: Seq<(Seq<char>, JsonValueView)>) -> Seq<char> {
    seq!['{'] + members_text(ms) + seq!['}']
}

/// Appends the JSON text of a value.
pub fn push_value(out: &mut String, v: &JsonValue)
    ensures
        final(out)@ == old(out)@ + value_text(v@),
{
    match v {
        JsonValue::Int(n) => {
            let t = i64_text(*n);
            out.append(t.as_str());
        },
        JsonValue::Number(t) => {
            out.append(t.as_str());
        },
        JsonValue::Str(s) => {
            push_json_string(out, s.as_str());
        },
        JsonValue::Other(t) => {
            out.append(t.as_str());
        },
    }
}

/// Appends the JSON text of an object with the given members.
pub fn push_object(out: &mut String, members: &[(String, JsonValue)])
    ensures
        final(out)@ == old(out)@ + object_text(entries_view(members@)),
{
    let ghost ms = entries_view(members@);
    push_char(out, '{');
    let ghost base = out@;
    let mut i: usize = 0;
    while i < members.len()
        invariant
            i <= members@.len(),
            ms == entries_view(members@),
            out@ == base + members_text(ms.subrange(0, i as int)),
        decreases members@.len() - i,
    {
        let ghost pre = ms.subrange(0, i as int);
        let ghost nxt = ms.subrange(0, i + 1);
        assert(nxt.drop_last() == pre);
        assert(nxt.last() == ms[i as int]);
        if i > 0 {
            push_char(out, ',');
        }
        let (k, v) = &members[i];
        push_json_string(out, k.as_str());
        push_char(out, ':');
        push_value(out, v);
        proof {
            assert(ms[i as int] == (k@, v@));
            if i == 0 {
                assert(nxt.len() == 1);
                assert(out@ =~= base + members_text(nxt));
            } else {
                assert(out@ =~= base + members_text(nxt));
            }
        }
        i = i + 1;
    }
    assert(ms.subrange(0, members@.len() as int) == ms);
    push_char(out, '}');
    assert(out@ =~= old(out)@ + object_text(ms));
}

} // verus!
