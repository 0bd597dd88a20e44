//! The documented wire shape of a payload body, as structure rather than
//! text: a list of named fields, each holding a string or an array of
//! strings. Reading a payload back goes by the entry's tag and by field
//! *name*, never by field position, so a reader is insensitive to field
//! order. Serializing any variant and reading it back against this shape
//! yields the identical payload, and no variant carries extra or missing
//! documented fields.

use vstd::prelude::*;
use vstd::seq_lib::*;
use crate::json::{escaped, quoted};
use crate::payloads::{
    payload_json, strs_array, ColorPayloadView, LogPayloadView, PayloadView, TextPayloadView,
};

verus! {

/// A field value in a payload body: a JSON string or an array of strings.
pub enum FieldValue {
    StrVal(Seq<char>),
    StrArrVal(Seq<Seq<char>>),
}

/// The documented field list of a payload body, in serialization order.
pub open spec fn payload_fields(p: PayloadView) -> Seq<(Seq<char>, FieldValue)> {
    match p {
        PayloadView::Log(l) => seq![
            ("values"@, FieldValue::StrArrVal(l.values)),
            ("label"@, FieldValue::StrVal(l.label)),
        ],
        PayloadView::Text(t) => seq![
            ("content"@, FieldValue::StrVal(t.content)),
            ("label"@, FieldValue::StrVal(t.label)),
        ],
        PayloadView::Confetti => Seq::empty(),
        PayloadView::ClearAll => Seq::empty(),
        PayloadView::Color(c) => seq![("color"@, FieldValue::StrVal(c.color))],
    }
}

/// The first value stored under `name`, if any: lookup by name, not by
/// position.
pub open spec fn field_lookup(
    fields: Seq<(Seq<char>, FieldValue)>,
    name: Seq<char>,
) -> Option<FieldValue>
    decreases fields.len(),
{
    if fields.len() == 0 {
        None
    } else if fields[0].0 == name {
        Some(fields[0].1)
    } else {
        field_lookup(fields.drop_first(), name)
    }
}

/// The names of a field list, in order.
pub open spec fn field_names(fields: Seq<(Seq<char>, FieldValue)>) -> Seq<Seq<char>> {
    fields.map_values(|f: (Seq<char>, FieldValue)| f.0)
}

/// The tag the facade pairs with each payload variant on the wire.
pub open spec fn tag_of(p: PayloadView) -> Seq<char> {
    match p {
        PayloadView::Log(_) => "log"@,
        PayloadView::Text(_) => "custom"@,
        PayloadView::Confetti => "confetti"@,
        PayloadView::ClearAll => "clear_all"@,
        PayloadView::Color(_) => "color"@,
    }
}

/// Reads a payload back from an entry's tag and the fields of its body,
/// against the documented shape: the tag picks the variant, and the variant's
/// documented field names pick the contents.
pub open spec fn payload_of_fields(
    tag: Seq<char>,
    fields: Seq<(Seq<char>, FieldValue)>,
) -> Option<PayloadView> {
    if tag == "log"@ {
        match (field_lookup(fields, "values"@), field_lookup(fields, "label"@)) {
            (
                Some(FieldValue::StrArrVal(values)),
                Some(FieldValue::StrVal(label)),
            ) => Some(PayloadView::Log((LogPayloadView { values, label }))),
            _ => None,
        }
    } else if tag == "custom"@ {
        match (field_lookup(fields, "content"@), field_lookup(fields, "label"@)) {
            (
                Some(FieldValue::StrVal(content)),
                Some(FieldValue::StrVal(label)),
            ) => Some(PayloadView::Text((TextPayloadView { content, label }))),
            _ => None,
        }
    } else if tag == "color"@ {
        match field_lookup(fields, "color"@) {
            Some(FieldValue::StrVal(color)) => Some(
                PayloadView::Color((ColorPayloadView { color })),
            ),
            _ => None,
        }
    } else if tag == "confetti"@ {
        Some(PayloadView::Confetti)
    } else if tag == "clear_all"@ {
        Some(PayloadView::ClearAll)
    } else {
        None
    }
}

/// Serializing any payload variant to its documented shape and reading it
/// back under its tag yields the identical payload.
pub proof fn lemma_payload_shape_round_trip(p: PayloadView)
    ensures
        payload_of_fields(tag_of(p), payload_fields(p)) == Some(p),
{
    reveal_strlit("log");
    reveal_strlit("custom");
    reveal_strlit("color");
    reveal_strlit("confetti");
    reveal_strlit("clear_all");
    reveal_strlit("values");
    reveal_strlit("label");
    reveal_strlit("content");
    assert("log"@.len() == 3);
    assert("custom"@.len() == 6);
    assert("color"@.len() == 5);
    assert("confetti"@.len() == 8);
    assert("clear_all"@.len() == 9);
    assert("values"@.len() == 6);
    assert("label"@.len() == 5);
    assert("content"@.len() == 7);
    let fields = payload_fields(p);
    match p {
        PayloadView::Log(l) => {
            assert(fields[0].0 == "values"@ && fields[1].0 == "label"@);
            assert(fields.drop_first() =~= seq![("label"@, FieldValue::StrVal(l.label))]);
            assert(field_lookup(fields, "values"@) == Some(FieldValue::StrArrVal(l.values)));
            assert(field_lookup(fields.drop_first(), "label"@) == Some(
                FieldValue::StrVal(l.label),
            ));
            assert(field_lookup(fields, "label"@) == Some(FieldValue::StrVal(l.label)));
        },
        PayloadView::Text(t) => {
            assert(fields[0].0 == "content"@ && fields[1].0 == "label"@);
            assert(fields.drop_first() =~= seq![("label"@, FieldValue::StrVal(t.label))]);
            assert(field_lookup(fields, "content"@) == Some(FieldValue::StrVal(t.content)));
            assert(field_lookup(fields.drop_first(), "label"@) == Some(
                FieldValue::StrVal(t.label),
            ));
            assert(field_lookup(fields, "label"@) == Some(FieldValue::StrVal(t.label)));
        },
        PayloadView::Confetti => {
            assert(tag_of(p) != "log"@);
        },
        PayloadView::ClearAll => {
            assert(tag_of(p) != "log"@);
        },
        PayloadView::Color(c) => {
            assert(field_lookup(fields, "color"@) == Some(FieldValue::StrVal(c.color)));
        },
    }
}

/// Reading back goes only by name lookup, so two field lists that answer
/// every name alike decode to the same payload, whatever order their fields
/// stand in.
pub proof fn lemma_decode_ignores_field_order(
    tag: Seq<char>,
    fields1: Seq<(Seq<char>, FieldValue)>,
    fields2: Seq<(Seq<char>, FieldValue)>,
)
    requires
        forall|name: Seq<char>| field_lookup(fields1, name) == field_lookup(fields2, name),
    ensures
        payload_of_fields(tag, fields1) == payload_of_fields(tag, fields2),
{
    assert(field_lookup(fields1, "values"@) == field_lookup(fields2, "values"@));
    assert(field_lookup(fields1, "label"@) == field_lookup(fields2, "label"@));
    assert(field_lookup(fields1, "content"@) == field_lookup(fields2, "content"@));
    assert(field_lookup(fields1, "color"@) == field_lookup(fields2, "color"@));
}

/// A field value printed as wire text.
pub open spec fn field_value_text(v: FieldValue) -> Seq<char> {
    match v {
        FieldValue::StrVal(s) => quoted(s),
        FieldValue::StrArrVal(a) => strs_array(a),
    }
}

/// A field list printed as the body of a JSON object: quoted name, colon,
/// value, comma-separated.
pub open spec fn fields_text(fields: Seq<(Seq<char>, FieldValue)>) -> Seq<char>
    decreases fields.len(),
{
    if fields.len() == 0 {
        Seq::empty()
    } else if fields.len() == 1 {
        quoted(fields[0].0) + ":"@ + field_value_text(fields[0].1)
    } else {
        fields_text(fields.drop_last()) + ","@ + quoted(fields.last().0) + ":"@
            + field_value_text(fields.last().1)
    }
}

/// A field list printed as a whole JSON object.
pub open spec fn fields_object_text(fields: Seq<(Seq<char>, FieldValue)>) -> Seq<char> {
    "{"@ + fields_text(fields) + "}"@
}

/// The wire text of every payload variant is exactly its documented field
/// list, printed: what goes out is the documented shape and nothing else.
pub proof fn lemma_payload_json_prints_fields(p: PayloadView)
    ensures
        payload_json(p) == fields_object_text(payload_fields(p)),
{
    reveal_with_fuel(escaped, 9);
    reveal_with_fuel(fields_text, 3);
    reveal_strlit("values");
    reveal_strlit("label");
    reveal_strlit("content");
    reveal_strlit("color");
    assert(escaped("values"@) =~= "values"@);
    assert(escaped("label"@) =~= "label"@);
    assert(escaped("content"@) =~= "content"@);
    assert(escaped("color"@) =~= "color"@);
    reveal_strlit("{\"values\":");
    reveal_strlit(",\"label\":");
    reveal_strlit("{\"content\":");
    reveal_strlit("{\"color\":");
    reveal_strlit("{}");
    reveal_strlit("{");
    reveal_strlit("}");
    reveal_strlit("\"");
    reveal_strlit(":");
    reveal_strlit(",");
    let fields = payload_fields(p);
    match p {
        PayloadView::Log(l) => {
            assert(fields.drop_last() =~= seq![("values"@, FieldValue::StrArrVal(l.values))]);
            assert(payload_json(p) =~= fields_object_text(fields));
        },
        PayloadView::Text(t) => {
            assert(fields.drop_last() =~= seq![("content"@, FieldValue::StrVal(t.content))]);
            assert(payload_json(p) =~= fields_object_text(fields));
        },
        PayloadView::Confetti => {
            assert(payload_json(p) =~= fields_object_text(fields));
        },
        PayloadView::ClearAll => {
            assert(payload_json(p) =~= fields_object_text(fields));
        },
        PayloadView::Color(c) => {
            assert(payload_json(p) =~= fields_object_text(fields));
        },
    }
}

/// No variant serializes with extra or missing documented fields: the field
/// names of each variant's body are exactly the documented ones, in the
/// documented order.
pub proof fn lemma_documented_fields(p: PayloadView)
    ensures
        p matches PayloadView::Log(_) ==> field_names(payload_fields(p)) =~= seq![
            "values"@,
            "label"@,
        ],
        p matches PayloadView::Text(_) ==> field_names(payload_fields(p)) =~= seq![
            "content"@,
            "label"@,
        ],
        p matches PayloadView::Color(_) ==> field_names(payload_fields(p)) =~= seq!["color"@],
        p matches PayloadView::Confetti ==> field_names(payload_fields(p)) =~= Seq::<
            Seq<char>,
        >::empty(),
        p matches PayloadView::ClearAll ==> field_names(payload_fields(p)) =~= Seq::<
            Seq<char>,
        >::empty(),
{
}

} // verus!
