//! Reading the wire text back.
//!
//! These functions parse, at the specification level, exactly the text the
//! serializer writes: fixed punctuation, string literals, arrays and the
//! envelope object. They exist to state — and prove — that serialization
//! loses nothing: the whole envelope can be read back from its wire text.

use vstd::prelude::*;
use crate::json::{lemma_quoted_round_trip, quoted, scan_string};
use crate::envelope::{
    entries_body, entry_json, envelope_json, meta_body, meta_entry_json, origin_json,
    RayOriginView, RayPayloadView, RayRequestView,
};
use crate::payloads::{
    payload_json, strs_array, strs_body, ColorPayloadView, LogPayloadView, PayloadView,
    TextPayloadView,
};
use crate::shape::tag_of;

verus! {

/// Consumes an expected literal prefix of `t`, or fails.
pub open spec fn expect(t: Seq<char>, lit: Seq<char>) -> Option<Seq<char>> {
    if t.len() >= lit.len() && t.take(lit.len() as int) == lit {
        Some(t.skip(lit.len() as int))
    } else {
        None
    }
}

/// Expecting a prefix that is there consumes exactly it.
pub proof fn lemma_expect(lit: Seq<char>, rest: Seq<char>)
    ensures
        expect(lit + rest, lit) == Some(rest),
{
    assert((lit + rest).take(lit.len() as int) =~= lit);
    assert((lit + rest).skip(lit.len() as int) =~= rest);
}

/// Reads one JSON string literal: an opening quote, then the scan to the
/// closing quote.
pub open spec fn read_string(t: Seq<char>) -> Option<(Seq<char>, Seq<char>)> {
    if t.len() > 0 && t[0] == '"' {
        scan_string(t.drop_first())
    } else {
        None
    }
}

/// A string literal the serializer wrote reads back exactly.
pub proof fn lemma_read_string(s: Seq<char>, rest: Seq<char>)
    ensures
        read_string(quoted(s) + rest) == Some((s, rest)),
{
    lemma_quoted_round_trip(s, rest);
    reveal_strlit("\"");
    assert(quoted(s).len() >= 2);
    assert((quoted(s) + rest).len() > 0);
}

/// The scanner always leaves strictly less text than it was given.
pub proof fn lemma_scan_shrinks(t: Seq<char>)
    ensures
        scan_string(t) matches Some(p) ==> p.1.len() < t.len(),
    decreases t.len(),
{
    if t.len() == 0 {
    } else if t[0] == '"' {
    } else if t[0] == '\\' {
        if t.len() >= 2 {
            lemma_scan_shrinks(t.skip(2));
            if t.len() >= 6 {
                lemma_scan_shrinks(t.skip(6));
            }
        }
    } else {
        lemma_scan_shrinks(t.drop_first());
    }
}

/// Reading a string literal always leaves strictly less text.
pub proof fn lemma_read_string_shrinks(t: Seq<char>)
    ensures
        read_string(t) matches Some(p) ==> p.1.len() < t.len(),
{
    if t.len() > 0 && t[0] == '"' {
        lemma_scan_shrinks(t.drop_first());
    }
}

/// Reads the items of a non-empty string array, from after the opening
/// bracket up to and over the closing one.
pub open spec fn read_strs_items(t: Seq<char>) -> Option<(Seq<Seq<char>>, Seq<char>)>
    decreases t.len(),
{
    match read_string(t) {
        None => None,
        Some(p) => {
            proof {
                lemma_read_string_shrinks(t);
            }
            if p.1.len() > 0 && p.1[0] == ',' {
                match read_strs_items(p.1.drop_first()) {
                    None => None,
                    Some(q) => Some((seq![p.0] + q.0, q.1)),
                }
            } else if p.1.len() > 0 && p.1[0] == ']' {
                Some((seq![p.0], p.1.drop_first()))
            } else {
                None
            }
        },
    }
}

/// Reads a whole string array, brackets included.
pub open spec fn read_strs_array(t: Seq<char>) -> Option<(Seq<Seq<char>>, Seq<char>)> {
    if t.len() >= 2 && t[0] == '[' && t[1] == ']' {
        Some((Seq::empty(), t.skip(2)))
    } else if t.len() >= 1 && t[0] == '[' {
        read_strs_items(t.drop_first())
    } else {
        None
    }
}

/// The body of a string array can also be taken apart at the front.
pub proof fn lemma_strs_body_front(vs: Seq<Seq<char>>)
    requires
        vs.len() > 1,
    ensures
        strs_body(vs) == quoted(vs[0]) + ","@ + strs_body(vs.drop_first()),
    decreases vs.len(),
{
    if vs.len() == 2 {
        assert(vs.drop_last() =~= seq![vs[0]]);
        assert(vs.drop_first() =~= seq![vs[1]]);
        assert(strs_body(seq![vs[0]]) == quoted(vs[0]));
        assert(strs_body(seq![vs[1]]) == quoted(vs[1]));
        assert(vs.last() == vs[1]);
        assert(strs_body(vs) =~= quoted(vs[0]) + ","@ + strs_body(vs.drop_first()));
    } else {
        lemma_strs_body_front(vs.drop_last());
        assert(vs.drop_last()[0] == vs[0]);
        assert(vs.drop_last().drop_first() =~= vs.drop_first().drop_last());
        assert(vs.drop_first().last() == vs.last());
        assert(strs_body(vs) =~= quoted(vs[0]) + ","@ + strs_body(vs.drop_first()));
    }
}

/// The items of a serialized non-empty string array read back exactly.
pub proof fn lemma_read_strs_items(vs: Seq<Seq<char>>, rest: Seq<char>)
    requires
        vs.len() > 0,
    ensures
        read_strs_items(strs_body(vs) + seq![']'] + rest) == Some((vs, rest)),
    decreases vs.len(),
{
    let t = strs_body(vs) + seq![']'] + rest;
    if vs.len() == 1 {
        let after = seq![']'] + rest;
        assert(t =~= quoted(vs[0]) + after);
        lemma_read_string(vs[0], after);
        assert(after[0] == ']');
        assert(after.drop_first() =~= rest);
        assert(seq![vs[0]] =~= vs);
    } else {
        lemma_strs_body_front(vs);
        reveal_strlit(",");
        let after = ","@ + (strs_body(vs.drop_first()) + seq![']'] + rest);
        assert(t =~= quoted(vs[0]) + after);
        lemma_read_string(vs[0], after);
        assert(after[0] == ',');
        assert(after.drop_first() =~= strs_body(vs.drop_first()) + seq![']'] + rest);
        lemma_read_strs_items(vs.drop_first(), rest);
        assert(seq![vs[0]] + vs.drop_first() =~= vs);
    }
}

/// A serialized string array, wherever it stands in the wire text, reads
/// back exactly.
pub proof fn lemma_read_strs_array(vs: Seq<Seq<char>>, rest: Seq<char>)
    ensures
        read_strs_array(strs_array(vs) + rest) == Some((vs, rest)),
{
    let t = strs_array(vs) + rest;
    reveal_strlit("[");
    reveal_strlit("]");
    reveal_strlit("\"");
    if vs.len() == 0 {
        assert(t =~= seq!['[', ']'] + rest);
        assert(t.len() >= 2 && t[0] == '[' && t[1] == ']');
        assert(t.skip(2) =~= rest);
        assert(Seq::<Seq<char>>::empty() =~= vs);
    } else {
        if vs.len() > 1 {
            lemma_strs_body_front(vs);
        }
        assert(strs_body(vs)[0] == '"');
        assert(t[0] == '[' && t[1] == '"');
        assert(t.drop_first() =~= strs_body(vs) + seq![']'] + rest);
        lemma_read_strs_items(vs, rest);
    }
}

/// Reading string-array items always leaves strictly less text.
pub proof fn lemma_read_strs_items_shrinks(t: Seq<char>)
    ensures
        read_strs_items(t) matches Some(p) ==> p.1.len() < t.len(),
    decreases t.len(),
{
    lemma_read_string_shrinks(t);
    if let Some(p) = read_string(t) {
        if p.1.len() > 0 && p.1[0] == ',' {
            lemma_read_strs_items_shrinks(p.1.drop_first());
        }
    }
}

/// Reading a string array always leaves strictly less text.
pub proof fn lemma_read_strs_array_shrinks(t: Seq<char>)
    ensures
        read_strs_array(t) matches Some(p) ==> p.1.len() < t.len(),
{
    if !(t.len() >= 2 && t[0] == '[' && t[1] == ']') && t.len() >= 1 && t[0] == '[' {
        lemma_read_strs_items_shrinks(t.drop_first());
    }
}

/// Reads an origin object: all four fields, in the fixed order the
/// serializer writes them.
#[verifier::opaque]
pub open spec fn read_origin(t: Seq<char>) -> Option<(RayOriginView, Seq<char>)> {
    match expect(t, "{\"function_name\":"@) {
        None => None,
        Some(t1) => match read_string(t1) {
            None => None,
            Some(p1) => match expect(p1.1, ",\"file\":"@) {
                None => None,
                Some(t2) => match read_string(t2) {
                    None => None,
                    Some(p2) => match expect(p2.1, ",\"line_number\":"@) {
                        None => None,
                        Some(t3) => match read_string(t3) {
                            None => None,
                            Some(p3) => match expect(p3.1, ",\"hostname\":"@) {
                                None => None,
                                Some(t4) => match read_string(t4) {
                                    None => None,
                                    Some(p4) => match expect(p4.1, "}"@) {
                                        None => None,
                                        Some(t5) => Some(
                                            (
                                                RayOriginView {
                                                    function_name: p1.0,
                                                    file: p2.0,
                                                    line_number: p3.0,
                                                    hostname: p4.0,
                                                },
                                                t5,
                                            ),
                                        ),
                                    },
                                },
                            },
                        },
                    },
                },
            },
        },
    }
}

/// A serialized origin reads back exactly.
pub proof fn lemma_read_origin(o: RayOriginView, rest: Seq<char>)
    ensures
        read_origin(origin_json(o) + rest) == Some((o, rest)),
{
    reveal(read_origin);
    let s8 = "}"@ + rest;
    let s7 = quoted(o.hostname) + s8;
    let s6 = ",\"hostname\":"@ + s7;
    let s5 = quoted(o.line_number) + s6;
    let s4 = ",\"line_number\":"@ + s5;
    let s3 = quoted(o.file) + s4;
    let s2 = ",\"file\":"@ + s3;
    let s1 = quoted(o.function_name) + s2;
    assert(origin_json(o) + rest =~= "{\"function_name\":"@ + s1);
    lemma_expect("{\"function_name\":"@, s1);
    lemma_read_string(o.function_name, s2);
    lemma_expect(",\"file\":"@, s3);
    lemma_read_string(o.file, s4);
    lemma_expect(",\"line_number\":"@, s5);
    lemma_read_string(o.line_number, s6);
    lemma_expect(",\"hostname\":"@, s7);
    lemma_read_string(o.hostname, s8);
    lemma_expect("}"@, rest);
}

/// Reading an origin always leaves strictly less text.
pub proof fn lemma_read_origin_shrinks(t: Seq<char>)
    ensures
        read_origin(t) matches Some(p) ==> p.1.len() < t.len(),
{
    reveal(read_origin);
    if let Some(t1) = expect(t, "{\"function_name\":"@) {
        lemma_read_string_shrinks(t1);
        if let Some(p1) = read_string(t1) {
            if let Some(t2) = expect(p1.1, ",\"file\":"@) {
                lemma_read_string_shrinks(t2);
                if let Some(p2) = read_string(t2) {
                    if let Some(t3) = expect(p2.1, ",\"line_number\":"@) {
                        lemma_read_string_shrinks(t3);
                        if let Some(p3) = read_string(t3) {
                            if let Some(t4) = expect(p3.1, ",\"hostname\":"@) {
                                lemma_read_string_shrinks(t4);
                            }
                        }
                    }
                }
            }
        }
    }
}

/// Reads a payload body against the documented shape of the variant that
/// the entry's tag names.
#[verifier::opaque]
pub open spec fn read_payload(tag: Seq<char>, t: Seq<char>) -> Option<(PayloadView, Seq<char>)> {
    if tag == "log"@ {
        match expect(t, "{\"values\":"@) {
            None => None,
            Some(t1) => match read_strs_array(t1) {
                None => None,
                Some(p1) => match expect(p1.1, ",\"label\":"@) {
                    None => None,
                    Some(t2) => match read_string(t2) {
                        None => None,
                        Some(p2) => match expect(p2.1, "}"@) {
                            None => None,
                            Some(t3) => Some(
                                (
                                    PayloadView::Log(
                                        (LogPayloadView { values: p1.0, label: p2.0 }),
                                    ),
                                    t3,
                                ),
                            ),
                        },
                    },
                },
            },
        }
    } else if tag == "custom"@ {
        match expect(t, "{\"content\":"@) {
            None => None,
            Some(t1) => match read_string(t1) {
                None => None,
                Some(p1) => match expect(p1.1, ",\"label\":"@) {
                    None => None,
                    Some(t2) => match read_string(t2) {
                        None => None,
                        Some(p2) => match expect(p2.1, "}"@) {
                            None => None,
                            Some(t3) => Some(
                                (
                                    PayloadView::Text(
                                        (TextPayloadView { content: p1.0, label: p2.0 }),
                                    ),
                                    t3,
                                ),
                            ),
                        },
                    },
                },
            },
        }
    } else if tag == "color"@ {
        match expect(t, "{\"color\":"@) {
            None => None,
            Some(t1) => match read_string(t1) {
                None => None,
                Some(p1) => match expect(p1.1, "}"@) {
                    None => None,
                    Some(t2) => Some((PayloadView::Color((ColorPayloadView { color: p1.0 })), t2)),
                },
            },
        }
    } else if tag == "confetti"@ {
        match expect(t, "{}"@) {
            None => None,
            Some(t1) => Some((PayloadView::Confetti, t1)),
        }
    } else if tag == "clear_all"@ {
        match expect(t, "{}"@) {
            None => None,
            Some(t1) => Some((PayloadView::ClearAll, t1)),
        }
    } else {
        None
    }
}

/// The five tags the facade writes are pairwise distinct.
pub proof fn lemma_tags_distinct()
    ensures
        "log"@ != "custom"@ && "log"@ != "color"@ && "log"@ != "confetti"@ && "log"@
            != "clear_all"@,
        "custom"@ != "color"@ && "custom"@ != "confetti"@ && "custom"@ != "clear_all"@,
        "color"@ != "confetti"@ && "color"@ != "clear_all"@,
        "confetti"@ != "clear_all"@,
{
    reveal_strlit("log");
    reveal_strlit("custom");
    reveal_strlit("color");
    reveal_strlit("confetti");
    reveal_strlit("clear_all");
    assert("log"@.len() == 3);
    assert("custom"@.len() == 6);
    assert("color"@.len() == 5);
    assert("confetti"@.len() == 8);
    assert("clear_all"@.len() == 9);
}

/// A serialized payload body reads back exactly under its variant's tag.
pub proof fn lemma_read_payload(p: PayloadView, rest: Seq<char>)
    ensures
        read_payload(tag_of(p), payload_json(p) + rest) == Some((p, rest)),
{
    reveal(read_payload);
    lemma_tags_distinct();
    match p {
        PayloadView::Log(l) => {
            let s4 = "}"@ + rest;
            let s3 = quoted(l.label) + s4;
            let s2 = ",\"label\":"@ + s3;
            let s1 = strs_array(l.values) + s2;
            assert(payload_json(p) + rest =~= "{\"values\":"@ + s1);
            lemma_expect("{\"values\":"@, s1);
            lemma_read_strs_array(l.values, s2);
            lemma_expect(",\"label\":"@, s3);
            lemma_read_string(l.label, s4);
            lemma_expect("}"@, rest);
        },
        PayloadView::Text(t) => {
            let s4 = "}"@ + rest;
            let s3 = quoted(t.label) + s4;
            let s2 = ",\"label\":"@ + s3;
            let s1 = quoted(t.content) + s2;
            assert(payload_json(p) + rest =~= "{\"content\":"@ + s1);
            lemma_expect("{\"content\":"@, s1);
            lemma_read_string(t.content, s2);
            lemma_expect(",\"label\":"@, s3);
            lemma_read_string(t.label, s4);
            lemma_expect("}"@, rest);
        },
        PayloadView::Confetti => {
            assert(payload_json(p) + rest =~= "{}"@ + rest);
            lemma_expect("{}"@, rest);
        },
        PayloadView::ClearAll => {
            assert(payload_json(p) + rest =~= "{}"@ + rest);
            lemma_expect("{}"@, rest);
        },
        PayloadView::Color(c) => {
            let s2 = "}"@ + rest;
            let s1 = quoted(c.color) + s2;
            assert(payload_json(p) + rest =~= "{\"color\":"@ + s1);
            lemma_expect("{\"color\":"@, s1);
            lemma_read_string(c.color, s2);
            lemma_expect("}"@, rest);
        },
    }
}

/// Reading a payload body always leaves no more text than it was given,
/// and strictly less on every successful path.
pub proof fn lemma_read_payload_shrinks(tag: Seq<char>, t: Seq<char>)
    ensures
        read_payload(tag, t) matches Some(p) ==> p.1.len() < t.len(),
{
    reveal(read_payload);
    reveal_strlit("{}");
    if tag == "log"@ {
        if let Some(t1) = expect(t, "{\"values\":"@) {
            lemma_read_strs_array_shrinks(t1);
            if let Some(p1) = read_strs_array(t1) {
                if let Some(t2) = expect(p1.1, ",\"label\":"@) {
                    lemma_read_string_shrinks(t2);
                }
            }
        }
    } else if tag == "custom"@ {
        if let Some(t1) = expect(t, "{\"content\":"@) {
            lemma_read_string_shrinks(t1);
            if let Some(p1) = read_string(t1) {
                if let Some(t2) = expect(p1.1, ",\"label\":"@) {
                    lemma_read_string_shrinks(t2);
                }
            }
        }
    } else if tag == "color"@ {
        if let Some(t1) = expect(t, "{\"color\":"@) {
            lemma_read_string_shrinks(t1);
        }
    } else {
    }
}

/// An entry is well formed when its tag names its payload's variant — the
/// pairing every facade method writes.
pub open spec fn wf_entry(e: RayPayloadView) -> bool {
    e.tag == tag_of(e.content)
}

/// Reads one envelope entry: the tag, the origin, then the payload body
/// under that tag.
#[verifier::opaque]
pub open spec fn read_entry(t: Seq<char>) -> Option<(RayPayloadView, Seq<char>)> {
    match expect(t, "{\"type\":"@) {
        None => None,
        Some(t1) => match read_string(t1) {
            None => None,
            Some(ptag) => match expect(ptag.1, ",\"origin\":"@) {
                None => None,
                Some(t2) => match read_origin(t2) {
                    None => None,
                    Some(porig) => match expect(porig.1, ",\"content\":"@) {
                        None => None,
                        Some(t3) => match read_payload(ptag.0, t3) {
                            None => None,
                            Some(pc) => match expect(pc.1, "}"@) {
                                None => None,
                                Some(t4) => Some(
                                    (
                                        RayPayloadView {
                                            tag: ptag.0,
                                            origin: porig.0,
                                            content: pc.0,
                                        },
                                        t4,
                                    ),
                                ),
                            },
                        },
                    },
                },
            },
        },
    }
}

/// A serialized well-formed entry reads back exactly.
pub proof fn lemma_read_entry(e: RayPayloadView, rest: Seq<char>)
    requires
        wf_entry(e),
    ensures
        read_entry(entry_json(e) + rest) == Some((e, rest)),
{
    reveal(read_entry);
    let s6 = "}"@ + rest;
    let s5 = payload_json(e.content) + s6;
    let s4 = ",\"content\":"@ + s5;
    let s3 = origin_json(e.origin) + s4;
    let s2 = ",\"origin\":"@ + s3;
    let s1 = quoted(e.tag) + s2;
    assert(entry_json(e) + rest =~= "{\"type\":"@ + s1);
    lemma_expect("{\"type\":"@, s1);
    lemma_read_string(e.tag, s2);
    lemma_expect(",\"origin\":"@, s3);
    lemma_read_origin(e.origin, s4);
    lemma_expect(",\"content\":"@, s5);
    lemma_read_payload(e.content, s6);
    lemma_expect("}"@, rest);
}

/// Reading an entry always leaves strictly less text.
pub proof fn lemma_read_entry_shrinks(t: Seq<char>)
    ensures
        read_entry(t) matches Some(p) ==> p.1.len() < t.len(),
{
    reveal(read_entry);
    if let Some(t1) = expect(t, "{\"type\":"@) {
        lemma_read_string_shrinks(t1);
        if let Some(ptag) = read_string(t1) {
            if let Some(t2) = expect(ptag.1, ",\"origin\":"@) {
                lemma_read_origin_shrinks(t2);
                if let Some(porig) = read_origin(t2) {
                    if let Some(t3) = expect(porig.1, ",\"content\":"@) {
                        lemma_read_payload_shrinks(ptag.0, t3);
                    }
                }
            }
        }
    }
}

/// Reads the entries of a non-empty payload array, from after the opening
/// bracket up to and over the closing one.
#[verifier::opaque]
pub open spec fn read_entries_items(t: Seq<char>) -> Option<(Seq<RayPayloadView>, Seq<char>)>
    decreases t.len(),
{
    match read_entry(t) {
        None => None,
        Some(p) => {
            proof {
                lemma_read_entry_shrinks(t);
            }
            if p.1.len() > 0 && p.1[0] == ',' {
                match read_entries_items(p.1.drop_first()) {
                    None => None,
                    Some(q) => Some((seq![p.0] + q.0, q.1)),
                }
            } else if p.1.len() > 0 && p.1[0] == ']' {
                Some((seq![p.0], p.1.drop_first()))
            } else {
                None
            }
        },
    }
}

/// The body of the payload array can also be taken apart at the front.
pub proof fn lemma_entries_body_front(es: Seq<RayPayloadView>)
    requires
        es.len() > 1,
    ensures
        entries_body(es) == entry_json(es[0]) + ","@ + entries_body(es.drop_first()),
    decreases es.len(),
{
    if es.len() == 2 {
        assert(es.drop_last() =~= seq![es[0]]);
        assert(es.drop_first() =~= seq![es[1]]);
        assert(entries_body(seq![es[0]]) == entry_json(es[0]));
        assert(entries_body(seq![es[1]]) == entry_json(es[1]));
        assert(es.last() == es[1]);
        assert(entries_body(es) =~= entry_json(es[0]) + ","@ + entries_body(es.drop_first()));
    } else {
        lemma_entries_body_front(es.drop_last());
        assert(es.drop_last()[0] == es[0]);
        assert(es.drop_last().drop_first() =~= es.drop_first().drop_last());
        assert(es.drop_first().last() == es.last());
        assert(entries_body(es) =~= entry_json(es[0]) + ","@ + entries_body(es.drop_first()));
    }
}

/// The entries of a serialized non-empty payload array read back exactly.
#[verifier::rlimit(60)]
pub proof fn lemma_read_entries_items(es: Seq<RayPayloadView>, rest: Seq<char>)
    requires
        es.len() > 0,
        forall|i: int| 0 <= i < es.len() ==> wf_entry(#[trigger] es[i]),
    ensures
        read_entries_items(entries_body(es) + seq![']'] + rest) == Some((es, rest)),
    decreases es.len(),
{
    reveal(read_entries_items);
    let t = entries_body(es) + seq![']'] + rest;
    if es.len() == 1 {
        let after = seq![']'] + rest;
        assert(t =~= entry_json(es[0]) + after);
        assert(wf_entry(es[0]));
        lemma_read_entry(es[0], after);
        assert(after[0] == ']');
        assert(after.drop_first() =~= rest);
        assert(seq![es[0]] =~= es);
    } else {
        lemma_entries_body_front(es);
        reveal_strlit(",");
        let after = ","@ + (entries_body(es.drop_first()) + seq![']'] + rest);
        assert(t =~= entry_json(es[0]) + after);
        assert(wf_entry(es[0]));
        lemma_read_entry(es[0], after);
        assert(after[0] == ',');
        assert(after.drop_first() =~= entries_body(es.drop_first()) + seq![']'] + rest);
        assert(forall|i: int|
            0 <= i < es.drop_first().len() ==> wf_entry(#[trigger] es.drop_first()[i]));
        lemma_read_entries_items(es.drop_first(), rest);
        assert(seq![es[0]] + es.drop_first() =~= es);
    }
}

/// Reads one metadata pair: key, colon, value.
pub open spec fn read_meta_pair(t: Seq<char>) -> Option<((Seq<char>, Seq<char>), Seq<char>)> {
    match read_string(t) {
        None => None,
        Some(k) => match expect(k.1, ":"@) {
            None => None,
            Some(t1) => match read_string(t1) {
                None => None,
                Some(v) => Some(((k.0, v.0), v.1)),
            },
        },
    }
}

/// A serialized metadata pair reads back exactly.
pub proof fn lemma_read_meta_pair(kv: (Seq<char>, Seq<char>), rest: Seq<char>)
    ensures
        read_meta_pair(meta_entry_json(kv) + rest) == Some((kv, rest)),
{
    let s2 = quoted(kv.1) + rest;
    let s1 = ":"@ + s2;
    assert(meta_entry_json(kv) + rest =~= quoted(kv.0) + s1);
    lemma_read_string(kv.0, s1);
    lemma_expect(":"@, s2);
    lemma_read_string(kv.1, rest);
}

/// Reading a metadata pair always leaves strictly less text.
pub proof fn lemma_read_meta_pair_shrinks(t: Seq<char>)
    ensures
        read_meta_pair(t) matches Some(p) ==> p.1.len() < t.len(),
{
    lemma_read_string_shrinks(t);
    if let Some(k) = read_string(t) {
        if let Some(t1) = expect(k.1, ":"@) {
            lemma_read_string_shrinks(t1);
        }
    }
}

/// Reads the pairs of a non-empty metadata object, from after the opening
/// brace up to and over the closing one.
#[verifier::opaque]
pub open spec fn read_meta_items(t: Seq<char>) -> Option<
    (Seq<(Seq<char>, Seq<char>)>, Seq<char>),
>
    decreases t.len(),
{
    match read_meta_pair(t) {
        None => None,
        Some(p) => {
            proof {
                lemma_read_meta_pair_shrinks(t);
            }
            if p.1.len() > 0 && p.1[0] == ',' {
                match read_meta_items(p.1.drop_first()) {
                    None => None,
                    Some(q) => Some((seq![p.0] + q.0, q.1)),
                }
            } else if p.1.len() > 0 && p.1[0] == '}' {
                Some((seq![p.0], p.1.drop_first()))
            } else {
                None
            }
        },
    }
}

/// The body of the metadata object can also be taken apart at the front.
pub proof fn lemma_meta_body_front(m: Seq<(Seq<char>, Seq<char>)>)
    requires
        m.len() > 1,
    ensures
        meta_body(m) == meta_entry_json(m[0]) + ","@ + meta_body(m.drop_first()),
    decreases m.len(),
{
    if m.len() == 2 {
        assert(m.drop_last() =~= seq![m[0]]);
        assert(m.drop_first() =~= seq![m[1]]);
        assert(meta_body(seq![m[0]]) == meta_entry_json(m[0]));
        assert(meta_body(seq![m[1]]) == meta_entry_json(m[1]));
        assert(m.last() == m[1]);
        assert(meta_body(m) =~= meta_entry_json(m[0]) + ","@ + meta_body(m.drop_first()));
    } else {
        lemma_meta_body_front(m.drop_last());
        assert(m.drop_last()[0] == m[0]);
        assert(m.drop_last().drop_first() =~= m.drop_first().drop_last());
        assert(m.drop_first().last() == m.last());
        assert(meta_body(m) =~= meta_entry_json(m[0]) + ","@ + meta_body(m.drop_first()));
    }
}

/// The pairs of a serialized non-empty metadata object read back exactly.
pub proof fn lemma_read_meta_items(m: Seq<(Seq<char>, Seq<char>)>, rest: Seq<char>)
    requires
        m.len() > 0,
    ensures
        read_meta_items(meta_body(m) + seq!['}'] + rest) == Some((m, rest)),
    decreases m.len(),
{
    reveal(read_meta_items);
    let t = meta_body(m) + seq!['}'] + rest;
    if m.len() == 1 {
        let after = seq!['}'] + rest;
        assert(t =~= meta_entry_json(m[0]) + after);
        lemma_read_meta_pair(m[0], after);
        assert(after[0] == '}');
        assert(after.drop_first() =~= rest);
        assert(seq![m[0]] =~= m);
    } else {
        lemma_meta_body_front(m);
        reveal_strlit(",");
        let after = ","@ + (meta_body(m.drop_first()) + seq!['}'] + rest);
        assert(t =~= meta_entry_json(m[0]) + after);
        lemma_read_meta_pair(m[0], after);
        assert(after[0] == ',');
        assert(after.drop_first() =~= meta_body(m.drop_first()) + seq!['}'] + rest);
        lemma_read_meta_items(m.drop_first(), rest);
        assert(seq![m[0]] + m.drop_first() =~= m);
    }
}

/// Reads the payload-array region from after its opening bracket: an
/// immediate closing bracket means no entries, anything else must be the
/// entries themselves, read up to and over the closing bracket.
pub open spec fn read_entries_region(t: Seq<char>) -> Option<(Seq<RayPayloadView>, Seq<char>)> {
    if t.len() > 0 && t[0] == ']' {
        Some((Seq::empty(), t.drop_first()))
    } else {
        read_entries_items(t)
    }
}

/// A serialized payload-array region, empty or not, reads back exactly.
pub proof fn lemma_read_entries_region(es: Seq<RayPayloadView>, rest: Seq<char>)
    requires
        forall|i: int| 0 <= i < es.len() ==> wf_entry(#[trigger] es[i]),
    ensures
        read_entries_region(entries_body(es) + seq![']'] + rest) == Some((es, rest)),
{
    reveal_strlit("{\"type\":");
    let t = entries_body(es) + seq![']'] + rest;
    if es.len() == 0 {
        assert(t =~= seq![']'] + rest);
        assert(t[0] == ']');
        assert(t.drop_first() =~= rest);
        assert(Seq::<RayPayloadView>::empty() =~= es);
    } else {
        if es.len() > 1 {
            lemma_entries_body_front(es);
        }
        assert(entries_body(es)[0] == '{');
        assert(t[0] == '{');
        lemma_read_entries_items(es, rest);
    }
}

/// Reads the metadata region from after its opening brace: an immediate
/// closing brace means no pairs, anything else must be the pairs
/// themselves, read up to and over the closing brace.
pub open spec fn read_meta_region(t: Seq<char>) -> Option<(Seq<(Seq<char>, Seq<char>)>, Seq<char>)> {
    if t.len() > 0 && t[0] == '}' {
        Some((Seq::empty(), t.drop_first()))
    } else {
        read_meta_items(t)
    }
}

/// A serialized metadata region, empty or not, reads back exactly.
pub proof fn lemma_read_meta_region(m: Seq<(Seq<char>, Seq<char>)>, rest: Seq<char>)
    ensures
        read_meta_region(meta_body(m) + seq!['}'] + rest) == Some((m, rest)),
{
    reveal_strlit("\"");
    let t = meta_body(m) + seq!['}'] + rest;
    if m.len() == 0 {
        assert(t =~= seq!['}'] + rest);
        assert(t[0] == '}');
        assert(t.drop_first() =~= rest);
        assert(Seq::<(Seq<char>, Seq<char>)>::empty() =~= m);
    } else {
        if m.len() > 1 {
            lemma_meta_body_front(m);
        }
        assert(meta_body(m)[0] == '\"');
        assert(t[0] == '\"');
        lemma_read_meta_items(m, rest);
    }
}

/// Reads a whole envelope from its wire text, and only whole: anything left
/// over after the closing braces fails the read.
pub open spec fn read_envelope(t: Seq<char>) -> Option<RayRequestView> {
    match expect(t, "{\"uuid\":"@) {
        None => None,
        Some(t1) => match read_string(t1) {
            None => None,
            Some(pu) => match expect(pu.1, ",\"payloads\":["@) {
                None => None,
                Some(t2) => match read_entries_region(t2) {
                    None => None,
                    Some(pe) => match expect(pe.1, ",\"meta\":{"@) {
                        None => None,
                        Some(t3) => match read_meta_region(t3) {
                            None => None,
                            Some(pm) => match expect(pm.1, "}"@) {
                                None => None,
                                Some(t4) => if t4.len() == 0 {
                                    Some(
                                        (RayRequestView {
                                            uuid: pu.0,
                                            payloads: pe.0,
                                            meta: pm.0,
                                        }),
                                    )
                                } else {
                                    None
                                },
                            },
                        },
                    },
                },
            },
        },
    }
}

/// Serialization loses nothing: an envelope whose entries carry the
/// facade's tag pairing reads back whole — and exactly — from its wire
/// text.
#[verifier::rlimit(100)]
#[verifier::spinoff_prover]
pub proof fn lemma_envelope_round_trip(r: RayRequestView)
    requires
        forall|i: int| 0 <= i < r.payloads.len() ==> wf_entry(#[trigger] r.payloads[i]),
    ensures
        read_envelope(envelope_json(r)) == Some(r),
{
    reveal_strlit("]");
    reveal_strlit("}");
    reveal_strlit("],\"meta\":{");
    reveal_strlit(",\"meta\":{");
    reveal_strlit("}}");
    let meta_text = meta_body(r.meta) + "}}"@;
    let s3 = entries_body(r.payloads) + "],\"meta\":{"@ + meta_text;
    let s2 = ",\"payloads\":["@ + s3;
    let s1 = quoted(r.uuid) + s2;
    assert(envelope_json(r) =~= "{\"uuid\":"@ + s1);
    lemma_expect("{\"uuid\":"@, s1);
    assert(expect(envelope_json(r), "{\"uuid\":"@) == Some(s1));
    lemma_read_string(r.uuid, s2);
    lemma_expect(",\"payloads\":["@, s3);
    let after_entries = ",\"meta\":{"@ + meta_text;
    assert(s3 =~= entries_body(r.payloads) + seq![']'] + after_entries);
    lemma_read_entries_region(r.payloads, after_entries);
    assert(read_entries_region(s3) == Some((r.payloads, after_entries)));
    lemma_expect(",\"meta\":{"@, meta_text);
    assert(meta_text =~= meta_body(r.meta) + seq!['}'] + "}"@);
    lemma_read_meta_region(r.meta, "}"@);
    assert(read_meta_region(meta_text) == Some((r.meta, "}"@)));
    assert("}"@ =~= "}"@ + Seq::<char>::empty());
    lemma_expect("}"@, Seq::<char>::empty());
    assert(expect("}"@, "}"@) == Some(Seq::<char>::empty()));
}

/// Two envelopes with the facade's tag pairing and the same wire text are
/// the same envelope: the serializer is injective.
pub proof fn lemma_wire_text_injective(r1: RayRequestView, r2: RayRequestView)
    requires
        forall|i: int| 0 <= i < r1.payloads.len() ==> wf_entry(#[trigger] r1.payloads[i]),
        forall|i: int| 0 <= i < r2.payloads.len() ==> wf_entry(#[trigger] r2.payloads[i]),
        envelope_json(r1) == envelope_json(r2),
    ensures
        r1 == r2,
{
    lemma_envelope_round_trip(r1);
    lemma_envelope_round_trip(r2);
}

} // verus!
