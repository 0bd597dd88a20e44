//! The unit of transmission: a session token, an ordered, append-only list
//! of entries, and a free-form metadata map (reserved, never written by any
//! public operation).
//!
//! Every entry pairs a string tag — chosen by the facade, and carrying the
//! discriminant of the payload inside — with a fresh origin record and the
//! payload itself. The whole envelope serializes as
//! `{"uuid": ..., "payloads": [...], "meta": {...}}`.

use vstd::prelude::*;
use vstd::seq_lib::*;
use vstd::string::StringExecFns;
use crate::json::{escaped, quoted, write_quoted};
use crate::payloads::{Payload, PayloadView, payload_json, write_payload};

verus! {

/// Call-site metadata attached to every entry. All four fields are empty at
/// construction: the shape is reserved for future enrichment, and nothing may
/// assume any field is non-empty.
#[derive(Debug, Clone)]
pub struct RayOrigin {
    pub function_name: String,
    pub file: String,
    pub line_number: String,
    pub hostname: String,
}

/// Mathematical value of a `RayOrigin`.
pub struct RayOriginView {
    pub function_name: Seq<char>,
    pub file: Seq<char>,
    pub line_number: Seq<char>,
    pub hostname: Seq<char>,
}

impl View for RayOrigin {
    type V = RayOriginView;

    open spec fn view(&self) -> RayOriginView {
        RayOriginView {
            function_name: self.function_name@,
            file: self.file@,
            line_number: self.line_number@,
            hostname: self.hostname@,
        }
    }
}

/// The origin value with all four fields empty.
pub open spec fn empty_origin() -> RayOriginView {
    RayOriginView {
        function_name: Seq::empty(),
        file: Seq::empty(),
        line_number: Seq::empty(),
        hostname: Seq::empty(),
    }
}

impl RayOrigin {
    /// A fresh origin record: all four fields set to the empty string.
    pub fn new() -> (origin: Self)
        ensures
            origin@ == empty_origin(),
    {
        let origin = RayOrigin {
            function_name: String::new(),
            file: String::new(),
            line_number: String::new(),
            hostname: String::new(),
        };
        origin
    }
}

/// The wire text of an origin: always all four fields, in a fixed order.
pub open spec fn origin_json(o: RayOriginView) -> Seq<char> {
    "{\"function_name\":"@ + quoted(o.function_name) + ",\"file\":"@ + quoted(o.file)
        + ",\"line_number\":"@ + quoted(o.line_number) + ",\"hostname\":"@ + quoted(o.hostname)
        + "}"@
}

/// An origin always serializes with all four fields present; fresh from
/// `RayOrigin::new`, absent any enrichment, every one of them is the empty
/// string.
pub proof fn lemma_fresh_origin_json()
    ensures
        origin_json(empty_origin())
            == "{\"function_name\":\"\",\"file\":\"\",\"line_number\":\"\",\"hostname\":\"\"}"@,
{
    reveal_strlit("{\"function_name\":");
    reveal_strlit(",\"file\":");
    reveal_strlit(",\"line_number\":");
    reveal_strlit(",\"hostname\":");
    reveal_strlit("}");
    reveal_strlit("\"");
    reveal_strlit("{\"function_name\":\"\",\"file\":\"\",\"line_number\":\"\",\"hostname\":\"\"}");
    assert(escaped(Seq::<char>::empty()) =~= Seq::<char>::empty());
    assert(origin_json(empty_origin())
        =~= "{\"function_name\":\"\",\"file\":\"\",\"line_number\":\"\",\"hostname\":\"\"}"@);
}

/// Appends the wire text of `o` to `out`.
pub fn write_origin(out: &mut String, o: &RayOrigin)
    ensures
        final(out)@ == old(out)@ + origin_json(o@),
{
    let ghost start: Seq<char> = out@;
    out.append("{\"function_name\":");
    write_quoted(out, o.function_name.as_str());
    out.append(",\"file\":");
    write_quoted(out, o.file.as_str());
    out.append(",\"line_number\":");
    write_quoted(out, o.line_number.as_str());
    out.append(",\"hostname\":");
    write_quoted(out, o.hostname.as_str());
    out.append("}");
    assert(out@ =~= start + origin_json(o@));
}

/// One envelope entry: a tag naming the event kind on the wire, the origin
/// record, and the payload body.
#[derive(Debug, Clone)]
pub struct RayPayload {
    pub tag: String,
    pub origin: RayOrigin,
    pub content: Payload,
}

/// Mathematical value of a `RayPayload`.
pub struct RayPayloadView {
    pub tag: Seq<char>,
    pub origin: RayOriginView,
    pub content: PayloadView,
}

impl View for RayPayload {
    type V = RayPayloadView;

    open spec fn view(&self) -> RayPayloadView {
        RayPayloadView { tag: self.tag@, origin: self.origin@, content: self.content@ }
    }
}

/// An entry view assembled from its three parts.
pub open spec fn entry_view(tag: Seq<char>, origin: RayOriginView, content: PayloadView) -> RayPayloadView {
    RayPayloadView { tag, origin, content }
}

/// The wire text of one entry: tag under `type`, then origin, then content.
pub open spec fn entry_json(e: RayPayloadView) -> Seq<char> {
    "{\"type\":"@ + quoted(e.tag) + ",\"origin\":"@ + origin_json(e.origin) + ",\"content\":"@
        + payload_json(e.content) + "}"@
}

/// Appends the wire text of `e` to `out`.
pub fn write_entry(out: &mut String, e: &RayPayload)
    ensures
        final(out)@ == old(out)@ + entry_json(e@),
{
    let ghost start: Seq<char> = out@;
    out.append("{\"type\":");
    write_quoted(out, e.tag.as_str());
    out.append(",\"origin\":");
    write_origin(out, &e.origin);
    out.append(",\"content\":");
    write_payload(out, &e.content);
    out.append("}");
    assert(out@ =~= start + entry_json(e@));
}

/// The comma-separated body of the `payloads` array.
pub open spec fn entries_body(es: Seq<RayPayloadView>) -> Seq<char>
    decreases es.len(),
{
    if es.len() == 0 {
        Seq::empty()
    } else if es.len() == 1 {
        entry_json(es[0])
    } else {
        entries_body(es.drop_last()) + ","@ + entry_json(es.last())
    }
}

/// Serializing one more entry extends the array body by a separator (after
/// the first entry) and the new entry's text.
pub proof fn lemma_entries_body_step(es: Seq<RayPayloadView>, i: int)
    requires
        0 <= i < es.len(),
    ensures
        i == 0 ==> entries_body(es.take(1)) == entry_json(es[0]),
        i > 0 ==> entries_body(es.take(i + 1)) == entries_body(es.take(i)) + ","@ + entry_json(
            es[i],
        ),
{
    let t = es.take(i + 1);
    assert(t.drop_last() =~= es.take(i));
    assert(t.last() == es[i]);
}

/// The wire text of one metadata pair.
pub open spec fn meta_entry_json(kv: (Seq<char>, Seq<char>)) -> Seq<char> {
    quoted(kv.0) + ":"@ + quoted(kv.1)
}

/// The comma-separated body of the `meta` object.
pub open spec fn meta_body(m: Seq<(Seq<char>, Seq<char>)>) -> Seq<char>
    decreases m.len(),
{
    if m.len() == 0 {
        Seq::empty()
    } else if m.len() == 1 {
        meta_entry_json(m[0])
    } else {
        meta_body(m.drop_last()) + ","@ + meta_entry_json(m.last())
    }
}

/// Serializing one more metadata pair extends the object body.
pub proof fn lemma_meta_body_step(m: Seq<(Seq<char>, Seq<char>)>, i: int)
    requires
        0 <= i < m.len(),
    ensures
        i == 0 ==> meta_body(m.take(1)) == meta_entry_json(m[0]),
        i > 0 ==> meta_body(m.take(i + 1)) == meta_body(m.take(i)) + ","@ + meta_entry_json(m[i]),
{
    let t = m.take(i + 1);
    assert(t.drop_last() =~= m.take(i));
    assert(t.last() == m[i]);
}

/// The envelope: session token, ordered entries, reserved metadata.
#[derive(Debug, Clone)]
pub struct RayRequest {
    pub uuid: String,
    pub payloads: Vec<RayPayload>,
    pub meta: Vec<(String, String)>,
}

/// Mathematical value of a `RayRequest`.
pub struct RayRequestView {
    pub uuid: Seq<char>,
    pub payloads: Seq<RayPayloadView>,
    pub meta: Seq<(Seq<char>, Seq<char>)>,
}

impl View for RayRequest {
    type V = RayRequestView;

    open spec fn view(&self) -> RayRequestView {
        RayRequestView {
            uuid: self.uuid@,
            payloads: self.payloads@.map_values(|e: RayPayload| e@),
            meta: self.meta@.map_values(|kv: (String, String)| (kv.0@, kv.1@)),
        }
    }
}

/// The full wire text of an envelope, per the documented JSON shape.
pub open spec fn envelope_json(r: RayRequestView) -> Seq<char> {
    "{\"uuid\":"@ + quoted(r.uuid) + ",\"payloads\":["@ + entries_body(r.payloads)
        + "],\"meta\":{"@ + meta_body(r.meta) + "}}"@
}

impl RayRequest {
    /// A fresh envelope: the given session token, no entries, no metadata.
    pub fn new(uuid: String) -> (envelope: Self)
        ensures
            envelope@.uuid == uuid@,
            envelope@.payloads == Seq::<RayPayloadView>::empty(),
            envelope@.meta == Seq::<(Seq<char>, Seq<char>)>::empty(),
    {
        let envelope = RayRequest { uuid, payloads: Vec::new(), meta: Vec::new() };
        proof {
            assert(envelope@.payloads =~= Seq::<RayPayloadView>::empty());
            assert(envelope@.meta =~= Seq::<(Seq<char>, Seq<char>)>::empty());
        }
        envelope
    }

    /// Appends one entry at the end of the list. This is the only mutation an
    /// envelope admits: entries are never removed or changed afterwards, and
    /// the token and the metadata stay as they are.
    pub fn append(&mut self, tag: String, origin: RayOrigin, content: Payload)
        ensures
            final(self)@.uuid == old(self)@.uuid,
            final(self)@.meta == old(self)@.meta,
            final(self)@.payloads == old(self)@.payloads.push(entry_view(tag@, origin@, content@)),
    {
        let ghost previous: Seq<RayPayloadView> = self@.payloads;
        let entry = RayPayload { tag, origin, content };
        let ghost ev: RayPayloadView = entry@;
        self.payloads.push(entry);
        proof {
            assert(self@.payloads =~= previous.push(ev));
        }
    }

    /// Serializes the whole envelope — always the full list of entries, never
    /// a partial or incremental view of it.
    pub fn to_json(&self) -> (body: String)
        ensures
            body@ == envelope_json(self@),
    {
        let mut out = String::new();
        out.append("{\"uuid\":");
        write_quoted(&mut out, self.uuid.as_str());
        out.append(",\"payloads\":[");
        let ghost evs: Seq<RayPayloadView> = self@.payloads;
        let ghost entries_start: Seq<char> = out@;
        let mut i: usize = 0;
        while i < self.payloads.len()
            invariant
                evs == self@.payloads,
                evs.len() == self.payloads@.len(),
                i <= self.payloads@.len(),
                out@ == entries_start + entries_body(evs.take(i as int)),
            decreases self.payloads@.len() - i,
        {
            if i > 0 {
                out.append(",");
            }
            write_entry(&mut out, &self.payloads[i]);
            proof {
                assert(evs[i as int] == self.payloads@[i as int]@);
                lemma_entries_body_step(evs, i as int);
                assert(out@ =~= entries_start + entries_body(evs.take(i as int + 1)));
            }
            i = i + 1;
        }
        proof {
            assert(evs.take(evs.len() as int) =~= evs);
        }
        out.append("],\"meta\":{");
        let ghost mvs: Seq<(Seq<char>, Seq<char>)> = self@.meta;
        let ghost meta_start: Seq<char> = out@;
        let mut j: usize = 0;
        while j < self.meta.len()
            invariant
                mvs == self@.meta,
                mvs.len() == self.meta@.len(),
                j <= self.meta@.len(),
                out@ == meta_start + meta_body(mvs.take(j as int)),
            decreases self.meta@.len() - j,
        {
            if j > 0 {
                out.append(",");
            }
            let pair = &self.meta[j];
            write_quoted(&mut out, pair.0.as_str());
            out.append(":");
            write_quoted(&mut out, pair.1.as_str());
            proof {
                assert(mvs[j as int] == (self.meta@[j as int].0@, self.meta@[j as int].1@));
                lemma_meta_body_step(mvs, j as int);
                assert(out@ =~= meta_start + meta_body(mvs.take(j as int + 1)));
            }
            j = j + 1;
        }
        proof {
            assert(mvs.take(mvs.len() as int) =~= mvs);
        }
        out.append("}}");
        proof {
            assert(out@ =~= envelope_json(self@));
        }
        out
    }
}

} // verus!
