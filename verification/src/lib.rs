//! A small client for a local debug-inspection server: callers describe
//! values, text, colors, or visual signals through a fluent facade; each call
//! is packaged as a structured event, appended to a per-session envelope, and
//! the whole accumulated envelope is posted, fire-and-forget, to a fixed
//! loopback endpoint. Transport failures are swallowed: instrumentation must
//! never perturb the instrumented program.

use vstd::prelude::*;
use vstd::string::StringExecFns;

pub mod envelope;
pub mod json;
pub mod payloads;
pub mod reader;
pub mod shape;

use crate::envelope::{
    empty_origin, entry_view, envelope_json, RayOrigin, RayPayloadView, RayRequest, RayRequestView,
};
use crate::payloads::{
    ColorPayload, ColorPayloadView, LogPayload, LogPayloadView, Payload, PayloadView, TextPayload,
    TextPayloadView,
};

verus! {

/// The entry a `log` call appends: a Log payload under the `log` tag, with a
/// fresh, empty origin.
pub open spec fn log_entry(values: Seq<Seq<char>>) -> RayPayloadView {
    entry_view("log"@, empty_origin(), PayloadView::Log((LogPayloadView { values, label: "Log"@ })))
}

/// The entry a `text` call appends: a Text payload under the `custom` tag.
pub open spec fn text_entry(content: Seq<char>) -> RayPayloadView {
    entry_view(
        "custom"@,
        empty_origin(),
        PayloadView::Text((TextPayloadView { content, label: "Text"@ })),
    )
}

/// The entry a `color` call appends: a Color payload under the `color` tag.
pub open spec fn color_entry(color: Seq<char>) -> RayPayloadView {
    entry_view("color"@, empty_origin(), PayloadView::Color((ColorPayloadView { color })))
}

/// The entry a `confetti` call appends, under the `confetti` tag.
pub open spec fn confetti_entry() -> RayPayloadView {
    entry_view("confetti"@, empty_origin(), PayloadView::Confetti)
}

/// The entry a `clear_all` call appends, under the `clear_all` tag.
pub open spec fn clear_all_entry() -> RayPayloadView {
    entry_view("clear_all"@, empty_origin(), PayloadView::ClearAll)
}

/// Relies on uuid's `Uuid::new_v4` and its `Display` form: a freshly drawn
/// version-4 token, rendered in the hyphenated format, which is always 36
/// characters long. The value is random, so nothing more is promised of it.
#[verifier::external_body]
fn new_session_token() -> (token: String)
    ensures
        token@.len() == 36,
{
    uuid::Uuid::new_v4().to_string()
}

/// Relies on reqwest's blocking client for one POST of `body` to the fixed
/// local inspection endpoint, with a JSON content type. Exactly one attempt,
/// no retry; a client that fails to build, and any transport error, are
/// discarded, so nothing is promised of the outcome. reqwest's blocking
/// client aborts inside an async runtime, so this must be called from
/// ordinary synchronous code.
#[verifier::external_body]
fn post_envelope(body: &str) {
    if let Ok(client) = reqwest::blocking::Client::builder().build() {
        let _ = client
            .post("http://localhost:23517/")
            .header("Content-Type", "application/json")
            .body(body.to_string())
            .send();
    }
}

/// The fluent facade applications call. It owns one envelope for its whole
/// life; every method appends exactly one entry and then transmits the entire
/// accumulated envelope — never only the newest entry — so a chain of N calls
/// causes N transmissions, the k-th carrying all k entries so far.
pub struct Ray {
    request: RayRequest,
}

impl View for Ray {
    type V = RayRequestView;

    closed spec fn view(&self) -> RayRequestView {
        self.request@
    }
}

impl Ray {
    /// A fresh debugging session: a newly drawn 36-character session token,
    /// no entries, no metadata.
    pub fn new() -> (ray: Self)
        ensures
            ray@.payloads == Seq::<RayPayloadView>::empty(),
            ray@.meta == Seq::<(Seq<char>, Seq<char>)>::empty(),
            ray@.uuid.len() == 36,
    {
        let token = new_session_token();
        Ray { request: RayRequest::new(token) }
    }

    /// The session token this facade was created with.
    pub fn session_token(&self) -> (token: &String)
        ensures
            token@ == self@.uuid,
    {
        &self.request.uuid
    }

    /// Serializes the full current envelope and attempts one blocking,
    /// fire-and-forget transmission. No error ever reaches the caller, and
    /// the envelope is left exactly as it was; the dispatched body is
    /// returned so callers can observe what went out.
    fn send(&self) -> (body: String)
        ensures
            body@ == envelope_json(self@),
    {
        let body = self.request.to_json();
        post_envelope(body.as_str());
        body
    }

    /// Appends a Log entry holding the given rendered values, then transmits
    /// the entire accumulated envelope and returns the dispatched body.
    pub fn log(&mut self, values: Vec<String>) -> (body: String)
        ensures
            final(self)@.uuid == old(self)@.uuid,
            final(self)@.meta == old(self)@.meta,
            final(self)@.payloads == old(self)@.payloads.push(log_entry(values.deep_view())),
            body@ == envelope_json(final(self)@),
    {
        let ghost vs: Seq<Seq<char>> = values.deep_view();
        let content = LogPayload { values, label: String::from_str("Log") };
        self.request.append(String::from_str("log"), RayOrigin::new(), Payload::from(content));
        proof {
            assert(self@.payloads == old(self)@.payloads.push(log_entry(vs)));
        }
        self.send()
    }

    /// Appends a Text entry holding the given content under the `custom`
    /// tag, then transmits the entire accumulated envelope.
    pub fn text(&mut self, content: String) -> (body: String)
        ensures
            final(self)@.uuid == old(self)@.uuid,
            final(self)@.meta == old(self)@.meta,
            final(self)@.payloads == old(self)@.payloads.push(text_entry(content@)),
            body@ == envelope_json(final(self)@),
    {
        let ghost cs: Seq<char> = content@;
        let text_content = TextPayload { content, label: String::from_str("Text") };
        self.request.append(
            String::from_str("custom"),
            RayOrigin::new(),
            Payload::from(text_content),
        );
        proof {
            assert(self@.payloads == old(self)@.payloads.push(text_entry(cs)));
        }
        self.send()
    }

    /// Appends a Color entry, then transmits the entire accumulated envelope.
    pub fn color(&mut self, color: &str) -> (body: String)
        ensures
            final(self)@.uuid == old(self)@.uuid,
            final(self)@.meta == old(self)@.meta,
            final(self)@.payloads == old(self)@.payloads.push(color_entry(color@)),
            body@ == envelope_json(final(self)@),
    {
        let content = ColorPayload { color: String::from_str(color) };
        self.request.append(String::from_str("color"), RayOrigin::new(), Payload::from(content));
        proof {
            assert(self@.payloads == old(self)@.payloads.push(color_entry(color@)));
        }
        self.send()
    }

    /// Appends a Confetti entry, then transmits the entire accumulated
    /// envelope.
    pub fn confetti(&mut self) -> (body: String)
        ensures
            final(self)@.uuid == old(self)@.uuid,
            final(self)@.meta == old(self)@.meta,
            final(self)@.payloads == old(self)@.payloads.push(confetti_entry()),
            body@ == envelope_json(final(self)@),
    {
        self.request.append(String::from_str("confetti"), RayOrigin::new(), Payload::Confetti);
        proof {
            assert(self@.payloads == old(self)@.payloads.push(confetti_entry()));
        }
        self.send()
    }

    /// Appends a ClearAll entry, then transmits the entire accumulated
    /// envelope.
    pub fn clear_all(&mut self) -> (body: String)
        ensures
            final(self)@.uuid == old(self)@.uuid,
            final(self)@.meta == old(self)@.meta,
            final(self)@.payloads == old(self)@.payloads.push(clear_all_entry()),
            body@ == envelope_json(final(self)@),
    {
        self.request.append(String::from_str("clear_all"), RayOrigin::new(), Payload::ClearAll);
        proof {
            assert(self@.payloads == old(self)@.payloads.push(clear_all_entry()));
        }
        self.send()
    }
}

/// The envelope value after appending one entry: the list grows at the end,
/// token and metadata stay.
pub open spec fn appended(r: RayRequestView, e: RayPayloadView) -> RayRequestView {
    RayRequestView { uuid: r.uuid, payloads: r.payloads.push(e), meta: r.meta }
}

/// The envelope value after a run of facade calls starting from `r`, each
/// call appending its entry in program order.
pub open spec fn after_calls(r: RayRequestView, es: Seq<RayPayloadView>) -> RayRequestView
    decreases es.len(),
{
    if es.len() == 0 {
        r
    } else {
        appended(after_calls(r, es.drop_last()), es.last())
    }
}

/// A chain of facade calls accumulates: after any run of calls the payload
/// list is exactly the original list followed by the appended entries, in
/// call order, and the token and metadata never change. Each call transmits
/// the serialization of the envelope it has just grown, so the k-th of N
/// chained transmissions carries exactly the first k entries.
pub proof fn lemma_calls_accumulate(r: RayRequestView, es: Seq<RayPayloadView>)
    ensures
        after_calls(r, es).payloads == r.payloads + es,
        after_calls(r, es).payloads.len() == r.payloads.len() + es.len(),
        after_calls(r, es).uuid == r.uuid,
        after_calls(r, es).meta == r.meta,
    decreases es.len(),
{
    if es.len() == 0 {
        assert(r.payloads + es =~= r.payloads);
    } else {
        lemma_calls_accumulate(r, es.drop_last());
        assert(r.payloads + es =~= (r.payloads + es.drop_last()).push(es.last()));
    }
}

/// Every entry a facade method appends carries exactly the tag of its own
/// payload variant, so an envelope built through the facade always meets
/// the tag pairing under which its wire text reads back whole
/// (`reader::lemma_envelope_round_trip`).
pub proof fn lemma_facade_entries_well_formed(
    values: Seq<Seq<char>>,
    content: Seq<char>,
    color: Seq<char>,
)
    ensures
        crate::reader::wf_entry(log_entry(values)),
        crate::reader::wf_entry(text_entry(content)),
        crate::reader::wf_entry(color_entry(color)),
        crate::reader::wf_entry(confetti_entry()),
        crate::reader::wf_entry(clear_all_entry()),
{
}

/// On a fresh facade the k-th transmission snapshot holds exactly the first
/// k entries, in call order.
pub proof fn lemma_snapshot_of_fresh_session(r: RayRequestView, es: Seq<RayPayloadView>, k: int)
    requires
        r.payloads.len() == 0,
        0 <= k <= es.len(),
    ensures
        after_calls(r, es.take(k)).payloads == es.take(k),
        after_calls(r, es.take(k)).payloads.len() == k,
        after_calls(r, es.take(k)).uuid == r.uuid,
{
    lemma_calls_accumulate(r, es.take(k));
    assert(r.payloads + es.take(k) =~= es.take(k));
}

} // verus!
