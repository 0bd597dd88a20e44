//! The closed set of debug-event kinds and the wire text of each.
//!
//! Every variant serializes to exactly its documented field set — no
//! discriminant appears inside the body itself; the discriminant is the
//! `type` tag carried one level up, in the enclosing envelope entry.
//! The shapes are:
//!
//! - `Log`      -> `{"values": [...], "label": ...}`
//! - `Text`     -> `{"content": ..., "label": ...}`
//! - `Color`    -> `{"color": ...}`
//! - `Confetti` -> `{}`
//! - `ClearAll` -> `{}`

use vstd::prelude::*;
use vstd::string::StringExecFns;
use crate::json::{quoted, write_quoted};

verus! {

/// An ordered list of rendered value strings, shown under a label.
#[derive(Debug, Clone)]
pub struct LogPayload {
    pub values: Vec<String>,
    pub label: String,
}

/// A single piece of free text, shown under a label.
#[derive(Debug, Clone)]
pub struct TextPayload {
    pub content: String,
    pub label: String,
}

/// A color signal for the current session.
#[derive(Debug, Clone)]
pub struct ColorPayload {
    pub color: String,
}

/// One structured debug event.
#[derive(Debug, Clone)]
pub enum Payload {
    Log(LogPayload),
    Text(TextPayload),
    Confetti,
    ClearAll,
    Color(ColorPayload),
}

/// Mathematical value of a `LogPayload`.
pub struct LogPayloadView {
    pub values: Seq<Seq<char>>,
    pub label: Seq<char>,
}

/// Mathematical value of a `TextPayload`.
pub struct TextPayloadView {
    pub content: Seq<char>,
    pub label: Seq<char>,
}

/// Mathematical value of a `ColorPayload`.
pub struct ColorPayloadView {
    pub color: Seq<char>,
}

/// Mathematical value of a `Payload`.
pub enum PayloadView {
    Log(LogPayloadView),
    Text(TextPayloadView),
    Confetti,
    ClearAll,
    Color(ColorPayloadView),
}

impl View for LogPayload {
    type V = LogPayloadView;

    open spec fn view(&self) -> LogPayloadView {
        LogPayloadView { values: self.values.deep_view(), label: self.label@ }
    }
}

impl View for TextPayload {
    type V = TextPayloadView;

    open spec fn view(&self) -> TextPayloadView {
        TextPayloadView { content: self.content@, label: self.label@ }
    }
}

impl View for ColorPayload {
    type V = ColorPayloadView;

    open spec fn view(&self) -> ColorPayloadView {
        ColorPayloadView { color: self.color@ }
    }
}

impl View for Payload {
    type V = PayloadView;

    open spec fn view(&self) -> PayloadView {
        match self {
            Payload::Log(l) => PayloadView::Log(l@),
            Payload::Text(t) => PayloadView::Text(t@),
            Payload::Confetti => PayloadView::Confetti,
            Payload::ClearAll => PayloadView::ClearAll,
            Payload::Color(c) => PayloadView::Color(c@),
        }
    }
}

impl From<LogPayload> for Payload {
    fn from(payload: LogPayload) -> Self {
        Self::Log(payload)
    }
}

impl vstd::std_specs::convert::FromSpecImpl<LogPayload> for Payload {
    open spec fn obeys_from_spec() -> bool {
        true
    }

    open spec fn from_spec(payload: LogPayload) -> Self {
        Payload::Log(payload)
    }
}

impl From<TextPayload> for Payload {
    fn from(payload: TextPayload) -> Self {
        Self::Text(payload)
    }
}

impl vstd::std_specs::convert::FromSpecImpl<TextPayload> for Payload {
    open spec fn obeys_from_spec() -> bool {
        true
    }

    open spec fn from_spec(payload: TextPayload) -> Self {
        Payload::Text(payload)
    }
}

impl From<ColorPayload> for Payload {
    fn from(payload: ColorPayload) -> Self {
        Self::Color(payload)
    }
}

impl vstd::std_specs::convert::FromSpecImpl<ColorPayload> for Payload {
    open spec fn obeys_from_spec() -> bool {
        true
    }

    open spec fn from_spec(payload: ColorPayload) -> Self {
        Payload::Color(payload)
    }
}

/// The comma-separated body of a JSON array of string literals.
pub open spec fn strs_body(vs: Seq<Seq<char>>) -> Seq<char>
    decreases vs.len(),
{
    if vs.len() == 0 {
        Seq::empty()
    } else if vs.len() == 1 {
        quoted(vs[0])
    } else {
        strs_body(vs.drop_last()) + ","@ + quoted(vs.last())
    }
}

/// A JSON array of string literals, brackets included.
pub open spec fn strs_array(vs: Seq<Seq<char>>) -> Seq<char> {
    "["@ + strs_body(vs) + "]"@
}

/// Serializing one more string extends the array body by a separator (after
/// the first element) and the new string literal.
pub proof fn lemma_strs_body_step(vs: Seq<Seq<char>>, i: int)
    requires
        0 <= i < vs.len(),
    ensures
        i == 0 ==> strs_body(vs.take(1)) == quoted(vs[0]),
        i > 0 ==> strs_body(vs.take(i + 1)) == strs_body(vs.take(i)) + ","@ + quoted(vs[i]),
{
    let t = vs.take(i + 1);
    assert(t.drop_last() =~= vs.take(i));
    assert(t.last() == vs[i]);
}

/// Appends the JSON array holding the strings of `vs`, in order, to `out`.
pub fn write_strs_array(out: &mut String, vs: &Vec<String>)
    ensures
        final(out)@ == old(out)@ + strs_array(vs.deep_view()),
{
    let ghost start: Seq<char> = out@;
    let ghost dv: Seq<Seq<char>> = vs.deep_view();
    out.append("[");
    let mut i: usize = 0;
    while i < vs.len()
        invariant
            dv == vs.deep_view(),
            dv.len() == vs@.len(),
            i <= vs@.len(),
            out@ == start + "["@ + strs_body(dv.take(i as int)),
        decreases vs@.len() - i,
    {
        if i > 0 {
            out.append(",");
        }
        write_quoted(out, vs[i].as_str());
        proof {
            assert(dv[i as int] == vs@[i as int]@);
            lemma_strs_body_step(dv, i as int);
            assert(out@ =~= start + "["@ + strs_body(dv.take(i as int + 1)));
        }
        i = i + 1;
    }
    out.append("]");
    proof {
        assert(dv.take(dv.len() as int) =~= dv);
        assert(out@ =~= start + strs_array(dv));
    }
}

/// The wire text of one payload: exactly the documented field set of its
/// variant, nothing more.
pub open spec fn payload_json(p: PayloadView) -> Seq<char> {
    match p {
        PayloadView::Log(l) => "{\"values\":"@ + strs_array(l.values) + ",\"label\":"@ + quoted(
            l.label,
        ) + "}"@,
        PayloadView::Text(t) => "{\"content\":"@ + quoted(t.content) + ",\"label\":"@ + quoted(
            t.label,
        ) + "}"@,
        PayloadView::Confetti => "{}"@,
        PayloadView::ClearAll => "{}"@,
        PayloadView::Color(c) => "{\"color\":"@ + quoted(c.color) + "}"@,
    }
}

/// Appends the wire text of `p` to `out`.
pub fn write_payload(out: &mut String, p: &Payload)
    ensures
        final(out)@ == old(out)@ + payload_json(p@),
{
    let ghost start: Seq<char> = out@;
    match p {
        Payload::Log(l) => {
            out.append("{\"values\":");
            write_strs_array(out, &l.values);
            out.append(",\"label\":");
            write_quoted(out, l.label.as_str());
            out.append("}");
            assert(out@ =~= start + payload_json(p@));
        },
        Payload::Text(t) => {
            out.append("{\"content\":");
            write_quoted(out, t.content.as_str());
            out.append(",\"label\":");
            write_quoted(out, t.label.as_str());
            out.append("}");
            assert(out@ =~= start + payload_json(p@));
        },
        Payload::Confetti => {
            out.append("{}");
            assert(out@ =~= start + payload_json(p@));
        },
        Payload::ClearAll => {
            out.append("{}");
            assert(out@ =~= start + payload_json(p@));
        },
        Payload::Color(c) => {
            out.append("{\"color\":");
            write_quoted(out, c.color.as_str());
            out.append("}");
            assert(out@ =~= start + payload_json(p@));
        },
    }
}

} // verus!
