//! What the device and probe read-outs need of a JSON document: the kind of
//! its top-level value and, for each object in it, which members hold JSON
//! strings and what text they hold.
use vstd::prelude::*;

verus! {

/// An object's members in document-model order: each name with its text
/// when the member's value is a JSON string, `None` otherwise.
pub type Members = Vec<(String, Option<String>)>;

/// The top level of a JSON document as the read-outs see it.
pub enum JsonDoc {
    /// An object, with its members.
    Object(Members),
    /// An array; each element that is an object gives its members.
    Array(Vec<Option<Members>>),
    /// Any other value.
    Other,
}

/// The members of an object as plain text.
pub type MembersView = Seq<(Seq<char>, Option<Seq<char>>)>;

/// A `JsonDoc` as plain text.
pub enum JsonDocView {
    Object(MembersView),
    Array(Seq<Option<MembersView>>),
    Other,
}

/// The plain text of a member list.
pub open spec fn members_view(ms: Members) -> MembersView {
    ms@.map_values(
        |m: (String, Option<String>)|
            (
                m.0@,
                match m.1 {
                    Some(s) => Some(s@),
                    None => None,
                },
            ),
    )
}

/// The plain text of a document.
pub open spec fn doc_view(d: JsonDoc) -> JsonDocView {
    match d {
        JsonDoc::Object(ms) => JsonDocView::Object(members_view(ms)),
        JsonDoc::Array(items) => JsonDocView::Array(
            items@.map_values(
                |it: Option<Members>|
                    match it {
                        Some(ms) => Some(members_view(ms)),
                        None => None,
                    },
            ),
        ),
        JsonDoc::Other => JsonDocView::Other,
    }
}

/// What `serde_json::from_str::<serde_json::Value>` makes of `text`, seen
/// as a `JsonDoc`, or the message of its error.
pub uninterp spec fn json_doc(text: Seq<char>) -> Result<JsonDocView, Seq<char>>;

/// A document that parsed.
pub open spec fn json_ok(d: JsonDocView) -> Result<JsonDocView, Seq<char>> {
    Ok(d)
}

/// A document that did not parse, with the error's message.
pub open spec fn json_err(m: Seq<char>) -> Result<JsonDocView, Seq<char>> {
    Err(m)
}

/// `serde_json::from_str::<serde_json::Value>`, with the value's top level
/// taken apart by variant (object members keep their names, in the map's
/// order, and their string values) and the error turned into its message;
/// the result is what `json_doc` names.
#[verifier::external_body]
pub(crate) fn parse_json_doc(text: &str) -> (r: Result<JsonDoc, String>)
    ensures
        match r {
            Ok(d) => json_doc(text@) == json_ok(doc_view(d)),
            Err(e) => json_doc(text@) == json_err(e@),
        },
{
    let members = |m: serde_json::Map<String, serde_json::Value>| -> Members {
        m.into_iter().map(|(k, v)| (k, match v { serde_json::Value::String(s) => Some(s), _ => None })).collect()
    };
    match serde_json::from_str::<serde_json::Value>(text) {
        Ok(serde_json::Value::Object(m)) => Ok(JsonDoc::Object(members(m))),
        Ok(serde_json::Value::Array(a)) => Ok(JsonDoc::Array(a.into_iter().map(|v| match v {
            serde_json::Value::Object(m) => Some(members(m)),
            _ => None,
        }).collect())),
        Ok(_) => Ok(JsonDoc::Other),
        Err(e) => Err(format!("{e}")),
    }
}

/// The text of the first member named `key` when it is a JSON string; empty
/// otherwise (`value[key].as_str().unwrap_or("")`).
pub open spec fn member_text(ms: MembersView, key: Seq<char>) -> Seq<char>
    decreases ms.len(),
{
    if ms.len() == 0 {
        seq![]
    } else if ms[0].0 == key {
        match ms[0].1 {
            Some(s) => s,
            None => seq![],
        }
    } else {
        member_text(ms.drop_first(), key)
    }
}

/// The text of the member named `key` of an object.
pub fn member_string(ms: &Members, key: &str) -> (s: String)
    ensures
        s@ == member_text(members_view(*ms), key@),
{
    let ghost mv = members_view(*ms);
    let mut i: usize = 0;
    assert(mv.skip(0) =~= mv);
    while i < ms.len()
        invariant
            i <= ms.len(),
            mv == members_view(*ms),
            member_text(mv, key@) == member_text(mv.skip(i as int), key@),
        decreases ms.len() - i,
    {
        assert(mv.skip(i as int).drop_first() =~= mv.skip(i + 1));
        assert(mv.skip(i as int)[0] == mv[i as int]);
        if crate::text::str_eq(ms[i].0.as_str(), key) {
            return match &ms[i].1 {
                Some(t) => crate::text::string_of(t.as_str()),
                None => {
                    let e = crate::text::string_of("");
                    proof {
                        reveal_strlit("");
                    }
                    e
                },
            };
        }
        i = i + 1;
    }
    assert(mv.skip(i as int) =~= Seq::<(Seq<char>, Option<Seq<char>>)>::empty());
    let e = crate::text::string_of("");
    proof {
        reveal_strlit("");
    }
    e
}

} // verus!
