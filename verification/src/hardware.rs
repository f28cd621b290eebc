//! Apple keyboard HID enumeration: the devices that the PnP read-out lists.
//! Apple's USB Vendor ID is 0x05AC; the read-out lists every present
//! "Keyboard" device whose hardware ID contains `VID_05AC`, as JSON.
use vstd::prelude::*;
use crate::json::{JsonDoc, JsonDocView, MembersView, Members, doc_view, json_doc, json_ok, member_text, member_string, parse_json_doc};
use crate::text::{chars_of, chars_eq, string_of, trim, trim_chars, string_from_chars};

verus! {

broadcast use vstd::string::group_string_axioms;

/// One Apple keyboard as Windows lists it.
#[derive(Debug, Clone)]
pub struct AppleKeyboardInfo {
    /// Friendly name shown in Device Manager (e.g. "Magic Keyboard").
    pub friendly_name: String,
    /// Hardware ID string (e.g. `BTHENUM\Dev_F0F61C123456&...`).
    pub hardware_id: String,
    /// `OK` when the device is currently usable.
    pub status: String,
}

/// A device's three fields as text.
pub open spec fn info_view(i: AppleKeyboardInfo) -> (Seq<char>, Seq<char>, Seq<char>) {
    (i.friendly_name@, i.hardware_id@, i.status@)
}

/// The fields read from one listed object (empty when absent or not text).
pub open spec fn info_of(ms: MembersView) -> (Seq<char>, Seq<char>, Seq<char>) {
    (
        member_text(ms, "FriendlyName"@),
        member_text(ms, "HardwareID"@),
        member_text(ms, "Status"@),
    )
}

/// The devices a parsed read-out lists: one per array element (an element
/// that is no object has empty fields), one for a single object (which is
/// how a one-element array comes out), none for anything else.
pub open spec fn pnp_infos(d: JsonDocView) -> Seq<(Seq<char>, Seq<char>, Seq<char>)> {
    match d {
        JsonDocView::Array(items) => items.map_values(
            |it: Option<MembersView>|
                match it {
                    Some(ms) => info_of(ms),
                    None => info_of(seq![]),
                },
        ),
        JsonDocView::Object(ms) => seq![info_of(ms)],
        JsonDocView::Other => seq![],
    }
}

fn info_from(ms: &Members) -> (i: AppleKeyboardInfo)
    ensures
        info_view(i) == info_of(crate::json::members_view(*ms)),
{
    AppleKeyboardInfo {
        friendly_name: member_string(ms, "FriendlyName"),
        hardware_id: member_string(ms, "HardwareID"),
        status: member_string(ms, "Status"),
    }
}

/// Pure parser for the JSON shape PowerShell emits.
pub fn parse_pnp_output(json: &str) -> (r: Result<Vec<AppleKeyboardInfo>, String>)
    ensures
        match json_doc(json@) {
            Err(m) => r matches Err(e) && e@ == "parse pnp output: "@ + m + "\nraw: "@ + json@,
            Ok(d) => r matches Ok(v) && v@.map_values(|i: AppleKeyboardInfo| info_view(i))
                == pnp_infos(d),
        },
{
    let doc = match parse_json_doc(json) {
        Ok(d) => d,
        Err(m) => {
            let mut e = string_of("parse pnp output: ");
            e.append(m.as_str());
            e.append("\nraw: ");
            e.append(json);
            return Err(e);
        },
    };
    let ghost dv = doc_view(doc);
    let mut out: Vec<AppleKeyboardInfo> = Vec::new();
    match &doc {
        JsonDoc::Array(items) => {
            let ghost iv = items@.map_values(
                |it: Option<Members>|
                    match it {
                        Some(ms) => Some(crate::json::members_view(ms)),
                        None => None,
                    },
            );
            let empty: Members = Vec::new();
            assert(crate::json::members_view(empty) =~= Seq::<(Seq<char>, Option<Seq<char>>)>::empty());
            let mut i: usize = 0;
            while i < items.len()
                invariant
                    i <= items.len(),
                    dv == JsonDocView::Array(iv),
                    iv == items@.map_values(
                        |it: Option<Members>|
                            match it {
                                Some(ms) => Some(crate::json::members_view(ms)),
                                None => None,
                            },
                    ),
                    crate::json::members_view(empty) == Seq::<(Seq<char>, Option<Seq<char>>)>::empty(),
                    out@.map_values(|x: AppleKeyboardInfo| info_view(x)) == pnp_infos(dv).take(i as int),
                decreases items.len() - i,
            {
                let info = match &items[i] {
                    Some(ms) => info_from(ms),
                    None => info_from(&empty),
                };
                proof {
                    crate::text::lemma_map_push(out@, info, |x: AppleKeyboardInfo| info_view(x));
                }
                out.push(info);
                i = i + 1;
                assert(out@.map_values(|x: AppleKeyboardInfo| info_view(x)) =~= pnp_infos(dv).take(i as int));
            }
            assert(pnp_infos(dv).take(i as int) =~= pnp_infos(dv));
        },
        JsonDoc::Object(ms) => {
            let info = info_from(ms);
            out.push(info);
            assert(out@.map_values(|x: AppleKeyboardInfo| info_view(x)) =~= pnp_infos(dv));
        },
        JsonDoc::Other => {
            assert(out@.map_values(|x: AppleKeyboardInfo| info_view(x)) =~= pnp_infos(dv));
        },
    }
    Ok(out)
}

/// The Apple keyboards from the enumeration run: its failure when it
/// failed, none when its output is empty or `null`, else the parsed list.
pub fn apple_keyboards_from_output(succeeded: bool, stdout: &str, stderr: &str) -> (r: Result<
    Vec<AppleKeyboardInfo>,
    String,
>)
    ensures
        !succeeded ==> (r matches Err(e) && e@ == "enumerate failed: "@ + stderr@),
        succeeded && (trim(stdout@).len() == 0 || trim(stdout@) == "null"@) ==> (r matches Ok(v)
            && v@.len() == 0),
        succeeded && !(trim(stdout@).len() == 0 || trim(stdout@) == "null"@) ==> match json_doc(
            trim(stdout@),
        ) {
            Err(m) => r matches Err(e) && e@ == "parse pnp output: "@ + m + "\nraw: "@ + trim(
                stdout@,
            ),
            Ok(d) => r matches Ok(v) && v@.map_values(|i: AppleKeyboardInfo| info_view(i))
                == pnp_infos(d),
        },
{
    if !succeeded {
        let mut e = string_of("enumerate failed: ");
        e.append(stderr);
        return Err(e);
    }
    let t = trim_chars(&chars_of(stdout));
    if t.len() == 0 || chars_eq(&t, &chars_of("null")) {
        return Ok(Vec::new());
    }
    let trimmed = string_from_chars(t);
    parse_pnp_output(trimmed.as_str())
}

} // verus!
