//! Probing a document for the first usable value under a list of candidate
//! names.
use vstd::prelude::*;

use crate::json::{lookup, member, Member, MemberView};
use crate::text::opt_text;
use crate::time::Timestamp;

verus! {

/// The label that a member gives: a non-empty string itself, a number as its
/// JSON text. Anything else gives none.
pub open spec fn label_of(m: Option<MemberView>) -> Option<Seq<char>> {
    match m {
        Some(MemberView::Text(s)) => if s.len() > 0 {
            Some(s)
        } else {
            None
        },
        Some(MemberView::Number { text, .. }) => Some(text),
        _ => None,
    }
}

/// The instant that a member gives: a string by the two textual forms, an
/// integer as whole seconds since the epoch. Anything else gives none.
pub open spec fn instant_of(m: Option<MemberView>) -> Option<Timestamp> {
    match m {
        Some(MemberView::Text(s)) => Timestamp::of_text(s),
        Some(MemberView::Number { integer: Some(n), .. }) => Timestamp::of_reading(
            Some((n, 0u32)),
        ),
        _ => None,
    }
}

/// The label under the first of `keys` that gives one.
pub open spec fn s_pick_spec(doc: serde_json::Value, keys: Seq<&str>) -> Option<Seq<char>>
    decreases keys.len(),
{
    if keys.len() == 0 {
        None
    } else {
        match label_of(lookup(doc, keys[0]@)) {
            Some(s) => Some(s),
            None => s_pick_spec(doc, keys.drop_first()),
        }
    }
}

/// The instant under the first of `keys` that gives one.
pub open spec fn t_pick_spec(doc: serde_json::Value, keys: Seq<&str>) -> Option<Timestamp>
    decreases keys.len(),
{
    if keys.len() == 0 {
        None
    } else {
        match instant_of(lookup(doc, keys[0]@)) {
            Some(t) => Some(t),
            None => t_pick_spec(doc, keys.drop_first()),
        }
    }
}

/// The label that a member gives.
pub fn member_label(m: &Option<Member>) -> (r: Option<String>)
    ensures
        opt_text(r) == label_of(view_of(*m)),
{
    match m {
        Some(Member::Text(s)) => if s.as_str().is_empty() {
            None
        } else {
            Some(s.clone())
        },
        Some(Member::Number { text, .. }) => Some(text.clone()),
        _ => None,
    }
}

/// The instant that a member gives.
pub fn member_instant(m: &Option<Member>) -> (r: Option<Timestamp>)
    ensures
        r == instant_of(view_of(*m)),
{
    match m {
        Some(Member::Text(s)) => Timestamp::parse(s.as_str()),
        Some(Member::Number { integer: Some(n), .. }) => Timestamp::from_epoch_seconds(*n),
        _ => None,
    }
}

/// The view of a member that may be absent.
pub open spec fn view_of(m: Option<Member>) -> Option<MemberView> {
    match m {
        Some(x) => Some(x@),
        None => None,
    }
}

/// Probes `keys` in order and returns the first label found: a non-empty
/// string, or a number as its JSON text.
pub fn s_pick(v: &serde_json::Value, keys: &[&str]) -> (r: Option<String>)
    ensures
        opt_text(r) == s_pick_spec(*v, keys@),
{
    let mut i: usize = 0;
    assert(keys@.skip(0) == keys@);
    while i < keys.len()
        invariant
            i <= keys.len(),
            s_pick_spec(*v, keys@) == s_pick_spec(*v, keys@.skip(i as int)),
        decreases keys.len() - i,
    {
        let found = member(v, keys[i]);
        assert(keys@.skip(i as int).drop_first() == keys@.skip(i as int + 1));
        assert(keys@.skip(i as int)[0] == keys@[i as int]);
        match member_label(&found) {
            Some(s) => {
                return Some(s);
            },
            None => {},
        }
        i += 1;
    }
    None
}

/// Probes `keys` in order and returns the first instant found: a string in
/// one of the two textual forms, or an integer taken as seconds since the
/// epoch.
pub fn t_pick(v: &serde_json::Value, keys: &[&str]) -> (r: Option<Timestamp>)
    ensures
        r == t_pick_spec(*v, keys@),
{
    let mut i: usize = 0;
    assert(keys@.skip(0) == keys@);
    while i < keys.len()
        invariant
            i <= keys.len(),
            t_pick_spec(*v, keys@) == t_pick_spec(*v, keys@.skip(i as int)),
        decreases keys.len() - i,
    {
        let found = member(v, keys[i]);
        assert(keys@.skip(i as int).drop_first() == keys@.skip(i as int + 1));
        assert(keys@.skip(i as int)[0] == keys@[i as int]);
        match member_instant(&found) {
            Some(t) => {
                return Some(t);
            },
            None => {},
        }
        i += 1;
    }
    None
}

} // verus!
