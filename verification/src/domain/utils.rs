//! The field extractor: typed values out of loosely structured JSON records,
//! by an ordered list of candidate keys.

use crate::domain::models::{instant_view, text_view};
use crate::json::{
    display, integer_of, is_number, json_of, member, number_display, text_of, Json, JsonNumber,
};
use crate::time::{
    date_display, datetime_from_text, instant_of_parts, parse_datetime, parse_plain_datetime,
    plain_datetime_from_text, Date, Timestamp, EPOCH_DAY, MAX_DAY, MAX_SECONDS, MIN_DAY,
    MIN_SECONDS, NANOS_PER_SECOND,
};
use serde_json::Value;
use vstd::prelude::*;

verus! {

/// The first entry of a sequence of probes that found something.
pub open spec fn first_some<T>(found: Seq<Option<T>>) -> Option<T>
    decreases found.len(),
{
    if found.len() == 0 {
        None
    } else if found[0] is Some {
        found[0]
    } else {
        first_some(found.drop_first())
    }
}

/// The candidate keys as texts.
pub open spec fn key_views(keys: Seq<&str>) -> Seq<Seq<char>> {
    Seq::new(keys.len(), |i: int| keys[i]@)
}

/// The top-level field of a document under a key: only an object has any.
pub open spec fn field(doc: Json, key: Seq<char>) -> Option<Json> {
    match doc {
        Json::Object(m) => if m.dom().contains(key) {
            Some(m[key])
        } else {
            None
        },
        _ => None,
    }
}

/// The string that a field's value yields: a text that is not empty, or a
/// number in its textual form.
pub open spec fn string_in(value: Json) -> Option<Seq<char>> {
    match value {
        Json::Text(s) => if s.len() > 0 {
            Some(s)
        } else {
            None
        },
        Json::Number(n) => Some(number_display(n)),
        _ => None,
    }
}

/// The string found under one key.
pub open spec fn string_at(doc: Json, key: Seq<char>) -> Option<Seq<char>> {
    match field(doc, key) {
        Some(value) => string_in(value),
        None => None,
    }
}

/// What each candidate key yields as a string, in the order of the keys.
pub open spec fn string_probes(doc: Json, keys: Seq<Seq<char>>) -> Seq<Option<Seq<char>>> {
    Seq::new(keys.len(), |i: int| string_at(doc, keys[i]))
}

/// The string that the candidate keys yield: that of the first key that
/// yields one.
pub open spec fn pick_string(doc: Json, keys: Seq<Seq<char>>) -> Option<Seq<char>> {
    first_some(string_probes(doc, keys))
}

/// The instant that a text stands for: read as a date-time with an offset,
/// or else as a date, a space and a time of day in UTC.
pub open spec fn instant_of_text(s: Seq<char>) -> Option<int> {
    let with_offset = match datetime_from_text(s) {
        Some((secs, nanos)) => instant_of_parts(secs as int, nanos as int),
        None => None,
    };
    if with_offset is Some {
        with_offset
    } else {
        match plain_datetime_from_text(s) {
            Some((secs, nanos)) => instant_of_parts(secs as int, nanos as int),
            None => None,
        }
    }
}

/// The instant of a whole number of Unix seconds, where it is in range.
pub open spec fn instant_of_unix_seconds(secs: int) -> Option<int> {
    if MIN_SECONDS <= secs <= MAX_SECONDS {
        Some(secs * NANOS_PER_SECOND)
    } else {
        None
    }
}

/// The instant that a field's value yields: a text in one of the two
/// date-time forms, or an integer counted as Unix seconds.
pub open spec fn instant_in(value: Json) -> Option<int> {
    match value {
        Json::Text(s) => instant_of_text(s),
        Json::Number(JsonNumber::Int(i)) => instant_of_unix_seconds(i),
        _ => None,
    }
}

/// The instant found under one key.
pub open spec fn instant_at(doc: Json, key: Seq<char>) -> Option<int> {
    match field(doc, key) {
        Some(value) => instant_in(value),
        None => None,
    }
}

/// What each candidate key yields as an instant, in the order of the keys.
pub open spec fn instant_probes(doc: Json, keys: Seq<Seq<char>>) -> Seq<Option<int>> {
    Seq::new(keys.len(), |i: int| instant_at(doc, keys[i]))
}

/// The instant that the candidate keys yield: that of the first key that
/// yields one.
pub open spec fn pick_timestamp(doc: Json, keys: Seq<Seq<char>>) -> Option<int> {
    first_some(instant_probes(doc, keys))
}

/// The first probe that found something decides: every probe before it found
/// nothing, and where none found anything the result is `None`.
pub proof fn lemma_first_some<T>(found: Seq<Option<T>>)
    ensures
        match first_some(found) {
            Some(x) => exists|i: int|
                0 <= i < found.len() && #[trigger] found[i] == Some(x) && forall|j: int|
                    0 <= j < i ==> (#[trigger] found[j]) is None,
            None => forall|i: int| 0 <= i < found.len() ==> (#[trigger] found[i]) is None,
        },
    decreases found.len(),
{
    if found.len() == 0 {
    } else if found[0] is Some {
        assert(forall|j: int| 0 <= j < 0 ==> (#[trigger] found[j]) is None);
    } else {
        let rest = found.drop_first();
        lemma_first_some(rest);
        match first_some(rest) {
            Some(x) => {
                let i = choose|i: int|
                    0 <= i < rest.len() && #[trigger] rest[i] == Some(x) && forall|j: int|
                        0 <= j < i ==> (#[trigger] rest[j]) is None;
                assert(found[i + 1] == rest[i]);
                assert forall|j: int| 0 <= j < i + 1 implies (#[trigger] found[j]) is None by {
                    if j > 0 {
                        assert(found[j] == rest[j - 1]);
                    }
                }
            },
            None => {
                assert forall|i: int| 0 <= i < found.len() implies (#[trigger] found[i])
                    is None by {
                    if i > 0 {
                        assert(found[i] == rest[i - 1]);
                    }
                }
            },
        }
    }
}

/// Where the probes before position `i` found nothing, the result is that of
/// the probes from `i` on.
pub proof fn lemma_first_some_skip<T>(found: Seq<Option<T>>, i: int)
    requires
        0 <= i <= found.len(),
        forall|j: int| 0 <= j < i ==> (#[trigger] found[j]) is None,
    ensures
        first_some(found) == first_some(found.skip(i)),
    decreases i,
{
    if i == 0 {
        assert(found.skip(0) =~= found);
    } else {
        lemma_first_some_skip(found, i - 1);
        let rest = found.skip(i - 1);
        assert(rest[0] == found[i - 1]);
        assert(rest.drop_first() =~= found.skip(i));
    }
}

/// The field extractor is a function of the document and the key list, and
/// its result is the first candidate in list order that yields a string.
pub proof fn lemma_pick_string_first_match(doc: Json, keys: Seq<Seq<char>>)
    ensures
        match pick_string(doc, keys) {
            Some(s) => exists|i: int|
                0 <= i < keys.len() && #[trigger] string_at(doc, keys[i]) == Some(s)
                    && forall|j: int|
                    0 <= j < i ==> (#[trigger] string_at(doc, keys[j])) is None,
            None => forall|i: int|
                0 <= i < keys.len() ==> (#[trigger] string_at(doc, keys[i])) is None,
        },
{
    let found = string_probes(doc, keys);
    lemma_first_some(found);
    match first_some(found) {
        Some(s) => {
            let i = choose|i: int|
                0 <= i < found.len() && #[trigger] found[i] == Some(s) && forall|j: int|
                    0 <= j < i ==> (#[trigger] found[j]) is None;
            assert(string_at(doc, keys[i]) == Some(s));
            assert forall|j: int| 0 <= j < i implies (#[trigger] string_at(doc, keys[j]))
                is None by {
                assert(found[j] is None);
            }
        },
        None => {
            assert forall|i: int| 0 <= i < keys.len() implies (#[trigger] string_at(
                doc,
                keys[i],
            )) is None by {
                assert(found[i] is None);
            }
        },
    }
}

/// The same for instants: the first candidate in list order that yields one
/// decides.
pub proof fn lemma_pick_timestamp_first_match(doc: Json, keys: Seq<Seq<char>>)
    ensures
        match pick_timestamp(doc, keys) {
            Some(t) => exists|i: int|
                0 <= i < keys.len() && #[trigger] instant_at(doc, keys[i]) == Some(t)
                    && forall|j: int|
                    0 <= j < i ==> (#[trigger] instant_at(doc, keys[j])) is None,
            None => forall|i: int|
                0 <= i < keys.len() ==> (#[trigger] instant_at(doc, keys[i])) is None,
        },
{
    let found = instant_probes(doc, keys);
    lemma_first_some(found);
    match first_some(found) {
        Some(t) => {
            let i = choose|i: int|
                0 <= i < found.len() && #[trigger] found[i] == Some(t) && forall|j: int|
                    0 <= j < i ==> (#[trigger] found[j]) is None;
            assert(instant_at(doc, keys[i]) == Some(t));
            assert forall|j: int| 0 <= j < i implies (#[trigger] instant_at(doc, keys[j]))
                is None by {
                assert(found[j] is None);
            }
        },
        None => {
            assert forall|i: int| 0 <= i < keys.len() implies (#[trigger] instant_at(
                doc,
                keys[i],
            )) is None by {
                assert(found[i] is None);
            }
        },
    }
}

/// The string under one key of a document.
pub fn string_under(v: &Value, key: &str) -> (out: Option<String>)
    ensures
        text_view(out) == string_at(json_of(*v), key@),
        out matches Some(s) ==> s@.len() > 0,
{
    match member(v, key) {
        Some(x) => match text_of(x) {
            Some(s) => if s.is_empty() {
                None
            } else {
                Some(s.to_owned())
            },
            None => if is_number(x) {
                Some(display(x))
            } else {
                None
            },
        },
        None => None,
    }
}

/// The instant that a text stands for.
pub fn timestamp_of_text(s: &str) -> (out: Option<Timestamp>)
    ensures
        instant_view(out) == instant_of_text(s@),
        out matches Some(t) ==> t.wf(),
{
    let with_offset = match parse_datetime(s) {
        Some((secs, nanos)) => Timestamp::from_parts(secs, nanos),
        None => None,
    };
    if with_offset.is_some() {
        with_offset
    } else {
        match parse_plain_datetime(s) {
            Some((secs, nanos)) => Timestamp::from_parts(secs, nanos),
            None => None,
        }
    }
}

/// The instant under one key of a document.
pub fn timestamp_under(v: &Value, key: &str) -> (out: Option<Timestamp>)
    ensures
        instant_view(out) == instant_at(json_of(*v), key@),
        out matches Some(t) ==> t.wf(),
{
    match member(v, key) {
        Some(x) => match text_of(x) {
            Some(s) => timestamp_of_text(s),
            None => match integer_of(x) {
                Some(n) => Timestamp::from_unix_seconds(n),
                None => None,
            },
        },
        None => None,
    }
}

/// Picks the first string that the candidate keys yield, probing the
/// document's top-level fields in the order of the keys. A text that is empty
/// yields nothing; a number yields its textual form. The string picked is
/// never empty.
pub fn s_pick(v: &Value, keys: &[&str]) -> (out: Option<String>)
    ensures
        text_view(out) == pick_string(json_of(*v), key_views(keys@)),
        out matches Some(s) ==> s@.len() > 0,
{
    let ghost found = string_probes(json_of(*v), key_views(keys@));
    let mut i: usize = 0;
    while i < keys.len()
        invariant
            i <= keys.len(),
            found == string_probes(json_of(*v), key_views(keys@)),
            forall|j: int| 0 <= j < i ==> (#[trigger] found[j]) is None,
        decreases keys.len() - i,
    {
        let hit = string_under(v, keys[i]);
        proof {
            assert(found[i as int] == text_view(hit));
        }
        if hit.is_some() {
            proof {
                lemma_first_some_skip(found, i as int);
                assert(found.skip(i as int)[0] == found[i as int]);
            }
            return hit;
        }
        i += 1;
    }
    proof {
        lemma_first_some_skip(found, i as int);
        assert(found.skip(i as int).len() == 0);
    }
    None
}

/// Picks the first instant that the candidate keys yield, probing as
/// [`s_pick`] does. A key whose value reads as no instant counts as absent.
pub fn t_pick(v: &Value, keys: &[&str]) -> (out: Option<Timestamp>)
    ensures
        instant_view(out) == pick_timestamp(json_of(*v), key_views(keys@)),
        out matches Some(t) ==> t.wf(),
{
    let ghost found = instant_probes(json_of(*v), key_views(keys@));
    let mut i: usize = 0;
    while i < keys.len()
        invariant
            i <= keys.len(),
            found == instant_probes(json_of(*v), key_views(keys@)),
            forall|j: int| 0 <= j < i ==> (#[trigger] found[j]) is None,
        decreases keys.len() - i,
    {
        let hit = timestamp_under(v, keys[i]);
        proof {
            assert(found[i as int] == instant_view(hit));
        }
        if hit.is_some() {
            proof {
                lemma_first_some_skip(found, i as int);
                assert(found.skip(i as int)[0] == found[i as int]);
            }
            return hit;
        }
        i += 1;
    }
    proof {
        lemma_first_some_skip(found, i as int);
        assert(found.skip(i as int).len() == 0);
    }
    None
}

/// The window of `n` days that ends on `today`: its first and last day as
/// texts.
pub fn last_days_from(today: Date, n: i64) -> (out: (String, String))
    requires
        MIN_DAY <= today@ - n <= MAX_DAY,
    ensures
        out.0@ == date_display(today@ - n),
        out.1@ == date_display(today@),
{
    let to = today.text();
    match today.minus_days(n) {
        Some(from) => (from.text(), to),
        None => (String::new(), to),
    }
}

/// The window of `n` days that ends today, by the system clock; `None` where
/// its first day lies out of range. Today is never before 1970, so every
/// window of a length from 0 to the number of days before 1970 exists.
pub fn last_days(n: i64) -> (out: Option<(String, String)>)
    ensures
        0 <= n <= EPOCH_DAY - MIN_DAY ==> out is Some,
        out matches Some(w) ==> exists|today: int|
            EPOCH_DAY <= today <= MAX_DAY && MIN_DAY <= today - n <= MAX_DAY && w.0@
                == #[trigger] date_display(today - n) && w.1@ == date_display(today),
{
    let today = Timestamp::now().date();
    let day: i128 = today.day_number() as i128 - n as i128;
    if MIN_DAY as i128 <= day && day <= MAX_DAY as i128 {
        let w = last_days_from(today, n);
        proof {
            assert(w.0@ == date_display(today@ - n));
        }
        Some(w)
    } else {
        None
    }
}

} // verus!
