//! What goes back to the frontend: the handles of an opened fetch, the
//! metadata of a response whose body is still to be streamed, and the
//! buffered response of a one-shot call.

use vstd::prelude::*;
use vstd::slice::slice_to_vec;
use crate::http::{header_text, header_value_text, status_text, status_text_of};
use crate::table::ResourceId;

verus! {

/// A response header as the router produced it: its name and its raw value.
pub type ResponseHeader = (String, Vec<u8>);

/// The three handles of an opened fetch.
#[derive(Debug, Clone, Copy, PartialEq, Eq, Structural)]
pub struct FetchReturn {
    /// The pending router invocation.
    pub rid: ResourceId,
    /// The sending half of the cancellation pair.
    pub txid: ResourceId,
    /// The receiving half of the cancellation pair.
    pub rxid: ResourceId,
}

/// Status and headers of a response, with the handle of its unread body.
#[derive(Debug, Clone)]
pub struct FetchSendResponseMeta {
    pub status: u16,
    pub status_text: String,
    pub headers: Vec<(String, String)>,
    pub bodyid: ResourceId,
}

/// The buffered response of a one-shot call. No header name occurs twice.
#[derive(Debug, Clone)]
pub struct AxumResponse {
    pub status: u16,
    pub headers: Vec<(String, String)>,
    pub body: Vec<u8>,
}

/// Headers as pairs of texts.
pub open spec fn text_pairs(v: Seq<(String, String)>) -> Seq<(Seq<char>, Seq<char>)> {
    Seq::new(v.len(), |i: int| (v[i].0@, v[i].1@))
}

/// Response headers as they are shown: each name beside the text of its value.
pub open spec fn shown_headers(v: Seq<ResponseHeader>) -> Seq<(Seq<char>, Seq<char>)> {
    Seq::new(v.len(), |i: int| (v[i].0@, header_text(v[i].1@)))
}

/// `base` with the pairs of `pairs` entered one after the other, a later
/// value replacing an earlier one under the same name.
pub open spec fn merged(base: Map<Seq<char>, Seq<char>>, pairs: Seq<(Seq<char>, Seq<char>)>) -> Map<
    Seq<char>,
    Seq<char>,
>
    decreases pairs.len(),
{
    if pairs.len() == 0 {
        base
    } else {
        merged(base, pairs.drop_last()).insert(pairs.last().0, pairs.last().1)
    }
}

/// Whether no name occurs twice among `entries`.
pub open spec fn distinct_names(entries: Seq<(Seq<char>, Seq<char>)>) -> bool {
    forall|i: int, j: int|
        0 <= i < j < entries.len() ==> (#[trigger] entries[i]).0 != (#[trigger] entries[j]).0
}

/// Whether `entries` has an entry called `name`.
pub open spec fn has_name(entries: Seq<(Seq<char>, Seq<char>)>, name: Seq<char>) -> bool {
    exists|i: int| 0 <= i < entries.len() && (#[trigger] entries[i]).0 == name
}

/// The index of an entry called `name`.
pub open spec fn index_of(entries: Seq<(Seq<char>, Seq<char>)>, name: Seq<char>) -> int {
    choose|i: int| 0 <= i < entries.len() && (#[trigger] entries[i]).0 == name
}

/// The map that the entries of a list stand for.
pub open spec fn map_of(entries: Seq<(Seq<char>, Seq<char>)>) -> Map<Seq<char>, Seq<char>> {
    Map::new(
        |name: Seq<char>| has_name(entries, name),
        |name: Seq<char>| entries[index_of(entries, name)].1,
    )
}

impl AxumResponse {
    /// The headers as a map from name to value.
    pub open spec fn header_map(&self) -> Map<Seq<char>, Seq<char>> {
        map_of(text_pairs(self.headers@))
    }

    /// No header name occurs twice.
    pub open spec fn well_formed(&self) -> bool {
        distinct_names(text_pairs(self.headers@))
    }
}

/// Turns response headers into the list that is shown to the frontend: the
/// names as they are, each value as text, or empty where it is not visible ASCII.
pub fn show_headers(headers: &Vec<ResponseHeader>) -> (shown: Vec<(String, String)>)
    ensures
        text_pairs(shown@) == shown_headers(headers@),
{
    let mut shown: Vec<(String, String)> = Vec::new();
    let mut i: usize = 0;
    while i < headers.len()
        invariant
            i <= headers.len(),
            shown@.len() == i,
            forall|j: int|
                0 <= j < i ==> (#[trigger] shown@[j]).0@ == headers@[j].0@ && shown@[j].1@
                    == header_text(headers@[j].1@),
        decreases headers.len() - i,
    {
        let name = headers[i].0.clone();
        let value = slice_to_vec(headers[i].1.as_slice());
        shown.push((name, header_value_text(value)));
        i += 1;
    }
    assert(text_pairs(shown@) =~= shown_headers(headers@));
    shown
}

/// The metadata of a response whose body is kept under `bodyid`.
pub fn response_meta(status: u16, headers: &Vec<ResponseHeader>, bodyid: ResourceId) -> (meta:
    FetchSendResponseMeta)
    ensures
        meta.status == status,
        meta.status_text@ == status_text_of(status),
        text_pairs(meta.headers@) == shown_headers(headers@),
        meta.bodyid == bodyid,
{
    FetchSendResponseMeta {
        status,
        status_text: status_text(status),
        headers: show_headers(headers),
        bodyid,
    }
}

/// An entry of a list without repeated names is found under its name.
pub proof fn lemma_map_of_entry(entries: Seq<(Seq<char>, Seq<char>)>, i: int)
    requires
        distinct_names(entries),
        0 <= i < entries.len(),
    ensures
        map_of(entries).contains_key(entries[i].0),
        map_of(entries)[entries[i].0] == entries[i].1,
{
    let name = entries[i].0;
    assert(has_name(entries, name));
    let k = index_of(entries, name);
    assert(entries[k].0 == name);
    if k < i {
        assert(entries[k].0 != entries[i].0);
    } else if i < k {
        assert(entries[i].0 != entries[k].0);
    }
}

/// Enters `value` under `name`: replaces the value of the entry called
/// `name`, or adds an entry if there is none.
pub fn upsert(entries: &mut Vec<(String, String)>, name: String, value: String)
    requires
        distinct_names(text_pairs(old(entries)@)),
    ensures
        distinct_names(text_pairs(final(entries)@)),
        map_of(text_pairs(final(entries)@)) == map_of(text_pairs(old(entries)@)).insert(
            name@,
            value@,
        ),
{
    let ghost before = text_pairs(entries@);
    let mut i: usize = 0;
    while i < entries.len()
        invariant
            i <= entries.len(),
            entries@ == old(entries)@,
            before == text_pairs(entries@),
            distinct_names(before),
            forall|j: int| 0 <= j < i ==> (#[trigger] before[j]).0 != name@,
        decreases entries.len() - i,
    {
        if entries[i].0 == name {
            entries.set(i, (name, value));
            proof {
                let after = text_pairs(entries@);
                assert(after =~= before.update(i as int, (name@, value@)));
                assert forall|a: int, b: int| 0 <= a < b < after.len() implies (
                #[trigger] after[a]).0 != (#[trigger] after[b]).0 by {
                    assert(after[a].0 == before[a].0);
                    assert(after[b].0 == before[b].0);
                }
                assert forall|k: Seq<char>| has_name(after, k) == has_name(before, k) by {
                    if has_name(after, k) {
                        let x = index_of(after, k);
                        assert(before[x].0 == k);
                    }
                    if has_name(before, k) {
                        let x = index_of(before, k);
                        assert(after[x].0 == k);
                    }
                }
                assert(has_name(before, name@)) by {
                    assert(before[i as int].0 == name@);
                }
                assert forall|k: Seq<char>| #[trigger] has_name(after, k) implies map_of(after)[k]
                    == map_of(before).insert(name@, value@)[k] by {
                    let x = index_of(after, k);
                    lemma_map_of_entry(after, x);
                    if k != name@ {
                        assert(x != i);
                        lemma_map_of_entry(before, x);
                    } else {
                        lemma_map_of_entry(after, i as int);
                    }
                }
                assert(map_of(after) =~= map_of(before).insert(name@, value@));
            }
            return ;
        }
        i += 1;
    }
    entries.push((name, value));
    proof {
        let after = text_pairs(entries@);
        assert(after =~= before.push((name@, value@)));
        let last = before.len() as int;
        assert forall|a: int, b: int| 0 <= a < b < after.len() implies (#[trigger] after[a]).0 != (
        #[trigger] after[b]).0 by {
            if b < last {
                assert(after[a] == before[a]);
                assert(after[b] == before[b]);
            } else {
                assert(after[a] == before[a]);
            }
        }
        assert forall|k: Seq<char>| has_name(after, k) == (has_name(before, k) || k == name@) by {
            if has_name(after, k) {
                let x = index_of(after, k);
                if x < last {
                    assert(before[x].0 == k);
                }
            }
            if has_name(before, k) {
                let x = index_of(before, k);
                assert(after[x].0 == k);
            }
            if k == name@ {
                assert(after[last].0 == k);
            }
        }
        assert forall|k: Seq<char>| #[trigger] has_name(after, k) implies map_of(after)[k]
            == map_of(before).insert(name@, value@)[k] by {
            let x = index_of(after, k);
            lemma_map_of_entry(after, x);
            if k != name@ {
                assert(x < last);
                assert(after[x] == before[x]);
                lemma_map_of_entry(before, x);
            } else {
                lemma_map_of_entry(after, last);
            }
        }
        assert(map_of(after) =~= map_of(before).insert(name@, value@));
    }
}

/// Enters the shown form of each of `headers` into `entries`, in order.
pub fn merge_headers(entries: &mut Vec<(String, String)>, headers: &Vec<ResponseHeader>)
    requires
        distinct_names(text_pairs(old(entries)@)),
    ensures
        distinct_names(text_pairs(final(entries)@)),
        map_of(text_pairs(final(entries)@)) == merged(
            map_of(text_pairs(old(entries)@)),
            shown_headers(headers@),
        ),
{
    let ghost base = map_of(text_pairs(entries@));
    let ghost all = shown_headers(headers@);
    let mut i: usize = 0;
    assert(all.take(0) =~= Seq::<(Seq<char>, Seq<char>)>::empty());
    while i < headers.len()
        invariant
            i <= headers.len(),
            all == shown_headers(headers@),
            distinct_names(text_pairs(entries@)),
            map_of(text_pairs(entries@)) == merged(base, all.take(i as int)),
        decreases headers.len() - i,
    {
        assert(all.take(i + 1).drop_last() =~= all.take(i as int));
        assert(all.take(i + 1).last() == all[i as int]);
        let name = headers[i].0.clone();
        let value = slice_to_vec(headers[i].1.as_slice());
        upsert(entries, name, header_value_text(value));
        i += 1;
    }
    assert(all.take(headers.len() as int) =~= all);
}

/// The headers of a buffered response: those of the response, then the
/// trailers if there are any, a later value replacing an earlier one.
pub open spec fn buffered_headers(headers: Seq<ResponseHeader>, trailers: Option<Vec<ResponseHeader>>)
    -> Map<Seq<char>, Seq<char>> {
    let own = merged(Map::empty(), shown_headers(headers));
    match trailers {
        Some(t) => merged(own, shown_headers(t@)),
        None => own,
    }
}

/// Builds the buffered response of a one-shot call from what the router
/// produced: status, headers, the collected body and the trailers, if any.
pub fn buffered_response(
    status: u16,
    headers: &Vec<ResponseHeader>,
    trailers: Option<Vec<ResponseHeader>>,
    body: Vec<u8>,
) -> (response: AxumResponse)
    ensures
        response.well_formed(),
        response.status == status,
        response.header_map() == buffered_headers(headers@, trailers),
        response.body@ == body@,
{
    let mut entries: Vec<(String, String)> = Vec::new();
    proof {
        assert(map_of(text_pairs(entries@)) =~= Map::<Seq<char>, Seq<char>>::empty());
    }
    merge_headers(&mut entries, headers);
    match &trailers {
        Some(t) => {
            merge_headers(&mut entries, t);
        },
        None => {},
    }
    AxumResponse { status, headers: entries, body }
}

/// Looks up a header of a buffered response by its exact name.
pub fn header_of<'a>(response: &'a AxumResponse, name: &String) -> (value: Option<&'a String>)
    requires
        response.well_formed(),
    ensures
        match value {
            Some(v) => response.header_map().contains_key(name@) && response.header_map()[name@]
                == v@,
            None => !response.header_map().contains_key(name@),
        },
{
    let ghost entries = text_pairs(response.headers@);
    let mut i: usize = 0;
    while i < response.headers.len()
        invariant
            i <= response.headers.len(),
            entries == text_pairs(response.headers@),
            distinct_names(entries),
            forall|j: int| 0 <= j < i ==> (#[trigger] entries[j]).0 != name@,
        decreases response.headers.len() - i,
    {
        if response.headers[i].0 == *name {
            proof {
                assert(entries[i as int].0 == name@);
                lemma_map_of_entry(entries, i as int);
            }
            return Some(&response.headers[i].1);
        }
        i += 1;
    }
    proof {
        if has_name(entries, name@) {
            let x = index_of(entries, name@);
            assert(entries[x].0 != name@);
        }
    }
    None
}

/// The status that a failed body turns a scheme-protocol response into.
pub const INTERNAL_SERVER_ERROR: u16 = 500;

/// What the custom URI scheme answers with: the response's own status and the
/// collected body, or status 500 and the failure's message as the body where
/// the body could not be collected.
pub fn scheme_reply(status: u16, collected: Result<Vec<u8>, String>) -> (reply: (u16, Vec<u8>))
    ensures
        match collected {
            Ok(body) => reply.0 == status && reply.1@ == body@,
            Err(message) => reply.0 == INTERNAL_SERVER_ERROR && reply.1@
                == vstd::utf8::encode_utf8(message@),
        },
{
    match collected {
        Ok(body) => (status, body),
        Err(message) => (INTERNAL_SERVER_ERROR, slice_to_vec(message.as_str().as_bytes())),
    }
}

/// Whether the entry at `i` is the last of `pairs` that is called `name`.
pub open spec fn is_last_named(pairs: Seq<(Seq<char>, Seq<char>)>, name: Seq<char>, i: int) -> bool {
    &&& 0 <= i < pairs.len()
    &&& pairs[i].0 == name
    &&& forall|j: int| i < j < pairs.len() ==> (#[trigger] pairs[j]).0 != name
}

/// Merging adds exactly the names of the pairs to those of the base.
pub proof fn lemma_merged_names(
    base: Map<Seq<char>, Seq<char>>,
    pairs: Seq<(Seq<char>, Seq<char>)>,
    name: Seq<char>,
)
    ensures
        merged(base, pairs).contains_key(name) <==> base.contains_key(name) || has_name(
            pairs,
            name,
        ),
    decreases pairs.len(),
{
    if pairs.len() > 0 {
        let init = pairs.drop_last();
        lemma_merged_names(base, init, name);
        if has_name(init, name) {
            let i = index_of(init, name);
            assert(pairs[i].0 == name);
        }
        if has_name(pairs, name) {
            let i = index_of(pairs, name);
            if i < init.len() {
                assert(init[i].0 == name);
            }
        }
        if pairs.last().0 == name {
            assert(pairs[pairs.len() - 1].0 == name);
        }
    }
}

/// Where several pairs share a name, merging keeps the value of the last.
pub proof fn lemma_merged_last_wins(
    base: Map<Seq<char>, Seq<char>>,
    pairs: Seq<(Seq<char>, Seq<char>)>,
    name: Seq<char>,
    i: int,
)
    requires
        is_last_named(pairs, name, i),
    ensures
        merged(base, pairs).contains_key(name),
        merged(base, pairs)[name] == pairs[i].1,
    decreases pairs.len(),
{
    let init = pairs.drop_last();
    if i < pairs.len() - 1 {
        assert(pairs[pairs.len() - 1].0 != name);
        assert forall|j: int| i < j < init.len() implies (#[trigger] init[j]).0 != name by {
            assert(pairs[j].0 != name);
        }
        lemma_merged_last_wins(base, init, name, i);
    }
}

/// A fetch and a one-shot call show the same response. The status is the
/// same. Where the response has no trailers, the one-shot response has a
/// header under a name exactly if the fetch's metadata lists one, and its
/// value is that of the last header of that name in the list.
pub proof fn lemma_fetch_matches_one_shot(
    status: u16,
    headers: Seq<ResponseHeader>,
    meta: FetchSendResponseMeta,
    response: AxumResponse,
)
    requires
        meta.status == status,
        text_pairs(meta.headers@) == shown_headers(headers),
        response.status == status,
        response.header_map() == buffered_headers(headers, None),
    ensures
        response.status == meta.status,
        response.header_map() == merged(Map::empty(), text_pairs(meta.headers@)),
        forall|name: Seq<char>|
            response.header_map().contains_key(name) <==> #[trigger] has_name(
                text_pairs(meta.headers@),
                name,
            ),
        forall|name: Seq<char>, i: int| #[trigger]
            is_last_named(text_pairs(meta.headers@), name, i) ==> response.header_map()[name]
                == meta.headers@[i].1@,
{
    let pairs = text_pairs(meta.headers@);
    let empty = Map::<Seq<char>, Seq<char>>::empty();
    assert forall|name: Seq<char>|
        response.header_map().contains_key(name) <==> #[trigger] has_name(pairs, name) by {
        lemma_merged_names(empty, pairs, name);
    }
    assert forall|name: Seq<char>, i: int| #[trigger]
        is_last_named(pairs, name, i) implies response.header_map()[name]
        == meta.headers@[i].1@ by {
        lemma_merged_last_wins(empty, pairs, name, i);
    }
}

/// Trailers are merged in after the headers: a name that occurs among the
/// trailers has the value of its last trailer in the buffered response.
pub proof fn lemma_trailers_win(
    headers: Seq<ResponseHeader>,
    trailers: Vec<ResponseHeader>,
    name: Seq<char>,
    i: int,
)
    requires
        is_last_named(shown_headers(trailers@), name, i),
    ensures
        buffered_headers(headers, Some(trailers)).contains_key(name),
        buffered_headers(headers, Some(trailers))[name] == header_text(trailers@[i].1@),
{
    lemma_merged_last_wins(
        merged(Map::empty(), shown_headers(headers)),
        shown_headers(trailers@),
        name,
        i,
    );
}

} // verus!
