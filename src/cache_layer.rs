//! Request fingerprinting for the response cache that sits in front of the
//! upstream transport.
//!
//! A request is cacheable when its method reads immutable chain data and its
//! body names no moving block tag. Its cache key is its body with its own id
//! field, the last `"id":` of the body, rewritten to `"id":0`, so that
//! requests that differ only in their id share one entry.

use vstd::prelude::*;

use crate::bytes_search::{
    contains, contains_seq, find_last, is_last_occurrence, matches_at, occurs_at,
};

verus! {

/// The bytes of `"id":`, the start of a request's id field.
pub open spec fn id_tag() -> Seq<u8> {
    seq![34u8, 105u8, 100u8, 34u8, 58u8]
}

/// The block tags whose meaning moves with the chain head.
pub open spec fn invalid_words() -> Seq<Seq<u8>> {
    seq![
        seq![101u8, 97u8, 114u8, 108u8, 105u8, 101u8, 115u8, 116u8],
        seq![108u8, 97u8, 116u8, 101u8, 115u8, 116u8],
        seq![115u8, 97u8, 102u8, 101u8],
        seq![102u8, 105u8, 110u8, 97u8, 108u8, 105u8, 122u8, 101u8, 100u8],
        seq![112u8, 101u8, 110u8, 100u8, 105u8, 110u8, 103u8],
    ]
}

/// `input` contains one of the moving block tags.
pub open spec fn has_invalid_word(input: Seq<u8>) -> bool {
    exists|k: int| 0 <= k < invalid_words().len() && contains_seq(input, #[trigger] invalid_words()[k])
}

/// The `k`-th moving block tag.
fn invalid_word(k: usize) -> (r: Vec<u8>)
    requires
        k < invalid_words().len(),
    ensures
        r@ == invalid_words()[k as int],
{
    match k {
        // earliest
        0 => vec![101u8, 97u8, 114u8, 108u8, 105u8, 101u8, 115u8, 116u8],
        // latest
        1 => vec![108u8, 97u8, 116u8, 101u8, 115u8, 116u8],
        // safe
        2 => vec![115u8, 97u8, 102u8, 101u8],
        // finalized
        3 => vec![102u8, 105u8, 110u8, 97u8, 108u8, 105u8, 122u8, 101u8, 100u8],
        // pending
        _ => vec![112u8, 101u8, 110u8, 100u8, 105u8, 110u8, 103u8],
    }
}

/// Whether `input` contains `earliest`, `latest`, `safe`, `finalized` or `pending`.
pub fn contains_invalid_word(input: &[u8]) -> (r: bool)
    ensures
        r == has_invalid_word(input@),
{
    let mut k: usize = 0;
    while k < 5
        invariant
            k <= 5,
            invalid_words().len() == 5,
            forall|j: int| 0 <= j < k ==> !contains_seq(input@, #[trigger] invalid_words()[j]),
        decreases 5 - k,
    {
        let word = invalid_word(k);
        if contains(input, word.as_slice()) {
            return true;
        }
        k = k + 1;
    }
    false
}

/// The methods whose answers may be cached: `eth_getBlockByNumber`,
/// `eth_getLogs` and `eth_call`.
pub open spec fn cacheable_methods() -> Seq<Seq<u8>> {
    seq![
        seq![101u8, 116u8, 104u8, 95u8, 103u8, 101u8, 116u8, 66u8, 108u8, 111u8, 99u8, 107u8, 66u8,
            121u8, 78u8, 117u8, 109u8, 98u8, 101u8, 114u8],
        seq![101u8, 116u8, 104u8, 95u8, 103u8, 101u8, 116u8, 76u8, 111u8, 103u8, 115u8],
        seq![101u8, 116u8, 104u8, 95u8, 99u8, 97u8, 108u8, 108u8],
    ]
}

/// A request with this method and body may be answered from the cache.
pub open spec fn is_cacheable(method: Seq<u8>, raw: Seq<u8>) -> bool {
    cacheable_methods().contains(method) && !has_invalid_word(raw)
}

/// The `k`-th cacheable method name.
fn cacheable_method(k: usize) -> (r: Vec<u8>)
    requires
        k < cacheable_methods().len(),
    ensures
        r@ == cacheable_methods()[k as int],
{
    match k {
        // eth_getBlockByNumber
        0 => vec![101u8, 116u8, 104u8, 95u8, 103u8, 101u8, 116u8, 66u8, 108u8, 111u8, 99u8, 107u8,
            66u8, 121u8, 78u8, 117u8, 109u8, 98u8, 101u8, 114u8],
        // eth_getLogs
        1 => vec![101u8, 116u8, 104u8, 95u8, 103u8, 101u8, 116u8, 76u8, 111u8, 103u8, 115u8],
        // eth_call
        _ => vec![101u8, 116u8, 104u8, 95u8, 99u8, 97u8, 108u8, 108u8],
    }
}

/// Whether two byte strings are equal.
pub fn bytes_equal(a: &[u8], b: &[u8]) -> (r: bool)
    ensures
        r == (a@ == b@),
{
    if a.len() != b.len() {
        return false;
    }
    let mut i: usize = 0;
    while i < a.len()
        invariant
            a@.len() == b@.len(),
            i <= a@.len(),
            forall|j: int| 0 <= j < i ==> a@[j] == b@[j],
        decreases a@.len() - i,
    {
        if a[i] != b[i] {
            return false;
        }
        i = i + 1;
    }
    assert(a@ =~= b@);
    true
}

/// Whether a request with this method and serialized body may be answered
/// from the cache.
pub fn cacheable_request(method: &[u8], raw: &[u8]) -> (r: bool)
    ensures
        r == is_cacheable(method@, raw@),
{
    let mut k: usize = 0;
    let mut known = false;
    while k < 3
        invariant
            k <= 3,
            cacheable_methods().len() == 3,
            known == exists|j: int| 0 <= j < k && cacheable_methods()[j] == method@,
        decreases 3 - k,
    {
        let name = cacheable_method(k);
        if bytes_equal(method, name.as_slice()) {
            known = true;
        }
        k = k + 1;
    }
    if !known {
        assert(!cacheable_methods().contains(method@));
        return false;
    }
    !contains_invalid_word(raw)
}

/// The identifier of a JSON-RPC request.
pub enum RequestId {
    Number(u64),
    /// A textual id, as it is written in the body: the bytes of the JSON
    /// string, quotes included.
    Text(Vec<u8>),
    Null,
}

/// The decimal digits of `n`.
pub open spec fn decimal(n: nat) -> Seq<u8>
    decreases n,
{
    if n < 10 {
        seq![(48 + n) as u8]
    } else {
        decimal(n / 10) + seq![(48 + n % 10) as u8]
    }
}

/// How an id is written in a request body.
pub open spec fn id_text(id: RequestId) -> Seq<u8> {
    match id {
        RequestId::Number(n) => decimal(n as nat),
        RequestId::Text(t) => t@,
        RequestId::Null => seq![110u8, 117u8, 108u8, 108u8],
    }
}

/// The id field `"id":<id>` of a request with this id.
pub open spec fn id_field(id: RequestId) -> Seq<u8> {
    id_tag() + id_text(id)
}

/// The normalized id field `"id":0`.
pub open spec fn zero_id_field() -> Seq<u8> {
    id_tag() + seq![48u8]
}

/// The request's own id field starts at `i`: the last `"id":` of the body
/// starts there, and the id field of `id` stands there.
pub open spec fn own_id_field_at(raw: Seq<u8>, id: RequestId, i: int) -> bool {
    is_last_occurrence(raw, id_tag(), i) && occurs_at(raw, id_field(id), i)
}

/// The cache key of a request body whose id is `id`: when the body's last
/// `"id":` is the field `"id":<id>`, the body with that field rewritten to
/// `"id":0` and every other byte kept; otherwise the body itself.
pub open spec fn key_of(raw: Seq<u8>, id: RequestId) -> Seq<u8> {
    if exists|i: int| own_id_field_at(raw, id, i) {
        let i = choose|i: int| own_id_field_at(raw, id, i);
        raw.subrange(0, i) + zero_id_field() + raw.subrange(i + id_field(id).len(), raw.len() as int)
    } else {
        raw
    }
}

proof fn lemma_last_occurrence_unique(hay: Seq<u8>, pat: Seq<u8>, i: int, j: int)
    requires
        is_last_occurrence(hay, pat, i),
        is_last_occurrence(hay, pat, j),
    ensures
        i == j,
{
    if i < j {
        assert(!occurs_at(hay, pat, j));
    } else if j < i {
        assert(!occurs_at(hay, pat, i));
    }
}

/// The decimal digits of `n`.
pub fn decimal_bytes(n: u64) -> (r: Vec<u8>)
    ensures
        r@ == decimal(n as nat),
    decreases n,
{
    if n < 10 {
        vec![(48 + n) as u8]
    } else {
        let mut r = decimal_bytes(n / 10);
        r.push((48 + n % 10) as u8);
        r
    }
}

/// The cache key of a request body: when its last `"id":` is the request's
/// own id field `"id":<id>`, the body with that field rewritten to `"id":0`
/// and every other byte kept; otherwise the body unchanged.
pub fn cache_key(raw: &[u8], id: &RequestId) -> (r: Vec<u8>)
    ensures
        r@ == key_of(raw@, *id),
{
    // "id":
    let mut field: Vec<u8> = vec![34u8, 105u8, 100u8, 34u8, 58u8];
    let tag: Vec<u8> = vec![34u8, 105u8, 100u8, 34u8, 58u8];
    assert(tag@ == id_tag());
    match id {
        RequestId::Number(n) => {
            let digits = decimal_bytes(*n);
            field.extend_from_slice(digits.as_slice());
        },
        RequestId::Text(t) => {
            field.extend_from_slice(t.as_slice());
        },
        RequestId::Null => {
            field.extend_from_slice(vec![110u8, 117u8, 108u8, 108u8].as_slice());
        },
    }
    assert(field@ =~= id_field(*id));
    let mut out: Vec<u8> = Vec::new();
    match find_last(raw, tag.as_slice()) {
        Some(i) => {
            if matches_at(raw, field.as_slice(), i) {
                proof {
                    assert(own_id_field_at(raw@, *id, i as int));
                    assert forall|k: int| own_id_field_at(raw@, *id, k) implies k == i as int by {
                        lemma_last_occurrence_unique(raw@, id_tag(), k, i as int);
                    }
                }
                let n = raw.len();
                assert(i + field@.len() <= n);
                let end = i + field.len();
                out.extend_from_slice(&raw[0..i]);
                // "id":0
                out.extend_from_slice(vec![34u8, 105u8, 100u8, 34u8, 58u8, 48u8].as_slice());
                out.extend_from_slice(&raw[end..raw.len()]);
                assert(out@ =~= raw@.subrange(0, i as int) + zero_id_field() + raw@.subrange(
                    end as int,
                    raw@.len() as int,
                ));
                return out;
            }
            proof {
                assert forall|k: int| !own_id_field_at(raw@, *id, k) by {
                    if own_id_field_at(raw@, *id, k) {
                        lemma_last_occurrence_unique(raw@, id_tag(), k, i as int);
                    }
                }
            }
        },
        None => {},
    }
    out.extend_from_slice(raw);
    assert(out@ =~= raw@);
    out
}

/// The key under which a request is looked up and stored, or `None` when
/// the request bypasses the cache.
pub open spec fn cache_plan(method: Seq<u8>, raw: Seq<u8>, id: RequestId) -> Option<Seq<u8>> {
    if is_cacheable(method, raw) {
        Some(key_of(raw, id))
    } else {
        None
    }
}

/// The answer that a store holding `store` gives to a request without
/// reaching the upstream transport, if any.
pub open spec fn served_from_store(
    store: Map<Seq<u8>, Seq<u8>>,
    method: Seq<u8>,
    raw: Seq<u8>,
    id: RequestId,
) -> Option<Seq<u8>> {
    match cache_plan(method, raw, id) {
        Some(k) => if store.contains_key(k) {
            Some(store[k])
        } else {
            None
        },
        None => None,
    }
}

/// The store after a request: on a miss of a cacheable request whose
/// upstream answer was a success with `payload`, the payload is stored under
/// the request's key; otherwise the store is unchanged.
pub open spec fn store_after(
    store: Map<Seq<u8>, Seq<u8>>,
    method: Seq<u8>,
    raw: Seq<u8>,
    id: RequestId,
    payload: Option<Seq<u8>>,
) -> Map<Seq<u8>, Seq<u8>> {
    match (cache_plan(method, raw, id), payload) {
        (Some(k), Some(p)) => if store.contains_key(k) {
            store
        } else {
            store.insert(k, p)
        },
        _ => store,
    }
}

/// The answer that a request receives: the stored one on a hit, else the
/// upstream one.
pub open spec fn answer(
    store: Map<Seq<u8>, Seq<u8>>,
    method: Seq<u8>,
    raw: Seq<u8>,
    id: RequestId,
    upstream: Seq<u8>,
) -> Seq<u8> {
    match served_from_store(store, method, raw, id) {
        Some(v) => v,
        None => upstream,
    }
}

/// The cache key of an outgoing request, or `None` when the request must
/// bypass the cache (neither read nor written).
pub fn plan_call(method: &[u8], raw: &[u8], id: &RequestId) -> (r: Option<Vec<u8>>)
    ensures
        match r {
            Some(k) => cache_plan(method@, raw@, *id) == Some(k@),
            None => cache_plan(method@, raw@, *id) is None,
        },
{
    if cacheable_request(method, raw) {
        Some(cache_key(raw, id))
    } else {
        None
    }
}

/// The view of an optional payload.
pub open spec fn payload_view(p: Option<Vec<u8>>) -> Option<Seq<u8>> {
    match p {
        Some(v) => Some(v@),
        None => None,
    }
}

/// What to store after a request that missed the store: `payload` is the
/// upstream answer's payload when the answer was a success, and `None` for
/// an RPC error or a failed call. A cacheable request's successful payload is
/// stored under its key; nothing else is stored. On any store that the
/// request missed, storing the result is `store_after`.
pub fn entry_to_store(method: &[u8], raw: &[u8], id: &RequestId, payload: Option<Vec<u8>>) -> (r:
    Option<(Vec<u8>, Vec<u8>)>)
    ensures
        match r {
            Some((k, v)) => cache_plan(method@, raw@, *id) == Some(k@) && payload_view(payload)
                == Some(v@),
            None => cache_plan(method@, raw@, *id) is None || payload is None,
        },
        forall|store: Map<Seq<u8>, Seq<u8>>|
            served_from_store(store, method@, raw@, *id) is None ==> #[trigger] store_after(
                store,
                method@,
                raw@,
                *id,
                payload_view(payload),
            ) == match r {
                Some((k, v)) => store.insert(k@, v@),
                None => store,
            },
{
    match plan_call(method, raw, id) {
        Some(k) => match payload {
            Some(p) => Some((k, p)),
            None => None,
        },
        None => None,
    }
}

/// No `"id":` starts inside the tag `"id":` itself, past its first byte.
proof fn lemma_tag_inside_field(raw: Seq<u8>, b: int, j: int)
    requires
        0 <= b,
        b + 5 <= raw.len(),
        raw.subrange(b, b + 5) == id_tag(),
        b < j < b + 5,
    ensures
        !occurs_at(raw, id_tag(), j),
{
    assert(raw[b + 3] == raw.subrange(b, b + 5)[3]);
    assert(raw[b + 4] == raw.subrange(b, b + 5)[4]);
    assert(raw[b + 1] == raw.subrange(b, b + 5)[1]);
    assert(raw[b + 2] == raw.subrange(b, b + 5)[2]);
    if occurs_at(raw, id_tag(), j) {
        assert(raw[j] == raw.subrange(j, j + 5)[0]);
        if j == b + 3 {
            assert(raw[j + 1] == raw.subrange(j, j + 5)[1]);
        }
    }
}

/// A `"id":` that starts past the tag of `before` + `"id":<id>` + `after`
/// lies within `<id>` + `after`.
proof fn lemma_tag_after_field(before: Seq<u8>, after: Seq<u8>, id: RequestId, j: int)
    requires
        j >= before.len() + 5,
        occurs_at(before + id_field(id) + after, id_tag(), j),
    ensures
        contains_seq(id_text(id) + after, id_tag()),
{
    let raw = before + id_field(id) + after;
    let rest = id_text(id) + after;
    let k = j - before.len() - 5;
    assert(raw.subrange(before.len() as int + 5, raw.len() as int) =~= rest);
    assert(rest.subrange(k, k + 5) =~= raw.subrange(j, j + 5));
    assert(occurs_at(rest, id_tag(), k));
}

/// The key of `before` + `"id":<id>` + `after` is `before` + `"id":0` +
/// `after` when no `"id":` starts after the field's own.
proof fn lemma_key_of_framed(before: Seq<u8>, after: Seq<u8>, id: RequestId)
    requires
        !contains_seq(id_text(id) + after, id_tag()),
    ensures
        key_of(before + id_field(id) + after, id) == before + zero_id_field() + after,
{
    let f = id_field(id);
    let raw = before + f + after;
    let b = before.len() as int;
    assert(raw.subrange(b, b + f.len()) =~= f);
    assert(raw.subrange(b, b + 5) =~= id_tag());
    assert forall|j: int| b < j implies !occurs_at(raw, id_tag(), j) by {
        if j < b + 5 {
            lemma_tag_inside_field(raw, b, j);
        } else if occurs_at(raw, id_tag(), j) {
            lemma_tag_after_field(before, after, id, j);
        }
    }
    assert(own_id_field_at(raw, id, b));
    assert forall|k: int| own_id_field_at(raw, id, k) implies k == b by {
        lemma_last_occurrence_unique(raw, id_tag(), k, b);
    }
    assert(raw.subrange(0, b) =~= before);
    assert(raw.subrange(b + f.len(), raw.len() as int) =~= after);
}

/// Two requests that differ only in the value of their id field get the same
/// cache key, with only that field rewritten; so once the first has been
/// answered with a success, the second is answered from the store with the
/// same payload, without reaching the upstream transport. The id field is
/// the body's last `"id":`.
pub proof fn lemma_same_request_any_id(
    method: Seq<u8>,
    before: Seq<u8>,
    after: Seq<u8>,
    id1: RequestId,
    id2: RequestId,
    store: Map<Seq<u8>, Seq<u8>>,
    payload: Seq<u8>,
)
    requires
        !contains_seq(id_text(id1) + after, id_tag()),
        !contains_seq(id_text(id2) + after, id_tag()),
        is_cacheable(method, before + id_field(id1) + after),
        is_cacheable(method, before + id_field(id2) + after),
    ensures
        cache_plan(method, before + id_field(id1) + after, id1) == Some(
            before + zero_id_field() + after,
        ),
        cache_plan(method, before + id_field(id1) + after, id1) == cache_plan(
            method,
            before + id_field(id2) + after,
            id2,
        ),
        served_from_store(
            store_after(store, method, before + id_field(id1) + after, id1, Some(payload)),
            method,
            before + id_field(id2) + after,
            id2,
        ) == Some(answer(store, method, before + id_field(id1) + after, id1, payload)),
{
    lemma_key_of_framed(before, after, id1);
    lemma_key_of_framed(before, after, id2);
}

/// A request that names `earliest`, `latest`, `safe`, `finalized` or
/// `pending` is never answered from the store and never changes it.
pub proof fn lemma_moving_tags_bypass(
    store: Map<Seq<u8>, Seq<u8>>,
    method: Seq<u8>,
    raw: Seq<u8>,
    id: RequestId,
    payload: Option<Seq<u8>>,
)
    requires
        has_invalid_word(raw),
    ensures
        cache_plan(method, raw, id) is None,
        served_from_store(store, method, raw, id) is None,
        store_after(store, method, raw, id, payload) == store,
{
}

} // verus!
