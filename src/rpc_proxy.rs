//! Decisions of the caching HTTP proxy that stands between a provider and an
//! upstream RPC endpoint. A request body that names a moving block tag, or
//! asks for the block number, is forwarded untouched. Any other body has its
//! id value, the one after its first `"id":`, replaced by `0` and is looked up in the store under the BLAKE3
//! digest of the result; answers that are not RPC errors are stored.

use vstd::prelude::*;

use crate::bytes_search::{
    contains, contains_seq, find_from, is_first_occurrence, occurs_at,
};
use crate::cache_layer::id_tag;

verus! {

/// The words that make a proxied request uncacheable: `eth_blockNumber` and
/// the moving block tags.
pub open spec fn proxy_invalid_words() -> Seq<Seq<u8>> {
    seq![
        seq![101u8, 116u8, 104u8, 95u8, 98u8, 108u8, 111u8, 99u8, 107u8, 78u8, 117u8, 109u8, 98u8, 101u8, 114u8],
        seq![101u8, 97u8, 114u8, 108u8, 105u8, 101u8, 115u8, 116u8],
        seq![108u8, 97u8, 116u8, 101u8, 115u8, 116u8],
        seq![115u8, 97u8, 102u8, 101u8],
        seq![102u8, 105u8, 110u8, 97u8, 108u8, 105u8, 122u8, 101u8, 100u8],
        seq![112u8, 101u8, 110u8, 100u8, 105u8, 110u8, 103u8],
    ]
}

/// `input` contains one of the proxy's uncacheable words.
pub open spec fn has_proxy_invalid_word(input: Seq<u8>) -> bool {
    exists|k: int|
        0 <= k < proxy_invalid_words().len() && contains_seq(input, #[trigger] proxy_invalid_words()[k])
}

fn proxy_invalid_word(k: usize) -> (r: Vec<u8>)
    requires
        k < proxy_invalid_words().len(),
    ensures
        r@ == proxy_invalid_words()[k as int],
{
    match k {
        // eth_blockNumber
        0 => vec![101u8, 116u8, 104u8, 95u8, 98u8, 108u8, 111u8, 99u8, 107u8, 78u8, 117u8, 109u8,
            98u8, 101u8, 114u8],
        // earliest
        1 => vec![101u8, 97u8, 114u8, 108u8, 105u8, 101u8, 115u8, 116u8],
        // latest
        2 => vec![108u8, 97u8, 116u8, 101u8, 115u8, 116u8],
        // safe
        3 => vec![115u8, 97u8, 102u8, 101u8],
        // finalized
        4 => vec![102u8, 105u8, 110u8, 97u8, 108u8, 105u8, 122u8, 101u8, 100u8],
        // pending
        _ => vec![112u8, 101u8, 110u8, 100u8, 105u8, 110u8, 103u8],
    }
}

/// Whether `input` contains `eth_blockNumber`, `earliest`, `latest`,
/// `safe`, `finalized` or `pending`.
pub fn contains_invalid_word(input: &[u8]) -> (r: bool)
    ensures
        r == has_proxy_invalid_word(input@),
{
    let mut k: usize = 0;
    while k < 6
        invariant
            k <= 6,
            proxy_invalid_words().len() == 6,
            forall|j: int| 0 <= j < k ==> !contains_seq(input@, #[trigger] proxy_invalid_words()[j]),
        decreases 6 - k,
    {
        let word = proxy_invalid_word(k);
        if contains(input, word.as_slice()) {
            return true;
        }
        k = k + 1;
    }
    false
}

/// The body has an id field followed, somewhere after it, by a `,`: the
/// first `"id":` starts at `i` and a `,` stands
/// at or after `i + 5`.
pub open spec fn has_id_split(input: Seq<u8>) -> bool {
    exists|i: int, e: int|
        is_first_occurrence(input, id_tag(), i) && i + 5 <= e < input.len() && input[e] == 44u8
}

/// Splits a request body around its id value: the part up to and
/// including the first `"id":`, the value up to the next `,`, and the rest
/// from that `,` on. `None` when there is no `"id":` or no `,` after the
/// first one.
pub fn divide_request_by_id(input: &[u8]) -> (r: Option<(&[u8], &[u8], &[u8])>)
    ensures
        match r {
            Some((start, value, end)) => {
                &&& start@ + value@ + end@ == input@
                &&& start@.len() >= 5
                &&& is_first_occurrence(input@, id_tag(), start@.len() - 5)
                &&& forall|k: int| 0 <= k < value@.len() ==> value@[k] != 44u8
                &&& end@.len() > 0 && end@[0] == 44u8
            },
            None => !has_id_split(input@),
        },
{
    // "id":
    let tag: Vec<u8> = vec![34u8, 105u8, 100u8, 34u8, 58u8];
    assert(tag@ == id_tag());
    let i = match find_from(input, tag.as_slice(), 0) {
        Some(i) => i,
        None => {
            assert(!has_id_split(input@));
            return None;
        },
    };
    let n = input.len();
    assert(i + 5 <= n);
    let value_start = i + 5;
    // ,
    let comma: Vec<u8> = vec![44u8];
    let e = match find_from(input, comma.as_slice(), value_start) {
        Some(e) => e,
        None => {
            proof {
                assert(!has_id_split(input@)) by {
                    if has_id_split(input@) {
                        let (i2, e2) = choose|i2: int, e2: int|
                            is_first_occurrence(input@, id_tag(), i2) && i2 + 5 <= e2 < input@.len()
                                && input@[e2] == 44u8;
                        assert(i2 == i as int) by {
                            if i2 < i as int {
                                assert(!occurs_at(input@, id_tag(), i2));
                            } else if i2 > i as int {
                                assert(!occurs_at(input@, id_tag(), i as int));
                            }
                        }
                        assert(input@.subrange(e2, e2 + 1) =~= comma@);
                        assert(occurs_at(input@, comma@, e2));
                    }
                }
            }
            return None;
        },
    };
    let start = &input[0..value_start];
    let value = &input[value_start..e];
    let end = &input[e..input.len()];
    assert(start@ + value@ + end@ =~= input@);
    assert forall|k: int| 0 <= k < value@.len() implies value@[k] != 44u8 by {
        let p = value_start + k;
        if input@[p] == 44u8 {
            assert(input@.subrange(p, p + 1) =~= comma@);
            assert(occurs_at(input@, comma@, p));
        }
    }
    assert(input@.subrange(e as int, e + 1) == comma@);
    Some((start, value, end))
}

/// The hex BLAKE3 digest of a byte string.
pub uninterp spec fn blake3_hex(b: Seq<u8>) -> Seq<char>;

/// Relies on `blake3::hash` and the `Display` of its `Hash`: the digest of
/// the bytes, written as 64 lowercase hex digits.
#[verifier::external_body]
fn request_hash(b: &[u8]) -> (r: String)
    ensures
        r@ == blake3_hex(b@),
        r@.len() == 64,
{
    blake3::hash(b).to_string()
}

/// What the proxy does with a request body.
#[derive(Clone, Debug, PartialEq, Eq)]
pub enum ProxyPlan {
    /// Forward the body untouched and store nothing.
    Forward,
    /// Look `key` up; on a miss, forward `body` and store the answer under
    /// `key` unless it is an RPC error.
    Cached { key: String, body: Vec<u8> },
}

/// The body with its id value replaced by `0`.
pub open spec fn normalized(start: Seq<u8>, end: Seq<u8>) -> Seq<u8> {
    start + seq![48u8] + end
}

/// Decides how the proxy handles a request body: forwarded untouched when
/// it holds an uncacheable word or has no id value to normalize, else looked
/// up under the digest of the body with its id value replaced by `0`.
pub fn plan_request(body: &[u8]) -> (r: ProxyPlan)
    ensures
        (r == ProxyPlan::Forward) <==> (has_proxy_invalid_word(body@) || !has_id_split(body@)),
        match r {
            ProxyPlan::Cached { key, body: normal } => {
                &&& key@ == blake3_hex(normal@)
                &&& exists|start: Seq<u8>, value: Seq<u8>, end: Seq<u8>|
                    {
                        &&& start + value + end == body@
                        &&& normal@ == normalized(start, end)
                        &&& start.len() >= 5
                        &&& is_first_occurrence(body@, id_tag(), start.len() - 5)
                        &&& forall|k: int| 0 <= k < value.len() ==> value[k] != 44u8
                        &&& end.len() > 0 && end[0] == 44u8
                    }
            },
            ProxyPlan::Forward => true,
        },
{
    if contains_invalid_word(body) {
        return ProxyPlan::Forward;
    }
    match divide_request_by_id(body) {
        Some((start, value, end)) => {
            let mut normal: Vec<u8> = Vec::new();
            normal.extend_from_slice(start);
            normal.push(48u8);
            normal.extend_from_slice(end);
            assert(normal@ =~= normalized(start@, end@));
            let key = request_hash(normal.as_slice());
            assert(has_id_split(body@)) by {
                let i: int = start@.len() - 5;
                let e: int = start@.len() as int + value@.len() as int;
                assert(body@[e] == end@[0]);
                assert(body@.subrange(i, i + 5) == start@.subrange(i, i + 5));
            }
            ProxyPlan::Cached { key, body: normal }
        },
        None => ProxyPlan::Forward,
    }
}

/// The marker of an RPC error answer: `"error":{"code":-`.
pub open spec fn error_marker() -> Seq<u8> {
    seq![34u8, 101u8, 114u8, 114u8, 111u8, 114u8, 34u8, 58u8, 123u8, 34u8, 99u8, 111u8, 100u8, 101u8, 34u8, 58u8, 45u8]
}

/// Whether an upstream answer may be stored: it is not an RPC error.
pub fn should_store(response: &[u8]) -> (r: bool)
    ensures
        r == !contains_seq(response@, error_marker()),
{
    let marker: Vec<u8> = vec![34u8, 101u8, 114u8, 114u8, 111u8, 114u8, 34u8, 58u8, 123u8, 34u8,
        99u8, 111u8, 100u8, 101u8, 34u8, 58u8, 45u8];
    !contains(response, marker.as_slice())
}

} // verus!
