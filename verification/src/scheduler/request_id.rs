//! Identities of the requests that go to a worker.
use crate::source_guard::{le_bytes, lemma_le_bytes_len, push_le};
use crate::text::{hex_bytes, hex_text};
use vstd::prelude::*;
use vstd::string::StringExecFns;

verus! {

/// The sixteen bytes of a word, most significant first.
pub open spec fn be_bytes(word: u128) -> Seq<u8> {
    Seq::new(16, |i: int| le_bytes(word as nat, 16)[15 - i])
}

/// What makes a request of a process its own: when it was made, by which process,
/// and which one it was.
pub open spec fn request_word(nanos: u128, process_id: u32, counter: u64) -> u128 {
    nanos ^ ((process_id as u128) << 64u32) ^ (counter as u128)
}

/// The bytes of a request identity, marked as a random UUID.
pub open spec fn request_bytes(word: u128) -> Seq<u8> {
    let bytes = be_bytes(word);
    bytes.update(6, (bytes[6] % 16 + 64) as u8).update(8, (bytes[8] % 64 + 128) as u8)
}

/// Sixteen bytes in the form of a UUID.
pub open spec fn uuid_text(bytes: Seq<u8>) -> Seq<char> {
    hex_text(bytes.subrange(0, 4)) + "-"@ + hex_text(bytes.subrange(4, 6)) + "-"@ + hex_text(
        bytes.subrange(6, 8),
    ) + "-"@ + hex_text(bytes.subrange(8, 10)) + "-"@ + hex_text(bytes.subrange(10, 16))
}

fn append_hex(text: &mut String, bytes: &Vec<u8>, from: usize, to: usize)
    requires
        from <= to <= bytes@.len(),
    ensures
        final(text)@ == old(text)@ + hex_text(bytes@.subrange(from as int, to as int)),
{
    let hex: String = hex_bytes(vstd::slice::slice_subrange(bytes.as_slice(), from, to));
    text.append(hex.as_str());
}

/// The identity of a request.
pub fn request_id(nanos: u128, process_id: u32, counter: u64) -> (id: String)
    ensures
        id@ == uuid_text(request_bytes(request_word(nanos, process_id, counter))),
{
    let word: u128 = nanos ^ ((process_id as u128) << 64u32) ^ (counter as u128);
    let mut low_first: Vec<u8> = Vec::new();
    push_le(&mut low_first, word, 16);
    proof {
        lemma_le_bytes_len(word as nat, 16);
        assert(low_first@ =~= le_bytes(word as nat, 16));
    }
    let mut bytes: Vec<u8> = Vec::new();
    let mut i: usize = 0;
    while i < 16
        invariant
            i <= 16,
            low_first@ == le_bytes(word as nat, 16),
            low_first@.len() == 16,
            bytes@ == be_bytes(word).take(i as int),
        decreases 16 - i,
    {
        bytes.push(low_first[15 - i]);
        i = i + 1;
        assert(bytes@ =~= be_bytes(word).take(i as int));
    }
    assert(bytes@ =~= be_bytes(word));
    let version: u8 = bytes[6] % 16 + 64;
    let variant: u8 = bytes[8] % 64 + 128;
    bytes.set(6, version);
    bytes.set(8, variant);
    assert(bytes@ =~= request_bytes(word));
    let mut id: String = String::new();
    append_hex(&mut id, &bytes, 0, 4);
    id.append("-");
    append_hex(&mut id, &bytes, 4, 6);
    id.append("-");
    append_hex(&mut id, &bytes, 6, 8);
    id.append("-");
    append_hex(&mut id, &bytes, 8, 10);
    id.append("-");
    append_hex(&mut id, &bytes, 10, 16);
    assert(id@ =~= uuid_text(bytes@));
    id
}

/// A request identity has the form of a random UUID: thirty-six characters, with
/// the version and the variant in their places.
pub proof fn law_request_ids_are_random_uuids(word: u128)
    ensures
        ({
            let text = uuid_text(request_bytes(word));
            &&& text.len() == 36
            &&& text[8] == '-' && text[13] == '-' && text[18] == '-' && text[23] == '-'
            &&& text[14] == '4'
            &&& text[19] == '8' || text[19] == '9' || text[19] == 'a' || text[19] == 'b'
        }),
{
    reveal_strlit("-");
    lemma_le_bytes_len(word as nat, 16);
    let bytes = request_bytes(word);
    assert(bytes.len() == 16);
    let version = bytes.subrange(6, 8);
    let variant = bytes.subrange(8, 10);
    assert(version[0] == bytes[6]);
    assert(variant[0] == bytes[8]);
    assert(hex_text(version)[0] == crate::text::hex_digit(version[0] as int / 16));
    assert(hex_text(variant)[0] == crate::text::hex_digit(variant[0] as int / 16));
    let text = uuid_text(bytes);
    assert(text[14] == hex_text(version)[0]);
    assert(text[19] == hex_text(variant)[0]);
}

/// Requests of one moment and one process have different words where their counters differ.
pub proof fn law_requests_are_counted_apart(
    nanos: u128,
    process_id: u32,
    left: u64,
    right: u64,
)
    ensures
        request_word(nanos, process_id, left) == request_word(nanos, process_id, right) <==> left
            == right,
{
    let process = (process_id as u128) << 64u32;
    assert(nanos ^ process ^ (left as u128) == nanos ^ process ^ (right as u128) ==> left
        == right) by (bit_vector);
}

/// A request identity is of the bytes of its word, but for the version and the variant.
pub proof fn law_identities_are_of_their_word(word: u128, at: int)
    requires
        0 <= at < 16,
    ensures
        request_bytes(word).len() == 16,
        at != 6 && at != 8 ==> request_bytes(word)[at] == le_bytes(word as nat, 16)[15 - at],
        request_bytes(word)[6] % 16 == le_bytes(word as nat, 16)[9] % 16,
        request_bytes(word)[8] % 64 == le_bytes(word as nat, 16)[7] % 64,
{
    lemma_le_bytes_len(word as nat, 16);
}

/// Different bytes are written as different identities.
pub proof fn law_identities_are_told_apart(left: Seq<u8>, right: Seq<u8>)
    requires
        left.len() == 16,
        right.len() == 16,
        uuid_text(left) == uuid_text(right),
    ensures
        left == right,
{
    reveal_strlit("-");
    assert("-"@.len() == 1);
    let text = uuid_text(left);
    assert(text.subrange(0, 8) =~= hex_text(left.subrange(0, 4)));
    assert(text.subrange(0, 8) =~= hex_text(right.subrange(0, 4)));
    assert(text.subrange(9, 13) =~= hex_text(left.subrange(4, 6)));
    assert(text.subrange(9, 13) =~= hex_text(right.subrange(4, 6)));
    assert(text.subrange(14, 18) =~= hex_text(left.subrange(6, 8)));
    assert(text.subrange(14, 18) =~= hex_text(right.subrange(6, 8)));
    assert(text.subrange(19, 23) =~= hex_text(left.subrange(8, 10)));
    assert(text.subrange(19, 23) =~= hex_text(right.subrange(8, 10)));
    assert(text.subrange(24, 36) =~= hex_text(left.subrange(10, 16)));
    assert(text.subrange(24, 36) =~= hex_text(right.subrange(10, 16)));
    crate::text::law_hex_injective(left.subrange(0, 4), right.subrange(0, 4));
    crate::text::law_hex_injective(left.subrange(4, 6), right.subrange(4, 6));
    crate::text::law_hex_injective(left.subrange(6, 8), right.subrange(6, 8));
    crate::text::law_hex_injective(left.subrange(8, 10), right.subrange(8, 10));
    crate::text::law_hex_injective(left.subrange(10, 16), right.subrange(10, 16));
    assert(left =~= left.subrange(0, 4) + left.subrange(4, 6) + left.subrange(6, 8)
        + left.subrange(8, 10) + left.subrange(10, 16));
    assert(right =~= right.subrange(0, 4) + right.subrange(4, 6) + right.subrange(6, 8)
        + right.subrange(8, 10) + right.subrange(10, 16));
}

} // verus!
