//! Content addressing: the address of a record is a canonical encoding of
//! what the record holds, so that equal contents share one address and
//! different contents never do.

use vstd::prelude::*;
use vstd::bytes::{lemma_auto_spec_u64_to_from_le_bytes, spec_u64_from_le_bytes, spec_u64_to_le_bytes, u64_to_le_bytes};
use vstd::string::StrSliceExecFns;
use vstd::utf8::{encode_utf8, encode_utf8_decode_utf8, encode_utf8_valid_utf8, length_of_first_scalar, pop_first_scalar, valid_utf8};
use crate::types::{AgentAddress, Content, Entry, Post, PostView};

verus! {

/// The byte that closes the author's name inside the encoding of a post.
/// It occurs in no UTF-8 text.
pub const TEXT_END: u8 = 0xff;

/// The first byte of an address: the kind of record it names.
pub open spec fn kind_tag(content: Content) -> u8 {
    match content {
        Content::Post(_) => 0u8,
        Content::InvalidPost(_) => 1u8,
        Content::AgentIndex(_) => 2u8,
    }
}

/// The encoding of a post after the kind tag: the timestamp in eight bytes,
/// the author's name, the closing byte, the message.
pub open spec fn post_digest(post: PostView) -> Seq<u8> {
    spec_u64_to_le_bytes(post.timestamp) + encode_utf8(post.author) + seq![TEXT_END] + encode_utf8(
        post.message,
    )
}

/// The address of a record with the given content.
pub open spec fn digest(content: Content) -> Seq<u8> {
    match content {
        Content::Post(post) => seq![0u8] + post_digest(post),
        Content::InvalidPost(post) => seq![1u8] + post_digest(post),
        Content::AgentIndex(id) => seq![2u8] + encode_utf8(id),
    }
}

/// The address of the anchor record of the agent with the given name.
pub open spec fn anchor(agent: Seq<char>) -> Seq<u8> {
    digest(Content::AgentIndex(agent))
}

/// No byte of a UTF-8 text is the closing byte.
pub proof fn lemma_utf8_has_no_text_end(bytes: Seq<u8>, i: int)
    requires
        valid_utf8(bytes),
        0 <= i < bytes.len(),
    ensures
        bytes[i] != TEXT_END,
    decreases bytes.len(),
{
    let width = length_of_first_scalar(bytes);
    if i >= width {
        let rest = pop_first_scalar(bytes);
        assert(rest[i - width] == bytes[i]);
        lemma_utf8_has_no_text_end(rest, i - width);
    }
}

/// Equal encodings are encodings of the same text.
pub proof fn lemma_utf8_injective(a: Seq<char>, b: Seq<char>)
    requires
        encode_utf8(a) == encode_utf8(b),
    ensures
        a == b,
{
    encode_utf8_decode_utf8(a);
    encode_utf8_decode_utf8(b);
}

/// Two texts, the first closed by the closing byte, can be told apart again.
proof fn lemma_closed_texts_injective(a1: Seq<char>, m1: Seq<char>, a2: Seq<char>, m2: Seq<char>)
    requires
        encode_utf8(a1) + seq![TEXT_END] + encode_utf8(m1) == encode_utf8(a2) + seq![TEXT_END]
            + encode_utf8(m2),
    ensures
        a1 == a2,
        m1 == m2,
{
    let e1 = encode_utf8(a1);
    let e2 = encode_utf8(a2);
    let t1 = e1 + seq![TEXT_END] + encode_utf8(m1);
    let t2 = e2 + seq![TEXT_END] + encode_utf8(m2);
    encode_utf8_valid_utf8(a1);
    encode_utf8_valid_utf8(a2);
    assert(t1[e1.len() as int] == TEXT_END);
    assert(t2[e2.len() as int] == TEXT_END);
    if e1.len() < e2.len() {
        assert(t2[e1.len() as int] == e2[e1.len() as int]);
        lemma_utf8_has_no_text_end(e2, e1.len() as int);
    } else if e2.len() < e1.len() {
        assert(t1[e2.len() as int] == e1[e2.len() as int]);
        lemma_utf8_has_no_text_end(e1, e2.len() as int);
    }
    let n = e1.len() as int;
    assert(e1 =~= t1.subrange(0, n));
    assert(e2 =~= t2.subrange(0, n));
    assert(encode_utf8(m1) =~= t1.subrange(n + 1, t1.len() as int));
    assert(encode_utf8(m2) =~= t2.subrange(n + 1, t2.len() as int));
    lemma_utf8_injective(a1, a2);
    lemma_utf8_injective(m1, m2);
}

/// Equal encodings are encodings of the same post.
pub proof fn lemma_post_digest_injective(p: PostView, q: PostView)
    requires
        post_digest(p) == post_digest(q),
    ensures
        p == q,
{
    lemma_auto_spec_u64_to_from_le_bytes();
    let sp = spec_u64_to_le_bytes(p.timestamp);
    let sq = spec_u64_to_le_bytes(q.timestamp);
    let tp = encode_utf8(p.author) + seq![TEXT_END] + encode_utf8(p.message);
    let tq = encode_utf8(q.author) + seq![TEXT_END] + encode_utf8(q.message);
    assert(post_digest(p) =~= sp + tp);
    assert(post_digest(q) =~= sq + tq);
    assert(sp =~= (sp + tp).subrange(0, 8));
    assert(sq =~= (sq + tq).subrange(0, 8));
    assert(spec_u64_from_le_bytes(sp) == p.timestamp);
    assert(spec_u64_from_le_bytes(sq) == q.timestamp);
    assert(tp =~= (sp + tp).subrange(8, (sp + tp).len() as int));
    assert(tq =~= (sq + tq).subrange(8, (sq + tq).len() as int));
    lemma_closed_texts_injective(p.author, p.message, q.author, q.message);
}

/// No two contents share an address.
pub proof fn lemma_digest_injective(a: Content, b: Content)
    requires
        digest(a) == digest(b),
    ensures
        a == b,
{
    let da = digest(a);
    let db = digest(b);
    assert(da[0] == kind_tag(a));
    assert(db[0] == kind_tag(b));
    match (a, b) {
        (Content::Post(p), Content::Post(q)) => {
            assert(post_digest(p) =~= da.subrange(1, da.len() as int));
            assert(post_digest(q) =~= db.subrange(1, db.len() as int));
            lemma_post_digest_injective(p, q);
        },
        (Content::InvalidPost(p), Content::InvalidPost(q)) => {
            assert(post_digest(p) =~= da.subrange(1, da.len() as int));
            assert(post_digest(q) =~= db.subrange(1, db.len() as int));
            lemma_post_digest_injective(p, q);
        },
        (Content::AgentIndex(x), Content::AgentIndex(y)) => {
            assert(encode_utf8(x) =~= da.subrange(1, da.len() as int));
            assert(encode_utf8(y) =~= db.subrange(1, db.len() as int));
            lemma_utf8_injective(x, y);
        },
        _ => {},
    }
}

/// The identifier of a record: a function of its content alone.
#[derive(Debug)]
pub struct Address {
    bytes: Vec<u8>,
}

impl View for Address {
    type V = Seq<u8>;

    closed spec fn view(&self) -> Seq<u8> {
        self.bytes@
    }
}

impl Clone for Address {
    fn clone(&self) -> (copy: Self)
        ensures
            copy@ == self@,
    {
        Address { bytes: self.bytes.clone() }
    }
}

impl Address {
    /// An address with the given bytes, whether or not any record has it.
    pub fn from_bytes(bytes: Vec<u8>) -> (address: Self)
        ensures
            address@ == bytes@,
    {
        Address { bytes }
    }

    pub fn as_bytes(&self) -> (bytes: &Vec<u8>)
        ensures
            bytes@ == self@,
    {
        &self.bytes
    }

}

impl PartialEq for Address {
    fn eq(&self, other: &Self) -> (equal: bool) {
        if self.bytes.len() != other.bytes.len() {
            return false;
        }
        let mut i: usize = 0;
        while i < self.bytes.len()
            invariant
                i <= self.bytes.len(),
                self.bytes.len() == other.bytes.len(),
                forall|j: int| 0 <= j < i ==> self.bytes@[j] == other.bytes@[j],
            decreases self.bytes.len() - i,
        {
            if self.bytes[i] != other.bytes[i] {
                return false;
            }
            i += 1;
        }
        assert(self.bytes@ =~= other.bytes@);
        true
    }
}

impl Eq for Address {

}

impl vstd::std_specs::cmp::PartialEqSpecImpl for Address {
    open spec fn obeys_eq_spec() -> bool {
        true
    }

    open spec fn eq_spec(&self, other: &Self) -> bool {
        self@ == other@
    }
}

/// Appends the encoding of a post to `bytes`.
fn push_post(bytes: &mut Vec<u8>, post: &Post)
    ensures
        final(bytes)@ == old(bytes)@ + post_digest(post@),
{
    let mut stamp = u64_to_le_bytes(post.timestamp());
    let mut author = post.author_id().key().as_str().as_bytes_vec();
    let mut message = post.message().as_str().as_bytes_vec();
    bytes.append(&mut stamp);
    bytes.append(&mut author);
    bytes.push(TEXT_END);
    bytes.append(&mut message);
    assert(bytes@ =~= old(bytes)@ + post_digest(post@));
}

/// The address of a record.
pub fn address_of(entry: &Entry) -> (address: Address)
    ensures
        address@ == digest(entry@),
{
    let mut bytes: Vec<u8> = Vec::new();
    match entry {
        Entry::Post(post) => {
            bytes.push(0u8);
            push_post(&mut bytes, post);
        },
        Entry::InvalidPost(invalid) => {
            bytes.push(1u8);
            push_post(&mut bytes, invalid.post());
        },
        Entry::AgentIndex(agent) => {
            bytes.push(2u8);
            let mut id = agent.id().as_str().as_bytes_vec();
            bytes.append(&mut id);
        },
    }
    assert(bytes@ =~= digest(entry@));
    Address { bytes }
}

/// The address of an agent's anchor record, computed from the agent's
/// address alone.
pub fn anchor_of(agent: &AgentAddress) -> (address: Address)
    ensures
        address@ == anchor(agent@),
{
    let mut bytes: Vec<u8> = Vec::new();
    bytes.push(2u8);
    let mut id = agent.key().as_str().as_bytes_vec();
    bytes.append(&mut id);
    assert(bytes@ =~= anchor(agent@));
    Address { bytes }
}

} // verus!
