//! Fixed-width identifiers and their deterministic derivation.

use crate::bytes::extend_bytes;
use core::cmp::Ordering;
use vstd::prelude::*;

verus! {

/// The unkeyed 32-byte BLAKE2b digest of `data`.
pub uninterp spec fn blake2b_256(data: Seq<u8>) -> [u8; 32];

/// Relies on `blake2_rfc::blake2b::blake2b(32, &[], data)`: the unkeyed BLAKE2b
/// digest of 32 bytes, which depends on `data` alone. The hasher panics only
/// when its byte counter would pass `u64::MAX`.
#[verifier::external_body]
fn blake2b_256_hash(data: &[u8]) -> (r: [u8; 32])
    requires
        data@.len() <= u64::MAX,
    ensures
        r == blake2b_256(data@),
{
    let digest = blake2_rfc::blake2b::blake2b(32, &[], data);
    let mut out = [0u8; 32];
    out.copy_from_slice(digest.as_bytes());
    out
}

/// `a` and `b` hold the same bytes below position `n`.
pub open spec fn agree_below(a: [u8; 32], b: [u8; 32], n: int) -> bool {
    forall|j: int| 0 <= j < n ==> a[j] == b[j]
}

/// Lexicographic order on 32-byte keys.
pub open spec fn bytes_lt(a: [u8; 32], b: [u8; 32]) -> bool {
    exists|i: int| 0 <= i < 32 && #[trigger] agree_below(a, b, i) && a[i] < b[i]
}

/// The lexicographic order is irreflexive and asymmetric.
pub proof fn lemma_bytes_lt_asymmetric(a: [u8; 32], b: [u8; 32])
    ensures
        bytes_lt(a, b) ==> !bytes_lt(b, a),
        !bytes_lt(a, a),
{
    if bytes_lt(a, b) && bytes_lt(b, a) {
        let i = choose|i: int| 0 <= i < 32 && #[trigger] agree_below(a, b, i) && a[i] < b[i];
        let j = choose|j: int| 0 <= j < 32 && #[trigger] agree_below(b, a, j) && b[j] < a[j];
        if i < j {
            assert(b[i] == a[i]);
        } else if j < i {
            assert(a[j] == b[j]);
        }
    }
}

/// The lexicographic order is transitive.
pub proof fn lemma_bytes_lt_transitive(a: [u8; 32], b: [u8; 32], c: [u8; 32])
    requires
        bytes_lt(a, b),
        bytes_lt(b, c),
    ensures
        bytes_lt(a, c),
{
    let i = choose|i: int| 0 <= i < 32 && #[trigger] agree_below(a, b, i) && a[i] < b[i];
    let j = choose|j: int| 0 <= j < 32 && #[trigger] agree_below(b, c, j) && b[j] < c[j];
    let k = if i < j { i } else { j };
    assert(agree_below(a, c, k));
    assert(a[k] < c[k]);
}

/// Compares two keys byte by byte.
pub fn compare_bytes(a: &[u8; 32], b: &[u8; 32]) -> (r: Ordering)
    ensures
        (r == Ordering::Less) == bytes_lt(*a, *b),
        (r == Ordering::Equal) == (*a == *b),
        (r == Ordering::Greater) == bytes_lt(*b, *a),
{
    proof {
        lemma_bytes_lt_asymmetric(*a, *b);
        lemma_bytes_lt_asymmetric(*a, *a);
    }
    let mut i: usize = 0;
    while i < 32
        invariant
            0 <= i <= 32,
            agree_below(*a, *b, i as int),
        decreases 32 - i,
    {
        if a[i] < b[i] {
            assert(agree_below(*a, *b, i as int));
            return Ordering::Less;
        }
        if b[i] < a[i] {
            assert(agree_below(*b, *a, i as int));
            return Ordering::Greater;
        }
        i = i + 1;
    }
    assert(*a =~= *b);
    Ordering::Equal
}


/// The four little-endian bytes of `n`.
pub open spec fn le_bytes_u32(n: u32) -> Seq<u8> {
    seq![
        (n % 256) as u8,
        ((n / 256) % 256) as u8,
        ((n / 65536) % 256) as u8,
        (n / 16777216) as u8,
    ]
}

/// Byte `i` of the 32-byte key made from `v`: `v` in little-endian order in
/// the first eight bytes, zero after them.
pub open spec fn u64_key_byte(v: u64, i: int) -> u8 {
    if i < 8 {
        ((v as int / pow256(i)) % 256) as u8
    } else {
        0u8
    }
}

/// `k` is the 32-byte key made from `v`.
pub open spec fn is_u64_key(k: [u8; 32], v: u64) -> bool {
    forall|i: int| 0 <= i < 32 ==> #[trigger] k[i] == u64_key_byte(v, i)
}

/// The 32-byte key made from `v`.
pub open spec fn key_of_u64(v: u64) -> [u8; 32] {
    choose|k: [u8; 32]| #[trigger] is_u64_key(k, v)
}

/// `256` to the power `i`.
pub open spec fn pow256(i: int) -> int
    decreases i,
{
    if i <= 0 {
        1
    } else {
        256 * pow256(i - 1)
    }
}

proof fn lemma_pow256_positive(i: int)
    ensures
        pow256(i) > 0,
    decreases i,
{
    if i > 0 {
        lemma_pow256_positive(i - 1);
    }
}

fn key_from_u64(v: u64) -> (r: [u8; 32])
    ensures
        r == key_of_u64(v),
{
    let mut k = [0u8; 32];
    let mut rest: u64 = v;
    let mut i: usize = 0;
    while i < 8
        invariant
            0 <= i <= 8,
            rest as int == v as int / pow256(i as int),
            forall|j: int| 0 <= j < i ==> #[trigger] k[j] == u64_key_byte(v, j),
            forall|j: int| i <= j < 32 ==> #[trigger] k[j] == 0u8,
        decreases 8 - i,
    {
        k[i] = (rest % 256) as u8;
        assert(v as int / pow256(i as int) / 256 == v as int / pow256(i as int + 1)) by {
            assert(pow256(i as int) > 0) by {
                lemma_pow256_positive(i as int);
            }
            vstd::arithmetic::div_mod::lemma_div_denominator(v as int, pow256(i as int), 256);
        }
        rest = rest / 256;
        i = i + 1;
    }
    assert(is_u64_key(k, v));
    let ghost target = key_of_u64(v);
    assert(k =~= target);
    k
}

/// Identifier of a message.
#[derive(Clone, Copy, Debug, Eq, Hash)]
pub struct MessageId(pub [u8; 32]);

/// Identifier of a program.
#[derive(Clone, Copy, Debug, Eq, Hash)]
pub struct ProgramId(pub [u8; 32]);

/// Identifier of a program's code.
#[derive(Clone, Copy, Debug, Eq, Hash)]
pub struct CodeId(pub [u8; 32]);

/// The all-zero key.
pub open spec fn zero_key() -> [u8; 32] {
    key_of_u64(0)
}

impl Default for MessageId {
    fn default() -> (r: MessageId)
        ensures
            r == MessageId(zero_key()),
    {
        MessageId(key_from_u64(0))
    }
}

impl Default for ProgramId {
    fn default() -> (r: ProgramId)
        ensures
            r == ProgramId(zero_key()),
    {
        ProgramId(key_from_u64(0))
    }
}

impl Default for CodeId {
    fn default() -> (r: CodeId)
        ensures
            r == CodeId(zero_key()),
    {
        CodeId(key_from_u64(0))
    }
}

impl PartialEq for MessageId {
    fn eq(&self, other: &MessageId) -> (r: bool) {
        let ord = compare_bytes(&self.0, &other.0);
        match ord {
            Ordering::Equal => true,
            _ => false,
        }
    }
}

impl vstd::std_specs::cmp::PartialEqSpecImpl for MessageId {
    open spec fn obeys_eq_spec() -> bool {
        true
    }

    open spec fn eq_spec(&self, other: &MessageId) -> bool {
        self.0 == other.0
    }
}

impl PartialEq for ProgramId {
    fn eq(&self, other: &ProgramId) -> (r: bool) {
        let ord = compare_bytes(&self.0, &other.0);
        match ord {
            Ordering::Equal => true,
            _ => false,
        }
    }
}

impl vstd::std_specs::cmp::PartialEqSpecImpl for ProgramId {
    open spec fn obeys_eq_spec() -> bool {
        true
    }

    open spec fn eq_spec(&self, other: &ProgramId) -> bool {
        self.0 == other.0
    }
}

impl PartialEq for CodeId {
    fn eq(&self, other: &CodeId) -> (r: bool) {
        let ord = compare_bytes(&self.0, &other.0);
        match ord {
            Ordering::Equal => true,
            _ => false,
        }
    }
}

impl vstd::std_specs::cmp::PartialEqSpecImpl for CodeId {
    open spec fn obeys_eq_spec() -> bool {
        true
    }

    open spec fn eq_spec(&self, other: &CodeId) -> bool {
        self.0 == other.0
    }
}

impl From<u64> for MessageId {
    fn from(v: u64) -> (r: MessageId) {
        MessageId(key_from_u64(v))
    }
}

impl vstd::std_specs::convert::FromSpecImpl<u64> for MessageId {
    open spec fn obeys_from_spec() -> bool {
        true
    }

    open spec fn from_spec(v: u64) -> MessageId {
        MessageId(key_of_u64(v))
    }
}

impl From<u64> for ProgramId {
    fn from(v: u64) -> (r: ProgramId) {
        ProgramId(key_from_u64(v))
    }
}

impl vstd::std_specs::convert::FromSpecImpl<u64> for ProgramId {
    open spec fn obeys_from_spec() -> bool {
        true
    }

    open spec fn from_spec(v: u64) -> ProgramId {
        ProgramId(key_of_u64(v))
    }
}


impl From<[u8; 32]> for MessageId {
    fn from(bytes: [u8; 32]) -> (r: MessageId) {
        MessageId(bytes)
    }
}

impl vstd::std_specs::convert::FromSpecImpl<[u8; 32]> for MessageId {
    open spec fn obeys_from_spec() -> bool {
        true
    }

    open spec fn from_spec(bytes: [u8; 32]) -> MessageId {
        MessageId(bytes)
    }
}

impl From<[u8; 32]> for ProgramId {
    fn from(bytes: [u8; 32]) -> (r: ProgramId) {
        ProgramId(bytes)
    }
}

impl vstd::std_specs::convert::FromSpecImpl<[u8; 32]> for ProgramId {
    open spec fn obeys_from_spec() -> bool {
        true
    }

    open spec fn from_spec(bytes: [u8; 32]) -> ProgramId {
        ProgramId(bytes)
    }
}

impl From<[u8; 32]> for CodeId {
    fn from(bytes: [u8; 32]) -> (r: CodeId) {
        CodeId(bytes)
    }
}

impl vstd::std_specs::convert::FromSpecImpl<[u8; 32]> for CodeId {
    open spec fn obeys_from_spec() -> bool {
        true
    }

    open spec fn from_spec(bytes: [u8; 32]) -> CodeId {
        CodeId(bytes)
    }
}

impl From<u64> for CodeId {
    fn from(v: u64) -> (r: CodeId) {
        CodeId(key_from_u64(v))
    }
}

impl vstd::std_specs::convert::FromSpecImpl<u64> for CodeId {
    open spec fn obeys_from_spec() -> bool {
        true
    }

    open spec fn from_spec(v: u64) -> CodeId {
        CodeId(key_of_u64(v))
    }
}

/// The ASCII bytes of `"outgoing"`.
pub open spec fn outgoing_salt() -> Seq<u8> {
    seq![111u8, 117, 116, 103, 111, 105, 110, 103]
}

/// The ASCII bytes of `"reply"`.
pub open spec fn reply_salt() -> Seq<u8> {
    seq![114u8, 101, 112, 108, 121]
}

/// The ASCII bytes of `"program"`.
pub open spec fn program_salt() -> Seq<u8> {
    seq![112u8, 114, 111, 103, 114, 97, 109]
}

/// Identifier of the outgoing message number `nonce` sent while handling `origin`.
pub open spec fn outgoing_id(origin: MessageId, nonce: u32) -> MessageId {
    MessageId(blake2b_256(outgoing_salt() + origin.0@ + le_bytes_u32(nonce)))
}

/// Identifier of the reply with `exit_code` to `origin`.
pub open spec fn reply_id(origin: MessageId, exit_code: i32) -> MessageId {
    MessageId(blake2b_256(reply_salt() + origin.0@ + le_bytes_u32(exit_code as u32)))
}

/// Identifier of the program created from `code` with `salt`.
pub open spec fn program_id_of(code: CodeId, salt: Seq<u8>) -> ProgramId {
    ProgramId(blake2b_256(program_salt() + code.0@ + salt))
}

fn push_le_u32(v: &mut Vec<u8>, n: u32)
    ensures
        final(v)@ == old(v)@ + le_bytes_u32(n),
{
    v.push((n % 256) as u8);
    v.push(((n / 256) % 256) as u8);
    v.push(((n / 65536) % 256) as u8);
    v.push((n / 16777216) as u8);
    assert(v@ =~= old(v)@ + le_bytes_u32(n));
}

impl MessageId {
    /// Identifier of the outgoing message with handle `nonce` sent while
    /// handling the message `origin_msg_id`.
    pub fn generate_outgoing(origin_msg_id: MessageId, nonce: u32) -> (r: MessageId)
        ensures
            r == outgoing_id(origin_msg_id, nonce),
    {
        let mut data: Vec<u8> = vec![111u8, 117, 116, 103, 111, 105, 110, 103];
        assert(data@ =~= outgoing_salt());
        extend_bytes(&mut data, &origin_msg_id.0);
        push_le_u32(&mut data, nonce);
        MessageId(blake2b_256_hash(data.as_slice()))
    }

    /// Identifier of the reply with `exit_code` to the message `origin_msg_id`.
    pub fn generate_reply(origin_msg_id: MessageId, exit_code: i32) -> (r: MessageId)
        ensures
            r == reply_id(origin_msg_id, exit_code),
    {
        let mut data: Vec<u8> = vec![114u8, 101, 112, 108, 121];
        assert(data@ =~= reply_salt());
        extend_bytes(&mut data, &origin_msg_id.0);
        push_le_u32(&mut data, exit_code as u32);
        MessageId(blake2b_256_hash(data.as_slice()))
    }
}

impl ProgramId {
    /// Identifier of the program created from the code `code_id` with `salt`.
    pub fn generate(code_id: CodeId, salt: &[u8]) -> (r: ProgramId)
        ensures
            r == program_id_of(code_id, salt@),
    {
        let mut data: Vec<u8> = vec![112u8, 114, 111, 103, 114, 97, 109];
        assert(data@ =~= program_salt());
        extend_bytes(&mut data, &code_id.0);
        extend_bytes(&mut data, salt);
        let len = data.len();
        assert(len as int <= u64::MAX);
        ProgramId(blake2b_256_hash(data.as_slice()))
    }
}

} // verus!
