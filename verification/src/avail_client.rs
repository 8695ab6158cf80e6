//! The Avail client: blob ids, the bridge's proof of inclusion, and the
//! errors of the data availability layer.

use vstd::prelude::*;
use vstd::string::StrSliceExecFns;
use vstd::string::StringExecFns;
use crate::debug::{H256, U256};

verus! {

/// An error of the data availability layer.
#[derive(Debug)]
pub struct DAError {
    /// What went wrong.
    pub error: String,
    /// Whether the same call may go through when tried again.
    pub is_retriable: bool,
}

/// An error that will not pass when the call is tried again.
pub fn to_non_retriable_da_error(error: String) -> (made: DAError)
    ensures
        made.error == error,
        !made.is_retriable,
{
    DAError { error, is_retriable: false }
}

/// An error that may pass when the call is tried again.
pub fn to_retriable_da_error(error: String) -> (made: DAError)
    ensures
        made.error == error,
        made.is_retriable,
{
    DAError { error, is_retriable: true }
}

/// The place of the first colon in the text.
pub open spec fn is_first_colon(text: Seq<char>, i: int) -> bool {
    &&& 0 <= i < text.len()
    &&& text[i] == ':'
    &&& forall|j: int| 0 <= j < i ==> text[j] != ':'
}

/// Splits a blob id at its first colon into the block's hash and the
/// transaction's index. An id without a colon is turned down.
pub fn split_blob_id(blob_id: &str) -> (parts: Result<(String, String), DAError>)
    ensures
        match parts {
            Ok((block_hash, tx_idx)) => exists|i: int|
                is_first_colon(blob_id@, i) && block_hash@ == blob_id@.take(i) && tx_idx@
                    == blob_id@.skip(i + 1),
            Err(refused) => {
                &&& forall|j: int| 0 <= j < blob_id@.len() ==> blob_id@[j] != ':'
                &&& refused.error@ == "Invalid blob ID format"@
                &&& !refused.is_retriable
            },
        },
{
    let len = blob_id.unicode_len();
    let mut i: usize = 0;
    while i < len
        invariant
            0 <= i <= len,
            len == blob_id@.len(),
            forall|j: int| 0 <= j < i ==> blob_id@[j] != ':',
        decreases len - i,
    {
        if blob_id.get_char(i) == ':' {
            let block_hash = blob_id.substring_char(0, i).to_owned();
            let tx_idx = blob_id.substring_char(i + 1, len).to_owned();
            proof {
                assert(is_first_colon(blob_id@, i as int));
                assert(blob_id@.subrange(0, i as int) =~= blob_id@.take(i as int));
                assert(blob_id@.subrange(i as int + 1, len as int) =~= blob_id@.skip(i as int + 1));
            }
            return Ok((block_hash, tx_idx));
        }
        i += 1;
    }
    Err(to_non_retriable_da_error("Invalid blob ID format".to_owned()))
}

/// The id of a blob: the hash of the block it went into, a colon, and
/// the id of the transaction that carried it.
pub fn blob_id_of(block_hash: &str, tx_id: &str) -> (blob_id: String)
    ensures
        blob_id@ == block_hash@ + ":"@ + tx_id@,
{
    block_hash.to_owned().concat(":").concat(tx_id)
}

/// The address at which the bridge serves the proof for a blob.
pub fn proof_url(bridge_api_url: &str, block_hash: &str, tx_idx: &str) -> (url: String)
    ensures
        url@ == bridge_api_url@ + "/eth/proof/"@ + block_hash@ + "?index="@ + tx_idx@,
{
    bridge_api_url.to_owned().concat("/eth/proof/").concat(block_hash).concat("?index=").concat(
        tx_idx,
    )
}

/// What the bridge answers when asked for a proof.
#[derive(Debug)]
pub struct BridgeAPIResponse {
    pub blob_root: Option<H256>,
    pub bridge_root: Option<H256>,
    pub data_root_index: Option<U256>,
    pub data_root_proof: Option<Vec<H256>>,
    pub leaf: Option<H256>,
    pub leaf_index: Option<U256>,
    pub leaf_proof: Option<Vec<H256>>,
    pub range_hash: Option<H256>,
    pub error: Option<String>,
}

/// The proof that a blob is included, as the bridge contract takes it.
#[derive(Debug)]
pub struct MerkleProofInput {
    /// Proof of inclusion for the data root.
    pub data_root_proof: Vec<H256>,
    /// Proof of inclusion of the leaf within the blob or bridge root.
    pub leaf_proof: Vec<H256>,
    /// Commitment to the range of headers.
    pub range_hash: H256,
    /// Index of the data root in the commitment tree.
    pub data_root_index: U256,
    /// Blob root to check the proof against.
    pub blob_root: H256,
    /// Bridge root to check the proof against.
    pub bridge_root: H256,
    /// The leaf being proven.
    pub leaf: H256,
    /// Index of the leaf in the tree.
    pub leaf_index: U256,
}

/// A value of the contract ABI.
#[derive(Debug)]
pub enum AbiValue {
    FixedBytes(Vec<u8>),
    Uint(U256),
    Array(Vec<AbiValue>),
    Tuple(Vec<AbiValue>),
}

/// A value of the contract ABI as contracts see it.
pub enum AbiValueView {
    FixedBytes(Seq<u8>),
    Uint(U256),
    Array(Seq<AbiValueView>),
    Tuple(Seq<AbiValueView>),
}

/// The value that a token stands for.
pub open spec fn value_of(token: AbiValue) -> AbiValueView
    decreases token,
{
    match token {
        AbiValue::FixedBytes(bytes) => AbiValueView::FixedBytes(bytes@),
        AbiValue::Uint(number) => AbiValueView::Uint(number),
        AbiValue::Array(items) => AbiValueView::Array(
            Seq::new(
                items@.len(),
                |i: int|
                    if 0 <= i < items@.len() {
                        value_of(items@[i])
                    } else {
                        arbitrary()
                    },
            ),
        ),
        AbiValue::Tuple(items) => AbiValueView::Tuple(
            Seq::new(
                items@.len(),
                |i: int|
                    if 0 <= i < items@.len() {
                        value_of(items@[i])
                    } else {
                        arbitrary()
                    },
            ),
        ),
    }
}

impl View for AbiValue {
    type V = AbiValueView;

    open spec fn view(&self) -> AbiValueView {
        value_of(*self)
    }
}

/// The values that a list of tokens stands for.
pub open spec fn token_views(tokens: Seq<AbiValue>) -> Seq<AbiValueView> {
    Seq::new(tokens.len(), |i: int| tokens[i]@)
}

/// The tokens of a list of hashes: each hash as its 32 bytes.
pub open spec fn hash_tokens(hashes: Seq<H256>) -> Seq<AbiValueView> {
    Seq::new(hashes.len(), |i: int| AbiValueView::FixedBytes(hashes[i].0@))
}

/// The tokens of a proof: one tuple of the two lists of hashes, the
/// range hash, the data root's index, the two roots, the leaf and the
/// leaf's index.
pub open spec fn proof_tokens(input: MerkleProofInput) -> Seq<AbiValueView> {
    seq![
        AbiValueView::Tuple(
            seq![
                AbiValueView::Array(hash_tokens(input.data_root_proof@)),
                AbiValueView::Array(hash_tokens(input.leaf_proof@)),
                AbiValueView::FixedBytes(input.range_hash.0@),
                AbiValueView::Uint(input.data_root_index),
                AbiValueView::FixedBytes(input.blob_root.0@),
                AbiValueView::FixedBytes(input.bridge_root.0@),
                AbiValueView::FixedBytes(input.leaf.0@),
                AbiValueView::Uint(input.leaf_index),
            ],
        ),
    ]
}

/// An upper bound on the 32-byte words that a token's encoding takes:
/// the padded bytes, one word for a number, and for a list its items
/// with a word for where it starts and, for an array, one for its length.
pub open spec fn words_of(token: AbiValueView) -> nat
    decreases token, 0int,
{
    match token {
        AbiValueView::FixedBytes(bytes) => (bytes.len() + 31) / 32,
        AbiValueView::Uint(_) => 1,
        AbiValueView::Array(items) => 2 + words_in(items, items.len() as int),
        AbiValueView::Tuple(items) => 1 + words_in(items, items.len() as int),
    }
}

/// The bound for the first `n` tokens of a list.
pub open spec fn words_in(tokens: Seq<AbiValueView>, n: int) -> nat
    decreases tokens, n,
{
    if n <= 0 || n > tokens.len() {
        0
    } else {
        words_in(tokens, n - 1) + words_of(tokens[n - 1])
    }
}

/// The most hashes that the two lists of a proof may hold together, so
/// that the places within the encoding still fit 32 bits.
pub const MAX_PROOF_HASHES: usize = 134217716;

/// The bytes of the contract ABI encoding of a list of tokens, as
/// `ethabi::encode` gives them.
pub uninterp spec fn abi_encoding(tokens: Seq<AbiValueView>) -> Seq<u8>;

/// The token type of the `ethabi` crate. Verus sees nothing inside it.
#[verifier::external_type_specification]
#[verifier::external_body]
pub struct ExAbiToken(ethabi::Token);

/// Turns a token into the `ethabi` crate's token of the same variant and
/// content, a number going over with its four limbs as they are. Nothing
/// is claimed of the result.
#[verifier::external_body]
fn to_abi_token(token: &AbiValue) -> ethabi::Token {
    match token {
        AbiValue::FixedBytes(bytes) => ethabi::Token::FixedBytes(bytes.clone()),
        AbiValue::Uint(number) => ethabi::Token::Uint(ethabi::ethereum_types::U256(number.0)),
        AbiValue::Array(items) => ethabi::Token::Array(items.iter().map(to_abi_token).collect()),
        AbiValue::Tuple(items) => ethabi::Token::Tuple(items.iter().map(to_abi_token).collect()),
    }
}

/// Encodes the tokens with `ethabi::encode`. The contract claims that
/// the bytes are a function of the tokens alone, which it names
/// `abi_encoding`. `ethabi` counts places within the encoding in 32
/// bits; `requires` leaves out lists too long for that.
#[verifier::external_body]
fn abi_encode(tokens: &Vec<AbiValue>) -> (bytes: Vec<u8>)
    requires
        32 * words_in(token_views(tokens@), tokens@.len() as int) <= u32::MAX,
    ensures
        bytes@ == abi_encoding(token_views(tokens@)),
{
    let converted: Vec<ethabi::Token> = tokens.iter().map(to_abi_token).collect();
    ethabi::encode(&converted)
}

/// An array and a tuple stand for the values that their items stand for.
pub proof fn lemma_list_views(items: Vec<AbiValue>)
    ensures
        AbiValue::Array(items)@ == AbiValueView::Array(token_views(items@)),
        AbiValue::Tuple(items)@ == AbiValueView::Tuple(token_views(items@)),
{
    assert(AbiValue::Array(items)@->Array_0 =~= token_views(items@));
    assert(AbiValue::Tuple(items)@->Tuple_0 =~= token_views(items@));
}

/// A list of hashes takes one word for each hash.
pub proof fn lemma_hash_words(hashes: Seq<H256>, n: int)
    requires
        0 <= n <= hashes.len(),
    ensures
        words_in(hash_tokens(hashes), n) == n,
    decreases n,
{
    if n > 0 {
        lemma_hash_words(hashes, n - 1);
        let token = hash_tokens(hashes)[n - 1];
        assert(token == AbiValueView::FixedBytes(hashes[n - 1].0@));
        assert(hashes[n - 1].0@.len() == 32);
        assert(words_of(token) == 1);
        assert(words_in(hash_tokens(hashes), n) == words_in(hash_tokens(hashes), n - 1) + words_of(
            token,
        ));
    }
}

/// A proof takes eleven words and one more for each hash in its lists.
pub proof fn lemma_proof_words(input: MerkleProofInput)
    ensures
        words_in(proof_tokens(input), 1) == 11 + input.data_root_proof@.len()
            + input.leaf_proof@.len(),
{
    let tokens = proof_tokens(input);
    let fields = tokens[0]->Tuple_0;
    let a = input.data_root_proof@.len();
    let b = input.leaf_proof@.len();
    lemma_hash_words(input.data_root_proof@, a as int);
    lemma_hash_words(input.leaf_proof@, b as int);
    assert(input.range_hash.0@.len() == 32);
    assert(input.blob_root.0@.len() == 32);
    assert(input.bridge_root.0@.len() == 32);
    assert(input.leaf.0@.len() == 32);
    assert(fields.len() == 8);
    assert(words_of(fields[0]) == 2 + a) by {
        assert(fields[0] == AbiValueView::Array(hash_tokens(input.data_root_proof@)));
    }
    assert(words_of(fields[1]) == 2 + b) by {
        assert(fields[1] == AbiValueView::Array(hash_tokens(input.leaf_proof@)));
    }
    assert(words_of(fields[2]) == 1);
    assert(words_of(fields[3]) == 1);
    assert(words_of(fields[4]) == 1);
    assert(words_of(fields[5]) == 1);
    assert(words_of(fields[6]) == 1);
    assert(words_of(fields[7]) == 1);
    assert(words_in(fields, 0) == 0);
    assert(words_in(fields, 1) == 2 + a);
    assert(words_in(fields, 2) == 4 + a + b);
    assert(words_in(fields, 3) == 5 + a + b);
    assert(words_in(fields, 4) == 6 + a + b);
    assert(words_in(fields, 5) == 7 + a + b);
    assert(words_in(fields, 6) == 8 + a + b);
    assert(words_in(fields, 7) == 9 + a + b);
    assert(words_in(fields, 8) == 10 + a + b);
    assert(words_of(tokens[0]) == 11 + a + b);
    assert(words_in(tokens, 0) == 0);
    assert(words_in(tokens, 1) == words_in(tokens, 0) + words_of(tokens[0]));
}

/// The 32 bytes of a hash.
pub fn hash_bytes(hash: &H256) -> (bytes: Vec<u8>)
    ensures
        bytes@ == hash.0@,
{
    let mut bytes: Vec<u8> = Vec::new();
    let mut i: usize = 0;
    while i < 32
        invariant
            0 <= i <= 32,
            bytes@ == hash.0@.take(i as int),
        decreases 32 - i,
    {
        bytes.push(hash.0[i]);
        proof {
            assert(bytes@ =~= hash.0@.take(i as int + 1));
        }
        i += 1;
    }
    proof {
        assert(hash.0@.take(32) =~= hash.0@);
    }
    bytes
}

/// The tokens of a list of hashes.
pub fn tokens_of_hashes(hashes: &Vec<H256>) -> (tokens: Vec<AbiValue>)
    ensures
        token_views(tokens@) == hash_tokens(hashes@),
{
    let mut tokens: Vec<AbiValue> = Vec::new();
    let mut i: usize = 0;
    while i < hashes.len()
        invariant
            0 <= i <= hashes.len(),
            tokens.len() == i,
            forall|j: int|
                0 <= j < i ==> (#[trigger] tokens@[j])@ == AbiValueView::FixedBytes(hashes@[j].0@),
        decreases hashes.len() - i,
    {
        tokens.push(AbiValue::FixedBytes(hash_bytes(&hashes[i])));
        i += 1;
    }
    proof {
        assert(token_views(tokens@) =~= hash_tokens(hashes@));
    }
    tokens
}

/// The proof of inclusion as the node hands it on.
#[derive(Debug)]
pub struct InclusionData {
    pub data: Vec<u8>,
}

/// What the bridge's error reads like in the error that is handed on.
pub open spec fn bridge_error_text(error: Seq<char>) -> Seq<char> {
    "Bridge API returned an error: "@ + error
}

/// The answer names no error and holds every part of a proof.
pub open spec fn holds_proof(response: BridgeAPIResponse) -> bool {
    &&& response.error is None
    &&& response.data_root_proof is Some
    &&& response.leaf_proof is Some
    &&& response.range_hash is Some
    &&& response.data_root_index is Some
    &&& response.blob_root is Some
    &&& response.bridge_root is Some
    &&& response.leaf is Some
    &&& response.leaf_index is Some
}

impl MerkleProofInput {
    /// The proof in the bridge's answer. An answer that names an error
    /// gives that error, to be tried again.
    pub fn from_response(response: BridgeAPIResponse) -> (input: Result<MerkleProofInput, DAError>)
        requires
            response.error is None ==> holds_proof(response),
        ensures
            match response.error {
                Some(error) => input matches Err(refused) && refused.error@ == bridge_error_text(
                    error@,
                ) && refused.is_retriable,
                None => input matches Ok(proof) && proof.data_root_proof
                    == response.data_root_proof.unwrap() && proof.leaf_proof
                    == response.leaf_proof.unwrap() && proof.range_hash
                    == response.range_hash.unwrap() && proof.data_root_index
                    == response.data_root_index.unwrap() && proof.blob_root
                    == response.blob_root.unwrap() && proof.bridge_root
                    == response.bridge_root.unwrap() && proof.leaf == response.leaf.unwrap()
                    && proof.leaf_index == response.leaf_index.unwrap(),
            },
    {
        match response.error {
            Some(error) => Err(
                to_retriable_da_error(
                    "Bridge API returned an error: ".to_owned().concat(error.as_str()),
                ),
            ),
            None => Ok(
                MerkleProofInput {
                    data_root_proof: response.data_root_proof.unwrap(),
                    leaf_proof: response.leaf_proof.unwrap(),
                    range_hash: response.range_hash.unwrap(),
                    data_root_index: response.data_root_index.unwrap(),
                    blob_root: response.blob_root.unwrap(),
                    bridge_root: response.bridge_root.unwrap(),
                    leaf: response.leaf.unwrap(),
                    leaf_index: response.leaf_index.unwrap(),
                },
            ),
        }
    }

    /// The proof as tokens of the contract ABI.
    pub fn into_tokens(self) -> (tokens: Vec<AbiValue>)
        ensures
            token_views(tokens@) == proof_tokens(self),
    {
        let data_root_proof = tokens_of_hashes(&self.data_root_proof);
        let leaf_proof = tokens_of_hashes(&self.leaf_proof);
        proof {
            lemma_list_views(data_root_proof);
            lemma_list_views(leaf_proof);
        }
        let first = AbiValue::Array(data_root_proof);
        let second = AbiValue::Array(leaf_proof);
        let mut fields: Vec<AbiValue> = Vec::new();
        fields.push(first);
        fields.push(second);
        fields.push(AbiValue::FixedBytes(hash_bytes(&self.range_hash)));
        fields.push(AbiValue::Uint(self.data_root_index));
        fields.push(AbiValue::FixedBytes(hash_bytes(&self.blob_root)));
        fields.push(AbiValue::FixedBytes(hash_bytes(&self.bridge_root)));
        fields.push(AbiValue::FixedBytes(hash_bytes(&self.leaf)));
        fields.push(AbiValue::Uint(self.leaf_index));
        proof {
            let want = proof_tokens(self)[0]->Tuple_0;
            assert(fields@[0]@ == want[0]);
            assert(fields@[1]@ == want[1]);
            assert(token_views(fields@) =~= want);
        }
        proof {
            lemma_list_views(fields);
        }
        let tuple = AbiValue::Tuple(fields);
        let mut tokens: Vec<AbiValue> = Vec::new();
        tokens.push(tuple);
        proof {
            assert(token_views(tokens@) =~= proof_tokens(self));
        }
        tokens
    }

    /// The proof encoded for the bridge contract, through its tokens.
    /// The two lists may hold `MAX_PROOF_HASHES` hashes together.
    pub fn encode(self) -> (data: InclusionData)
        requires
            self.data_root_proof@.len() + self.leaf_proof@.len() <= MAX_PROOF_HASHES,
        ensures
            data.data@ == abi_encoding(proof_tokens(self)),
    {
        proof {
            lemma_proof_words(self);
        }
        let tokens = self.into_tokens();
        InclusionData { data: abi_encode(&tokens) }
    }

    /// The inclusion data for the bridge's answer: the proof in it,
    /// encoded for the bridge contract. `None` where the proof's lists
    /// are longer than can be encoded.
    pub fn inclusion_data(self) -> (data: Option<InclusionData>)
        ensures
            match data {
                Some(found) => self.data_root_proof@.len() + self.leaf_proof@.len()
                    <= MAX_PROOF_HASHES && found.data@ == abi_encoding(proof_tokens(self)),
                None => self.data_root_proof@.len() + self.leaf_proof@.len() > MAX_PROOF_HASHES,
            },
    {
        if self.data_root_proof.len() <= MAX_PROOF_HASHES && self.leaf_proof.len()
            <= MAX_PROOF_HASHES - self.data_root_proof.len() {
            Some(self.encode())
        } else {
            None
        }
    }
}

} // verus!
