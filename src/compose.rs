use vstd::prelude::*;
use solana_sdk::hash;
use solana_sdk::instruction::{AccountMeta, Instruction};
use solana_sdk::message::Message;
use solana_sdk::pubkey::Pubkey;
use solana_sdk::signer::keypair::Keypair;
use solana_sdk::signer::{Signer, SignerError};
use solana_sdk::transaction::Transaction;

verus! {

#[verifier::external_type_specification]
#[verifier::external_body]
pub struct ExKeypair(Keypair);

#[verifier::external_type_specification]
#[verifier::external_body]
pub struct ExTransaction(Transaction);

#[verifier::external_type_specification]
#[verifier::external_body]
pub struct ExSignerError(SignerError);

#[verifier::external_type_specification]
#[verifier::external_body]
pub struct ExInstruction(Instruction);

/// An account that an instruction reads or writes.
#[derive(Clone, Copy, PartialEq, Eq, Debug)]
pub struct AccountRef {
    pub key: [u8; 32],
    pub is_signer: bool,
    pub is_writable: bool,
}

/// One instruction: the program that runs it, its accounts in order, and
/// its data.
#[derive(Clone, PartialEq, Eq, Debug)]
pub struct Ix {
    pub program_id: [u8; 32],
    pub accounts: Vec<AccountRef>,
    pub data: Vec<u8>,
}

/// An instruction as plain values: program, accounts (key, signer,
/// writable), data.
pub open spec fn ix_model(ix: Ix) -> (Seq<u8>, Seq<(Seq<u8>, bool, bool)>, Seq<u8>) {
    (ix.program_id@, ix.accounts@.map_values(|a: AccountRef| (a.key@, a.is_signer, a.is_writable)), ix.data@)
}

pub open spec fn ixs_model(ixs: Seq<Ix>) -> Seq<(Seq<u8>, Seq<(Seq<u8>, bool, bool)>, Seq<u8>)> {
    ixs.map_values(|ix: Ix| ix_model(ix))
}

/// The serialized legacy message that commits to these instructions, this
/// fee payer and this block reference.
pub uninterp spec fn message_of(
    ixs: Seq<(Seq<u8>, Seq<(Seq<u8>, bool, bool)>, Seq<u8>)>,
    payer: Seq<u8>,
    blockhash: Seq<u8>,
) -> Seq<u8>;

/// Why a transaction could not be composed.
#[derive(Clone, Copy, PartialEq, Eq, Structural, Debug)]
pub enum ComposeError {
    /// The instruction list is empty.
    NoInstructions,
    /// The instructions name more distinct keys than a message can index.
    TooManyAccounts,
    /// There are more instructions, or an instruction has more accounts or
    /// more data bytes, than a message can encode.
    DataTooLong,
    /// The fee payer is not among the signers.
    MissingFeePayer,
    /// An account that an instruction marks as signer is not among the signers.
    MissingSigner,
    /// A signer is neither the fee payer nor an account marked as signer.
    UnexpectedSigner,
}

/// The most distinct keys that instructions may name: with the fee payer
/// added, every key count of the message header stays within a byte.
pub const MAX_INSTRUCTION_KEYS: usize = 254;

/// The longest list a message can encode (a short vector's length is at
/// most `u16::MAX`): of instructions, of one instruction's accounts, of its
/// data.
pub const MAX_SHORT_VEC: usize = 65535;

pub open spec fn has_key(keys: Seq<[u8; 32]>, k: Seq<u8>) -> bool {
    exists|j: int| 0 <= j < keys.len() && (#[trigger] keys[j])@ == k
}

/// Every account that an instruction marks as signer is among the keys.
pub open spec fn signers_cover(ixs: Seq<Ix>, keys: Seq<[u8; 32]>) -> bool {
    forall|i: int, a: int|
        0 <= i < ixs.len() && 0 <= a < ixs[i].accounts@.len() && (#[trigger] ixs[i].accounts@[a]).is_signer
            ==> has_key(keys, ixs[i].accounts@[a].key@)
}

/// Whether an instruction names a key, as its program or as an account.
pub open spec fn names_key(ix: Ix, k: Seq<u8>) -> bool {
    ix.program_id@ == k || exists|a: int| 0 <= a < ix.accounts@.len() && (#[trigger] ix.accounts@[a]).key@ == k
}

pub open spec fn named_before(ixs: Seq<Ix>, i: int, k: Seq<u8>) -> bool {
    exists|i2: int| 0 <= i2 < i && names_key(#[trigger] ixs[i2], k)
}

/// The distinct keys that the instructions name.
pub open spec fn instruction_keys(ixs: Seq<Ix>) -> Set<Seq<u8>> {
    Set::new(|k: Seq<u8>| named_before(ixs, ixs.len() as int, k))
}

/// The instruction list, and each instruction's accounts and data, fit in
/// a message.
pub open spec fn lengths_fit(ixs: Seq<Ix>) -> bool {
    &&& ixs.len() <= MAX_SHORT_VEC
    &&& forall|i: int|
        0 <= i < ixs.len() ==> (#[trigger] ixs[i]).data@.len() <= MAX_SHORT_VEC && ixs[i].accounts@.len()
            <= MAX_SHORT_VEC
}

/// The error that the instructions alone raise, checked in this order.
pub open spec fn instruction_error(ixs: Seq<Ix>) -> Option<ComposeError> {
    if ixs.len() == 0 {
        Some(ComposeError::NoInstructions)
    } else if !lengths_fit(ixs) {
        Some(ComposeError::DataTooLong)
    } else if instruction_keys(ixs).len() > MAX_INSTRUCTION_KEYS {
        Some(ComposeError::TooManyAccounts)
    } else {
        None
    }
}

/// A key whose signature the message requires: the fee payer's, or one of
/// an account that an instruction marks as signer.
pub open spec fn required_signer(ixs: Seq<Ix>, payer: Seq<u8>, k: Seq<u8>) -> bool {
    k == payer || exists|i: int, a: int|
        0 <= i < ixs.len() && 0 <= a < ixs[i].accounts@.len() && (#[trigger] ixs[i].accounts@[a]).is_signer
            && ixs[i].accounts@[a].key@ == k
}

/// The error that the signer keys raise, checked in this order.
pub open spec fn signer_error(ixs: Seq<Ix>, payer: Seq<u8>, keys: Seq<[u8; 32]>) -> Option<ComposeError> {
    if !has_key(keys, payer) {
        Some(ComposeError::MissingFeePayer)
    } else if !signers_cover(ixs, keys) {
        Some(ComposeError::MissingSigner)
    } else if !(forall|j: int| 0 <= j < keys.len() ==> required_signer(ixs, payer, (#[trigger] keys[j])@)) {
        Some(ComposeError::UnexpectedSigner)
    } else {
        None
    }
}

/// The error that composing raises, if any: the instructions' first, then
/// the signers'.
pub open spec fn composition_error(ixs: Seq<Ix>, payer: Seq<u8>, keys: Seq<[u8; 32]>) -> Option<ComposeError> {
    if instruction_error(ixs) is Some {
        instruction_error(ixs)
    } else {
        signer_error(ixs, payer, keys)
    }
}

pub fn same_key(a: &[u8; 32], b: &[u8; 32]) -> (r: bool)
    ensures
        r == (a@ == b@),
{
    let mut i: usize = 0;
    while i < 32
        invariant
            i <= 32,
            forall|k: int| 0 <= k < i ==> a@[k] == b@[k],
        decreases 32 - i,
    {
        if a[i] != b[i] {
            return false;
        }
        i = i + 1;
    }
    assert(a@ =~= b@);
    true
}

pub fn contains_key(keys: &Vec<[u8; 32]>, k: &[u8; 32]) -> (r: bool)
    ensures
        r == has_key(keys@, k@),
{
    let mut j: usize = 0;
    while j < keys.len()
        invariant
            j <= keys@.len(),
            forall|m: int| 0 <= m < j ==> (#[trigger] keys@[m])@ != k@,
        decreases keys@.len() - j,
    {
        if same_key(&keys[j], k) {
            return true;
        }
        j = j + 1;
    }
    false
}

fn covers_signers(ixs: &Vec<Ix>, keys: &Vec<[u8; 32]>) -> (r: bool)
    ensures
        r == signers_cover(ixs@, keys@),
{
    let mut i: usize = 0;
    while i < ixs.len()
        invariant
            i <= ixs@.len(),
            forall|i2: int, a: int|
                0 <= i2 < i && 0 <= a < ixs@[i2].accounts@.len() && (#[trigger] ixs@[i2].accounts@[a]).is_signer
                    ==> has_key(keys@, ixs@[i2].accounts@[a].key@),
        decreases ixs@.len() - i,
    {
        let accounts = &ixs[i].accounts;
        let mut a: usize = 0;
        while a < accounts.len()
            invariant
                i < ixs@.len(),
                accounts@ == ixs@[i as int].accounts@,
                a <= accounts@.len(),
                forall|i2: int, a2: int|
                    0 <= i2 < i && 0 <= a2 < ixs@[i2].accounts@.len() && (#[trigger] ixs@[i2].accounts@[a2]).is_signer
                        ==> has_key(keys@, ixs@[i2].accounts@[a2].key@),
                forall|a2: int|
                    0 <= a2 < a && (#[trigger] accounts@[a2]).is_signer ==> has_key(keys@, accounts@[a2].key@),
            decreases accounts@.len() - a,
        {
            if accounts[a].is_signer && !contains_key(keys, &accounts[a].key) {
                return false;
            }
            a = a + 1;
        }
        i = i + 1;
    }
    true
}

proof fn lemma_has_key_push(keys: Seq<[u8; 32]>, x: [u8; 32], k: Seq<u8>)
    ensures
        has_key(keys.push(x), k) == (has_key(keys, k) || x@ == k),
{
    let ks = keys.push(x);
    if has_key(keys, k) {
        let j = choose|j: int| 0 <= j < keys.len() && (#[trigger] keys[j])@ == k;
        assert(ks[j] == keys[j]);
    }
    if x@ == k {
        assert(ks[keys.len() as int] == x);
    }
    if has_key(ks, k) {
        let j = choose|j: int| 0 <= j < ks.len() && (#[trigger] ks[j])@ == k;
        if j < keys.len() {
            assert(ks[j] == keys[j]);
        }
    }
}

/// Adds a key to a list of distinct keys unless it is there already.
fn add_key(seen: &mut Vec<[u8; 32]>, k: &[u8; 32])
    requires
        forall|p: int, q: int| 0 <= p < q < old(seen)@.len() ==> (#[trigger] old(seen)@[p])@ != (#[trigger] old(seen)@[q])@,
    ensures
        forall|p: int, q: int| 0 <= p < q < final(seen)@.len() ==> (#[trigger] final(seen)@[p])@ != (#[trigger] final(seen)@[q])@,
        forall|x: Seq<u8>| has_key(final(seen)@, x) == (has_key(old(seen)@, x) || x == k@),
{
    if !contains_key(seen, k) {
        proof {
            assert forall|x: Seq<u8>| has_key(seen@.push(*k), x) == (has_key(seen@, x) || x == k@) by {
                lemma_has_key_push(seen@, *k, x);
            }
        }
        seen.push(*k);
    }
}

/// The distinct keys that the instructions name, each once.
fn distinct_keys(ixs: &Vec<Ix>) -> (r: Vec<[u8; 32]>)
    ensures
        forall|p: int, q: int| 0 <= p < q < r@.len() ==> (#[trigger] r@[p])@ != (#[trigger] r@[q])@,
        forall|x: Seq<u8>| has_key(r@, x) == named_before(ixs@, ixs@.len() as int, x),
{
    let mut seen: Vec<[u8; 32]> = Vec::new();
    let mut i: usize = 0;
    while i < ixs.len()
        invariant
            i <= ixs@.len(),
            forall|p: int, q: int| 0 <= p < q < seen@.len() ==> (#[trigger] seen@[p])@ != (#[trigger] seen@[q])@,
            forall|x: Seq<u8>| has_key(seen@, x) == named_before(ixs@, i as int, x),
        decreases ixs@.len() - i,
    {
        let ix = &ixs[i];
        add_key(&mut seen, &ix.program_id);
        let mut a: usize = 0;
        while a < ix.accounts.len()
            invariant
                i < ixs@.len(),
                *ix == ixs@[i as int],
                a <= ix.accounts@.len(),
                forall|p: int, q: int| 0 <= p < q < seen@.len() ==> (#[trigger] seen@[p])@ != (#[trigger] seen@[q])@,
                forall|x: Seq<u8>|
                    has_key(seen@, x) == (named_before(ixs@, i as int, x) || ix.program_id@ == x || exists|a2: int|
                        0 <= a2 < a && (#[trigger] ix.accounts@[a2]).key@ == x),
            decreases ix.accounts@.len() - a,
        {
            let ghost before = seen@;
            add_key(&mut seen, &ix.accounts[a].key);
            proof {
                assert forall|x: Seq<u8>|
                    has_key(seen@, x) == (named_before(ixs@, i as int, x) || ix.program_id@ == x || exists|a2: int|
                        0 <= a2 < a + 1 && (#[trigger] ix.accounts@[a2]).key@ == x) by {
                    if ix.accounts@[a as int].key@ == x {
                        assert(0 <= a < a + 1 && ix.accounts@[a as int].key@ == x);
                    }
                    if exists|a2: int| 0 <= a2 < a + 1 && (#[trigger] ix.accounts@[a2]).key@ == x {
                        let a2 = choose|a2: int| 0 <= a2 < a + 1 && (#[trigger] ix.accounts@[a2]).key@ == x;
                        if a2 < a {
                            assert(0 <= a2 < a && ix.accounts@[a2].key@ == x);
                        }
                    }
                }
            }
            a = a + 1;
        }
        proof {
            assert forall|x: Seq<u8>| has_key(seen@, x) == named_before(ixs@, i + 1, x) by {
                if named_before(ixs@, i + 1, x) {
                    let i2 = choose|i2: int| 0 <= i2 < i + 1 && names_key(#[trigger] ixs@[i2], x);
                    if i2 < i {
                        assert(named_before(ixs@, i as int, x));
                    }
                }
                if named_before(ixs@, i as int, x) {
                    let i2 = choose|i2: int| 0 <= i2 < i && names_key(#[trigger] ixs@[i2], x);
                    assert(0 <= i2 < i + 1 && names_key(ixs@[i2], x));
                }
                if names_key(ixs@[i as int], x) {
                    assert(0 <= i < i + 1 && names_key(ixs@[i as int], x));
                }
            }
        }
        i = i + 1;
    }
    seen
}

fn within_key_limit(ixs: &Vec<Ix>) -> (r: bool)
    ensures
        r == (instruction_keys(ixs@).len() <= MAX_INSTRUCTION_KEYS),
{
    let keys = distinct_keys(ixs);
    proof {
        let sv = keys@.map_values(|k: [u8; 32]| k@);
        assert(sv.no_duplicates()) by {
            assert forall|p: int, q: int| 0 <= p < sv.len() && 0 <= q < sv.len() && p != q implies sv[p] != sv[q] by {
                if p < q {
                    assert(keys@[p]@ != keys@[q]@);
                } else {
                    assert(keys@[q]@ != keys@[p]@);
                }
            }
        }
        sv.unique_seq_to_set();
        assert forall|x: Seq<u8>| sv.to_set().contains(x) == instruction_keys(ixs@).contains(x) by {
            if sv.contains(x) {
                let j = choose|j: int| 0 <= j < sv.len() && sv[j] == x;
                assert(keys@[j]@ == x);
            }
            if has_key(keys@, x) {
                let j = choose|j: int| 0 <= j < keys@.len() && (#[trigger] keys@[j])@ == x;
                assert(sv[j] == x);
            }
        }
        assert(sv.to_set() =~= instruction_keys(ixs@));
    }
    keys.len() <= MAX_INSTRUCTION_KEYS
}

fn lengths_within_limit(ixs: &Vec<Ix>) -> (r: bool)
    ensures
        r == lengths_fit(ixs@),
{
    if ixs.len() > MAX_SHORT_VEC {
        return false;
    }
    let mut i: usize = 0;
    while i < ixs.len()
        invariant
            i <= ixs@.len() <= MAX_SHORT_VEC,
            forall|k: int|
                0 <= k < i ==> (#[trigger] ixs@[k]).data@.len() <= MAX_SHORT_VEC && ixs@[k].accounts@.len()
                    <= MAX_SHORT_VEC,
        decreases ixs@.len() - i,
    {
        if ixs[i].data.len() > MAX_SHORT_VEC || ixs[i].accounts.len() > MAX_SHORT_VEC {
            return false;
        }
        i = i + 1;
    }
    true
}

fn all_required(ixs: &Vec<Ix>, payer: &[u8; 32], keys: &Vec<[u8; 32]>) -> (r: bool)
    ensures
        r == forall|j: int| 0 <= j < keys@.len() ==> required_signer(ixs@, payer@, (#[trigger] keys@[j])@),
{
    let mut j: usize = 0;
    while j < keys.len()
        invariant
            j <= keys@.len(),
            forall|m: int| 0 <= m < j ==> required_signer(ixs@, payer@, (#[trigger] keys@[m])@),
        decreases keys@.len() - j,
    {
        if !same_key(&keys[j], payer) && !marked_signer(ixs, &keys[j]) {
            assert(!required_signer(ixs@, payer@, keys@[j as int]@));
            return false;
        }
        j = j + 1;
    }
    true
}

fn marked_signer(ixs: &Vec<Ix>, k: &[u8; 32]) -> (r: bool)
    ensures
        r == exists|i: int, a: int|
            0 <= i < ixs@.len() && 0 <= a < ixs@[i].accounts@.len() && (#[trigger] ixs@[i].accounts@[a]).is_signer
                && ixs@[i].accounts@[a].key@ == k@,
{
    let mut i: usize = 0;
    while i < ixs.len()
        invariant
            i <= ixs@.len(),
            forall|i2: int, a: int|
                0 <= i2 < i && 0 <= a < ixs@[i2].accounts@.len() && (#[trigger] ixs@[i2].accounts@[a]).is_signer
                    ==> ixs@[i2].accounts@[a].key@ != k@,
        decreases ixs@.len() - i,
    {
        let accounts = &ixs[i].accounts;
        let mut a: usize = 0;
        while a < accounts.len()
            invariant
                i < ixs@.len(),
                accounts@ == ixs@[i as int].accounts@,
                a <= accounts@.len(),
                forall|i2: int, a2: int|
                    0 <= i2 < i && 0 <= a2 < ixs@[i2].accounts@.len() && (#[trigger] ixs@[i2].accounts@[a2]).is_signer
                        ==> ixs@[i2].accounts@[a2].key@ != k@,
                forall|a2: int| 0 <= a2 < a && (#[trigger] accounts@[a2]).is_signer ==> accounts@[a2].key@ != k@,
            decreases accounts@.len() - a,
        {
            if accounts[a].is_signer && same_key(&accounts[a].key, k) {
                assert(ixs@[i as int].accounts@[a as int].is_signer);
                return true;
            }
            a = a + 1;
        }
        i = i + 1;
    }
    false
}

/// Checks the instructions alone: the list must not be empty, its lengths
/// must be encodable and its distinct keys must fit in one message.
pub fn check_instructions(ixs: &Vec<Ix>) -> (r: Result<(), ComposeError>)
    ensures
        r == match instruction_error(ixs@) {
            Some(e) => Err(e),
            None => Ok(()),
        },
{
    if ixs.len() == 0 {
        return Err(ComposeError::NoInstructions);
    }
    if !lengths_within_limit(ixs) {
        return Err(ComposeError::DataTooLong);
    }
    if !within_key_limit(ixs) {
        return Err(ComposeError::TooManyAccounts);
    }
    Ok(())
}

/// Checks the signer keys against the instructions: the fee payer and every
/// account marked as signer must be among them, and each of them must be one
/// of those.
pub fn check_signers(ixs: &Vec<Ix>, payer: &[u8; 32], keys: &Vec<[u8; 32]>) -> (r: Result<(), ComposeError>)
    ensures
        r == match signer_error(ixs@, payer@, keys@) {
            Some(e) => Err(e),
            None => Ok(()),
        },
{
    if !contains_key(keys, payer) {
        return Err(ComposeError::MissingFeePayer);
    }
    if !covers_signers(ixs, keys) {
        return Err(ComposeError::MissingSigner);
    }
    if !all_required(ixs, payer, keys) {
        return Err(ComposeError::UnexpectedSigner);
    }
    Ok(())
}

/// Checks instructions and signer keys as composing does, in the same order.
pub fn check_composition(ixs: &Vec<Ix>, payer: &[u8; 32], keys: &Vec<[u8; 32]>) -> (r: Result<(), ComposeError>)
    ensures
        r == match composition_error(ixs@, payer@, keys@) {
            Some(e) => Err(e),
            None => Ok(()),
        },
{
    check_instructions(ixs)?;
    check_signers(ixs, payer, keys)
}

/// Relies on Pubkey::new_from_array, to turn each instruction into
/// solana_sdk's `Instruction` field by field.
#[verifier::external_body]
fn to_instructions(ixs: &Vec<Ix>) -> Vec<Instruction> {
    ixs.iter().map(|ix| Instruction {
        program_id: Pubkey::new_from_array(ix.program_id),
        accounts: ix.accounts.iter().map(|a| AccountMeta {
            pubkey: Pubkey::new_from_array(a.key), is_signer: a.is_signer, is_writable: a.is_writable,
        }).collect(),
        data: ix.data.clone(),
    }).collect()
}

/// What signing hands back: the fee payer's and the signers' keys, the
/// message bytes that were signed, and the transaction or the signing error.
pub struct Signed {
    pub payer: [u8; 32],
    pub signer_keys: Vec<[u8; 32]>,
    pub message: Vec<u8>,
    pub transaction: Result<Transaction, SignerError>,
}

/// Every required signer signs, and no one else.
pub open spec fn signing_accepts(ixs: Seq<Ix>, payer: Seq<u8>, keys: Seq<[u8; 32]>) -> bool {
    &&& has_key(keys, payer)
    &&& signers_cover(ixs, keys)
    &&& forall|j: int| 0 <= j < keys.len() ==> required_signer(ixs, payer, (#[trigger] keys[j])@)
}

/// Relies on Signer::pubkey for the keys, on Message::new_with_blockhash,
/// Transaction::new_unsigned and Transaction::try_sign, and on
/// Transaction::message_data for the signed bytes. The required signers of
/// the compiled message are the fee payer and the accounts marked as signer;
/// try_sign fails on a signer that is not one of them and when one of them
/// did not sign, and a Keypair always signs. Compiling panics when a key
/// count overflows a byte and serializing on a list past `u16::MAX`
/// entries, which the `requires` rules out.
#[verifier::external_body]
fn sign_transaction(ixs: &Vec<Ix>, payer: &Keypair, signers: &Vec<&Keypair>, blockhash: &[u8; 32]) -> (r: Signed)
    requires
        instruction_error(ixs@) is None,
    ensures
        r.signer_keys@.len() == signers@.len(),
        r.message@ == message_of(ixs_model(ixs@), r.payer@, blockhash@),
        r.transaction is Ok <==> signing_accepts(ixs@, r.payer@, r.signer_keys@),
{
    let h = hash::Hash::new_from_array(*blockhash);
    let message = Message::new_with_blockhash(&to_instructions(ixs), Some(&payer.pubkey()), &h);
    let mut tx = Transaction::new_unsigned(message);
    let signed = tx.try_sign(signers, h);
    Signed {
        payer: payer.pubkey().to_bytes(),
        signer_keys: signers.iter().map(|k| k.pubkey().to_bytes()).collect(),
        message: tx.message_data(),
        transaction: signed.map(|_| tx),
    }
}

/// A composed transaction: the fee payer's and signers' keys, the message
/// bytes that were signed, and the signed transaction or why it was refused.
pub struct Composed {
    pub payer: [u8; 32],
    pub signer_keys: Vec<[u8; 32]>,
    pub message: Vec<u8>,
    pub transaction: Result<Transaction, ComposeError>,
}

/// Composes and signs a transaction for the instructions, with the fee
/// payer and every given signer, at the given block reference. Instructions
/// that cannot form a message are refused before anything is signed; a
/// signer set that does not match the required signers yields no
/// transaction.
pub fn compose(ixs: &Vec<Ix>, payer: &Keypair, signers: &Vec<&Keypair>, blockhash: &[u8; 32]) -> (r: Result<Composed, ComposeError>)
    ensures
        instruction_error(ixs@) is Some ==> r == Err::<Composed, ComposeError>(instruction_error(ixs@)->Some_0),
        instruction_error(ixs@) is None ==> r is Ok,
        r is Ok ==> {
            let c = r->Ok_0;
            &&& c.signer_keys@.len() == signers@.len()
            &&& c.message@ == message_of(ixs_model(ixs@), c.payer@, blockhash@)
            &&& c.transaction is Ok <==> composition_error(ixs@, c.payer@, c.signer_keys@) is None
            &&& c.transaction is Err ==> c.transaction->Err_0 == composition_error(
                ixs@,
                c.payer@,
                c.signer_keys@,
            )->Some_0
        },
{
    check_instructions(ixs)?;
    let signed = sign_transaction(ixs, payer, signers, blockhash);
    let checked = check_signers(ixs, &signed.payer, &signed.signer_keys);
    let transaction = match checked {
        Err(e) => Err(e),
        Ok(()) => match signed.transaction {
            Ok(tx) => Ok(tx),
            Err(_) => Err(ComposeError::UnexpectedSigner),
        },
    };
    Ok(Composed { payer: signed.payer, signer_keys: signed.signer_keys, message: signed.message, transaction })
}

/// Composing the same instructions with the same fee payer and block
/// reference yields byte for byte the same message.
pub proof fn message_is_deterministic(
    ixs1: Seq<Ix>,
    ixs2: Seq<Ix>,
    payer1: [u8; 32],
    payer2: [u8; 32],
    hash1: [u8; 32],
    hash2: [u8; 32],
)
    requires
        ixs_model(ixs1) == ixs_model(ixs2),
        payer1@ == payer2@,
        hash1@ == hash2@,
    ensures
        message_of(ixs_model(ixs1), payer1@, hash1@) == message_of(ixs_model(ixs2), payer2@, hash2@),
{
}

/// An empty instruction list is refused before anything is signed.
pub proof fn empty_instructions_refused(ixs: Seq<Ix>, payer: Seq<u8>, keys: Seq<[u8; 32]>)
    requires
        ixs.len() == 0,
    ensures
        instruction_error(ixs) == Some(ComposeError::NoInstructions),
        composition_error(ixs, payer, keys) == Some(ComposeError::NoInstructions),
{
}

/// Instructions that form a message but whose fee payer is not among the
/// signers yield no transaction.
pub proof fn fee_payer_must_sign(ixs: Seq<Ix>, payer: Seq<u8>, keys: Seq<[u8; 32]>)
    requires
        instruction_error(ixs) is None,
        !has_key(keys, payer),
    ensures
        composition_error(ixs, payer, keys) == Some(ComposeError::MissingFeePayer),
{
}

} // verus!
