use vstd::prelude::*;
use vstd::string::StringSliceAdditionalSpecFns;
use vstd::utf8::encode_utf8;

verus! {

/// A 32-byte account address.
#[derive(Clone, Copy)]
pub struct Pubkey {
    pub bytes: [u8; 32],
}

impl View for Pubkey {
    type V = Seq<u8>;

    open spec fn view(&self) -> Seq<u8> {
        self.bytes@
    }
}

impl Pubkey {
    /// The address made of the given 32 bytes.
    pub fn new_from_array(bytes: [u8; 32]) -> (pk: Pubkey)
        ensures
            pk@ == bytes@,
    {
        Pubkey { bytes }
    }

    /// The address whose 32 bytes are all zero (the system program).
    pub fn zero() -> (pk: Pubkey)
        ensures
            pk@ == zero_address(),
    {
        let pk = Pubkey { bytes: [0u8; 32] };
        assert(pk@ =~= zero_address());
        pk
    }

    /// Whether the two addresses are the same 32 bytes.
    pub fn same_as(&self, other: &Pubkey) -> (b: bool)
        ensures
            b == (self@ == other@),
    {
        let mut i: usize = 0;
        while i < 32
            invariant
                i <= 32,
                self@.len() == 32,
                other@.len() == 32,
                forall|j: int| 0 <= j < i ==> self@[j] == other@[j],
            decreases 32 - i,
        {
            if self.bytes[i] != other.bytes[i] {
                return false;
            }
            i = i + 1;
        }
        assert(self@ =~= other@);
        true
    }

    /// The 32 bytes of the address.
    pub fn to_bytes(&self) -> (b: [u8; 32])
        ensures
            b@ == self@,
    {
        self.bytes
    }
}

/// The 32 zero bytes.
pub open spec fn zero_address() -> Seq<u8> {
    Seq::new(32, |i: int| 0u8)
}

/// Appends `b` to the output buffer `w`.
pub fn write(w: &mut Vec<u8>, b: &[u8])
    ensures
        final(w)@ == old(w)@ + b@,
{
    w.extend_from_slice(b);
    assert(w@ =~= old(w)@ + b@);
}

/// Little-endian bytes of a 16-bit number.
pub open spec fn le_u16(x: u16) -> Seq<u8> {
    seq![(x % 256) as u8, (x / 256) as u8]
}

/// Little-endian bytes of a 32-bit number.
pub open spec fn le_u32(x: u32) -> Seq<u8> {
    seq![(x % 256) as u8, (x / 256 % 256) as u8, (x / 65536 % 256) as u8, (x / 16777216) as u8]
}

pub fn u16_to_le_bytes(x: u16) -> (b: [u8; 2])
    ensures
        b@ == le_u16(x),
{
    let b = [(x % 256) as u8, (x / 256) as u8];
    assert(b@ =~= le_u16(x));
    b
}

pub fn u32_to_le_bytes(x: u32) -> (b: [u8; 4])
    ensures
        b@ == le_u32(x),
{
    let b = [(x % 256) as u8, (x / 256 % 256) as u8, (x / 65536 % 256) as u8, (x / 16777216) as u8];
    assert(b@ =~= le_u32(x));
    b
}

} // verus!

verus! {

/// What `bs58::decode(input).into_vec()` gives for `input`: the decoded
/// bytes, or the text of its error.
pub uninterp spec fn base58_decode_result(input: Seq<u8>) -> Result<Seq<u8>, Seq<char>>;

/// What `bs58::encode(input).into_string()` gives for `input`.
pub uninterp spec fn base58_encoding(input: Seq<u8>) -> Seq<char>;

pub open spec fn bytes_result_view(r: Result<Vec<u8>, String>) -> Result<Seq<u8>, Seq<char>> {
    match r {
        Ok(v) => Ok(v@),
        Err(e) => Err(e@),
    }
}

/// `bs58::decode(..).into_vec()`, with its error turned into its text: the
/// result is the one named `base58_decode_result` for the input bytes.
#[verifier::external_body]
pub(crate) fn bs58_decode(input: &[u8]) -> (res: Result<Vec<u8>, String>)
    ensures
        bytes_result_view(res) == base58_decode_result(input@),
{
    bs58::decode(input).into_vec().map_err(|e| e.to_string())
}

/// Base-58 decoding of the (UTF-8 bytes of the) text `text` gives `bytes`.
pub open spec fn decodes_to(text: Seq<char>, bytes: Seq<u8>) -> bool {
    base58_decode_result(encode_utf8(text)) == Ok::<Seq<u8>, Seq<char>>(bytes)
}

/// `bs58::encode(..).into_string()`: the text named `base58_encoding` for
/// the input bytes, which `bs58::decode` (with the same alphabet) turns back
/// into those bytes, as a base-58 codec does.
#[verifier::external_body]
pub(crate) fn bs58_encode(input: &[u8]) -> (res: String)
    ensures
        res@ == base58_encoding(input@),
        decodes_to(res@, input@),
{
    bs58::encode(input).into_string()
}

/// The text of an address, as `solana_sdk`'s `Pubkey` displays it, which is
/// `bs58::encode` of its 32 bytes: the text named `base58_encoding` for the
/// address bytes, which `bs58::decode` turns back into those bytes.
#[verifier::external_body]
fn display_pubkey(pubkey: &Pubkey) -> (s: String)
    ensures
        s@ == base58_encoding(pubkey@),
        decodes_to(s@, pubkey@),
{
    solana_sdk::pubkey::Pubkey::new_from_array(pubkey.bytes).to_string()
}

/// The text of an address: its base-58 encoding, which reads back as the
/// same address (see `pubkey_from_base58`), so that an address written out
/// this way is taken as itself without any file being read.
pub fn pubkey_to_string(pubkey: &Pubkey) -> (s: String)
    ensures
        s@ == base58_encoding(pubkey@),
        decoded_pubkey(base58_decode_result(encode_utf8(s@))) == Some(pubkey@),
{
    display_pubkey(pubkey)
}

/// The address that decoded base-58 text stands for: the decoded bytes where
/// there are exactly 32 of them.
pub open spec fn decoded_pubkey(r: Result<Seq<u8>, Seq<char>>) -> Option<Seq<u8>> {
    match r {
        Ok(v) => if v.len() == 32 {
            Some(v)
        } else {
            None
        },
        Err(_) => None,
    }
}

/// The address made of the 32 bytes of `v`.
pub fn pubkey_from_slice(v: &[u8]) -> (pk: Pubkey)
    requires
        v@.len() == 32,
    ensures
        pk@ == v@,
{
    let mut bytes = [0u8; 32];
    let mut i: usize = 0;
    while i < 32
        invariant
            i <= 32,
            v@.len() == 32,
            forall|j: int| 0 <= j < i ==> bytes@[j] == v@[j],
        decreases 32 - i,
    {
        bytes.set(i, v[i]);
        i = i + 1;
    }
    assert(bytes@ =~= v@);
    Pubkey { bytes }
}

/// The address that the result of decoding base-58 text stands for.
pub fn pubkey_from_decoded(decoded: Result<Vec<u8>, String>) -> (pk: Option<Pubkey>)
    ensures
        match pk {
            Some(p) => decoded_pubkey(bytes_result_view(decoded)) == Some(p@),
            None => decoded_pubkey(bytes_result_view(decoded)) is None,
        },
{
    match decoded {
        Ok(v) => {
            if v.len() == 32 {
                Some(pubkey_from_slice(v.as_slice()))
            } else {
                None
            }
        },
        Err(_) => None,
    }
}

/// The address written in base 58 as `s`, where `s` decodes to exactly 32
/// bytes.
pub fn pubkey_from_base58(s: &str) -> (pk: Option<Pubkey>)
    ensures
        match pk {
            Some(p) => decoded_pubkey(base58_decode_result(s.spec_bytes())) == Some(p@),
            None => decoded_pubkey(base58_decode_result(s.spec_bytes())) is None,
        },
{
    pubkey_from_decoded(bs58_decode(s.as_bytes()))
}

} // verus!

verus! {

/// Little-endian bytes of a 64-bit number.
pub open spec fn le_u64(x: u64) -> Seq<u8> {
    seq![
        (x % 0x100) as u8,
        (x / 0x100 % 0x100) as u8,
        (x / 0x10000 % 0x100) as u8,
        (x / 0x1000000 % 0x100) as u8,
        (x / 0x100000000 % 0x100) as u8,
        (x / 0x10000000000 % 0x100) as u8,
        (x / 0x1000000000000 % 0x100) as u8,
        (x / 0x100000000000000 % 0x100) as u8,
    ]
}

pub fn u64_to_le_bytes(x: u64) -> (b: [u8; 8])
    ensures
        b@ == le_u64(x),
{
    let b = [
        (x % 0x100) as u8,
        (x / 0x100 % 0x100) as u8,
        (x / 0x10000 % 0x100) as u8,
        (x / 0x1000000 % 0x100) as u8,
        (x / 0x100000000 % 0x100) as u8,
        (x / 0x10000000000 % 0x100) as u8,
        (x / 0x1000000000000 % 0x100) as u8,
        (x / 0x100000000000000 % 0x100) as u8,
    ];
    assert(b@ =~= le_u64(x));
    b
}

/// What `solana_sdk`'s `Pubkey::try_find_program_address(&[seed], program_id)`
/// gives: the derived address and its bump seed, or none where no bump seed
/// works.
pub uninterp spec fn program_address(seed: Seq<u8>, program_id: Seq<u8>) -> Option<(Seq<u8>, u8)>;

pub open spec fn derived_view(r: Option<(Pubkey, u8)>) -> Option<(Seq<u8>, u8)> {
    match r {
        Some((pk, bump)) => Some((pk@, bump)),
        None => None,
    }
}

/// `Pubkey::try_find_program_address` of `solana_sdk` with the single seed
/// `seed`: the result is the one named `program_address` for the seed and the
/// program.
#[verifier::external_body]
pub(crate) fn find_program_address(seed: &[u8], program_id: &Pubkey) -> (r: Option<(Pubkey, u8)>)
    ensures
        derived_view(r) == program_address(seed@, program_id@),
{
    solana_sdk::pubkey::Pubkey::try_find_program_address(
        &[seed],
        &solana_sdk::pubkey::Pubkey::new_from_array(program_id.bytes),
    ).map(|(address, bump)| (Pubkey { bytes: address.to_bytes() }, bump))
}

} // verus!
