use vstd::prelude::*;

verus! {

/// A 32-byte account address.
#[derive(Clone, Copy, Debug, PartialEq, Eq)]
pub struct Pubkey(pub [u8; 32]);

/// A 32-byte bank hash.
#[derive(Clone, Copy, Debug, PartialEq, Eq)]
pub struct BankHash(pub [u8; 32]);

impl View for Pubkey {
    type V = Seq<u8>;

    open spec fn view(&self) -> Seq<u8> {
        self.0@
    }
}

impl View for BankHash {
    type V = Seq<u8>;

    open spec fn view(&self) -> Seq<u8> {
        self.0@
    }
}

/// The Base58 alphabet of Bitcoin, in digit order.
pub open spec fn base58_alphabet() -> Seq<char> {
    seq![
        '1', '2', '3', '4', '5', '6', '7', '8', '9', 'A', 'B', 'C', 'D', 'E', 'F', 'G', 'H', 'J',
        'K', 'L', 'M', 'N', 'P', 'Q', 'R', 'S', 'T', 'U', 'V', 'W', 'X', 'Y', 'Z', 'a', 'b', 'c',
        'd', 'e', 'f', 'g', 'h', 'i', 'j', 'k', 'm', 'n', 'o', 'p', 'q', 'r', 's', 't', 'u', 'v',
        'w', 'x', 'y', 'z',
    ]
}

/// The number that `bytes` spell in big-endian order.
pub open spec fn big_endian_value(bytes: Seq<u8>) -> nat
    decreases bytes.len(),
{
    if bytes.len() == 0 {
        0
    } else {
        (big_endian_value(bytes.drop_last()) * 256 + bytes.last()) as nat
    }
}

/// The Base58 digits of `n`, most significant first, without leading zero digits.
pub open spec fn base58_digits(n: nat) -> Seq<char>
    decreases n,
{
    if n == 0 {
        seq![]
    } else {
        base58_digits(n / 58) + seq![base58_alphabet()[(n % 58) as int]]
    }
}

/// How many zero bytes `bytes` starts with.
pub open spec fn leading_zero_bytes(bytes: Seq<u8>) -> nat
    decreases bytes.len(),
{
    if bytes.len() > 0 && bytes[0] == 0 {
        1 + leading_zero_bytes(bytes.drop_first())
    } else {
        0
    }
}

/// The Base58 text of `bytes`: one `'1'` for each leading zero byte, then the
/// digits of the big-endian value of `bytes`.
pub open spec fn base58(bytes: Seq<u8>) -> Seq<char> {
    Seq::new(leading_zero_bytes(bytes), |_i: int| '1') + base58_digits(big_endian_value(bytes))
}

/// The text of an account address, as `solana_sdk::pubkey::Pubkey`'s `Display`
/// writes it: the Base58 encoding of its 32 bytes (`bs58::encode`).
#[verifier::external_body]
pub fn pubkey_to_string(key: &Pubkey) -> (res: String)
    ensures
        res@ == base58(key.0@),
{
    solana_sdk::pubkey::Pubkey::new_from_array(key.0).to_string()
}

/// The text of a hash, as `solana_sdk::hash::Hash`'s `Display` writes it: the
/// Base58 encoding of its 32 bytes (`bs58::encode`).
#[verifier::external_body]
pub fn hash_to_string(hash: &BankHash) -> (res: String)
    ensures
        res@ == base58(hash.0@),
{
    solana_sdk::hash::Hash::new_from_array(hash.0).to_string()
}

/// Addresses loaded from address lookup tables.
#[derive(Clone, Debug)]
pub struct LoadedAddresses {
    pub writable: Vec<Pubkey>,
    pub readonly: Vec<Pubkey>,
}

/// The account keys of a message: the static keys, followed by the loaded
/// writable addresses and then the loaded read-only addresses.
#[derive(Clone, Debug)]
pub struct AccountKeys {
    pub static_keys: Vec<Pubkey>,
    pub dynamic_keys: Option<LoadedAddresses>,
}

impl View for AccountKeys {
    type V = Seq<Pubkey>;

    open spec fn view(&self) -> Seq<Pubkey> {
        match self.dynamic_keys {
            Some(loaded) => self.static_keys@ + loaded.writable@ + loaded.readonly@,
            None => self.static_keys@,
        }
    }
}

impl AccountKeys {
    pub fn new(static_keys: Vec<Pubkey>, dynamic_keys: Option<LoadedAddresses>) -> (res: Self)
        ensures
            res.static_keys == static_keys,
            res.dynamic_keys == dynamic_keys,
    {
        AccountKeys { static_keys, dynamic_keys }
    }

    /// The number of keys, across all segments.
    pub fn len(&self) -> (res: usize)
        requires
            self@.len() <= usize::MAX,
        ensures
            res == self@.len(),
    {
        match &self.dynamic_keys {
            Some(loaded) => self.static_keys.len() + loaded.writable.len() + loaded.readonly.len(),
            None => self.static_keys.len(),
        }
    }

    /// The key at `index`, counting across the segments in order.
    pub fn get(&self, index: usize) -> (res: Option<&Pubkey>)
        ensures
            index < self@.len() ==> res == Some(&self@[index as int]),
            index >= self@.len() ==> res is None,
    {
        let n0 = self.static_keys.len();
        if index < n0 {
            return Some(&self.static_keys[index]);
        }
        match &self.dynamic_keys {
            None => None,
            Some(loaded) => {
                let i1 = index - n0;
                if i1 < loaded.writable.len() {
                    Some(&loaded.writable[i1])
                } else {
                    let i2 = i1 - loaded.writable.len();
                    if i2 < loaded.readonly.len() {
                        Some(&loaded.readonly[i2])
                    } else {
                        None
                    }
                }
            }
        }
    }
}

/// An instruction whose program and accounts are given as indices into the
/// message's account keys.
#[derive(Clone, Debug)]
pub struct CompiledInstruction {
    pub program_id_index: u8,
    pub accounts: Vec<u8>,
    pub data: Vec<u8>,
}

} // verus!
