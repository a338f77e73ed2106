use solana_program::pubkey::Pubkey;
use vstd::prelude::*;

verus! {

/// A 32-byte account address, as the ledger writes it.
#[derive(Clone, Copy, Debug)]
pub struct Address {
    pub bytes: [u8; 32],
}

impl Address {
    /// The address whose bytes are all zero; records use it for "nobody".
    pub open spec fn nobody() -> Address {
        Address { bytes: vstd::array::spec_array_fill_for_copy_type::<u8, 32>(0u8) }
    }

    /// The address with the given bytes.
    pub fn new(bytes: [u8; 32]) -> (r: Address)
        ensures
            r.bytes == bytes,
    {
        Address { bytes }
    }

    /// The all-zero address.
    pub fn none() -> (r: Address)
        ensures
            r == Address::nobody(),
    {
        Address { bytes: [0u8; 32] }
    }

    /// Whether this is the all-zero address.
    pub fn is_nobody(&self) -> (r: bool)
        ensures
            r == (*self == Address::nobody()),
    {
        let mut i: usize = 0;
        while i < 32
            invariant
                0 <= i <= 32,
                forall|j: int| 0 <= j < i ==> self.bytes@[j] == 0,
            decreases 32 - i,
        {
            if self.bytes[i] != 0 {
                assert(Address::nobody().bytes@[i as int] == 0);
                return false;
            }
            i = i + 1;
        }
        assert(self.bytes =~= Address::nobody().bytes);
        true
    }

    /// The address bytes as a byte string.
    pub fn to_vec(&self) -> (r: Vec<u8>)
        ensures
            r@ == self.bytes@,
    {
        let mut v: Vec<u8> = Vec::new();
        let mut i: usize = 0;
        while i < 32
            invariant
                0 <= i <= 32,
                v@ == self.bytes@.subrange(0, i as int),
            decreases 32 - i,
        {
            v.push(self.bytes[i]);
            i = i + 1;
        }
        assert(v@ =~= self.bytes@);
        v
    }
}

impl PartialEq for Address {
    fn eq(&self, other: &Address) -> (r: bool)
        ensures
            r == (self.bytes@ == other.bytes@),
            r == (*self == *other),
    {
        let mut i: usize = 0;
        while i < 32
            invariant
                0 <= i <= 32,
                forall|j: int| 0 <= j < i ==> self.bytes@[j] == other.bytes@[j],
            decreases 32 - i,
        {
            if self.bytes[i] != other.bytes[i] {
                assert(self.bytes@[i as int] != other.bytes@[i as int]);
                return false;
            }
            i = i + 1;
        }
        assert(self.bytes@ =~= other.bytes@);
        assert(self.bytes =~= other.bytes);
        true
    }
}

impl vstd::std_specs::cmp::PartialEqSpecImpl for Address {
    open spec fn obeys_eq_spec() -> bool {
        true
    }

    open spec fn eq_spec(&self, other: &Address) -> bool {
        self.bytes@ == other.bytes@
    }
}

impl Eq for Address {
}

/// The ledger's program-address search on `seeds` for the program `program_id`:
/// the first bump byte, counting down from 255, whose address has no private key,
/// with that address; nothing when no byte qualifies or the seeds are malformed.
pub uninterp spec fn found_program_address(seeds: Seq<Seq<u8>>, program_id: Seq<u8>) -> Option<
    (Seq<u8>, u8),
>;

/// Relies on `Pubkey::try_find_program_address` of solana-address: a deterministic
/// search for a derived address, a function of the seeds and the program id alone.
#[verifier::external_body]
pub(crate) fn find_program_address(seeds: &Vec<Vec<u8>>, program_id: &Address) -> (r: Option<
    (Address, u8),
>)
    ensures
        found_program_address(seeds.deep_view(), program_id.bytes@) == match r {
            Some((a, bump)) => Some((a.bytes@, bump)),
            None => None,
        },
{
    let s: Vec<&[u8]> = seeds.iter().map(|v| v.as_slice()).collect();
    Pubkey::try_find_program_address(&s, &Pubkey::new_from_array(program_id.bytes)).map(
        |(k, bump)| (Address { bytes: k.to_bytes() }, bump),
    )
}

/// A byte string's deep view is its plain view.
pub proof fn lemma_bytes_deep_view(v: &Vec<u8>)
    ensures
        v.deep_view() == v@,
{
    assert(v.deep_view() =~= v@);
}

/// The seed that tags auction records: the bytes of `auction`.
pub open spec fn auction_tag() -> Seq<u8> {
    seq![97u8, 117, 99, 116, 105, 111, 110]
}

/// The auction tag as a byte string.
pub fn auction_tag_bytes() -> (r: Vec<u8>)
    ensures
        r@ == auction_tag(),
{
    let r: Vec<u8> = vec![97u8, 117, 99, 116, 105, 111, 110];
    assert(r@ =~= auction_tag());
    r
}

/// The seed that tags pool records: the bytes of `liquidity_pool`.
pub open spec fn pool_tag() -> Seq<u8> {
    seq![108u8, 105, 113, 117, 105, 100, 105, 116, 121, 95, 112, 111, 111, 108]
}

/// The pool tag as a byte string.
pub fn pool_tag_bytes() -> (r: Vec<u8>)
    ensures
        r@ == pool_tag(),
{
    let r: Vec<u8> = vec![108u8, 105, 113, 117, 105, 100, 105, 116, 121, 95, 112, 111, 111, 108];
    assert(r@ =~= pool_tag());
    r
}

} // verus!
