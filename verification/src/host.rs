//! Values that live in the ledger host: texts, lists and the winner distribution. The host
//! also computes hashes.
use vstd::prelude::*;

verus! {

/// A text held by the host: any sequence of bytes.
pub type Text = soroban_sdk::String;

#[verifier::external_type_specification]
#[verifier::external_body]
pub struct ExHostText(soroban_sdk::String);

#[verifier::external_type_specification]
#[verifier::external_body]
#[verifier::reject_recursive_types(K)]
#[verifier::reject_recursive_types(V)]
pub struct ExHostMap<K, V>(soroban_sdk::Map<K, V>);

#[verifier::external_type_specification]
#[verifier::external_body]
#[verifier::reject_recursive_types(T)]
pub struct ExHostList<T>(soroban_sdk::Vec<T>);

/// The bytes that a host text holds.
pub uninterp spec fn text_bytes(text: soroban_sdk::String) -> Seq<u8>;

/// The pairs that a host map holds, in the order of their keys, where all of its
/// keys and values are numbers of 32 bits; nothing where one of them is not (the
/// host keeps untyped values and a typed map does not vouch for them).
pub uninterp spec fn map_pairs(map: soroban_sdk::Map<u32, u32>) -> Option<Seq<(u32, u32)>>;

/// The items that a host list holds, in order, where all of them are numbers of 32 bits;
/// nothing where one of them is not.
pub uninterp spec fn list_items(list: soroban_sdk::Vec<u32>) -> Option<Seq<u32>>;

/// The SHA-256 hash of bytes, as two big-endian halves.
pub uninterp spec fn sha256_of(input: Seq<u8>) -> (u128, u128);

/// `soroban_sdk::String::len`: the number of bytes in the text.
#[verifier::external_body]
pub(crate) fn text_len(text: &soroban_sdk::String) -> (r: u32)
    ensures
        r == text_bytes(*text).len(),
{
    text.len()
}

/// `soroban_sdk::String::clone`: a second handle on the same text of the same host.
#[verifier::external_body]
pub(crate) fn text_clone(text: &soroban_sdk::String) -> (r: soroban_sdk::String)
    ensures
        r == *text,
{
    text.clone()
}

/// `soroban_sdk::Map::try_iter`: the pairs one by one in the order of their keys, no
/// key twice, each with an error in its place where it is not of the map's types.
#[verifier::external_body]
fn map_try_pairs(map: &soroban_sdk::Map<u32, u32>) -> (r: Option<Vec<(u32, u32)>>)
    ensures
        match r {
            Some(pairs) => map_pairs(*map) == Some(pairs@) && ascending(pairs@),
            None => map_pairs(*map) is None,
        },
{
    map.try_iter().collect::<Result<Vec<(u32, u32)>, soroban_sdk::ConversionError>>().ok()
}

/// `soroban_sdk::Map::get`: the value stored under a key, if there is one. The host
/// aborts where that value is not of the map's type.
#[verifier::external_body]
fn map_get(map: &soroban_sdk::Map<u32, u32>, key: u32) -> (r: Option<u32>)
    requires
        map_pairs(*map) is Some,
    ensures
        r == value_at(map_pairs(*map).unwrap(), key),
{
    map.get(key)
}

/// `soroban_sdk::Map::is_empty`: whether the map holds no pair at all.
#[verifier::external_body]
fn map_is_empty(map: &soroban_sdk::Map<u32, u32>) -> (r: bool)
    ensures
        r <==> map_pairs(*map) == Some(Seq::<(u32, u32)>::empty()),
{
    map.is_empty()
}

/// `soroban_sdk::Map::clone`: a second handle on the same map of the same host.
#[verifier::external_body]
fn map_clone(map: &soroban_sdk::Map<u32, u32>) -> (r: soroban_sdk::Map<u32, u32>)
    ensures
        r == *map,
{
    map.clone()
}

/// `soroban_sdk::Vec::new`: a list without items, in the host that holds the map.
#[verifier::external_body]
fn list_new(map: &soroban_sdk::Map<u32, u32>) -> (r: soroban_sdk::Vec<u32>)
    ensures
        list_items(r) == Some(Seq::<u32>::empty()),
{
    soroban_sdk::Vec::new(map.env())
}

/// `soroban_sdk::Vec::push_back`: the list with one more item behind the others. The host
/// numbers the items with 32 bits and aborts where there are too many.
#[verifier::external_body]
fn list_push(list: &mut soroban_sdk::Vec<u32>, item: u32)
    requires
        list_items(*old(list)) matches Some(items) && items.len() < u32::MAX,
    ensures
        list_items(*final(list)) == Some(list_items(*old(list)).unwrap().push(item)),
{
    list.push_back(item)
}

/// `soroban_sdk::Vec::iter`: the items one by one in their order. The host aborts at an
/// item that is not of the list's type.
#[verifier::external_body]
fn list_iter(list: &soroban_sdk::Vec<u32>) -> (r: Vec<u32>)
    requires
        list_items(*list) is Some,
    ensures
        list_items(*list) == Some(r@),
{
    list.iter().collect()
}

/// `soroban_sdk::crypto::Crypto::sha256`, in the host that holds the text: the hash of the
/// bytes, whichever host computes it. The host numbers bytes with 32 bits.
#[verifier::external_body]
pub(crate) fn sha256(text: &soroban_sdk::String, input: &Vec<u8>) -> (r: (u128, u128))
    requires
        input.len() <= u32::MAX,
    ensures
        r == sha256_of(input@),
{
    let bytes = soroban_sdk::Bytes::from_slice(text.env(), input);
    let hash = text.env().crypto().sha256(&bytes).to_array();
    let (high, low) = hash.split_at(16);
    (u128::from_be_bytes(high.try_into().unwrap()), u128::from_be_bytes(low.try_into().unwrap()))
}

/// Whether the keys of the pairs grow strictly from one pair to the next.
pub open spec fn ascending(pairs: Seq<(u32, u32)>) -> bool {
    forall|i: int, j: int|
        0 <= i < j < pairs.len() ==> #[trigger] pairs[i].0 < #[trigger] pairs[j].0
}

/// Whether `i` is the place of `key` among the pairs.
pub open spec fn is_place_of(pairs: Seq<(u32, u32)>, key: u32, i: int) -> bool {
    0 <= i < pairs.len() && pairs[i].0 == key
}

/// The value that the pairs hold under `key`.
pub open spec fn value_at(pairs: Seq<(u32, u32)>, key: u32) -> Option<u32> {
    if exists|i: int| is_place_of(pairs, key, i) {
        Some(pairs[choose|i: int| is_place_of(pairs, key, i)].1)
    } else {
        None
    }
}

/// How an event's escrow is split: the percentage that each winning position gets.
/// The pairs stay in the host map that they came in.
#[derive(Debug, PartialEq)]
pub struct Distribution {
    map: soroban_sdk::Map<u32, u32>,
}

impl View for Distribution {
    type V = Seq<(u32, u32)>;

    /// Position and percentage, in the order of the positions.
    closed spec fn view(&self) -> Seq<(u32, u32)> {
        map_pairs(self.map).unwrap()
    }
}

impl Distribution {
    #[verifier::type_invariant]
    spec fn readable(self) -> bool {
        map_pairs(self.map) matches Some(pairs) && ascending(pairs)
    }

    /// Takes over a host map; refuses one that holds anything but numbers.
    pub fn new(map: soroban_sdk::Map<u32, u32>) -> (r: Option<Distribution>)
        ensures
            match r {
                Some(distribution) => map_pairs(map) == Some(distribution@) && ascending(
                    distribution@,
                ),
                None => map_pairs(map) is None,
            },
    {
        match map_try_pairs(&map) {
            Some(_) => Some(Distribution { map }),
            None => None,
        }
    }

    /// The percentage of a position, if the position wins anything.
    pub fn get(&self, position: u32) -> (r: Option<u32>)
        ensures
            r == value_at(self@, position),
    {
        proof {
            use_type_invariant(self);
        }
        map_get(&self.map, position)
    }

    pub fn is_empty(&self) -> (r: bool)
        ensures
            r <==> self@.len() == 0,
    {
        proof {
            use_type_invariant(self);
            assert(self@.len() == 0 ==> self@ =~= Seq::empty());
        }
        map_is_empty(&self.map)
    }

    /// The pairs of position and percentage, in the order of the positions.
    pub fn pairs(&self) -> (r: Vec<(u32, u32)>)
        ensures
            r@ == self@,
            ascending(r@),
    {
        proof {
            use_type_invariant(self);
        }
        match map_try_pairs(&self.map) {
            Some(pairs) => pairs,
            None => Vec::new(),
        }
    }
}

/// Winning positions in the order in which they came up, in a list of the host.
pub struct Positions {
    list: soroban_sdk::Vec<u32>,
}

impl View for Positions {
    type V = Seq<u32>;

    closed spec fn view(&self) -> Seq<u32> {
        list_items(self.list).unwrap()
    }
}

impl Positions {
    #[verifier::type_invariant]
    spec fn readable(self) -> bool {
        list_items(self.list) is Some
    }

    /// No positions yet, in the host that holds the distribution.
    pub fn new(distribution: &Distribution) -> (r: Positions)
        ensures
            r@ == Seq::<u32>::empty(),
    {
        Positions { list: list_new(&distribution.map) }
    }

    /// These positions and one more.
    pub fn with(self, position: u32) -> (r: Positions)
        requires
            self@.len() < u32::MAX,
        ensures
            r@ == self@.push(position),
    {
        proof {
            use_type_invariant(&self);
        }
        let mut list: soroban_sdk::Vec<u32> = self.list;
        list_push(&mut list, position);
        Positions { list }
    }

    pub fn contains(&self, position: u32) -> (r: bool)
        ensures
            r == self@.contains(position),
    {
        proof {
            use_type_invariant(self);
        }
        let items: Vec<u32> = list_iter(&self.list);
        let mut i: usize = 0;
        while i < items.len()
            invariant
                i <= items.len(),
                items@ == self@,
                forall|j: int| 0 <= j < i ==> items@[j] != position,
            decreases items.len() - i,
        {
            if items[i] == position {
                return true;
            }
            i = i + 1;
        }
        false
    }
}

impl Clone for Distribution {
    fn clone(&self) -> (r: Distribution)
        ensures
            r == *self,
    {
        proof {
            use_type_invariant(self);
        }
        Distribution { map: map_clone(&self.map) }
    }
}

} // verus!
