//! Short random identifiers for new records.

use vstd::prelude::*;

verus! {

/// Number of symbols in every generated identifier.
pub const ID_LENGTH: usize = 10;

/// The symbols an identifier is drawn from: the ten digits and the lower-case
/// letters without 'o', which reads too much like '0'.
pub open spec fn id_alphabet() -> Seq<char> {
    seq![
        '1', '2', '3', '4', '5', '6', '7', '8', '9', '0', 'a', 'b', 'c', 'd', 'e', 'f', 'g',
        'h', 'i', 'j', 'k', 'l', 'm', 'n', 'p', 'q', 'r', 's', 't', 'u', 'w', 'v', 'x', 'y',
        'z',
    ]
}

/// An identifier as this library generates them.
pub open spec fn is_generated_id(id: Seq<char>) -> bool {
    &&& id.len() == ID_LENGTH
    &&& forall|i: int| 0 <= i < id.len() ==> id_alphabet().contains(#[trigger] id[i])
}

/// The alphabet as a vector of characters.
pub fn alphabet() -> (r: Vec<char>)
    ensures
        r@ == id_alphabet(),
{
    let r = vec![
        '1', '2', '3', '4', '5', '6', '7', '8', '9', '0', 'a', 'b', 'c', 'd', 'e', 'f', 'g',
        'h', 'i', 'j', 'k', 'l', 'm', 'n', 'p', 'q', 'r', 's', 't', 'u', 'w', 'v', 'x', 'y',
        'z',
    ];
    assert(r@ =~= id_alphabet());
    r
}

/// Relies on `nanoid::format` with `nanoid::rngs::default`: it draws random
/// bytes, keeps those that index into `alphabet`, and returns as soon as the
/// string holds `size` bytes. With ASCII symbols that is `size` characters,
/// each one of the alphabet. It panics on an alphabet of more than 255
/// symbols and never returns on an empty one or on `size == 0`.
#[verifier::external_body]
fn random_id(alphabet: &[char], size: usize) -> (r: String)
    requires
        0 < alphabet@.len() <= 255,
        forall|i: int| 0 <= i < alphabet@.len() ==> (#[trigger] alphabet@[i] as u32) < 128,
        0 < size <= usize::MAX / 8,
    ensures
        r@.len() == size,
        forall|i: int| 0 <= i < r@.len() ==> alphabet@.contains(#[trigger] r@[i]),
{
    nanoid::format(nanoid::rngs::default, alphabet, size)
}

/// A fresh identifier of `ID_LENGTH` symbols of the alphabet. Identifiers are
/// random and long enough to serve as keys without a check for collisions.
pub fn generate_id() -> (r: String)
    ensures
        is_generated_id(r@),
{
    let symbols = alphabet();
    proof {
        assert forall|i: int| 0 <= i < symbols@.len() implies (#[trigger] symbols@[i] as u32)
            < 128 by {
            assert(id_alphabet()[i] as u32 <= 'z' as u32);
        }
    }
    random_id(symbols.as_slice(), ID_LENGTH)
}

} // verus!
