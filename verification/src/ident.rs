use vstd::prelude::*;

verus! {

/// The number of characters of a new identifier.
pub const IDENTIFIER_LENGTH: usize = 10;

/// The characters that a generated identifier is made of: letters, digits, `_` and `-`.
pub open spec fn is_identifier_char(c: char) -> bool {
    ||| c == '_'
    ||| c == '-'
    ||| '0' <= c <= '9'
    ||| 'a' <= c <= 'z'
    ||| 'A' <= c <= 'Z'
}

/// Whether `id` has the shape of a generated identifier.
pub open spec fn is_identifier(id: Seq<char>) -> bool {
    &&& id.len() == IDENTIFIER_LENGTH
    &&& forall|i: int| 0 <= i < id.len() ==> is_identifier_char(#[trigger] id[i])
}

/// `nanoid::format` with the generator `nanoid::rngs::default` and the alphabet
/// `nanoid::alphabet::SAFE`: a random string of `size` characters of that alphabet. Which
/// string is not said: it differs from call to call.
#[verifier::external_body]
pub(crate) fn random_identifier(size: usize) -> (id: String)
    requires
        0 < size <= usize::MAX / 8,
    ensures
        id@.len() == size,
        forall|i: int| 0 <= i < id@.len() ==> is_identifier_char(#[trigger] id@[i]),
{
    nanoid::format(nanoid::rngs::default, &nanoid::alphabet::SAFE, size)
}

/// A new random identifier.
pub fn new_identifier() -> (id: String)
    ensures
        is_identifier(id@),
{
    random_identifier(IDENTIFIER_LENGTH)
}

/// There are identifiers.
pub proof fn lemma_identifiers_exist() -> (id: Seq<char>)
    ensures
        is_identifier(id),
{
    Seq::new(IDENTIFIER_LENGTH as nat, |i: int| '0')
}

} // verus!
