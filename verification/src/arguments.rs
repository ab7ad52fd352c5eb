//! The argument list that a race's computation is queued with, built through
//! the Arcium argument builder.
use vstd::prelude::*;
use arcium_anchor::ArgBuilder;
use arcium_anchor::prelude::ArgumentList;

verus! {

/// One argument handed to the race circuit.
#[derive(Clone, Copy)]
pub enum Argument {
    PlaintextU8(u8),
    PlaintextU64(u64),
    EncryptedU8([u8; 32]),
}

/// Arcium's argument builder, opaque here.
#[verifier::external_type_specification]
#[verifier::external_body]
pub struct ExArgBuilder(ArgBuilder);

/// Arcium's argument list, opaque here.
#[verifier::external_type_specification]
#[verifier::external_body]
pub struct ExArgumentList(ArgumentList);

/// The arguments that a builder holds, in the order they were added.
pub uninterp spec fn builder_arguments(builder: ArgBuilder) -> Seq<Argument>;

/// How many plaintext numbers (such as `u64`s) a builder stores aside; an
/// argument refers to its number by this position, kept in one byte.
pub uninterp spec fn builder_number_count(builder: ArgBuilder) -> nat;

/// How many 32-byte arrays (such as ciphertexts) a builder stores aside; an
/// argument refers to its array by this position, kept in one byte.
pub uninterp spec fn builder_byte_array_count(builder: ArgBuilder) -> nat;

/// The arguments that a built list holds, in order.
pub uninterp spec fn listed_arguments(list: ArgumentList) -> Seq<Argument>;

/// Calls `ArgBuilder::new` of arcium-anchor, which starts from empty argument
/// vectors: the contract claims the new builder holds no argument, and no
/// number or byte array aside.
#[verifier::external_body]
pub(crate) fn new_builder() -> (builder: ArgBuilder)
    ensures
        builder_arguments(builder) == Seq::<Argument>::empty(),
        builder_number_count(builder) == 0,
        builder_byte_array_count(builder) == 0,
{
    ArgBuilder::new()
}

/// Calls `ArgBuilder::plaintext_u8`, which pushes the value inline onto the
/// argument list: the contract claims the builder's arguments gain exactly
/// that plaintext `u8` at the end, and nothing is stored aside.
#[verifier::external_body]
pub(crate) fn add_plaintext_u8(builder: ArgBuilder, value: u8) -> (next: ArgBuilder)
    ensures
        builder_arguments(next) == builder_arguments(builder).push(Argument::PlaintextU8(value)),
        builder_number_count(next) == builder_number_count(builder),
        builder_byte_array_count(next) == builder_byte_array_count(builder),
{
    builder.plaintext_u8(value)
}

/// Calls `ArgBuilder::plaintext_u64`, which stores the value among the
/// plaintext numbers and pushes its position, cast to a byte: the contract
/// claims, for a builder with fewer than 256 numbers stored (with more, the
/// position wraps and refers to an earlier number), that the builder's
/// arguments gain exactly that plaintext `u64` at the end and one more number
/// is stored.
#[verifier::external_body]
pub(crate) fn add_plaintext_u64(builder: ArgBuilder, value: u64) -> (next: ArgBuilder)
    requires
        builder_number_count(builder) < 256,
    ensures
        builder_number_count(next) == builder_number_count(builder) + 1,
        builder_byte_array_count(next) == builder_byte_array_count(builder),
        builder_arguments(next) == builder_arguments(builder).push(Argument::PlaintextU64(value)),
{
    builder.plaintext_u64(value)
}

/// Calls `ArgBuilder::encrypted_u8`, which stores the ciphertext among the
/// byte arrays and pushes its position, cast to a byte: the contract claims,
/// for a builder with fewer than 256 arrays stored (with more, the position
/// wraps and refers to an earlier array), that the builder's arguments gain
/// exactly that encrypted `u8` at the end and one more array is stored.
#[verifier::external_body]
pub(crate) fn add_encrypted_u8(builder: ArgBuilder, ciphertext: [u8; 32]) -> (next: ArgBuilder)
    requires
        builder_byte_array_count(builder) < 256,
    ensures
        builder_byte_array_count(next) == builder_byte_array_count(builder) + 1,
        builder_number_count(next) == builder_number_count(builder),
        builder_arguments(next) == builder_arguments(builder).push(
            Argument::EncryptedU8(ciphertext),
        ),
{
    builder.encrypted_u8(ciphertext)
}

/// Calls `ArgBuilder::build`, which hands out the builder's argument list:
/// the contract claims the list holds the builder's arguments in the same order.
#[verifier::external_body]
pub(crate) fn build_list(builder: ArgBuilder) -> (list: ArgumentList)
    ensures
        listed_arguments(list) == builder_arguments(builder),
{
    builder.build()
}

} // verus!
