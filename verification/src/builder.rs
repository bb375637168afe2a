//! The byte buffer of the `string_builder` crate, as far as the script
//! generator uses it. What is stated here of the buffer is taken on trust.

use string_builder::Builder;
use vstd::prelude::*;
use vstd::string::StringSliceAdditionalSpecFns;
use vstd::utf8::{decode_utf8, valid_utf8};

verus! {

/// `string_builder::Builder`, a growable buffer of bytes. Nothing is known
/// of a value but the bytes that [`builder_bytes`] names.
#[verifier::external_type_specification]
#[verifier::external_body]
pub struct ExBuilder(Builder);

/// `std::string::FromUtf8Error`, which `Builder::string` fails with.
#[verifier::external_type_specification]
#[verifier::external_body]
pub struct ExFromUtf8Error(std::string::FromUtf8Error);

/// The bytes that a builder holds, in the order in which they were appended.
pub uninterp spec fn builder_bytes(builder: Builder) -> Seq<u8>;

/// `Builder::new`: a builder that holds no bytes yet. The capacity only
/// reserves room; one beyond `isize::MAX` cannot be allocated.
#[verifier::external_body]
pub(crate) fn new_builder(capacity: usize) -> (builder: Builder)
    requires
        capacity <= isize::MAX,
    ensures
        builder_bytes(builder) == Seq::<u8>::empty(),
{
    Builder::new(capacity)
}

/// `Builder::append` with a string slice: the UTF-8 bytes of `text` are
/// written behind the bytes that the builder holds.
#[verifier::external_body]
pub(crate) fn append_str(builder: &mut Builder, text: &str)
    ensures
        builder_bytes(*final(builder)) == builder_bytes(*old(builder)) + text.spec_bytes(),
{
    builder.append(text)
}

/// `Builder::string`: the bytes become a `String` where they are valid
/// UTF-8, and an error where they are not.
#[verifier::external_body]
pub(crate) fn into_string(builder: Builder) -> (r: Result<String, std::string::FromUtf8Error>)
    ensures
        r is Ok <==> valid_utf8(builder_bytes(builder)),
        r is Ok ==> r->Ok_0@ == decode_utf8(builder_bytes(builder)),
{
    builder.string()
}

} // verus!
