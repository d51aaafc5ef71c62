//! Reading the fields of a payload: what an object holds under a name, as
//! the type that the protocol gives it.

use crate::decimal::{decimal_u64, parse_u64};
use crate::error::DecodeError;
use crate::json::{views_of, Json, JsonView};
use vstd::prelude::*;

verus! {

/// The string that the object `json` holds under `key`.
pub open spec fn text_field(json: JsonView, key: Seq<char>) -> Result<Seq<char>, DecodeError> {
    match json.member(key) {
        Some(value) => match value.text() {
            Some(text) => Ok(text),
            None => Err(DecodeError::MissingField),
        },
        None => Err(DecodeError::MissingField),
    }
}

/// The integer that the object `json` holds under `key`.
pub open spec fn integer_field(json: JsonView, key: Seq<char>) -> Result<i64, DecodeError> {
    match json.member(key) {
        Some(value) => match value.integer() {
            Some(n) => Ok(n),
            None => Err(DecodeError::MissingField),
        },
        None => Err(DecodeError::MissingField),
    }
}

/// The array that the object `json` holds under `key`.
pub open spec fn array_field(json: JsonView, key: Seq<char>) -> Result<
    Seq<JsonView>,
    DecodeError,
> {
    match json.member(key) {
        Some(value) => match value.items() {
            Some(items) => Ok(items),
            None => Err(DecodeError::MissingField),
        },
        None => Err(DecodeError::MissingField),
    }
}

/// The identifier that the object `json` holds under `key`, as a decimal
/// string.
pub open spec fn id_field(json: JsonView, key: Seq<char>) -> Result<u64, DecodeError> {
    match text_field(json, key) {
        Ok(text) => match decimal_u64(text) {
            Some(id) => Ok(id),
            None => Err(DecodeError::InvalidId),
        },
        Err(e) => Err(e),
    }
}

/// Reads the string that the object `json` holds under `key`.
pub fn read_text<'a>(json: &'a Json, key: &str) -> (r: Result<&'a str, DecodeError>)
    ensures
        match r {
            Ok(text) => text_field(json@, key@) == Ok::<Seq<char>, DecodeError>(text@),
            Err(e) => text_field(json@, key@) == Err::<Seq<char>, DecodeError>(e),
        },
{
    match json.get(key) {
        Some(value) => match value.as_str() {
            Some(text) => Ok(text),
            None => Err(DecodeError::MissingField),
        },
        None => Err(DecodeError::MissingField),
    }
}

/// Reads the integer that the object `json` holds under `key`.
pub fn read_integer(json: &Json, key: &str) -> (r: Result<i64, DecodeError>)
    ensures
        r == integer_field(json@, key@),
{
    match json.get(key) {
        Some(value) => match value.as_i64() {
            Some(n) => Ok(n),
            None => Err(DecodeError::MissingField),
        },
        None => Err(DecodeError::MissingField),
    }
}

/// Reads the array that the object `json` holds under `key`.
pub fn read_array<'a>(json: &'a Json, key: &str) -> (r: Result<&'a Vec<Json>, DecodeError>)
    ensures
        match r {
            Ok(items) => array_field(json@, key@) == Ok::<Seq<JsonView>, DecodeError>(
                views_of(items@),
            ),
            Err(e) => array_field(json@, key@) == Err::<Seq<JsonView>, DecodeError>(e),
        },
{
    match json.get(key) {
        Some(value) => match value.as_array() {
            Some(items) => Ok(items),
            None => Err(DecodeError::MissingField),
        },
        None => Err(DecodeError::MissingField),
    }
}

/// Reads the identifier that the object `json` holds under `key`.
pub fn read_id(json: &Json, key: &str) -> (r: Result<u64, DecodeError>)
    ensures
        r == id_field(json@, key@),
{
    match read_text(json, key) {
        Ok(text) => match parse_u64(text) {
            Some(id) => Ok(id),
            None => Err(DecodeError::InvalidId),
        },
        Err(e) => Err(e),
    }
}

/// Each element of `items` decoded by `one`, in order; the error of the
/// first element that fails, where one does.
pub open spec fn decode_all<T>(
    items: Seq<JsonView>,
    one: spec_fn(JsonView) -> Result<T, DecodeError>,
) -> Result<Seq<T>, DecodeError>
    decreases items.len(),
{
    if items.len() == 0 {
        Ok(Seq::empty())
    } else {
        match decode_all(items.drop_last(), one) {
            Err(e) => Err(e),
            Ok(front) => match one(items.last()) {
                Err(e) => Err(e),
                Ok(value) => Ok(front.push(value)),
            },
        }
    }
}

/// Once the first `k` elements fail to decode, so does the whole sequence,
/// with the same error.
pub proof fn lemma_decode_all_fails<T>(
    items: Seq<JsonView>,
    one: spec_fn(JsonView) -> Result<T, DecodeError>,
    k: int,
)
    requires
        0 <= k <= items.len(),
        decode_all(items.subrange(0, k), one) is Err,
    ensures
        decode_all(items, one) == decode_all(items.subrange(0, k), one),
    decreases items.len(),
{
    if k == items.len() {
        assert(items.subrange(0, k) =~= items);
    } else {
        assert(items.drop_last().subrange(0, k) =~= items.subrange(0, k));
        lemma_decode_all_fails(items.drop_last(), one, k);
    }
}

/// Where a sequence decodes, it decodes element by element: as many values
/// as elements, each the decoding of the element at its place.
pub proof fn lemma_decode_all_pointwise<T>(
    items: Seq<JsonView>,
    one: spec_fn(JsonView) -> Result<T, DecodeError>,
)
    requires
        decode_all(items, one) is Ok,
    ensures
        decode_all(items, one)->Ok_0.len() == items.len(),
        forall|i: int|
            0 <= i < items.len() ==> one(#[trigger] items[i]) == Ok::<T, DecodeError>(
                decode_all(items, one)->Ok_0[i],
            ),
    decreases items.len(),
{
    if items.len() > 0 {
        lemma_decode_all_pointwise(items.drop_last(), one);
        let front = decode_all(items.drop_last(), one)->Ok_0;
        assert forall|i: int| 0 <= i < items.len() implies one(#[trigger] items[i]) == Ok::<
            T,
            DecodeError,
        >(decode_all(items, one)->Ok_0[i]) by {
            if i < items.len() - 1 {
                assert(items.drop_last()[i] == items[i]);
            }
        }
    }
}

} // verus!
