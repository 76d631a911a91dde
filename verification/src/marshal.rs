//! String marshaling: host strings to terminated byte buffers and back.

use vstd::prelude::*;
use vstd::slice::slice_to_vec;
use vstd::string::StringSliceAdditionalSpecFns;
use vstd::utf8::{decode_utf8, encode_scalar, encode_utf8, is_scalar, valid_utf8};

verus! {

/// The byte that ends every string on the native side.
pub const TERMINATOR: u8 = 0;

/// The bytes followed by the terminator.
pub open spec fn terminated(bytes: Seq<u8>) -> Seq<u8> {
    bytes.push(TERMINATOR)
}

/// The text can cross the boundary: its encoding holds no terminator.
pub open spec fn marshalable(text: Seq<char>) -> bool {
    !encode_utf8(text).contains(TERMINATOR)
}

/// The text as the native side reads it: its encoding, then the terminator.
pub open spec fn c_text(text: Seq<char>) -> Seq<u8> {
    terminated(encode_utf8(text))
}

/// The bytes form one string of the native side: they end with the
/// terminator and hold no other.
pub open spec fn well_terminated(bytes: Seq<u8>) -> bool {
    &&& bytes.len() > 0
    &&& bytes.last() == TERMINATOR
    &&& !bytes.drop_last().contains(TERMINATOR)
}

/// What is left of a filled buffer once the byte that the native side
/// appended is taken off.
pub open spec fn stripped(buffer: Seq<u8>) -> Seq<u8> {
    if buffer.len() == 0 {
        buffer
    } else {
        buffer.drop_last()
    }
}

/// The buffer to hand to the fill call when the size probe reported `size`:
/// zeroed, and one byte longer than the value, for the terminator that the
/// native side appends. There is none where the probe failed, or where the
/// longer size no longer fits the native integer.
pub open spec fn fill_buffer(size: i32) -> Option<Seq<u8>> {
    if 0 <= size < i32::MAX {
        Some(Seq::new((size + 1) as nat, |i: int| 0u8))
    } else {
        None
    }
}

/// The text that the bytes encode, if they encode one.
pub open spec fn decoded(bytes: Seq<u8>) -> Option<Seq<char>> {
    if valid_utf8(bytes) {
        Some(decode_utf8(bytes))
    } else {
        None
    }
}

/// The text behind a string pointer of the native side, where `None` stands
/// for the null pointer.
pub open spec fn decoded_pointer(bytes: Option<Seq<u8>>) -> Option<Seq<char>> {
    match bytes {
        Some(b) => decoded(b),
        None => None,
    }
}

/// The bytes behind a string pointer, as a sequence.
pub open spec fn pointer_view(bytes: Option<Vec<u8>>) -> Option<Seq<u8>> {
    match bytes {
        Some(b) => Some(b@),
        None => None,
    }
}

/// A string in the form that the native side reads: its bytes, then one
/// terminator, and no terminator before that.
pub struct CText {
    bytes: Vec<u8>,
}

impl View for CText {
    type V = Seq<u8>;

    /// All the bytes, the terminator included.
    closed spec fn view(&self) -> Seq<u8> {
        self.bytes@
    }
}

impl CText {
    #[verifier::type_invariant]
    spec fn terminated_once(self) -> bool {
        well_terminated(self.bytes@)
    }

    /// The bytes to hand to the native side, the terminator included.
    pub fn as_bytes(&self) -> (bytes: &[u8])
        ensures
            bytes@ == self@,
            well_terminated(bytes@),
    {
        proof {
            use_type_invariant(self);
        }
        self.bytes.as_slice()
    }

    /// A copy of this string.
    pub fn duplicate(&self) -> (copy: CText)
        ensures
            copy@ == self@,
    {
        proof {
            use_type_invariant(self);
        }
        let bytes = slice_to_vec(self.bytes.as_slice());
        CText { bytes }
    }
}

/// Encodes a host string for the native side. This fails exactly when the
/// encoding of the string holds the terminator byte, which is when the
/// string holds the character of code zero.
pub fn encode(text: &str) -> (r: Option<CText>)
    ensures
        r is Some <==> marshalable(text@),
        r is Some <==> !text@.contains('\0'),
        r matches Some(c) ==> c@ == c_text(text@),
{
    proof {
        lemma_marshalable(text@);
    }
    let source = text.as_bytes();
    let mut bytes: Vec<u8> = Vec::new();
    let mut i: usize = 0;
    while i < source.len()
        invariant
            i <= source.len(),
            source@ == text.spec_bytes(),
            bytes@ == source@.subrange(0, i as int),
            !bytes@.contains(TERMINATOR),
            marshalable(text@) <==> !text@.contains('\0'),
        decreases source.len() - i,
    {
        let b: u8 = source[i];
        if b == TERMINATOR {
            return None;
        }
        let ghost before = bytes@;
        bytes.push(b);
        proof {
            assert(bytes@ == source@.subrange(0, i + 1));
            assert forall|j: int| 0 <= j < bytes@.len() implies bytes@[j] != TERMINATOR by {
                if j < before.len() {
                    assert(before.contains(before[j]));
                }
            }
        }
        i += 1;
    }
    proof {
        assert(bytes@ == source@);
    }
    bytes.push(TERMINATOR);
    proof {
        assert(bytes@.drop_last() == source@);
    }
    Some(CText { bytes })
}

/// `String::from_utf8` of std: the bytes become a string exactly when they
/// are valid UTF-8, and the string then holds the text that they encode.
#[verifier::external_body]
fn string_from_utf8(bytes: Vec<u8>) -> (r: Option<String>)
    ensures
        r is Some <==> valid_utf8(bytes@),
        r matches Some(s) ==> s@ == decode_utf8(bytes@),
{
    match String::from_utf8(bytes) {
        Ok(s) => Some(s),
        Err(_) => None,
    }
}

/// Decodes bytes that came from the native side, without their terminator.
/// This fails exactly when the bytes are not valid text.
pub fn decode(bytes: Vec<u8>) -> (r: Option<String>)
    ensures
        r is Some <==> decoded(bytes@) is Some,
        r matches Some(s) ==> Some(s@) == decoded(bytes@),
{
    string_from_utf8(bytes)
}

/// Decodes what a string pointer of the native side referred to; the null
/// pointer decodes to nothing.
pub fn decode_pointer(bytes: Option<Vec<u8>>) -> (r: Option<String>)
    ensures
        r is Some <==> decoded_pointer(pointer_view(bytes)) is Some,
        r matches Some(s) ==> Some(s@) == decoded_pointer(pointer_view(bytes)),
{
    match bytes {
        Some(b) => decode(b),
        None => None,
    }
}

/// Takes the appended terminator off a filled buffer.
pub fn strip_terminator(buffer: Vec<u8>) -> (r: Vec<u8>)
    ensures
        r@ == stripped(buffer@),
{
    let mut buffer = buffer;
    let _ = buffer.pop();
    buffer
}

/// Allocates the buffer for the fill call that follows a size probe.
pub fn buffer_for(size: i32) -> (r: Option<Vec<u8>>)
    ensures
        pointer_view(r) == fill_buffer(size),
{
    if size < 0 || size == i32::MAX {
        return None;
    }
    let mut buffer: Vec<u8> = Vec::new();
    let mut i: i32 = 0;
    while i <= size
        invariant
            0 <= i <= size + 1,
            size < i32::MAX,
            buffer@ == Seq::new(i as nat, |j: int| 0u8),
        decreases size + 1 - i,
    {
        buffer.push(0u8);
        i += 1;
        proof {
            assert(buffer@ == Seq::new(i as nat, |j: int| 0u8));
        }
    }
    Some(buffer)
}

/// What an argument array looks like to the native side: every argument as a
/// terminated string, then the null pointer that ends the array.
pub open spec fn argument_array(arguments: Seq<Seq<char>>) -> Seq<Option<Seq<u8>>> {
    Seq::new(
        arguments.len() + 1,
        |i: int|
            if i < arguments.len() {
                Some(c_text(arguments[i]))
            } else {
                None
            },
    )
}

/// Every argument can cross the boundary.
pub open spec fn all_marshalable(arguments: Seq<Seq<char>>) -> bool {
    forall|i: int| 0 <= i < arguments.len() ==> marshalable(#[trigger] arguments[i])
}

/// The marshaled form of each slot of an argument array.
pub open spec fn array_view(array: Seq<Option<CText>>) -> Seq<Option<Seq<u8>>> {
    Seq::new(
        array.len(),
        |i: int|
            match array[i] {
                Some(c) => Some(c@),
                None => None,
            },
    )
}

/// The texts of a list of host strings.
pub open spec fn texts(strings: Seq<String>) -> Seq<Seq<char>> {
    Seq::new(strings.len(), |i: int| strings[i]@)
}

/// Marshals a flat list of arguments into an array that ends with the null
/// sentinel. This fails exactly when one of the arguments holds the
/// terminator byte.
pub fn marshal_arguments(arguments: &Vec<String>) -> (r: Option<Vec<Option<CText>>>)
    ensures
        r is Some <==> all_marshalable(texts(arguments@)),
        r matches Some(array) ==> array_view(array@) == argument_array(texts(arguments@)),
{
    let ghost all = texts(arguments@);
    let mut array: Vec<Option<CText>> = Vec::new();
    let mut i: usize = 0;
    while i < arguments.len()
        invariant
            i <= arguments.len(),
            all == texts(arguments@),
            array@.len() == i,
            forall|j: int| 0 <= j < i ==> marshalable(#[trigger] all[j]),
            forall|j: int|
                0 <= j < i ==> ((#[trigger] array@[j]) matches Some(c) && c@ == c_text(all[j])),
        decreases arguments.len() - i,
    {
        let argument: &String = &arguments[i];
        proof {
            assert(all[i as int] == argument@);
        }
        match encode(argument.as_str()) {
            Some(c) => {
                array.push(Some(c));
            },
            None => {
                proof {
                    assert(!marshalable(all[i as int]));
                }
                return None;
            },
        }
        i += 1;
    }
    array.push(None);
    proof {
        assert(array_view(array@) =~= argument_array(all));
    }
    Some(array)
}

proof fn lemma_scalar_holds_terminator(scalar: u32)
    requires
        is_scalar(scalar),
    ensures
        encode_scalar(scalar).contains(TERMINATOR) <==> scalar == 0,
{
    let bytes = encode_scalar(scalar);
    if scalar <= 0x7F {
        assert((scalar & 0x7F) as u8 == 0 <==> scalar == 0) by (bit_vector)
            requires
                scalar <= 0x7F,
        ;
    }
    assert(0xC0 | ((scalar >> 6) & 0x1F) as u8 != 0) by (bit_vector);
    assert(0xE0 | ((scalar >> 12) & 0x0F) as u8 != 0) by (bit_vector);
    assert(0xF0 | ((scalar >> 18) & 0x7) as u8 != 0) by (bit_vector);
    assert(0x80 | (scalar & 0x3F) as u8 != 0) by (bit_vector);
    assert(0x80 | ((scalar >> 6) & 0x3F) as u8 != 0) by (bit_vector);
    assert(0x80 | ((scalar >> 12) & 0x3F) as u8 != 0) by (bit_vector);
    if scalar == 0 {
        assert(bytes[0] == TERMINATOR);
    }
}

/// The terminator byte occurs in the encoding of a text exactly where the
/// text holds the character of code zero: a text can cross the boundary
/// unless it holds that character.
pub proof fn lemma_marshalable(text: Seq<char>)
    ensures
        marshalable(text) <==> !text.contains('\0'),
    decreases text.len(),
{
    if text.len() == 0 {
        assert(encode_utf8(text) =~= Seq::<u8>::empty());
    } else {
        let scalar = text[0] as u32;
        let first = encode_scalar(scalar);
        let rest = encode_utf8(text.drop_first());
        vstd::utf8::char_is_scalar(text[0]);
        vstd::utf8::char_u32_cast(text[0], scalar);
        lemma_scalar_holds_terminator(scalar);
        lemma_marshalable(text.drop_first());
        assert(encode_utf8(text) == first + rest);
        assert(scalar == 0 <==> text[0] == '\0');
        if text.contains('\0') {
            let i = choose|i: int| 0 <= i < text.len() && text[i] == '\0';
            if i == 0 {
                assert(first.contains(TERMINATOR));
                let j = choose|j: int| 0 <= j < first.len() && first[j] == TERMINATOR;
                assert((first + rest)[j] == TERMINATOR);
            } else {
                assert(text.drop_first()[i - 1] == '\0');
                let j = choose|j: int| 0 <= j < rest.len() && rest[j] == TERMINATOR;
                assert((first + rest)[first.len() + j] == TERMINATOR);
            }
        }
        if (first + rest).contains(TERMINATOR) {
            let j = choose|j: int| 0 <= j < (first + rest).len() && (first + rest)[j] == TERMINATOR;
            if j < first.len() {
                assert(first[j] == TERMINATOR);
                assert(first.contains(TERMINATOR));
                assert(text[0] == '\0');
            } else {
                assert(rest[j - first.len()] == TERMINATOR);
                let i = choose|i: int|
                    0 <= i < text.drop_first().len() && text.drop_first()[i] == '\0';
                assert(text[i + 1] == '\0');
            }
        }
    }
}

/// Text survives the boundary: what `encode` produces for a text, with the
/// terminator taken off again, decodes to that text.
pub proof fn lemma_round_trip(text: Seq<char>)
    ensures
        decoded(stripped(c_text(text))) == Some(text),
{
    vstd::utf8::encode_utf8_valid_utf8(text);
    vstd::utf8::encode_utf8_decode_utf8(text);
    assert(c_text(text).drop_last() == encode_utf8(text));
}

} // verus!
