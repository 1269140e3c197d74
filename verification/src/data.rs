//! Values ready to be stored: a datatype and the bytes laid out as it says.

use crate::datatype::{Datatype, DatatypeView};
use crate::error::Error;
use vstd::bytes::*;
use vstd::prelude::*;
use vstd::slice::slice_to_vec;
use vstd::utf8::{decode_utf8, encode_utf8, encode_utf8_decode_utf8};

verus! {

/// A number of fixed width. The two floating-point kinds hold the bit pattern
/// of the number, 32 or 64 bits of it.
#[derive(Clone, Copy, Debug, PartialEq, Eq, Structural)]
pub enum Scalar {
    I8(i8),
    I16(i16),
    I32(i32),
    I64(i64),
    U8(u8),
    U16(u16),
    U32(u32),
    U64(u64),
    F32(u32),
    F64(u64),
}

impl Scalar {
    /// The datatype of the number.
    pub open spec fn spec_datatype(self) -> DatatypeView {
        match self {
            Scalar::I8(_) => DatatypeView::I8,
            Scalar::I16(_) => DatatypeView::I16,
            Scalar::I32(_) => DatatypeView::I32,
            Scalar::I64(_) => DatatypeView::I64,
            Scalar::U8(_) => DatatypeView::U8,
            Scalar::U16(_) => DatatypeView::U16,
            Scalar::U32(_) => DatatypeView::U32,
            Scalar::U64(_) => DatatypeView::U64,
            Scalar::F32(_) => DatatypeView::F32,
            Scalar::F64(_) => DatatypeView::F64,
        }
    }

    /// The bytes of the number, the least significant first; a signed number
    /// in two's complement.
    pub open spec fn spec_bytes(self) -> Seq<u8> {
        match self {
            Scalar::I8(value) => seq![value as u8],
            Scalar::I16(value) => spec_u16_to_le_bytes(value as u16),
            Scalar::I32(value) => spec_u32_to_le_bytes(value as u32),
            Scalar::I64(value) => spec_u64_to_le_bytes(value as u64),
            Scalar::U8(value) => seq![value],
            Scalar::U16(value) => spec_u16_to_le_bytes(value),
            Scalar::U32(value) => spec_u32_to_le_bytes(value),
            Scalar::U64(value) => spec_u64_to_le_bytes(value),
            Scalar::F32(bits) => spec_u32_to_le_bytes(bits),
            Scalar::F64(bits) => spec_u64_to_le_bytes(bits),
        }
    }

    /// The number that `bytes` hold as a value of `datatype`: what undoes
    /// [`Scalar::spec_bytes`]. It is left open for a datatype that is no
    /// number's.
    pub open spec fn decode(datatype: DatatypeView, bytes: Seq<u8>) -> Scalar {
        match datatype {
            DatatypeView::I8 => Scalar::I8(bytes[0] as i8),
            DatatypeView::I16 => Scalar::I16(spec_u16_from_le_bytes(bytes) as i16),
            DatatypeView::I32 => Scalar::I32(spec_u32_from_le_bytes(bytes) as i32),
            DatatypeView::I64 => Scalar::I64(spec_u64_from_le_bytes(bytes) as i64),
            DatatypeView::U8 => Scalar::U8(bytes[0]),
            DatatypeView::U16 => Scalar::U16(spec_u16_from_le_bytes(bytes)),
            DatatypeView::U32 => Scalar::U32(spec_u32_from_le_bytes(bytes)),
            DatatypeView::U64 => Scalar::U64(spec_u64_from_le_bytes(bytes)),
            DatatypeView::F32 => Scalar::F32(spec_u32_from_le_bytes(bytes)),
            DatatypeView::F64 => Scalar::F64(spec_u64_from_le_bytes(bytes)),
            _ => arbitrary(),
        }
    }

    /// The datatype of the number.
    pub fn datatype(&self) -> (datatype: Datatype)
        ensures
            datatype@ == self.spec_datatype(),
    {
        match self {
            Scalar::I8(_) => Datatype::I8,
            Scalar::I16(_) => Datatype::I16,
            Scalar::I32(_) => Datatype::I32,
            Scalar::I64(_) => Datatype::I64,
            Scalar::U8(_) => Datatype::U8,
            Scalar::U16(_) => Datatype::U16,
            Scalar::U32(_) => Datatype::U32,
            Scalar::U64(_) => Datatype::U64,
            Scalar::F32(_) => Datatype::F32,
            Scalar::F64(_) => Datatype::F64,
        }
    }

    /// The bytes of the number, the least significant first.
    pub fn to_bytes(&self) -> (bytes: Vec<u8>)
        ensures
            bytes@ == self.spec_bytes(),
            bytes@.len() == self.spec_datatype().size(),
    {
        match *self {
            Scalar::I8(value) => {
                let bytes = vec![value as u8];
                assert(bytes@ =~= seq![value as u8]);
                bytes
            },
            Scalar::I16(value) => u16_to_le_bytes(value as u16),
            Scalar::I32(value) => u32_to_le_bytes(value as u32),
            Scalar::I64(value) => u64_to_le_bytes(value as u64),
            Scalar::U8(value) => {
                let bytes = vec![value];
                assert(bytes@ =~= seq![value]);
                bytes
            },
            Scalar::U16(value) => u16_to_le_bytes(value),
            Scalar::U32(value) => u32_to_le_bytes(value),
            Scalar::U64(value) => u64_to_le_bytes(value),
            Scalar::F32(bits) => u32_to_le_bytes(bits),
            Scalar::F64(bits) => u64_to_le_bytes(bits),
        }
    }

    /// A number takes as many bytes as its datatype says.
    pub proof fn lemma_length(self)
        ensures
            self.spec_bytes().len() == self.spec_datatype().size(),
    {
        lemma_auto_spec_u16_to_from_le_bytes();
        lemma_auto_spec_u32_to_from_le_bytes();
        lemma_auto_spec_u64_to_from_le_bytes();
    }

    /// Decoding the bytes of a number under its datatype gives the number
    /// back.
    pub proof fn lemma_decode(self)
        ensures
            Scalar::decode(self.spec_datatype(), self.spec_bytes()) == self,
    {
        lemma_auto_spec_u16_to_from_le_bytes();
        lemma_auto_spec_u32_to_from_le_bytes();
        lemma_auto_spec_u64_to_from_le_bytes();
        match self {
            Scalar::I8(value) => {
                assert(self.spec_bytes()[0] == value as u8);
                assert((value as u8) as i8 == value) by (bit_vector);
            },
            Scalar::I16(value) => {
                assert(spec_u16_to_le_bytes(value as u16).len() == 2);
                assert((value as u16) as i16 == value) by (bit_vector);
            },
            Scalar::I32(value) => {
                assert(spec_u32_to_le_bytes(value as u32).len() == 4);
                assert((value as u32) as i32 == value) by (bit_vector);
            },
            Scalar::I64(value) => {
                assert((value as u64) as i64 == value) by (bit_vector);
            },
            Scalar::U8(value) => {
                assert(self.spec_bytes()[0] == value);
            },
            Scalar::U16(value) => {
                assert(spec_u16_to_le_bytes(value).len() == 2);
            },
            Scalar::U32(value) | Scalar::F32(value) => {
                assert(spec_u32_to_le_bytes(value).len() == 4);
            },
            Scalar::U64(_) | Scalar::F64(_) => {},
        }
    }
}

/// The mathematical value of a [`Data`].
pub struct DataView {
    pub datatype: DatatypeView,
    pub bytes: Seq<u8>,
}

impl DataView {
    /// The bytes are as many as the datatype says.
    pub open spec fn wf(self) -> bool {
        self.bytes.len() == self.datatype.size()
    }

    /// What a number is stored as.
    pub open spec fn scalar(value: Scalar) -> DataView {
        DataView { datatype: value.spec_datatype(), bytes: value.spec_bytes() }
    }

    /// What a text is stored as: its UTF-8 bytes, under a datatype that
    /// carries their number.
    pub open spec fn text(value: Seq<char>) -> DataView {
        DataView {
            datatype: DatatypeView::Text { length: encode_utf8(value).len() as usize },
            bytes: encode_utf8(value),
        }
    }
}

/// What a walk can hold at a leaf: a number or a text.
pub enum Value {
    Number(Scalar),
    Text(Seq<char>),
}

impl Value {
    /// What the value is stored as.
    pub open spec fn data(self) -> DataView {
        match self {
            Value::Number(number) => DataView::scalar(number),
            Value::Text(text) => DataView::text(text),
        }
    }

    /// The value that `bytes` hold under `datatype`: what undoes
    /// [`Value::data`].
    pub open spec fn decode(datatype: DatatypeView, bytes: Seq<u8>) -> Value {
        match datatype {
            DatatypeView::Text { .. } => Value::Text(decode_utf8(bytes)),
            _ => Value::Number(Scalar::decode(datatype, bytes)),
        }
    }

    /// Decoding what a value is stored as gives the value back.
    pub proof fn lemma_decode(self)
        ensures
            Value::decode(self.data().datatype, self.data().bytes) == self,
    {
        match self {
            Value::Number(number) => {
                number.lemma_decode();
            },
            Value::Text(text) => {
                encode_utf8_decode_utf8(text);
            },
        }
    }

    /// A number is stored in as many bytes as its datatype says; so is a
    /// text whose bytes the machine can count.
    pub proof fn lemma_wf(self)
        requires
            self is Text ==> encode_utf8(self->Text_0).len() <= usize::MAX,
        ensures
            self.data().wf(),
    {
        if let Value::Number(number) = self {
            number.lemma_length();
        }
    }
}

/// A value ready to be stored: a datatype and as many bytes as it says.
#[derive(Debug)]
pub struct Data {
    datatype: Datatype,
    bytes: Vec<u8>,
}

impl View for Data {
    type V = DataView;

    closed spec fn view(&self) -> DataView {
        DataView { datatype: self.datatype@, bytes: self.bytes@ }
    }
}

impl Data {
    #[verifier::type_invariant]
    spec fn inv(&self) -> bool {
        self@.wf()
    }

    /// Puts bytes under a datatype. Fails with [`Error::MalformedData`] unless
    /// the bytes are as many as the datatype says.
    pub fn new(datatype: Datatype, bytes: Vec<u8>) -> (data: Result<Data, Error>)
        ensures
            match data {
                Ok(data) => data@ == (DataView { datatype: datatype@, bytes: bytes@ })
                    && data@.wf(),
                Err(error) => error == Error::MalformedData && bytes@.len() != datatype@.size(),
            },
    {
        let length = bytes.len();
        match datatype.size() {
            Some(size) => {
                if size == length {
                    Ok(Data { datatype, bytes })
                } else {
                    Err(Error::MalformedData)
                }
            },
            None => Err(Error::MalformedData),
        }
    }

    /// Classifies a number: its datatype and its bytes.
    pub fn scalar(value: Scalar) -> (data: Data)
        ensures
            data@ == DataView::scalar(value),
            data@.wf(),
    {
        Data { datatype: value.datatype(), bytes: value.to_bytes() }
    }

    /// Classifies a text: its UTF-8 bytes, under a datatype that carries
    /// their number.
    pub fn text(value: &str) -> (data: Data)
        ensures
            data@ == DataView::text(value@),
            data@.wf(),
    {
        let bytes = slice_to_vec(value.as_bytes());
        Data { datatype: Datatype::Text { length: bytes.len() }, bytes }
    }

    /// The datatype of the value.
    pub fn datatype(&self) -> (datatype: &Datatype)
        ensures
            datatype@ == self@.datatype,
    {
        &self.datatype
    }

    /// The bytes of the value.
    pub fn as_bytes(&self) -> (bytes: &Vec<u8>)
        ensures
            bytes@ == self@.bytes,
            self@.wf(),
    {
        proof {
            use_type_invariant(self);
        }
        &self.bytes
    }

    /// Takes the value apart.
    pub fn into_parts(self) -> (parts: (Datatype, Vec<u8>))
        ensures
            parts.0@ == self@.datatype,
            parts.1@ == self@.bytes,
            self@.wf(),
    {
        proof {
            use_type_invariant(&self);
        }
        (self.datatype, self.bytes)
    }
}

} // verus!
