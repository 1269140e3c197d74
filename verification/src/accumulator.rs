//! Accumulators: an aggregate on its way to becoming one typed record.
//!
//! A [`Sequence`] gathers elements of one datatype into an array, a
//! [`Structure`] gathers named members into a compound. Both gather bytes in
//! one buffer and `coagulate` into a finished [`Data`].

use crate::data::{Data, DataView};
use crate::datatype::{extent, total_length, Datatype, DatatypeView, Field, FieldView};
use crate::error::Error;
use vstd::arithmetic::div_mod::{lemma_fundamental_div_mod, lemma_mod_add_multiples_vanish};
use vstd::prelude::*;

verus! {

/// The datatype of `count` elements of the datatype `element` in one row.
pub open spec fn row_of(element: DatatypeView, count: nat) -> DatatypeView {
    DatatypeView::Array { element: Box::new(element), dims: seq![1usize, count as usize] }
}

/// A row of `count` elements takes `count` times the bytes of one.
pub proof fn lemma_row_size(element: DatatypeView, count: nat)
    requires
        count <= usize::MAX,
    ensures
        row_of(element, count).size() == count * element.size(),
        extent(row_of(element, count)->Array_dims) == count,
{
    let dims = seq![1usize, count as usize];
    assert(dims.drop_last() =~= seq![1usize]);
    assert(dims.drop_last().drop_last() =~= Seq::<usize>::empty());
    assert(extent(dims.drop_last().drop_last()) == 1);
    assert(extent(dims.drop_last()) == 1);
    assert(extent(dims) == count) by (nonlinear_arith)
        requires
            extent(dims) == extent(dims.drop_last()) * (dims.last() as nat),
            extent(dims.drop_last()) == 1,
            dims.last() as nat == count,
    ;
}

/// The mathematical value of a [`Sequence`].
pub struct SequenceView {
    /// The bytes of the elements so far, one element after the other.
    pub data: Seq<u8>,
    /// The datatype of the elements, once there is one.
    pub datatype: Option<DatatypeView>,
}

impl SequenceView {
    /// The sequence that holds nothing yet.
    pub open spec fn empty() -> SequenceView {
        SequenceView { data: Seq::empty(), datatype: None }
    }

    /// The buffer holds a whole number of elements, at least one once the
    /// datatype is known and none before.
    pub open spec fn wf(self) -> bool {
        match self.datatype {
            None => self.data.len() == 0,
            Some(datatype) => if datatype.size() == 0 {
                self.data.len() == 0
            } else {
                self.data.len() >= datatype.size() && self.data.len() % datatype.size() == 0
            },
        }
    }

    /// The sequence with one more element, or why the element is refused.
    pub open spec fn append(self, value: DataView) -> Result<SequenceView, Error> {
        if self.datatype is Some && self.datatype != Some(value.datatype) {
            Err(Error::TypeMismatch)
        } else {
            Ok(SequenceView { data: self.data + value.bytes, datatype: Some(value.datatype) })
        }
    }

    /// The array that the sequence amounts to, or why it amounts to none.
    pub open spec fn coagulate(self) -> Result<DataView, Error> {
        match self.datatype {
            None => Err(Error::EmptyAggregate),
            Some(datatype) => if datatype.size() == 0 || datatype.size() > usize::MAX
                || self.data.len() % datatype.size() != 0 {
                Err(Error::MalformedData)
            } else {
                Ok(
                    DataView {
                        datatype: row_of(datatype, self.data.len() / datatype.size()),
                        bytes: self.data,
                    },
                )
            },
        }
    }

    /// An element that is as long as its datatype says keeps the sequence
    /// well formed.
    pub proof fn lemma_append_wf(self, value: DataView)
        requires
            self.wf(),
            value.wf(),
        ensures
            self.append(value) is Ok ==> self.append(value)->Ok_0.wf(),
    {
        if self.append(value) is Ok {
            let size = value.datatype.size();
            if size > 0 {
                lemma_mod_add_multiples_vanish(self.data.len() as int, size as int);
            }
        }
    }

    /// A well-formed sequence with a first element amounts to an array,
    /// unless its elements take no bytes at all. The array is well formed and
    /// has at least one element.
    pub proof fn lemma_coagulate_wf(self)
        requires
            self.wf(),
            self.data.len() <= usize::MAX,
        ensures
            self.coagulate() is Err <==> self.datatype is None || self.datatype->0.size() == 0,
            self.coagulate() is Ok ==> self.coagulate()->Ok_0.wf() && self.data.len()
                / self.datatype->0.size() >= 1,
    {
        if let Some(datatype) = self.datatype {
            let size = datatype.size();
            let length = self.data.len();
            if size > 0 {
                lemma_fundamental_div_mod(length as int, size as int);
                let count = length / size;
                assert(count * size == length) by (nonlinear_arith)
                    requires
                        length == size * count + 0,
                ;
                assert(count >= 1 && count <= length) by (nonlinear_arith)
                    requires
                        count * size == length,
                        length >= size,
                        size > 0,
                ;
                lemma_row_size(datatype, count);
            }
        }
    }
}

/// The elements of an array on its way: one buffer of bytes, and the datatype
/// that the first element fixed.
#[derive(Debug)]
pub struct Sequence {
    data: Vec<u8>,
    datatype: Option<Datatype>,
}

impl View for Sequence {
    type V = SequenceView;

    closed spec fn view(&self) -> SequenceView {
        SequenceView {
            data: self.data@,
            datatype: match self.datatype {
                Some(datatype) => Some(datatype@),
                None => None,
            },
        }
    }
}

impl Sequence {
    #[verifier::type_invariant]
    spec fn inv(&self) -> bool {
        self@.wf()
    }

    /// A sequence that holds nothing yet.
    pub fn new() -> (sequence: Sequence)
        ensures
            sequence@ == SequenceView::empty(),
            sequence@.wf(),
    {
        Sequence { data: Vec::new(), datatype: None }
    }

    /// Adds one element. The first element fixes the datatype; a later one of
    /// another datatype is refused with [`Error::TypeMismatch`], and the
    /// sequence stays as it was.
    pub fn append(&mut self, value: Data) -> (done: Result<(), Error>)
        ensures
            match old(self)@.append(value@) {
                Ok(next) => done is Ok && final(self)@ == next,
                Err(error) => done == Err::<(), Error>(error) && final(self)@ == old(self)@,
            },
            final(self)@.wf(),
    {
        proof {
            use_type_invariant(&*self);
        }
        let (datatype, mut bytes) = value.into_parts();
        if let Some(first) = &self.datatype {
            if !first.same(&datatype) {
                return Err(Error::TypeMismatch);
            }
        }
        proof {
            old(self)@.lemma_append_wf(value@);
        }
        let mut taken = Sequence::new();
        std::mem::swap(self, &mut taken);
        let Sequence { data: mut data, datatype: _ } = taken;
        data.append(&mut bytes);
        *self = Sequence { data, datatype: Some(datatype) };
        Ok(())
    }

    /// Finishes the sequence into one array of a single row. Fails with
    /// [`Error::EmptyAggregate`] where there was no element, and with
    /// [`Error::MalformedData`] where the elements take no bytes, so that
    /// their number cannot be told from the buffer.
    pub fn coagulate(self) -> (array: Result<Data, Error>)
        ensures
            match self@.coagulate() {
                Ok(data) => array is Ok && array->Ok_0@ == data && data.wf(),
                Err(error) => array == Err::<Data, Error>(error),
            },
            array == Err::<Data, Error>(Error::EmptyAggregate) <==> self@.datatype is None,
            array == Err::<Data, Error>(Error::MalformedData) <==> self@.datatype is Some
                && self@.datatype->0.size() == 0,
    {
        proof {
            use_type_invariant(&self);
            self@.lemma_coagulate_wf();
        }
        let Sequence { data, datatype } = self;
        match datatype {
            None => Err(Error::EmptyAggregate),
            Some(datatype) => {
                let length = data.len();
                let size = match datatype.size() {
                    Some(size) => size,
                    None => {
                        return Err(Error::MalformedData);
                    },
                };
                if size == 0 || length % size != 0 {
                    return Err(Error::MalformedData);
                }
                let count = length / size;
                let mut dims: Vec<usize> = Vec::new();
                dims.push(1);
                dims.push(count);
                assert(dims@ =~= seq![1usize, count]);
                let array = Datatype::Array { element: Box::new(datatype), dims };
                assert(array@ == row_of(datatype@, count as nat));
                Data::new(array, data)
            },
        }
    }
}

/// The values of the members `fields`.
pub open spec fn fields_view(fields: Seq<Field>) -> Seq<FieldView> {
    Seq::new(fields.len(), |i: int| fields[i]@)
}

/// A compound datatype has the values of its members as its members.
pub proof fn lemma_compound_view(fields: Vec<Field>)
    ensures
        (Datatype::Compound { fields })@ == (DatatypeView::Compound {
            fields: fields_view(fields@),
        }),
{
    let compound = Datatype::Compound { fields };
    assert(compound@->Compound_fields =~= fields_view(fields@));
}

/// No two of the members `fields` have one name.
pub open spec fn distinct_names(fields: Seq<FieldView>) -> bool {
    forall|i: int, j: int| 0 <= i < j < fields.len() ==> fields[i].name != fields[j].name
}

/// One of the members `fields` has the name `name`.
pub open spec fn has_name(fields: Seq<FieldView>, name: Seq<char>) -> bool {
    exists|i: int| 0 <= i < fields.len() && #[trigger] fields[i].name == name
}

/// The mathematical value of a [`Structure`].
pub struct StructureView {
    /// The bytes of the members so far, one member after the other.
    pub data: Seq<u8>,
    /// The members so far, in the order in which they came.
    pub fields: Seq<FieldView>,
}

impl StructureView {
    /// The structure that holds nothing yet.
    pub open spec fn empty() -> StructureView {
        StructureView { data: Seq::empty(), fields: Seq::empty() }
    }

    /// The members account for every byte of the buffer, each takes as many
    /// bytes as its datatype says, and no two have one name.
    pub open spec fn wf(self) -> bool {
        &&& total_length(self.fields) == self.data.len()
        &&& forall|i: int|
            0 <= i < self.fields.len() ==> (#[trigger] self.fields[i]).length
                == self.fields[i].datatype.size()
        &&& distinct_names(self.fields)
    }

    /// The byte at which the member `index` starts.
    pub open spec fn offset(self, index: int) -> nat {
        total_length(self.fields.take(index))
    }

    /// The structure with one more member, or why the member is refused.
    pub open spec fn append(self, name: Seq<char>, value: DataView) -> Result<
        StructureView,
        Error,
    > {
        if has_name(self.fields, name) {
            Err(Error::Naming)
        } else {
            Ok(
                StructureView {
                    data: self.data + value.bytes,
                    fields: self.fields.push(
                        FieldView {
                            name,
                            datatype: value.datatype,
                            length: value.bytes.len() as usize,
                        },
                    ),
                },
            )
        }
    }

    /// The compound that the structure amounts to, or why it amounts to none.
    pub open spec fn coagulate(self) -> Result<DataView, Error> {
        if total_length(self.fields) == self.data.len() {
            Ok(DataView { datatype: DatatypeView::Compound { fields: self.fields }, bytes: self.data })
        } else {
            Err(Error::MalformedData)
        }
    }

    /// A member that is as long as its datatype says, under a name not yet
    /// taken, keeps the structure well formed and starts where the buffer
    /// ended.
    pub proof fn lemma_append_wf(self, name: Seq<char>, value: DataView)
        requires
            self.wf(),
            value.wf(),
            value.bytes.len() <= usize::MAX,
        ensures
            self.append(name, value) is Ok ==> {
                let next = self.append(name, value)->Ok_0;
                &&& next.wf()
                &&& next.offset(self.fields.len() as int) == self.data.len()
            },
    {
        if self.append(name, value) is Ok {
            let next = self.append(name, value)->Ok_0;
            assert(next.fields.drop_last() =~= self.fields);
            assert(next.fields.take(self.fields.len() as int) =~= self.fields);
            assert forall|i: int, j: int| 0 <= i < j < next.fields.len() implies next.fields[i].name
                != next.fields[j].name by {
                if j == self.fields.len() {
                    assert(self.fields[i].name != name);
                }
            }
        }
    }

    /// A well-formed structure always amounts to a compound: its members in
    /// the order in which they came, over bytes that they account for.
    pub proof fn lemma_coagulate_wf(self)
        requires
            self.wf(),
        ensures
            self.coagulate() is Ok,
            self.coagulate()->Ok_0.wf(),
            self.coagulate()->Ok_0.datatype == (DatatypeView::Compound { fields: self.fields }),
            total_length(self.fields) == self.coagulate()->Ok_0.bytes.len(),
    {
    }
}

/// The members of a compound on their way: one buffer of bytes, and for each
/// member its name, its datatype and the number of its bytes.
#[derive(Debug)]
pub struct Structure {
    data: Vec<u8>,
    fields: Vec<Field>,
}

impl View for Structure {
    type V = StructureView;

    closed spec fn view(&self) -> StructureView {
        StructureView { data: self.data@, fields: fields_view(self.fields@) }
    }
}

impl Structure {
    #[verifier::type_invariant]
    spec fn inv(&self) -> bool {
        self@.wf()
    }

    /// A structure that holds nothing yet.
    pub fn new() -> (structure: Structure)
        ensures
            structure@ == StructureView::empty(),
            structure@.wf(),
    {
        let structure = Structure { data: Vec::new(), fields: Vec::new() };
        assert(fields_view(structure.fields@) =~= Seq::<FieldView>::empty());
        structure
    }

    /// Adds one member under `name`, at the end of the buffer. A name that a
    /// member already has is refused with [`Error::Naming`], and the
    /// structure stays as it was.
    pub fn append(&mut self, name: String, value: Data) -> (done: Result<(), Error>)
        ensures
            match old(self)@.append(name@, value@) {
                Ok(next) => done is Ok && final(self)@ == next,
                Err(error) => done == Err::<(), Error>(error) && final(self)@ == old(self)@,
            },
            final(self)@.wf(),
    {
        proof {
            use_type_invariant(&*self);
        }
        let mut i: usize = 0;
        while i < self.fields.len()
            invariant
                i <= self.fields.len(),
                *self == *old(self),
                forall|j: int| 0 <= j < i ==> (#[trigger] self@.fields[j]).name != name@,
            decreases self.fields.len() - i,
        {
            if self.fields[i].name == name {
                proof {
                    use_type_invariant(&*self);
                    assert(self@.fields[i as int].name == name@);
                }
                return Err(Error::Naming);
            }
            i += 1;
        }
        let (datatype, mut bytes) = value.into_parts();
        let length = bytes.len();
        proof {
            old(self)@.lemma_append_wf(name@, value@);
        }
        let mut taken = Structure::new();
        std::mem::swap(self, &mut taken);
        let Structure { data: mut data, fields: mut fields } = taken;
        data.append(&mut bytes);
        fields.push(Field { name, datatype, length });
        assert(fields_view(fields@) =~= old(self)@.fields.push(
            FieldView { name: name@, datatype: datatype@, length },
        ));
        *self = Structure { data, fields };
        Ok(())
    }

    /// Finishes the structure into one compound: the members in the order in
    /// which they came, over the buffer. This never fails.
    pub fn coagulate(self) -> (compound: Result<Data, Error>)
        ensures
            compound is Ok,
            Ok::<DataView, Error>(compound->Ok_0@) == self@.coagulate(),
            compound->Ok_0@.wf(),
    {
        proof {
            use_type_invariant(&self);
        }
        let Structure { data, fields } = self;
        proof {
            lemma_compound_view(fields);
        }
        Data::new(Datatype::Compound { fields }, data)
    }
}

} // verus!
