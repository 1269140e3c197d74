//! What holds of every walk: whole runs of events, and what comes out of
//! them.

use crate::accumulator::{distinct_names, has_name, row_of, lemma_row_size, SequenceView, StructureView};
use crate::data::{DataView, Value};
use crate::datatype::{extent, total_length, DatatypeView, FieldView};
use crate::encoder::{DatasetView, EncoderView, StateView};
use crate::error::Error;
use vstd::prelude::*;

verus! {

/// The bytes of `values`, one value after the other.
pub open spec fn concat(values: Seq<DataView>) -> Seq<u8>
    decreases values.len(),
{
    if values.len() == 0 {
        Seq::empty()
    } else {
        concat(values.drop_last()) + values.last().bytes
    }
}

/// The bytes of the element `index` of an array.
pub open spec fn element_bytes(array: DataView, index: int) -> Seq<u8> {
    let size = array.datatype->Array_element.size();
    array.bytes.subrange(index * size, (index + 1) * size)
}

/// The values that an array of numbers or of texts holds, in order.
pub open spec fn decode_array(array: DataView) -> Seq<Value> {
    Seq::new(
        extent(array.datatype->Array_dims),
        |index: int| Value::decode(*array.datatype->Array_element, element_bytes(array, index)),
    )
}

/// A named value, as a structure takes it.
pub struct Member {
    pub name: Seq<char>,
    pub value: DataView,
}

impl Member {
    /// How a compound describes the member.
    pub open spec fn field(self) -> FieldView {
        FieldView {
            name: self.name,
            datatype: self.value.datatype,
            length: self.value.bytes.len() as usize,
        }
    }
}

/// The values of `members`, in order.
pub open spec fn values_of(members: Seq<Member>) -> Seq<DataView> {
    members.map_values(|member: Member| member.value)
}

/// How a compound describes `members`, in order.
pub open spec fn fields_of(members: Seq<Member>) -> Seq<FieldView> {
    members.map_values(|member: Member| member.field())
}

impl SequenceView {
    /// The sequence after `values` were added one by one, or the first
    /// failure on the way.
    pub open spec fn extend(self, values: Seq<DataView>) -> Result<SequenceView, Error>
        decreases values.len(),
    {
        if values.len() == 0 {
            Ok(self)
        } else {
            match self.extend(values.drop_last()) {
                Ok(before) => before.append(values.last()),
                Err(error) => Err(error),
            }
        }
    }
}

impl StructureView {
    /// The structure after `members` were added one by one, or the first
    /// failure on the way.
    pub open spec fn extend(self, members: Seq<Member>) -> Result<StructureView, Error>
        decreases members.len(),
    {
        if members.len() == 0 {
            Ok(self)
        } else {
            match self.extend(members.drop_last()) {
                Ok(before) => before.append(members.last().name, members.last().value),
                Err(error) => Err(error),
            }
        }
    }
}

impl EncoderView {
    /// The encoder after `values` arrived one by one, or the first failure
    /// on the way. What went out on the way is not kept.
    pub open spec fn elements(self, values: Seq<DataView>) -> Result<EncoderView, Error>
        decreases values.len(),
    {
        if values.len() == 0 {
            Ok(self)
        } else {
            match self.elements(values.drop_last()) {
                Ok(before) => match before.element(values.last()) {
                    Ok((after, _)) => Ok(after),
                    Err(error) => Err(error),
                },
                Err(error) => Err(error),
            }
        }
    }

    /// The encoder after one field was entered, given a value and left, or
    /// the first failure on the way.
    pub open spec fn field(self, member: Member) -> Result<EncoderView, Error> {
        match self.enter_field(member.name) {
            Ok(entered) => match entered.element(member.value) {
                Ok((filled, _)) => filled.exit_field(),
                Err(error) => Err(error),
            },
            Err(error) => Err(error),
        }
    }

    /// The encoder after the fields `members` came one by one, or the first
    /// failure on the way.
    pub open spec fn fields(self, members: Seq<Member>) -> Result<EncoderView, Error>
        decreases members.len(),
    {
        if members.len() == 0 {
            Ok(self)
        } else {
            match self.fields(members.drop_last()) {
                Ok(before) => before.field(members.last()),
                Err(error) => Err(error),
            }
        }
    }
}

/// Values of one datatype, each as long as the datatype says, take that many
/// bytes each in a row, and the bytes of each can be cut out again.
pub proof fn lemma_concat(values: Seq<DataView>, datatype: DatatypeView)
    requires
        forall|i: int|
            0 <= i < values.len() ==> (#[trigger] values[i]).datatype == datatype && values[i].wf(),
    ensures
        concat(values).len() == values.len() * datatype.size(),
        forall|i: int|
            0 <= i < values.len() ==> concat(values).subrange(
                i * datatype.size(),
                (i + 1) * datatype.size(),
            ) == (#[trigger] values[i]).bytes,
    decreases values.len(),
{
    let size = datatype.size();
    if values.len() == 0 {
        assert(0 * size == 0) by (nonlinear_arith);
    } else {
        let front = values.drop_last();
        let count = front.len();
        lemma_concat(front, datatype);
        assert(concat(front).len() + size == values.len() * size) by (nonlinear_arith)
            requires
                concat(front).len() == count * size,
                values.len() == count + 1,
        ;
        assert forall|i: int| 0 <= i < values.len() implies concat(values).subrange(
            i * size,
            (i + 1) * size,
        ) == (#[trigger] values[i]).bytes by {
            if i < count {
                assert(0 <= i * size <= (i + 1) * size <= count * size) by (nonlinear_arith)
                    requires
                        0 <= i < count,
                        size >= 0,
                ;
                assert(values[i] == front[i]);
                assert(concat(values).subrange(i * size, (i + 1) * size) =~= concat(
                    front,
                ).subrange(i * size, (i + 1) * size));
            } else {
                assert((i + 1) * size == i * size + size && i * size >= 0) by (nonlinear_arith)
                    requires
                        i >= 0,
                        size >= 0,
                ;
                assert(concat(values).subrange(i * size, (i + 1) * size) =~= values.last().bytes);
            }
        }
    }
}

/// Elements of one datatype are all taken: the sequence holds their bytes
/// in order, under that datatype.
pub proof fn lemma_extend_uniform(values: Seq<DataView>, datatype: DatatypeView)
    requires
        values.len() > 0,
        forall|i: int| 0 <= i < values.len() ==> (#[trigger] values[i]).datatype == datatype,
    ensures
        SequenceView::empty().extend(values) == Ok::<SequenceView, Error>(
            SequenceView { data: concat(values), datatype: Some(datatype) },
        ),
    decreases values.len(),
{
    let front = values.drop_last();
    if front.len() == 0 {
        assert(SequenceView::empty().extend(front) == Ok::<SequenceView, Error>(
            SequenceView::empty(),
        ));
        assert(concat(front) =~= Seq::<u8>::empty());
        assert(concat(values) =~= Seq::<u8>::empty() + values.last().bytes);
    } else {
        lemma_extend_uniform(front, datatype);
    }
}

/// In an open sequence, values that arrive one by one are added to the
/// sequence one by one; the rest of the encoder stays as it is.
pub proof fn lemma_elements_in_sequence(encoder: EncoderView, values: Seq<DataView>)
    requires
        encoder.state is Sequence,
    ensures
        encoder.elements(values) == match encoder.state->Sequence_0.extend(values) {
            Ok(sequence) => Ok::<EncoderView, Error>(
                EncoderView { state: StateView::Sequence(sequence), ..encoder },
            ),
            Err(error) => Err(error),
        },
    decreases values.len(),
{
    if values.len() > 0 {
        lemma_elements_in_sequence(encoder, values.drop_last());
    }
}

/// Members under names that are new and differ from each other are all
/// taken: the structure holds them behind what it held, in the order in
/// which they came, and stays well formed.
pub proof fn lemma_extend_distinct(structure: StructureView, members: Seq<Member>)
    requires
        structure.wf(),
        distinct_names(structure.fields + fields_of(members)),
        forall|i: int|
            0 <= i < members.len() ==> (#[trigger] members[i]).value.wf()
                && members[i].value.bytes.len() <= usize::MAX,
    ensures
        structure.extend(members) == Ok::<StructureView, Error>(
            StructureView {
                data: structure.data + concat(values_of(members)),
                fields: structure.fields + fields_of(members),
            },
        ),
        structure.extend(members)->Ok_0.wf(),
    decreases members.len(),
{
    let all = structure.fields + fields_of(members);
    if members.len() == 0 {
        assert(structure.data + concat(values_of(members)) =~= structure.data);
        assert(all =~= structure.fields);
    } else {
        let front = members.drop_last();
        let last = members.last();
        let before = structure.fields + fields_of(front);
        assert(before =~= all.drop_last());
        assert(all.last() == last.field());
        assert(distinct_names(before)) by {
            assert forall|i: int, j: int| 0 <= i < j < before.len() implies before[i].name
                != before[j].name by {
                assert(all[i].name != all[j].name);
            }
        }
        lemma_extend_distinct(structure, front);
        let held = structure.extend(front)->Ok_0;
        assert(!has_name(held.fields, last.name)) by {
            if has_name(held.fields, last.name) {
                let i = choose|i: int| 0 <= i < held.fields.len() && #[trigger] held.fields[i].name == last.name;
                assert(all[i].name != all[all.len() - 1].name);
            }
        }
        held.lemma_append_wf(last.name, last.value);
        assert(values_of(members).drop_last() =~= values_of(front));
        assert(held.data + last.value.bytes =~= structure.data + concat(values_of(members)));
        assert(held.fields.push(last.field()) =~= all);
    }
}

/// In an open structure with no field open, a field that is entered, given
/// a value and left adds one member to the structure; the rest of the
/// encoder stays as it is.
pub proof fn lemma_field_in_structure(encoder: EncoderView, member: Member)
    requires
        encoder.in_structure(),
    ensures
        encoder.field(member) == match encoder.state->Structure_0.append(
            member.name,
            member.value,
        ) {
            Ok(structure) => Ok::<EncoderView, Error>(
                EncoderView { state: StateView::Structure(structure), ..encoder },
            ),
            Err(error) => Err(error),
        },
{
    let entered = encoder.enter_field(member.name)->Ok_0;
    assert(entered.saved.drop_last() =~= encoder.saved);
}

/// In an open structure with no field open, fields that come one by one add
/// their members to the structure one by one.
pub proof fn lemma_fields_in_structure(encoder: EncoderView, members: Seq<Member>)
    requires
        encoder.in_structure(),
    ensures
        encoder.fields(members) == match encoder.state->Structure_0.extend(members) {
            Ok(structure) => Ok::<EncoderView, Error>(
                EncoderView { state: StateView::Structure(structure), ..encoder },
            ),
            Err(error) => Err(error),
        },
    decreases members.len(),
{
    if members.len() > 0 {
        lemma_fields_in_structure(encoder, members.drop_last());
        if let Ok(structure) = encoder.state->Structure_0.extend(members.drop_last()) {
            lemma_field_in_structure(
                EncoderView { state: StateView::Structure(structure), ..encoder },
                members.last(),
            );
        }
    }
}

/// Entering an aggregate and leaving it puts the encoder back as it was.
pub proof fn lemma_enter_leave(encoder: EncoderView, inner: StateView)
    ensures
        encoder.enter(inner).leave() == encoder,
{
    assert(encoder.enter(inner).saved.drop_last() =~= encoder.saved);
}

/// Round trip of a sequence. Values of one datatype that takes at least one
/// byte, reported as the elements of a sequence that is stored as `name`,
/// go out as one dataset of that name: an array of a single row, from which
/// the same values are decoded in the same order.
///
/// Texts are of one datatype only where they take the same number of bytes.
pub proof fn law_sequence_round_trip(name: Seq<char>, values: Seq<Value>)
    requires
        values.len() > 0,
        forall|i: int|
            0 <= i < values.len() ==> (#[trigger] values[i]).data().datatype
                == values[0].data().datatype,
        forall|i: int| 0 <= i < values.len() ==> (#[trigger] values[i]).data().wf(),
        values[0].data().datatype.size() > 0,
        values.len() * values[0].data().datatype.size() <= usize::MAX,
    ensures
        ({
            let stored = values.map_values(|value: Value| value.data());
            let filled = EncoderView::new(name).enter_sequence().elements(stored);
            &&& filled is Ok
            &&& filled->Ok_0.in_sequence()
            &&& filled->Ok_0.exit_sequence() is Ok
            &&& filled->Ok_0.exit_sequence()->Ok_0.1 is Some
            &&& ({
                let dataset = filled->Ok_0.exit_sequence()->Ok_0.1->0;
                &&& dataset.name == name
                &&& dataset.data.datatype == row_of(values[0].data().datatype, values.len())
                &&& dataset.data.wf()
                &&& decode_array(dataset.data) == values
            })
        }),
{
    let datatype = values[0].data().datatype;
    let size = datatype.size();
    let count = values.len();
    let stored = values.map_values(|value: Value| value.data());
    let start = EncoderView::new(name);
    let entered = start.enter_sequence();
    assert forall|i: int| 0 <= i < stored.len() implies (#[trigger] stored[i]).datatype
        == datatype && stored[i].wf() by {
        assert(stored[i] == values[i].data());
    }
    lemma_extend_uniform(stored, datatype);
    lemma_concat(stored, datatype);
    lemma_elements_in_sequence(entered, stored);
    let sequence = SequenceView { data: concat(stored), datatype: Some(datatype) };
    let filled = EncoderView { state: StateView::Sequence(sequence), ..entered };
    assert(entered.elements(stored) == Ok::<EncoderView, Error>(filled));
    lemma_enter_leave(start, StateView::Sequence(SequenceView::empty()));
    assert(filled.leave() == start);
    assert(count <= count * size) by (nonlinear_arith)
        requires
            size >= 1,
            count >= 0,
    ;
    vstd::arithmetic::div_mod::lemma_mod_multiples_basic(count as int, size as int);
    vstd::arithmetic::div_mod::lemma_div_by_multiple(count as int, size as int);
    lemma_row_size(datatype, count);
    let array = sequence.coagulate()->Ok_0;
    assert(array == DataView { datatype: row_of(datatype, count), bytes: concat(stored) });
    assert(decode_array(array) =~= values) by {
        assert forall|i: int| 0 <= i < count implies decode_array(array)[i] == values[i] by {
            assert(element_bytes(array, i) == stored[i].bytes);
            values[i].lemma_decode();
        }
    }
}

/// A structure coagulates into its members in the order in which they came.
/// Members under names that differ from each other, reported as the fields
/// of a structure that is stored as `name`, go out as one dataset of that
/// name: a compound that describes the members in that order, over their
/// bytes in that order, and the lengths of the members add up to the number
/// of those bytes.
pub proof fn law_structure_order(name: Seq<char>, members: Seq<Member>)
    requires
        distinct_names(fields_of(members)),
        forall|i: int|
            0 <= i < members.len() ==> (#[trigger] members[i]).value.wf()
                && members[i].value.bytes.len() <= usize::MAX,
    ensures
        ({
            let filled = EncoderView::new(name).enter_structure().fields(members);
            &&& filled is Ok
            &&& filled->Ok_0.in_structure()
            &&& filled->Ok_0.exit_structure() is Ok
            &&& filled->Ok_0.exit_structure()->Ok_0.1 is Some
            &&& ({
                let dataset = filled->Ok_0.exit_structure()->Ok_0.1->0;
                &&& dataset.name == name
                &&& dataset.data.datatype == (DatatypeView::Compound { fields: fields_of(members) })
                &&& dataset.data.bytes == concat(values_of(members))
                &&& total_length(fields_of(members)) == dataset.data.bytes.len()
            })
        }),
{
    let start = EncoderView::new(name);
    let entered = start.enter_structure();
    assert(StructureView::empty().fields + fields_of(members) =~= fields_of(members));
    assert(StructureView::empty().data + concat(values_of(members)) =~= concat(
        values_of(members),
    ));
    lemma_extend_distinct(StructureView::empty(), members);
    lemma_fields_in_structure(entered, members);
    let structure = StructureView {
        data: concat(values_of(members)),
        fields: fields_of(members),
    };
    let filled = EncoderView { state: StateView::Structure(structure), ..entered };
    assert(entered.fields(members) == Ok::<EncoderView, Error>(filled));
    lemma_enter_leave(start, StateView::Structure(StructureView::empty()));
    assert(filled.leave() == start);
    structure.lemma_coagulate_wf();
}

/// A sequence that ends without an element fails as empty, whatever is open
/// around it.
pub proof fn law_empty_sequence(encoder: EncoderView)
    ensures
        encoder.enter_sequence().in_sequence(),
        encoder.enter_sequence().exit_sequence() == Err::<
            (EncoderView, Option<DatasetView>),
            Error,
        >(Error::EmptyAggregate),
{
}

/// A sequence takes any first element, and with one element it does not fail
/// as empty.
pub proof fn law_one_element(encoder: EncoderView, value: DataView)
    ensures
        encoder.enter_sequence().element(value) is Ok,
        encoder.enter_sequence().element(value)->Ok_0.1 is None,
        encoder.enter_sequence().element(value)->Ok_0.0.in_sequence(),
        encoder.enter_sequence().element(value)->Ok_0.0.exit_sequence() != Err::<
            (EncoderView, Option<DatasetView>),
            Error,
        >(Error::EmptyAggregate),
{
}

/// A sequence refuses an element whose datatype differs from that of the
/// elements before it.
pub proof fn law_mixed_sequence(encoder: EncoderView, value: DataView)
    requires
        encoder.state is Sequence,
        encoder.state->Sequence_0.datatype is Some,
        encoder.state->Sequence_0.datatype != Some(value.datatype),
    ensures
        encoder.element(value) == Err::<(EncoderView, Option<DatasetView>), Error>(
            Error::TypeMismatch,
        ),
{
}

} // verus!
