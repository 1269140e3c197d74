//! Datatypes: what the bytes of a value mean.

use vstd::prelude::*;

verus! {

/// One named member of a compound datatype.
#[derive(Debug)]
pub struct Field {
    /// The member's name.
    pub name: String,
    /// The member's datatype.
    pub datatype: Datatype,
    /// The number of bytes the member takes in the record.
    pub length: usize,
}

/// The layout of a value.
#[derive(Debug)]
pub enum Datatype {
    /// Signed integer, 8 bits.
    I8,
    /// Signed integer, 16 bits.
    I16,
    /// Signed integer, 32 bits.
    I32,
    /// Signed integer, 64 bits.
    I64,
    /// Unsigned integer, 8 bits.
    U8,
    /// Unsigned integer, 16 bits.
    U16,
    /// Unsigned integer, 32 bits.
    U32,
    /// Unsigned integer, 64 bits.
    U64,
    /// Binary floating point, 32 bits.
    F32,
    /// Binary floating point, 64 bits.
    F64,
    /// UTF-8 text of a fixed number of bytes.
    Text { length: usize },
    /// Elements of one datatype, laid out row by row.
    Array { element: Box<Datatype>, dims: Vec<usize> },
    /// Named members, laid out one after the other.
    Compound { fields: Vec<Field> },
}

/// The mathematical value of a [`Field`].
pub struct FieldView {
    pub name: Seq<char>,
    pub datatype: DatatypeView,
    pub length: usize,
}

/// The mathematical value of a [`Datatype`].
pub enum DatatypeView {
    I8,
    I16,
    I32,
    I64,
    U8,
    U16,
    U32,
    U64,
    F32,
    F64,
    Text { length: usize },
    Array { element: Box<DatatypeView>, dims: Seq<usize> },
    Compound { fields: Seq<FieldView> },
}

/// The value of a datatype: vectors become sequences, names become sequences
/// of characters.
pub open spec fn datatype_view(datatype: Datatype) -> DatatypeView
    decreases datatype,
{
    match datatype {
        Datatype::I8 => DatatypeView::I8,
        Datatype::I16 => DatatypeView::I16,
        Datatype::I32 => DatatypeView::I32,
        Datatype::I64 => DatatypeView::I64,
        Datatype::U8 => DatatypeView::U8,
        Datatype::U16 => DatatypeView::U16,
        Datatype::U32 => DatatypeView::U32,
        Datatype::U64 => DatatypeView::U64,
        Datatype::F32 => DatatypeView::F32,
        Datatype::F64 => DatatypeView::F64,
        Datatype::Text { length } => DatatypeView::Text { length },
        Datatype::Array { element, dims } => DatatypeView::Array {
            element: Box::new(datatype_view(*element)),
            dims: dims@,
        },
        Datatype::Compound { fields } => DatatypeView::Compound {
            fields: Seq::new(
                fields.len() as nat,
                |i: int|
                    if 0 <= i < fields.len() {
                        FieldView {
                            name: fields[i].name@,
                            datatype: datatype_view(fields[i].datatype),
                            length: fields[i].length,
                        }
                    } else {
                        arbitrary()
                    },
            ),
        },
    }
}

impl View for Datatype {
    type V = DatatypeView;

    open spec fn view(&self) -> DatatypeView {
        datatype_view(*self)
    }
}

impl View for Field {
    type V = FieldView;

    open spec fn view(&self) -> FieldView {
        FieldView { name: self.name@, datatype: self.datatype@, length: self.length }
    }
}

/// The number of elements that an array of the extents `dims` holds: their
/// product, 1 for no extent at all.
pub open spec fn extent(dims: Seq<usize>) -> nat
    decreases dims.len(),
{
    if dims.len() == 0 {
        1
    } else {
        extent(dims.drop_last()) * (dims.last() as nat)
    }
}

/// The number of bytes that the members `fields` take together.
pub open spec fn total_length(fields: Seq<FieldView>) -> nat
    decreases fields.len(),
{
    if fields.len() == 0 {
        0
    } else {
        total_length(fields.drop_last()) + fields.last().length as nat
    }
}

impl DatatypeView {
    /// The number of bytes that one value of the datatype takes.
    pub open spec fn size(self) -> nat
        decreases self,
    {
        match self {
            DatatypeView::I8 | DatatypeView::U8 => 1,
            DatatypeView::I16 | DatatypeView::U16 => 2,
            DatatypeView::I32 | DatatypeView::U32 | DatatypeView::F32 => 4,
            DatatypeView::I64 | DatatypeView::U64 | DatatypeView::F64 => 8,
            DatatypeView::Text { length } => length as nat,
            DatatypeView::Array { element, dims } => extent(dims) * element.size(),
            DatatypeView::Compound { fields } => total_length(fields),
        }
    }
}

/// Extents that are all positive hold at least one element.
pub proof fn lemma_extent_positive(dims: Seq<usize>)
    requires
        forall|i: int| 0 <= i < dims.len() ==> dims[i] > 0,
    ensures
        extent(dims) >= 1,
    decreases dims.len(),
{
    if dims.len() > 0 {
        lemma_extent_positive(dims.drop_last());
        assert(extent(dims.drop_last()) * (dims.last() as nat) >= 1) by (nonlinear_arith)
            requires
                extent(dims.drop_last()) >= 1,
                dims.last() as nat >= 1,
        ;
    }
}

/// An extent of zero leaves no element.
pub proof fn lemma_extent_zero(dims: Seq<usize>, at: int)
    requires
        0 <= at < dims.len(),
        dims[at] == 0,
    ensures
        extent(dims) == 0,
    decreases dims.len(),
{
    if at == dims.len() - 1 {
        assert(extent(dims.drop_last()) * 0 == 0) by (nonlinear_arith);
    } else {
        lemma_extent_zero(dims.drop_last(), at);
        assert(0 * (dims.last() as nat) == 0) by (nonlinear_arith);
    }
}

/// With positive extents, the first `n` of them hold no more elements than
/// all of them.
pub proof fn lemma_extent_prefix(dims: Seq<usize>, n: int)
    requires
        0 <= n <= dims.len(),
        forall|i: int| 0 <= i < dims.len() ==> dims[i] > 0,
    ensures
        extent(dims.take(n)) <= extent(dims),
    decreases dims.len() - n,
{
    if n == dims.len() {
        assert(dims.take(n) =~= dims);
    } else {
        lemma_extent_prefix(dims, n + 1);
        let next = dims.take(n + 1);
        assert(next.drop_last() =~= dims.take(n));
        assert(next.last() == dims[n]);
        assert(extent(dims.take(n)) <= extent(dims.take(n)) * (dims[n] as nat))
            by (nonlinear_arith)
            requires
                dims[n] as nat >= 1,
        ;
    }
}

/// The members up to `n` take no more bytes than all of them.
pub proof fn lemma_total_length_prefix(fields: Seq<FieldView>, n: int)
    requires
        0 <= n <= fields.len(),
    ensures
        total_length(fields.take(n)) <= total_length(fields),
    decreases fields.len() - n,
{
    if n == fields.len() {
        assert(fields.take(n) =~= fields);
    } else {
        lemma_total_length_prefix(fields, n + 1);
        assert(fields.take(n + 1).drop_last() =~= fields.take(n));
    }
}

/// Whether two lists of extents are the same.
fn same_extents(left: &Vec<usize>, right: &Vec<usize>) -> (same: bool)
    ensures
        same == (left@ == right@),
{
    if left.len() != right.len() {
        return false;
    }
    let mut i: usize = 0;
    while i < left.len()
        invariant
            i <= left.len(),
            left.len() == right.len(),
            forall|j: int| 0 <= j < i ==> left[j] == right[j],
        decreases left.len() - i,
    {
        if left[i] != right[i] {
            return false;
        }
        i += 1;
    }
    assert(left@ =~= right@);
    true
}

impl Datatype {
    /// The number of bytes that one value of the datatype takes, or `None`
    /// where that number is beyond what the machine can count.
    #[verifier::loop_isolation(false)]
    pub fn size(&self) -> (size: Option<usize>)
        ensures
            size == (if self@.size() <= usize::MAX {
                Some(self@.size() as usize)
            } else {
                None
            }),
        decreases self,
    {
        match self {
            Datatype::I8 | Datatype::U8 => Some(1),
            Datatype::I16 | Datatype::U16 => Some(2),
            Datatype::I32 | Datatype::U32 | Datatype::F32 => Some(4),
            Datatype::I64 | Datatype::U64 | Datatype::F64 => Some(8),
            Datatype::Text { length } => Some(*length),
            Datatype::Array { element, dims } => {
                let ghost unit_size = element@.size();
                assert(self@.size() == extent(dims@) * unit_size);
                let mut i: usize = 0;
                while i < dims.len()
                    invariant
                        i <= dims.len(),
                        forall|j: int| 0 <= j < i ==> dims[j] > 0,
                    decreases dims.len() - i,
                {
                    if dims[i] == 0 {
                        proof {
                            lemma_extent_zero(dims@, i as int);
                            assert(0 * unit_size == 0) by (nonlinear_arith);
                        }
                        return Some(0);
                    }
                    i += 1;
                }
                proof {
                    lemma_extent_positive(dims@);
                }
                match element.size() {
                    None => {
                        assert(extent(dims@) * unit_size >= unit_size) by (nonlinear_arith)
                            requires
                                extent(dims@) >= 1,
                        ;
                        None
                    },
                    Some(unit) => {
                        let mut total: usize = unit;
                        let mut i: usize = 0;
                        assert(dims@.take(0) =~= Seq::<usize>::empty());
                        assert(extent(dims@.take(0)) * unit_size == unit_size) by (nonlinear_arith)
                            requires
                                extent(dims@.take(0)) == 1,
                        ;
                        while i < dims.len()
                            invariant
                                i <= dims.len(),
                                total == extent(dims@.take(i as int)) * unit_size,
                            decreases dims.len() - i,
                        {
                            let ghost before = extent(dims@.take(i as int));
                            let ghost after = extent(dims@.take(i + 1));
                            proof {
                                assert(dims@.take(i + 1).drop_last() =~= dims@.take(i as int));
                                assert(after == before * (dims[i as int] as nat));
                                assert(after * unit_size == total * dims[i as int])
                                    by (nonlinear_arith)
                                    requires
                                        after == before * (dims[i as int] as nat),
                                        total == before * unit_size,
                                ;
                            }
                            match total.checked_mul(dims[i]) {
                                None => {
                                    proof {
                                        lemma_extent_prefix(dims@, i + 1);
                                        assert(after * unit_size <= extent(dims@) * unit_size)
                                            by (nonlinear_arith)
                                            requires
                                                after <= extent(dims@),
                                        ;
                                    }
                                    return None;
                                },
                                Some(next) => {
                                    total = next;
                                },
                            }
                            i += 1;
                        }
                        assert(dims@.take(i as int) =~= dims@);
                        Some(total)
                    },
                }
            },
            Datatype::Compound { fields } => {
                let ghost members = self@->Compound_fields;
                let mut total: usize = 0;
                let mut i: usize = 0;
                assert(members.take(0) =~= Seq::<FieldView>::empty());
                while i < fields.len()
                    invariant
                        i <= fields.len(),
                        total == total_length(members.take(i as int)),
                    decreases fields.len() - i,
                {
                    proof {
                        assert(members.take(i + 1).drop_last() =~= members.take(i as int));
                        assert(members.take(i + 1).last().length == fields[i as int].length);
                    }
                    match total.checked_add(fields[i].length) {
                        None => {
                            proof {
                                lemma_total_length_prefix(members, i + 1);
                            }
                            return None;
                        },
                        Some(next) => {
                            total = next;
                        },
                    }
                    i += 1;
                }
                assert(members.take(i as int) =~= members);
                Some(total)
            },
        }
    }

    /// Whether two datatypes describe the same layout.
    #[verifier::loop_isolation(false)]
    pub fn same(&self, other: &Datatype) -> (same: bool)
        ensures
            same == (self@ == other@),
        decreases self,
    {
        match (self, other) {
            (Datatype::I8, Datatype::I8) => true,
            (Datatype::I16, Datatype::I16) => true,
            (Datatype::I32, Datatype::I32) => true,
            (Datatype::I64, Datatype::I64) => true,
            (Datatype::U8, Datatype::U8) => true,
            (Datatype::U16, Datatype::U16) => true,
            (Datatype::U32, Datatype::U32) => true,
            (Datatype::U64, Datatype::U64) => true,
            (Datatype::F32, Datatype::F32) => true,
            (Datatype::F64, Datatype::F64) => true,
            (Datatype::Text { length: left }, Datatype::Text { length: right }) => *left == *right,
            (
                Datatype::Array { element: left, dims: left_dims },
                Datatype::Array { element: right, dims: right_dims },
            ) => left.same(right) && same_extents(left_dims, right_dims),
            (Datatype::Compound { fields: left }, Datatype::Compound { fields: right }) => {
                let ghost left_members = self@->Compound_fields;
                let ghost right_members = other@->Compound_fields;
                if left.len() != right.len() {
                    assert(left_members.len() != right_members.len());
                    return false;
                }
                let mut i: usize = 0;
                while i < left.len()
                    invariant
                        i <= left.len(),
                        forall|j: int| 0 <= j < i ==> left_members[j] == right_members[j],
                    decreases left.len() - i,
                {
                    let l = &left[i];
                    let r = &right[i];
                    assert(left_members[i as int] == l@);
                    assert(right_members[i as int] == r@);
                    if !(l.name == r.name) || l.length != r.length || !l.datatype.same(
                        &r.datatype,
                    ) {
                        return false;
                    }
                    i += 1;
                }
                assert(left_members =~= right_members);
                true
            },
            _ => false,
        }
    }
}

impl PartialEq for Datatype {
    fn eq(&self, other: &Datatype) -> (same: bool) {
        self.same(other)
    }
}

impl vstd::std_specs::cmp::PartialEqSpecImpl for Datatype {
    open spec fn obeys_eq_spec() -> bool {
        true
    }

    open spec fn eq_spec(&self, other: &Datatype) -> bool {
        self@ == other@
    }
}

} // verus!
