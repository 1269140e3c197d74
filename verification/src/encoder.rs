//! The encoder: a state machine over the events of a depth-first walk.
//!
//! The walk of a value reports each scalar, and the start and the end of each
//! sequence, structure and named field. The encoder keeps the aggregate that
//! is open, a stack of what was open around it, and the name under which the
//! next finished value goes. A finished value goes to the aggregate around
//! it, or, where none is open, out to the caller as the [`Dataset`] to store.

use crate::accumulator::{Sequence, SequenceView, Structure, StructureView};
use crate::data::{Data, DataView, Scalar};
use crate::error::{Error, Shape};
use vstd::pervasive::unreached;
use vstd::prelude::*;

verus! {

/// The mathematical value of a [`State`].
pub enum StateView {
    Uncertain,
    Sequence(SequenceView),
    Structure(StructureView),
}

/// What the encoder is in the middle of.
#[derive(Debug)]
pub enum State {
    /// No aggregate is open: the next value is a dataset of its own.
    Uncertain,
    /// An array is being gathered.
    Sequence(Sequence),
    /// A compound is being gathered.
    Structure(Structure),
}

impl View for State {
    type V = StateView;

    open spec fn view(&self) -> StateView {
        match self {
            State::Uncertain => StateView::Uncertain,
            State::Sequence(sequence) => StateView::Sequence(sequence@),
            State::Structure(structure) => StateView::Structure(structure@),
        }
    }
}

/// The mathematical value of a [`Frame`].
pub enum FrameView {
    State(StateView),
    Name(Option<Seq<char>>),
}

/// What was set aside when a scope was entered, to be put back when it is
/// left.
#[derive(Debug)]
pub enum Frame {
    /// The aggregate around the one that was entered.
    State(State),
    /// The pending name around the field that was entered.
    Name(Option<String>),
}

/// The value of a name that may be missing.
pub open spec fn name_view(name: Option<String>) -> Option<Seq<char>> {
    match name {
        Some(name) => Some(name@),
        None => None,
    }
}

impl View for Frame {
    type V = FrameView;

    open spec fn view(&self) -> FrameView {
        match self {
            Frame::State(state) => FrameView::State(state@),
            Frame::Name(name) => FrameView::Name(name_view(*name)),
        }
    }
}

/// The values of the frames `frames`.
pub open spec fn frames_view(frames: Seq<Frame>) -> Seq<FrameView> {
    Seq::new(frames.len(), |i: int| frames[i]@)
}

/// The mathematical value of a [`Dataset`].
pub struct DatasetView {
    pub name: Seq<char>,
    pub data: DataView,
}

/// A finished value and the name to store it under.
#[derive(Debug)]
pub struct Dataset {
    pub name: String,
    pub data: Data,
}

impl View for Dataset {
    type V = DatasetView;

    open spec fn view(&self) -> DatasetView {
        DatasetView { name: self.name@, data: self.data@ }
    }
}

/// The value of a dataset that may be missing.
pub open spec fn written_view(written: Option<Dataset>) -> Option<DatasetView> {
    match written {
        Some(dataset) => Some(dataset@),
        None => None,
    }
}

/// The mathematical value of an [`Encoder`].
pub struct EncoderView {
    /// The name under which the next finished value goes.
    pub name: Option<Seq<char>>,
    /// The aggregate that is open.
    pub state: StateView,
    /// What is set aside, the innermost scope last.
    pub saved: Seq<FrameView>,
}

/// Where an event leads: the encoder after it and the dataset that it hands
/// out, if any; or the failure.
pub type Step = Result<(EncoderView, Option<DatasetView>), Error>;

impl EncoderView {
    /// The encoder at the start of a walk, for a value to be stored as `name`.
    pub open spec fn new(name: Seq<char>) -> EncoderView {
        EncoderView { name: Some(name), state: StateView::Uncertain, saved: Seq::empty() }
    }

    /// A finished value arrives. Outside any aggregate it takes the pending
    /// name and goes out; in a sequence it becomes the next element; in a
    /// structure it takes the pending name and becomes the next member.
    pub open spec fn element(self, value: DataView) -> Step {
        match self.state {
            StateView::Uncertain => match self.name {
                Some(name) => Ok(
                    (
                        EncoderView { name: None, ..self },
                        Some(DatasetView { name, data: value }),
                    ),
                ),
                None => Err(Error::Naming),
            },
            StateView::Sequence(sequence) => match sequence.append(value) {
                Ok(next) => Ok((EncoderView { state: StateView::Sequence(next), ..self }, None)),
                Err(error) => Err(error),
            },
            StateView::Structure(structure) => match self.name {
                Some(name) => match structure.append(name, value) {
                    Ok(next) => Ok(
                        (
                            EncoderView { name: None, state: StateView::Structure(next), ..self },
                            None,
                        ),
                    ),
                    Err(error) => Err(error),
                },
                None => Err(Error::Naming),
            },
        }
    }

    /// A scope of the aggregate `inner` opens: what was open is set aside.
    pub open spec fn enter(self, inner: StateView) -> EncoderView {
        EncoderView {
            name: self.name,
            state: inner,
            saved: self.saved.push(FrameView::State(self.state)),
        }
    }

    /// A sequence opens.
    pub open spec fn enter_sequence(self) -> EncoderView {
        self.enter(StateView::Sequence(SequenceView::empty()))
    }

    /// A structure opens.
    pub open spec fn enter_structure(self) -> EncoderView {
        self.enter(StateView::Structure(StructureView::empty()))
    }

    /// The encoder with the innermost scope dropped and the aggregate that
    /// was set aside open again.
    pub open spec fn leave(self) -> EncoderView {
        EncoderView {
            name: self.name,
            state: self.saved.last()->State_0,
            saved: self.saved.drop_last(),
        }
    }

    /// A sequence is open and is the innermost scope.
    pub open spec fn in_sequence(self) -> bool {
        self.state is Sequence && self.saved.len() > 0 && self.saved.last() is State
    }

    /// A structure is open and is the innermost scope: none of its fields is.
    pub open spec fn in_structure(self) -> bool {
        self.state is Structure && self.saved.len() > 0 && self.saved.last() is State
    }

    /// A field is the innermost scope.
    pub open spec fn in_field(self) -> bool {
        self.saved.len() > 0 && self.saved.last() is Name
    }

    /// The open sequence ends: it is finished into an array, which arrives
    /// as one value where the sequence was entered.
    pub open spec fn exit_sequence(self) -> Step
        recommends
            self.in_sequence(),
    {
        match self.state->Sequence_0.coagulate() {
            Ok(array) => self.leave().element(array),
            Err(error) => Err(error),
        }
    }

    /// The open structure ends: it is finished into a compound, which
    /// arrives as one value where the structure was entered.
    pub open spec fn exit_structure(self) -> Step
        recommends
            self.in_structure(),
    {
        match self.state->Structure_0.coagulate() {
            Ok(compound) => self.leave().element(compound),
            Err(error) => Err(error),
        }
    }

    /// A field named `name` opens. That takes an open structure, and no
    /// field around it whose own name still waits for a value.
    pub open spec fn enter_field(self, name: Seq<char>) -> Result<EncoderView, Error> {
        if !(self.state is Structure) || (self.in_field() && self.name is Some) {
            Err(Error::Naming)
        } else {
            Ok(
                EncoderView {
                    name: Some(name),
                    state: self.state,
                    saved: self.saved.push(FrameView::Name(self.name)),
                },
            )
        }
    }

    /// The open field ends. Its name must have gone to a value; the name
    /// that was pending around the field is pending again.
    pub open spec fn exit_field(self) -> Result<EncoderView, Error>
        recommends
            self.in_field(),
    {
        if self.name is Some {
            Err(Error::Naming)
        } else {
            Ok(
                EncoderView {
                    name: self.saved.last()->Name_0,
                    state: self.state,
                    saved: self.saved.drop_last(),
                },
            )
        }
    }
}

/// The exec outcome `written`, with the encoder `after` it, is the outcome
/// `step`. After a failure nothing is said of the encoder.
pub open spec fn follows(step: Step, after: EncoderView, written: Result<Option<Dataset>, Error>) -> bool {
    match step {
        Ok((next, dataset)) => written is Ok && after == next && written_view(written->Ok_0)
            == dataset,
        Err(error) => written == Err::<Option<Dataset>, Error>(error),
    }
}

/// An encoder of one value under one name.
#[derive(Debug)]
pub struct Encoder {
    name: Option<String>,
    state: State,
    saved: Vec<Frame>,
}

impl View for Encoder {
    type V = EncoderView;

    closed spec fn view(&self) -> EncoderView {
        EncoderView {
            name: name_view(self.name),
            state: self.state@,
            saved: frames_view(self.saved@),
        }
    }
}

impl Encoder {
    /// Creates an encoder for a value to be stored as `name`.
    pub fn new(name: &str) -> (encoder: Result<Encoder, Error>)
        ensures
            encoder is Ok,
            encoder->Ok_0@ == EncoderView::new(name@),
    {
        let encoder = Encoder {
            name: Some(name.to_owned()),
            state: State::Uncertain,
            saved: Vec::new(),
        };
        assert(frames_view(encoder.saved@) =~= Seq::<FrameView>::empty());
        Ok(encoder)
    }

    /// Takes one finished value. Outside any aggregate the value goes out
    /// under the pending name; in a sequence it is the next element; in a
    /// structure it is the next member, under the pending name.
    pub fn element(&mut self, value: Data) -> (written: Result<Option<Dataset>, Error>)
        ensures
            follows(old(self)@.element(value@), final(self)@, written),
    {
        match &mut self.state {
            State::Uncertain => match self.name.take() {
                Some(name) => Ok(Some(Dataset { name, data: value })),
                None => Err(Error::Naming),
            },
            State::Sequence(sequence) => match sequence.append(value) {
                Ok(()) => Ok(None),
                Err(error) => Err(error),
            },
            State::Structure(structure) => match self.name.take() {
                Some(name) => match structure.append(name, value) {
                    Ok(()) => Ok(None),
                    Err(error) => Err(error),
                },
                None => Err(Error::Naming),
            },
        }
    }

    /// Whether a sequence is open and is the innermost scope.
    pub fn in_sequence(&self) -> (answer: bool)
        ensures
            answer == self@.in_sequence(),
    {
        let count = self.saved.len();
        count > 0 && match (&self.state, &self.saved[count - 1]) {
            (State::Sequence(_), Frame::State(_)) => true,
            _ => false,
        }
    }

    /// Whether a structure is open and is the innermost scope.
    pub fn in_structure(&self) -> (answer: bool)
        ensures
            answer == self@.in_structure(),
    {
        let count = self.saved.len();
        count > 0 && match (&self.state, &self.saved[count - 1]) {
            (State::Structure(_), Frame::State(_)) => true,
            _ => false,
        }
    }

    /// Whether a field is the innermost scope.
    pub fn in_field(&self) -> (answer: bool)
        ensures
            answer == self@.in_field(),
    {
        let count = self.saved.len();
        count > 0 && match &self.saved[count - 1] {
            Frame::Name(_) => true,
            _ => false,
        }
    }

    /// Sets the open aggregate aside and opens `inner` in its place.
    fn enter(&mut self, inner: State)
        ensures
            final(self)@ == old(self)@.enter(inner@),
    {
        let mut outer = inner;
        std::mem::swap(&mut self.state, &mut outer);
        self.saved.push(Frame::State(outer));
        assert(frames_view(self.saved@) =~= old(self)@.saved.push(FrameView::State(old(self)@.state)));
    }

    /// Drops the innermost scope, an aggregate, and opens again what was set
    /// aside for it. Returns the aggregate that was open.
    fn leave(&mut self) -> (inner: State)
        requires
            old(self)@.saved.len() > 0,
            old(self)@.saved.last() is State,
        ensures
            final(self)@ == old(self)@.leave(),
            inner@ == old(self)@.state,
    {
        match self.saved.pop() {
            Some(Frame::State(outer)) => {
                let mut inner = outer;
                std::mem::swap(&mut self.state, &mut inner);
                assert(frames_view(self.saved@) =~= old(self)@.saved.drop_last());
                inner
            },
            _ => unreached(),
        }
    }

    /// Opens a sequence: the values up to the matching
    /// [`Encoder::exit_sequence`] are its elements.
    pub fn enter_sequence(&mut self)
        ensures
            final(self)@ == old(self)@.enter_sequence(),
    {
        self.enter(State::Sequence(Sequence::new()))
    }

    /// Opens a structure: the fields up to the matching
    /// [`Encoder::exit_structure`] are its members.
    pub fn enter_structure(&mut self)
        ensures
            final(self)@ == old(self)@.enter_structure(),
    {
        self.enter(State::Structure(Structure::new()))
    }

    /// Ends the open sequence. It is finished into an array, and the array is
    /// taken as one value where the sequence was entered.
    pub fn exit_sequence(&mut self) -> (written: Result<Option<Dataset>, Error>)
        requires
            old(self)@.in_sequence(),
        ensures
            follows(old(self)@.exit_sequence(), final(self)@, written),
    {
        match self.leave() {
            State::Sequence(sequence) => match sequence.coagulate() {
                Ok(array) => self.element(array),
                Err(error) => Err(error),
            },
            _ => unreached(),
        }
    }

    /// Ends the open structure. It is finished into a compound, and the
    /// compound is taken as one value where the structure was entered.
    pub fn exit_structure(&mut self) -> (written: Result<Option<Dataset>, Error>)
        requires
            old(self)@.in_structure(),
        ensures
            follows(old(self)@.exit_structure(), final(self)@, written),
    {
        match self.leave() {
            State::Structure(structure) => match structure.coagulate() {
                Ok(compound) => self.element(compound),
                Err(error) => Err(error),
            },
            _ => unreached(),
        }
    }

    /// Opens a field named `name`: the next value is the member of that name.
    /// Fails with [`Error::Naming`], leaving the encoder as it was, unless a
    /// structure is open, and where the field around this one still waits
    /// for its own value.
    pub fn enter_field(&mut self, name: &str) -> (done: Result<(), Error>)
        ensures
            match old(self)@.enter_field(name@) {
                Ok(next) => done is Ok && final(self)@ == next,
                Err(error) => done == Err::<(), Error>(error) && final(self)@ == old(self)@,
            },
    {
        let open = match &self.state {
            State::Structure(_) => true,
            _ => false,
        };
        if !open || (self.in_field() && self.name.is_some()) {
            return Err(Error::Naming);
        }
        let mut outer = Some(name.to_owned());
        std::mem::swap(&mut self.name, &mut outer);
        self.saved.push(Frame::Name(outer));
        assert(frames_view(self.saved@) =~= old(self)@.saved.push(FrameView::Name(old(self)@.name)));
        Ok(())
    }

    /// Ends the open field. Fails with [`Error::Naming`], leaving the encoder
    /// as it was, where the field got no value.
    pub fn exit_field(&mut self) -> (done: Result<(), Error>)
        requires
            old(self)@.in_field(),
        ensures
            match old(self)@.exit_field() {
                Ok(next) => done is Ok && final(self)@ == next,
                Err(error) => done == Err::<(), Error>(error) && final(self)@ == old(self)@,
            },
    {
        if self.name.is_some() {
            return Err(Error::Naming);
        }
        match self.saved.pop() {
            Some(Frame::Name(outer)) => {
                self.name = outer;
                assert(frames_view(self.saved@) =~= old(self)@.saved.drop_last());
                Ok(())
            },
            _ => unreached(),
        }
    }

    /// Refuses a value of a shape that is never encoded. The encoder is not
    /// touched and nothing goes out.
    pub fn reject(&self, shape: Shape) -> (written: Result<Option<Dataset>, Error>)
        ensures
            written == Err::<Option<Dataset>, Error>(Error::UnsupportedShape(shape)),
    {
        Err(Error::UnsupportedShape(shape))
    }

    /// Takes a signed integer of 8 bits.
    pub fn emit_i8(&mut self, value: i8) -> (written: Result<Option<Dataset>, Error>)
        ensures
            follows(
                old(self)@.element(DataView::scalar(Scalar::I8(value))),
                final(self)@,
                written,
            ),
    {
        self.element(Data::scalar(Scalar::I8(value)))
    }

    /// Takes a signed integer of 16 bits.
    pub fn emit_i16(&mut self, value: i16) -> (written: Result<Option<Dataset>, Error>)
        ensures
            follows(
                old(self)@.element(DataView::scalar(Scalar::I16(value))),
                final(self)@,
                written,
            ),
    {
        self.element(Data::scalar(Scalar::I16(value)))
    }

    /// Takes a signed integer of 32 bits.
    pub fn emit_i32(&mut self, value: i32) -> (written: Result<Option<Dataset>, Error>)
        ensures
            follows(
                old(self)@.element(DataView::scalar(Scalar::I32(value))),
                final(self)@,
                written,
            ),
    {
        self.element(Data::scalar(Scalar::I32(value)))
    }

    /// Takes a signed integer of 64 bits.
    pub fn emit_i64(&mut self, value: i64) -> (written: Result<Option<Dataset>, Error>)
        ensures
            follows(
                old(self)@.element(DataView::scalar(Scalar::I64(value))),
                final(self)@,
                written,
            ),
    {
        self.element(Data::scalar(Scalar::I64(value)))
    }

    /// Takes a signed integer of the machine's word, as one of 64 bits.
    pub fn emit_isize(&mut self, value: isize) -> (written: Result<Option<Dataset>, Error>)
        ensures
            follows(
                old(self)@.element(DataView::scalar(Scalar::I64(value as i64))),
                final(self)@,
                written,
            ),
    {
        self.element(Data::scalar(Scalar::I64(value as i64)))
    }

    /// Takes an unsigned integer of 8 bits.
    pub fn emit_u8(&mut self, value: u8) -> (written: Result<Option<Dataset>, Error>)
        ensures
            follows(
                old(self)@.element(DataView::scalar(Scalar::U8(value))),
                final(self)@,
                written,
            ),
    {
        self.element(Data::scalar(Scalar::U8(value)))
    }

    /// Takes an unsigned integer of 16 bits.
    pub fn emit_u16(&mut self, value: u16) -> (written: Result<Option<Dataset>, Error>)
        ensures
            follows(
                old(self)@.element(DataView::scalar(Scalar::U16(value))),
                final(self)@,
                written,
            ),
    {
        self.element(Data::scalar(Scalar::U16(value)))
    }

    /// Takes an unsigned integer of 32 bits.
    pub fn emit_u32(&mut self, value: u32) -> (written: Result<Option<Dataset>, Error>)
        ensures
            follows(
                old(self)@.element(DataView::scalar(Scalar::U32(value))),
                final(self)@,
                written,
            ),
    {
        self.element(Data::scalar(Scalar::U32(value)))
    }

    /// Takes an unsigned integer of 64 bits.
    pub fn emit_u64(&mut self, value: u64) -> (written: Result<Option<Dataset>, Error>)
        ensures
            follows(
                old(self)@.element(DataView::scalar(Scalar::U64(value))),
                final(self)@,
                written,
            ),
    {
        self.element(Data::scalar(Scalar::U64(value)))
    }

    /// Takes an unsigned integer of the machine's word, as one of 64 bits.
    pub fn emit_usize(&mut self, value: usize) -> (written: Result<Option<Dataset>, Error>)
        ensures
            follows(
                old(self)@.element(DataView::scalar(Scalar::U64(value as u64))),
                final(self)@,
                written,
            ),
    {
        self.element(Data::scalar(Scalar::U64(value as u64)))
    }

    /// Takes a floating-point number of 32 bits, given by its bit pattern.
    pub fn emit_f32(&mut self, bits: u32) -> (written: Result<Option<Dataset>, Error>)
        ensures
            follows(
                old(self)@.element(DataView::scalar(Scalar::F32(bits))),
                final(self)@,
                written,
            ),
    {
        self.element(Data::scalar(Scalar::F32(bits)))
    }

    /// Takes a floating-point number of 64 bits, given by its bit pattern.
    pub fn emit_f64(&mut self, bits: u64) -> (written: Result<Option<Dataset>, Error>)
        ensures
            follows(
                old(self)@.element(DataView::scalar(Scalar::F64(bits))),
                final(self)@,
                written,
            ),
    {
        self.element(Data::scalar(Scalar::F64(bits)))
    }

    /// Takes one character, as the unsigned integer of 32 bits that is its
    /// code point.
    pub fn emit_char(&mut self, value: char) -> (written: Result<Option<Dataset>, Error>)
        ensures
            follows(
                old(self)@.element(DataView::scalar(Scalar::U32(value as u32))),
                final(self)@,
                written,
            ),
    {
        self.element(Data::scalar(Scalar::U32(value as u32)))
    }

    /// Takes a text, as its UTF-8 bytes.
    pub fn emit_str(&mut self, value: &str) -> (written: Result<Option<Dataset>, Error>)
        ensures
            follows(old(self)@.element(DataView::text(value@)), final(self)@, written),
    {
        self.element(Data::text(value))
    }
}

} // verus!
