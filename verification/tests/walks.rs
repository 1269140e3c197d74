use hdf5::{Data, Dataset, Datatype, Encoder, Error, Field, Scalar, Sequence, Shape, Structure};

fn out(result: Result<Option<Dataset>, Error>) -> Dataset {
    result.unwrap().unwrap()
}

fn kept(result: Result<Option<Dataset>, Error>) {
    assert!(result.unwrap().is_none());
}

fn failed(result: Result<Option<Dataset>, Error>) -> Error {
    result.unwrap_err()
}

fn one_row(element: Datatype, count: usize) -> Datatype {
    Datatype::Array { element: Box::new(element), dims: vec![1, count] }
}

fn member(name: &str, datatype: Datatype, length: usize) -> Field {
    Field { name: name.to_string(), datatype, length }
}

#[test]
fn top_level_integer_goes_out_under_its_name() {
    let mut encoder = Encoder::new("a").unwrap();
    let dataset = out(encoder.emit_i32(42));
    assert_eq!(dataset.name, "a");
    assert_eq!(*dataset.data.datatype(), Datatype::I32);
    assert_eq!(dataset.data.as_bytes().as_slice(), &[42u8, 0, 0, 0]);
    assert_eq!(i32::from_le_bytes([42, 0, 0, 0]), 42);
}

#[test]
fn float_sequence_is_one_row_of_two() {
    let mut encoder = Encoder::new("a").unwrap();
    encoder.enter_sequence();
    kept(encoder.emit_f64(42f64.to_bits()));
    kept(encoder.emit_f64(69f64.to_bits()));
    let dataset = out(encoder.exit_sequence());
    assert_eq!(dataset.name, "a");
    assert_eq!(*dataset.data.datatype(), one_row(Datatype::F64, 2));
    let mut bytes = 42f64.to_le_bytes().to_vec();
    bytes.extend_from_slice(&69f64.to_le_bytes());
    assert_eq!(dataset.data.as_bytes(), &bytes);
    assert_eq!(dataset.data.datatype().size(), Some(16));
}

#[test]
fn structure_with_a_sequence_member() {
    let mut encoder = Encoder::new("s").unwrap();
    encoder.enter_structure();
    encoder.enter_field("a").unwrap();
    kept(encoder.emit_f64(42f64.to_bits()));
    encoder.exit_field().unwrap();
    encoder.enter_field("b").unwrap();
    kept(encoder.emit_i64(42));
    encoder.exit_field().unwrap();
    encoder.enter_field("c").unwrap();
    encoder.enter_sequence();
    kept(encoder.emit_u64(42));
    kept(encoder.emit_u64(69));
    kept(encoder.exit_sequence());
    encoder.exit_field().unwrap();
    let dataset = out(encoder.exit_structure());

    let expected = Datatype::Compound {
        fields: vec![
            member("a", Datatype::F64, 8),
            member("b", Datatype::I64, 8),
            member("c", one_row(Datatype::U64, 2), 16),
        ],
    };
    assert_eq!(*dataset.data.datatype(), expected);
    assert_eq!(dataset.data.as_bytes().len(), 8 + 8 + 16);
    match dataset.data.datatype() {
        Datatype::Compound { fields } => {
            assert_eq!(fields.len(), 3);
            assert_eq!(fields[0].name, "a");
            assert_eq!(fields[1].name, "b");
            assert_eq!(fields[2].name, "c");
            assert!(matches!(fields[2].datatype, Datatype::Array { .. }));
            let total: usize = fields.iter().map(|field| field.length).sum();
            assert_eq!(total, dataset.data.as_bytes().len());
        }
        other => panic!("not a compound: {:?}", other),
    }
}

#[test]
fn field_without_a_value_fails_on_naming() {
    let mut encoder = Encoder::new("s").unwrap();
    encoder.enter_structure();
    encoder.enter_field("a").unwrap();
    assert!(encoder.in_field());
    assert_eq!(encoder.exit_field().unwrap_err(), Error::Naming);
}

#[test]
fn sequence_round_trip_of_signed_numbers() {
    let values: [i16; 5] = [-2, 300, i16::MIN, i16::MAX, 0];
    let mut encoder = Encoder::new("v").unwrap();
    encoder.enter_sequence();
    for value in values {
        kept(encoder.emit_i16(value));
    }
    let dataset = out(encoder.exit_sequence());
    assert_eq!(*dataset.data.datatype(), one_row(Datatype::I16, 5));
    let bytes = dataset.data.as_bytes();
    assert_eq!(bytes.len(), 10);
    let mut back = Vec::new();
    for chunk in bytes.chunks(2) {
        back.push(i16::from_le_bytes([chunk[0], chunk[1]]));
    }
    assert_eq!(back, values);
}

#[test]
fn sequence_round_trip_of_floats() {
    let values = [1.5f32, -0.0, f32::MAX, 69.0];
    let mut encoder = Encoder::new("v").unwrap();
    encoder.enter_sequence();
    for value in values {
        kept(encoder.emit_f32(value.to_bits()));
    }
    let dataset = out(encoder.exit_sequence());
    let mut back = Vec::new();
    for chunk in dataset.data.as_bytes().chunks(4) {
        back.push(f32::from_le_bytes([chunk[0], chunk[1], chunk[2], chunk[3]]).to_bits());
    }
    let bits: Vec<u32> = values.iter().map(|value| value.to_bits()).collect();
    assert_eq!(back, bits);
}

#[test]
fn sequence_round_trip_of_texts_of_one_length() {
    let mut encoder = Encoder::new("t").unwrap();
    encoder.enter_sequence();
    kept(encoder.emit_str("ab"));
    kept(encoder.emit_str("cd"));
    let dataset = out(encoder.exit_sequence());
    assert_eq!(*dataset.data.datatype(), one_row(Datatype::Text { length: 2 }, 2));
    let bytes = dataset.data.as_bytes();
    assert_eq!(std::str::from_utf8(&bytes[0..2]).unwrap(), "ab");
    assert_eq!(std::str::from_utf8(&bytes[2..4]).unwrap(), "cd");
}

#[test]
fn texts_of_different_lengths_do_not_mix() {
    let mut encoder = Encoder::new("t").unwrap();
    encoder.enter_sequence();
    kept(encoder.emit_str("ab"));
    assert_eq!(failed(encoder.emit_str("c")), Error::TypeMismatch);
}

#[test]
fn members_keep_the_order_in_which_they_came() {
    let mut encoder = Encoder::new("s").unwrap();
    encoder.enter_structure();
    for (name, value) in [("z", 1u8), ("a", 2u8), ("m", 3u8)] {
        encoder.enter_field(name).unwrap();
        kept(encoder.emit_u8(value));
        encoder.exit_field().unwrap();
    }
    let dataset = out(encoder.exit_structure());
    let expected = Datatype::Compound {
        fields: vec![
            member("z", Datatype::U8, 1),
            member("a", Datatype::U8, 1),
            member("m", Datatype::U8, 1),
        ],
    };
    assert_eq!(*dataset.data.datatype(), expected);
    assert_eq!(dataset.data.as_bytes().as_slice(), &[1u8, 2, 3]);
    assert_eq!(dataset.data.datatype().size(), Some(3));
}

#[test]
fn empty_sequence_fails_as_empty() {
    let mut encoder = Encoder::new("a").unwrap();
    encoder.enter_sequence();
    assert!(encoder.in_sequence());
    assert_eq!(failed(encoder.exit_sequence()), Error::EmptyAggregate);
}

#[test]
fn empty_sequence_fails_as_empty_without_a_name() {
    let mut encoder = Encoder::new("a").unwrap();
    out(encoder.emit_u8(1));
    encoder.enter_sequence();
    assert_eq!(failed(encoder.exit_sequence()), Error::EmptyAggregate);
}

#[test]
fn sequence_of_one_element_does_not_fail() {
    let mut encoder = Encoder::new("a").unwrap();
    encoder.enter_sequence();
    kept(encoder.emit_u16(7));
    let dataset = out(encoder.exit_sequence());
    assert_eq!(*dataset.data.datatype(), one_row(Datatype::U16, 1));
    assert_eq!(dataset.data.as_bytes().as_slice(), &[7u8, 0]);
}

#[test]
fn integer_and_float_do_not_mix() {
    let mut encoder = Encoder::new("a").unwrap();
    encoder.enter_sequence();
    kept(encoder.emit_i8(1));
    assert_eq!(failed(encoder.emit_f32(2f32.to_bits())), Error::TypeMismatch);
}

#[test]
fn every_unsupported_shape_is_refused_at_any_depth() {
    let shapes = [
        Shape::Boolean,
        Shape::Enumeration,
        Shape::Dictionary,
        Shape::Optional,
        Shape::Tuple,
        Shape::TupleStruct,
        Shape::Nil,
    ];
    let mut encoder = Encoder::new("a").unwrap();
    for shape in shapes {
        assert_eq!(failed(encoder.reject(shape)), Error::UnsupportedShape(shape));
    }
    encoder.enter_structure();
    encoder.enter_field("x").unwrap();
    encoder.enter_sequence();
    for shape in shapes {
        assert_eq!(failed(encoder.reject(shape)), Error::UnsupportedShape(shape));
    }
    kept(encoder.emit_u8(9));
    kept(encoder.exit_sequence());
    encoder.exit_field().unwrap();
    let dataset = out(encoder.exit_structure());
    assert_eq!(dataset.data.as_bytes().as_slice(), &[9u8]);
}

#[test]
fn second_top_level_value_has_no_name() {
    let mut encoder = Encoder::new("a").unwrap();
    out(encoder.emit_u8(1));
    assert_eq!(failed(encoder.emit_u8(2)), Error::Naming);
}

#[test]
fn member_without_a_field_has_no_name() {
    let mut encoder = Encoder::new("a").unwrap();
    encoder.enter_structure();
    encoder.enter_field("x").unwrap();
    kept(encoder.emit_u8(1));
    assert_eq!(failed(encoder.emit_u8(2)), Error::Naming);
}

#[test]
fn field_outside_a_structure_is_refused() {
    let mut encoder = Encoder::new("a").unwrap();
    assert_eq!(encoder.enter_field("x").unwrap_err(), Error::Naming);
    encoder.enter_sequence();
    assert_eq!(encoder.enter_field("x").unwrap_err(), Error::Naming);
    kept(encoder.emit_u8(1));
    let dataset = out(encoder.exit_sequence());
    assert_eq!(dataset.name, "a");
}

#[test]
fn field_inside_a_field_that_still_waits_is_refused() {
    let mut encoder = Encoder::new("a").unwrap();
    encoder.enter_structure();
    encoder.enter_field("x").unwrap();
    assert_eq!(encoder.enter_field("y").unwrap_err(), Error::Naming);
    kept(encoder.emit_u8(1));
    encoder.exit_field().unwrap();
    assert!(encoder.in_structure());
}

#[test]
fn two_members_of_one_name_are_refused() {
    let mut encoder = Encoder::new("a").unwrap();
    encoder.enter_structure();
    encoder.enter_field("x").unwrap();
    kept(encoder.emit_u8(1));
    encoder.exit_field().unwrap();
    encoder.enter_field("x").unwrap();
    assert_eq!(failed(encoder.emit_u8(2)), Error::Naming);
}

#[test]
fn empty_structure_is_a_compound_of_no_member() {
    let mut encoder = Encoder::new("a").unwrap();
    encoder.enter_structure();
    let dataset = out(encoder.exit_structure());
    assert_eq!(*dataset.data.datatype(), Datatype::Compound { fields: vec![] });
    assert!(dataset.data.as_bytes().is_empty());
}

#[test]
fn elements_that_take_no_bytes_are_malformed() {
    let mut encoder = Encoder::new("a").unwrap();
    encoder.enter_sequence();
    kept(encoder.emit_str(""));
    kept(encoder.emit_str(""));
    assert_eq!(failed(encoder.exit_sequence()), Error::MalformedData);

    let mut encoder = Encoder::new("b").unwrap();
    encoder.enter_sequence();
    encoder.enter_structure();
    kept(encoder.exit_structure());
    assert_eq!(failed(encoder.exit_sequence()), Error::MalformedData);
}

#[test]
fn sequence_of_sequences() {
    let mut encoder = Encoder::new("m").unwrap();
    encoder.enter_sequence();
    for row in [[1u8, 2, 3], [4, 5, 6]] {
        encoder.enter_sequence();
        for value in row {
            kept(encoder.emit_u8(value));
        }
        kept(encoder.exit_sequence());
    }
    let dataset = out(encoder.exit_sequence());
    assert_eq!(*dataset.data.datatype(), one_row(one_row(Datatype::U8, 3), 2));
    assert_eq!(dataset.data.as_bytes().as_slice(), &[1u8, 2, 3, 4, 5, 6]);
}

#[test]
fn rows_of_different_lengths_do_not_mix() {
    let mut encoder = Encoder::new("m").unwrap();
    encoder.enter_sequence();
    encoder.enter_sequence();
    kept(encoder.emit_u8(1));
    kept(encoder.exit_sequence());
    encoder.enter_sequence();
    kept(encoder.emit_u8(1));
    kept(encoder.emit_u8(2));
    assert_eq!(failed(encoder.exit_sequence()), Error::TypeMismatch);
}

#[test]
fn scopes_are_told_apart() {
    let mut encoder = Encoder::new("a").unwrap();
    assert!(!encoder.in_sequence() && !encoder.in_structure() && !encoder.in_field());
    encoder.enter_structure();
    assert!(encoder.in_structure() && !encoder.in_sequence() && !encoder.in_field());
    encoder.enter_field("x").unwrap();
    assert!(encoder.in_field() && !encoder.in_structure() && !encoder.in_sequence());
    encoder.enter_sequence();
    assert!(encoder.in_sequence() && !encoder.in_structure() && !encoder.in_field());
}

#[test]
fn negative_numbers_are_in_twos_complement() {
    assert_eq!(Scalar::I8(-1).to_bytes(), vec![0xff]);
    assert_eq!(Scalar::I16(-2).to_bytes(), vec![0xfe, 0xff]);
    assert_eq!(Scalar::I32(-2).to_bytes(), (-2i32).to_le_bytes().to_vec());
    assert_eq!(Scalar::I64(i64::MIN).to_bytes(), i64::MIN.to_le_bytes().to_vec());
    assert_eq!(Scalar::U16(0x1234).to_bytes(), vec![0x34, 0x12]);
    assert_eq!(Scalar::U32(0x01020304).to_bytes(), vec![4, 3, 2, 1]);
    assert_eq!(Scalar::U64(0x0102030405060708).to_bytes(), vec![8, 7, 6, 5, 4, 3, 2, 1]);
    assert_eq!(Scalar::F32(1f32.to_bits()).to_bytes(), 1f32.to_le_bytes().to_vec());
    assert_eq!(Scalar::F64(1f64.to_bits()).to_bytes(), 1f64.to_le_bytes().to_vec());
    assert_eq!(Scalar::U8(200).to_bytes(), vec![200]);
}

#[test]
fn numbers_know_their_datatype() {
    assert_eq!(Scalar::I8(0).datatype(), Datatype::I8);
    assert_eq!(Scalar::I16(0).datatype(), Datatype::I16);
    assert_eq!(Scalar::I32(0).datatype(), Datatype::I32);
    assert_eq!(Scalar::I64(0).datatype(), Datatype::I64);
    assert_eq!(Scalar::U8(0).datatype(), Datatype::U8);
    assert_eq!(Scalar::U16(0).datatype(), Datatype::U16);
    assert_eq!(Scalar::U32(0).datatype(), Datatype::U32);
    assert_eq!(Scalar::U64(0).datatype(), Datatype::U64);
    assert_eq!(Scalar::F32(0).datatype(), Datatype::F32);
    assert_eq!(Scalar::F64(0).datatype(), Datatype::F64);
}

#[test]
fn sizes_of_datatypes() {
    assert_eq!(Datatype::I8.size(), Some(1));
    assert_eq!(Datatype::U16.size(), Some(2));
    assert_eq!(Datatype::F32.size(), Some(4));
    assert_eq!(Datatype::I64.size(), Some(8));
    assert_eq!(Datatype::Text { length: 14 }.size(), Some(14));
    let grid = Datatype::Array { element: Box::new(Datatype::U32), dims: vec![3, 5] };
    assert_eq!(grid.size(), Some(60));
    let none = Datatype::Array { element: Box::new(Datatype::U32), dims: vec![] };
    assert_eq!(none.size(), Some(4));
    let record = Datatype::Compound {
        fields: vec![member("a", Datatype::U32, 4), member("b", grid, 60)],
    };
    assert_eq!(record.size(), Some(64));
}

#[test]
fn sizes_beyond_the_machine_are_none() {
    let huge = Datatype::Array { element: Box::new(Datatype::U64), dims: vec![usize::MAX, 2] };
    assert_eq!(huge.size(), None);
    let emptied = Datatype::Array { element: Box::new(Datatype::U64), dims: vec![usize::MAX, 2, 0] };
    assert_eq!(emptied.size(), Some(0));
    let nothing = Datatype::Array {
        element: Box::new(Datatype::Text { length: 0 }),
        dims: vec![usize::MAX, usize::MAX],
    };
    assert_eq!(nothing.size(), Some(0));
    let nested = Datatype::Array { element: Box::new(huge), dims: vec![1] };
    assert_eq!(nested.size(), None);
    let record = Datatype::Compound {
        fields: vec![member("a", Datatype::U8, usize::MAX), member("b", Datatype::U8, 1)],
    };
    assert_eq!(record.size(), None);
}

#[test]
fn datatypes_compare_by_what_they_describe() {
    assert!(Datatype::I8.same(&Datatype::I8));
    assert!(!Datatype::I8.same(&Datatype::U8));
    assert!(Datatype::I32 != Datatype::F32);
    assert!(Datatype::Text { length: 2 } != Datatype::Text { length: 3 });
    assert_eq!(one_row(Datatype::I8, 2), one_row(Datatype::I8, 2));
    assert!(one_row(Datatype::I8, 2) != one_row(Datatype::I8, 3));
    assert!(one_row(Datatype::I8, 2) != one_row(Datatype::U8, 2));
    let left = Datatype::Compound { fields: vec![member("a", Datatype::U8, 1)] };
    assert_eq!(left, Datatype::Compound { fields: vec![member("a", Datatype::U8, 1)] });
    assert!(left != Datatype::Compound { fields: vec![member("b", Datatype::U8, 1)] });
    assert!(left != Datatype::Compound { fields: vec![member("a", Datatype::I8, 1)] });
    assert!(left != Datatype::Compound { fields: vec![member("a", Datatype::U8, 2)] });
    assert!(left != Datatype::Compound { fields: vec![] });
    assert!(left != Datatype::U8);
}

#[test]
fn bytes_must_be_as_many_as_the_datatype_says() {
    let data = Data::new(Datatype::U16, vec![1, 2]).unwrap();
    assert_eq!(*data.datatype(), Datatype::U16);
    assert_eq!(data.as_bytes().as_slice(), &[1u8, 2]);
    assert_eq!(Data::new(Datatype::U16, vec![1]).unwrap_err(), Error::MalformedData);
    assert_eq!(Data::new(Datatype::U16, vec![1, 2, 3]).unwrap_err(), Error::MalformedData);
    let huge = Datatype::Array { element: Box::new(Datatype::U64), dims: vec![usize::MAX] };
    assert_eq!(Data::new(huge, vec![]).unwrap_err(), Error::MalformedData);
    let (datatype, bytes) = Data::scalar(Scalar::U32(1)).into_parts();
    assert_eq!(datatype, Datatype::U32);
    assert_eq!(bytes, vec![1, 0, 0, 0]);
}

#[test]
fn text_carries_the_number_of_its_bytes() {
    let data = Data::text("世界");
    assert_eq!(*data.datatype(), Datatype::Text { length: 6 });
    assert_eq!(data.as_bytes().as_slice(), "世界".as_bytes());
    let empty = Data::text("");
    assert_eq!(*empty.datatype(), Datatype::Text { length: 0 });
}

#[test]
fn sequence_accumulates_and_coagulates() {
    let mut sequence = Sequence::new();
    sequence.append(Data::scalar(Scalar::U16(1))).unwrap();
    sequence.append(Data::scalar(Scalar::U16(2))).unwrap();
    assert_eq!(sequence.append(Data::scalar(Scalar::I16(3))).unwrap_err(), Error::TypeMismatch);
    sequence.append(Data::scalar(Scalar::U16(3))).unwrap();
    let array = sequence.coagulate().unwrap();
    assert_eq!(*array.datatype(), one_row(Datatype::U16, 3));
    assert_eq!(array.as_bytes().as_slice(), &[1u8, 0, 2, 0, 3, 0]);
    assert_eq!(Sequence::new().coagulate().unwrap_err(), Error::EmptyAggregate);
}

#[test]
fn structure_accumulates_and_coagulates() {
    let mut structure = Structure::new();
    structure.append("x".to_string(), Data::scalar(Scalar::U16(1))).unwrap();
    structure.append("y".to_string(), Data::text("abc")).unwrap();
    assert_eq!(
        structure.append("x".to_string(), Data::scalar(Scalar::U8(0))).unwrap_err(),
        Error::Naming
    );
    let compound = structure.coagulate().unwrap();
    let expected = Datatype::Compound {
        fields: vec![member("x", Datatype::U16, 2), member("y", Datatype::Text { length: 3 }, 3)],
    };
    assert_eq!(*compound.datatype(), expected);
    assert_eq!(compound.as_bytes().as_slice(), &[1u8, 0, b'a', b'b', b'c']);
}

#[test]
fn character_is_its_code_point() {
    let mut encoder = Encoder::new("c").unwrap();
    let dataset = out(encoder.emit_char('A'));
    assert_eq!(*dataset.data.datatype(), Datatype::U32);
    assert_eq!(dataset.data.as_bytes().as_slice(), &[65u8, 0, 0, 0]);
}

#[test]
fn finished_value_may_be_handed_in_as_it_is() {
    let mut encoder = Encoder::new("a").unwrap();
    let array = Data::new(one_row(Datatype::U8, 2), vec![1, 2]).unwrap();
    let dataset = out(encoder.element(array));
    assert_eq!(dataset.name, "a");
    assert_eq!(*dataset.data.datatype(), one_row(Datatype::U8, 2));
}
