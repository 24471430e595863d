use arrow_array::{Array, StringArray};
use json_array::decoder::JsonArrayDecoder;
use json_array::tape::{Tape, TapeElement};

fn strings(texts: &[&str]) -> Vec<String> {
    texts.iter().map(|s| s.to_string()).collect()
}

fn rows(data: arrow_data::ArrayData) -> Vec<Option<String>> {
    let array = StringArray::from(data);
    (0..array.len())
        .map(|i| {
            if array.is_null(i) {
                None
            } else {
                Some(array.value(i).to_string())
            }
        })
        .collect()
}

#[test]
fn round_trip_object() {
    let tape = Tape {
        elements: vec![
            TapeElement::StartObject(8),
            TapeElement::String(0),
            TapeElement::Number(1),
            TapeElement::String(2),
            TapeElement::StartList(7),
            TapeElement::Number(3),
            TapeElement::Number(4),
            TapeElement::EndList(4),
            TapeElement::EndObject(0),
        ],
        strings: strings(&["a", "1", "b", "2", "3"]),
    };
    let decoder = JsonArrayDecoder::new(false);
    let out = rows(decoder.decode(&tape, &[0]).unwrap());
    assert_eq!(out, vec![Some("{\"a\":1,\"b\":[2,3]}".to_string())]);
}

#[test]
fn round_trip_string_scalar() {
    let tape = Tape {
        elements: vec![TapeElement::String(0)],
        strings: strings(&["hi"]),
    };
    let decoder = JsonArrayDecoder::new(false);
    let out = rows(decoder.decode(&tape, &[0]).unwrap());
    assert_eq!(out, vec![Some("\"hi\"".to_string())]);
}

#[test]
fn nullable_null_row_is_null_not_text() {
    let tape = Tape {
        elements: vec![TapeElement::Null],
        strings: vec![],
    };
    let decoder = JsonArrayDecoder::new(true);
    let out = rows(decoder.decode(&tape, &[0]).unwrap());
    assert_eq!(out, vec![None]);
}

#[test]
fn non_nullable_null_row_is_text() {
    let tape = Tape {
        elements: vec![TapeElement::Null],
        strings: vec![],
    };
    let decoder = JsonArrayDecoder::new(false);
    let out = rows(decoder.decode(&tape, &[0]).unwrap());
    assert_eq!(out, vec![Some("null".to_string())]);
}

#[test]
fn validate_row_null_depends_on_nullability() {
    let tape = Tape {
        elements: vec![TapeElement::Null, TapeElement::True],
        strings: vec![],
    };
    assert!(!JsonArrayDecoder::new(false).validate_row(&tape, 0));
    assert!(JsonArrayDecoder::new(true).validate_row(&tape, 0));
    assert!(JsonArrayDecoder::new(false).validate_row(&tape, 1));
    assert!(JsonArrayDecoder::new(true).validate_row(&tape, 1));
}

#[test]
fn empty_object_and_empty_list() {
    let tape = Tape {
        elements: vec![
            TapeElement::StartObject(1),
            TapeElement::EndObject(0),
            TapeElement::StartList(3),
            TapeElement::EndList(2),
        ],
        strings: vec![],
    };
    let decoder = JsonArrayDecoder::new(false);
    let out = rows(decoder.decode(&tape, &[0, 2]).unwrap());
    assert_eq!(
        out,
        vec![Some("{}".to_string()), Some("[]".to_string())]
    );
}

#[test]
fn key_value_alternation_no_trailing_comma() {
    let tape = Tape {
        elements: vec![
            TapeElement::StartObject(7),
            TapeElement::String(0),
            TapeElement::True,
            TapeElement::String(1),
            TapeElement::False,
            TapeElement::String(2),
            TapeElement::Null,
            TapeElement::EndObject(0),
        ],
        strings: strings(&["x", "y", "z"]),
    };
    let decoder = JsonArrayDecoder::new(true);
    let out = rows(decoder.decode(&tape, &[0]).unwrap());
    let text = out[0].clone().unwrap();
    assert_eq!(text, "{\"x\":true,\"y\":false,\"z\":null}");
    assert_eq!(text.matches(',').count(), 2);
    assert!(!text.contains(",}"));
}

#[test]
fn numeric_fidelity() {
    let tape = Tape {
        elements: vec![TapeElement::Number(0), TapeElement::Number(1)],
        strings: strings(&["1.50", "1e10"]),
    };
    let decoder = JsonArrayDecoder::new(false);
    let out = rows(decoder.decode(&tape, &[0, 1]).unwrap());
    assert_eq!(
        out,
        vec![Some("1.50".to_string()), Some("1e10".to_string())]
    );
}

#[test]
fn order_preservation() {
    let tape = Tape {
        elements: vec![
            TapeElement::Number(0),
            TapeElement::Number(1),
            TapeElement::Number(2),
        ],
        strings: strings(&["10", "20", "30"]),
    };
    let decoder = JsonArrayDecoder::new(false);
    let out = rows(decoder.decode(&tape, &[2, 0, 1]).unwrap());
    assert_eq!(
        out,
        vec![
            Some("30".to_string()),
            Some("10".to_string()),
            Some("20".to_string())
        ]
    );
}

#[test]
fn repeated_positions_give_repeated_rows() {
    let tape = Tape {
        elements: vec![TapeElement::False],
        strings: vec![],
    };
    let decoder = JsonArrayDecoder::new(false);
    let out = rows(decoder.decode(&tape, &[0, 0]).unwrap());
    assert_eq!(
        out,
        vec![Some("false".to_string()), Some("false".to_string())]
    );
}

#[test]
fn inner_null_in_list_stays_text() {
    let tape = Tape {
        elements: vec![
            TapeElement::StartList(3),
            TapeElement::Null,
            TapeElement::True,
            TapeElement::EndList(0),
        ],
        strings: vec![],
    };
    let decoder = JsonArrayDecoder::new(true);
    let out = rows(decoder.decode(&tape, &[0]).unwrap());
    assert_eq!(out, vec![Some("[null,true]".to_string())]);
}

#[test]
fn empty_batch_gives_empty_array() {
    let tape = Tape {
        elements: vec![TapeElement::True],
        strings: vec![],
    };
    let decoder = JsonArrayDecoder::new(false);
    let out = rows(decoder.decode(&tape, &[]).unwrap());
    assert_eq!(out, Vec::<Option<String>>::new());
}

#[test]
fn decode_int_appends_to_buffer() {
    let tape = Tape {
        elements: vec![TapeElement::Number(0)],
        strings: strings(&["42"]),
    };
    let decoder = JsonArrayDecoder::new(false);
    let mut text = String::from("prefix:");
    decoder.decode_int(&mut text, &tape, 0).unwrap();
    assert_eq!(text, "prefix:42");
}

#[test]
fn next_skips_whole_subtree() {
    let tape = Tape {
        elements: vec![
            TapeElement::StartList(3),
            TapeElement::Null,
            TapeElement::True,
            TapeElement::EndList(0),
            TapeElement::False,
        ],
        strings: vec![],
    };
    assert_eq!(tape.next(0, "json").unwrap(), 4);
    assert_eq!(tape.next(1, "json").unwrap(), 2);
    assert!(tape.next(3, "json").is_err());
}

#[test]
fn nested_structures_round_trip() {
    // [{"k":[]},{"m":{"n":0}}]
    let tape = Tape {
        elements: vec![
            TapeElement::StartList(13),
            TapeElement::StartObject(5),
            TapeElement::String(0),
            TapeElement::StartList(4),
            TapeElement::EndList(3),
            TapeElement::EndObject(1),
            TapeElement::StartObject(12),
            TapeElement::String(1),
            TapeElement::StartObject(11),
            TapeElement::String(2),
            TapeElement::Number(3),
            TapeElement::EndObject(8),
            TapeElement::EndObject(6),
            TapeElement::EndList(0),
        ],
        strings: strings(&["k", "m", "n", "0"]),
    };
    let decoder = JsonArrayDecoder::new(false);
    let out = rows(decoder.decode(&tape, &[0]).unwrap());
    assert_eq!(
        out,
        vec![Some("[{\"k\":[]},{\"m\":{\"n\":0}}]".to_string())]
    );
}
