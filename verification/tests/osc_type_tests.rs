use libhi::{
    char_to_osc_type, coerce_arguments, coercion_is_defined, copy_arg, is_tag_char, osc_type_to_char,
    osctype_coerce, osctype_is_coercible, osctype_is_numerical, type_tags, Coerced, FloatCast,
    OscArg, OscColor, OscMidiMessage, OscTime,
};

const TAGS: [char; 14] = ['i', 'f', 's', 'b', 't', 'h', 'd', 'c', 'r', 'm', 'T', 'F', 'N', 'I'];

fn sample_args() -> Vec<OscArg> {
    vec![
        OscArg::Int(3),
        OscArg::Float(1.5f32.to_bits()),
        OscArg::String("hi".to_string()),
        OscArg::Blob(vec![1, 2]),
        OscArg::Time(OscTime { seconds: 1, fractional: 2 }),
        OscArg::Long(7),
        OscArg::Double(2.5f64.to_bits()),
        OscArg::Char('x'),
        OscArg::Color(OscColor { red: 1, green: 2, blue: 3, alpha: 4 }),
        OscArg::Midi(OscMidiMessage { port: 1, status: 2, data1: 3, data2: 4 }),
        OscArg::Bool(true),
        OscArg::Bool(false),
        OscArg::Nil,
        OscArg::Inf,
    ]
}

#[test]
fn type_tag_of_every_variant() {
    let tags: Vec<char> = sample_args().iter().map(osc_type_to_char).collect();
    assert_eq!(tags, TAGS.to_vec());
}

#[test]
fn tag_of_default_is_the_tag() {
    for c in TAGS {
        assert!(is_tag_char(c));
        assert_eq!(osc_type_to_char(&char_to_osc_type(c)), c);
    }
}

#[test]
fn non_tags_are_recognised() {
    for c in ['x', 'a', 'S', ' ', '['] {
        assert!(!is_tag_char(c));
    }
}

#[test]
fn defaults_are_zero_values() {
    assert!(matches!(char_to_osc_type('i'), OscArg::Int(0)));
    assert!(matches!(char_to_osc_type('f'), OscArg::Float(0)));
    assert!(matches!(char_to_osc_type('s'), OscArg::String(s) if s.is_empty()));
    assert!(matches!(char_to_osc_type('b'), OscArg::Blob(b) if b.is_empty()));
    assert!(matches!(char_to_osc_type('c'), OscArg::Char('\0')));
    assert!(matches!(char_to_osc_type('T'), OscArg::Bool(true)));
    assert!(matches!(char_to_osc_type('F'), OscArg::Bool(false)));
    assert!(matches!(
        char_to_osc_type('t'),
        OscArg::Time(OscTime { seconds: 0, fractional: 0 })
    ));
}

#[test]
fn numbers_are_numerical() {
    let args = sample_args();
    let numerical: Vec<bool> = args.iter().map(osctype_is_numerical).collect();
    assert_eq!(
        numerical,
        vec![true, true, false, false, false, true, true, false, false, false, false, false, false, false]
    );
}

#[test]
fn coercible_pairs() {
    assert!(osctype_is_coercible(&OscArg::Int(1), &OscArg::Double(0)));
    assert!(osctype_is_coercible(&OscArg::Float(0), &OscArg::Long(3)));
    assert!(osctype_is_coercible(&OscArg::Bool(true), &OscArg::Bool(false)));
    assert!(osctype_is_coercible(&OscArg::String("a".into()), &OscArg::String(String::new())));
    assert!(!osctype_is_coercible(&OscArg::Int(1), &OscArg::String(String::new())));
    assert!(!osctype_is_coercible(&OscArg::Nil, &OscArg::Inf));
}

#[test]
fn coerce_between_integers() {
    assert!(matches!(osctype_coerce(&OscArg::Int(-5), &OscArg::Long(0)), Coerced::Value(OscArg::Long(-5))));
    assert!(matches!(
        osctype_coerce(&OscArg::Long(4_294_967_297), &OscArg::Int(0)),
        Coerced::Value(OscArg::Int(1))
    ));
}

#[test]
fn int_long_roundtrip() {
    for a in [0i32, 1, -1, i32::MAX, i32::MIN] {
        let long = match osctype_coerce(&OscArg::Int(a), &OscArg::Long(0)) {
            Coerced::Value(v) => v,
            other => panic!("unexpected {:?}", other),
        };
        assert!(matches!(osctype_coerce(&long, &OscArg::Int(0)), Coerced::Value(OscArg::Int(b)) if b == a));
    }
}

#[test]
fn coerce_through_floats_names_the_cast() {
    let f = 2.5f32.to_bits();
    let d = 2.5f64.to_bits();
    assert_eq!(
        match osctype_coerce(&OscArg::Int(3), &OscArg::Float(0)) {
            Coerced::Cast(c) => c,
            _ => panic!(),
        },
        FloatCast::IntToFloat(3)
    );
    assert!(matches!(osctype_coerce(&OscArg::Float(f), &OscArg::Int(0)), Coerced::Cast(FloatCast::FloatToInt(x)) if x == f));
    assert!(matches!(osctype_coerce(&OscArg::Float(f), &OscArg::Double(0)), Coerced::Cast(FloatCast::FloatToDouble(x)) if x == f));
    assert!(matches!(osctype_coerce(&OscArg::Double(d), &OscArg::Long(0)), Coerced::Cast(FloatCast::DoubleToLong(x)) if x == d));
    assert!(matches!(osctype_coerce(&OscArg::Long(9), &OscArg::Double(0)), Coerced::Cast(FloatCast::LongToDouble(9))));
}

#[test]
fn coerce_of_other_pairs_is_zero() {
    assert!(matches!(osctype_coerce(&OscArg::String("a".into()), &OscArg::Int(0)), Coerced::Value(OscArg::Int(0))));
    assert!(matches!(osctype_coerce(&OscArg::Bool(true), &OscArg::Bool(false)), Coerced::Value(OscArg::Int(0))));
}

#[test]
fn coerce_arguments_keeps_coerces_and_drops() {
    let args = vec![OscArg::Int(4), OscArg::Int(5), OscArg::String("s".into()), OscArg::Long(6)];
    let types = vec!['i', 'h', 'i', 'f'];
    let out = coerce_arguments(&args, &types);
    assert_eq!(out.len(), 3);
    assert!(matches!(out[0], Coerced::Value(OscArg::Int(4))));
    assert!(matches!(out[1], Coerced::Value(OscArg::Long(5))));
    assert!(matches!(out[2], Coerced::Cast(FloatCast::LongToFloat(6))));
}

#[test]
fn coerce_arguments_uses_the_shorter_list() {
    let args = vec![OscArg::Int(1), OscArg::Int(2), OscArg::Int(3)];
    let out = coerce_arguments(&args, &['i']);
    assert_eq!(out.len(), 1);
    let out = coerce_arguments(&args[..1], &['i', 'x']);
    assert_eq!(out.len(), 1);
    let out = coerce_arguments(&[], &['i', 'h']);
    assert!(out.is_empty());
}

#[test]
fn coerce_arguments_bool_mismatch_gives_zero() {
    let out = coerce_arguments(&[OscArg::Bool(true)], &['F']);
    assert_eq!(out.len(), 1);
    assert!(matches!(out[0], Coerced::Value(OscArg::Int(0))));
}

#[test]
fn coerce_arguments_keeps_strings_and_blobs() {
    let args = vec![OscArg::String("abc".into()), OscArg::Blob(vec![9, 8])];
    let out = coerce_arguments(&args, &['s', 'b']);
    assert!(matches!(&out[0], Coerced::Value(OscArg::String(s)) if s == "abc"));
    assert!(matches!(&out[1], Coerced::Value(OscArg::Blob(b)) if b == &vec![9u8, 8]));
}

#[test]
fn coercion_defined_cases() {
    assert!(coercion_is_defined(&[OscArg::Int(1)], &['i']));
    assert!(!coercion_is_defined(&[OscArg::Int(1)], &['x']));
    assert!(coercion_is_defined(&[], &['x']));
    assert!(!coercion_is_defined(&[OscArg::Array(vec![])], &['i']));
    assert!(coercion_is_defined(&[OscArg::Int(1), OscArg::Array(vec![])], &['i']));
}

#[test]
fn type_tags_of_a_list() {
    let tags = type_tags(&[OscArg::Int(1), OscArg::Bool(false), OscArg::String("x".into())]);
    assert_eq!(tags, vec!['i', 'F', 's']);
}

#[test]
fn copy_arg_copies() {
    for a in sample_args() {
        let b = copy_arg(&a);
        assert_eq!(format!("{:?}", a), format!("{:?}", b));
    }
}

#[test]
fn copy_arg_copies_nested_arrays() {
    let a = OscArg::Array(vec![
        OscArg::Int(7),
        OscArg::Array(vec![OscArg::String("in".into()), OscArg::Blob(vec![1, 2])]),
        OscArg::Nil,
    ]);
    let b = copy_arg(&a);
    assert_eq!(format!("{:?}", a), format!("{:?}", b));
}
