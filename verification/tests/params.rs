use gangplank::params::{Param, ParamError, ParamLayout, ParamValue};

fn awkward() -> ParamLayout {
    ParamLayout::new(&[
        ("a", Param::Float),
        ("b", Param::Float3),
        ("c", Param::Float),
        ("d", Param::Float2),
        ("e", Param::Float4),
        ("f", Param::Int),
    ])
    .unwrap()
}

fn float(x: f32) -> u32 {
    x.to_bits()
}

#[test]
fn layout_awkward_order_follows_metal_alignment() {
    let layout = awkward();
    let offsets: Vec<usize> = layout.fields().iter().map(|f| f.offset).collect();
    assert_eq!(offsets, [0, 16, 32, 40, 48, 64]);
    assert_eq!(layout.size(), 80);
    assert_eq!(layout.bytes().len(), 80);
}

#[test]
fn layout_empty_emits_pad() {
    let layout = ParamLayout::empty();
    assert_eq!(layout.size(), 4);
    assert_eq!(layout.bytes(), &[0; 4]);
    assert!(layout.msl_struct().contains("_pad0"));
    assert_eq!(layout, ParamLayout::new(&[]).unwrap());
}

#[test]
fn msl_struct_text_matches() {
    let layout =
        ParamLayout::new(&[("tint", Param::Float4), ("distortion", Param::Float)]).unwrap();
    assert_eq!(
        layout.msl_struct(),
        "struct EffectParams {\n    float4 tint;\n    float distortion;\n};\n"
    );
}

#[test]
fn set_writes_bytes_at_offset() {
    let mut layout =
        ParamLayout::new(&[("tint", Param::Float4), ("distortion", Param::Float)]).unwrap();
    layout.set("distortion", ParamValue::Float(float(0.5))).unwrap();
    layout
        .set("tint", ParamValue::Float4([float(1.), float(0.5), float(0.25), float(1.)]))
        .unwrap();
    let bytes = layout.bytes();
    assert_eq!(&bytes[16..20], &0.5f32.to_le_bytes());
    assert_eq!(&bytes[0..4], &1f32.to_le_bytes());
    assert_eq!(&bytes[12..16], &1f32.to_le_bytes());
    assert_eq!(layout.size(), 32);

    // A float3 fills 12 bytes and leaves its padding alone; an int lands
    // little-endian.
    let mut layout = awkward();
    layout.set("b", ParamValue::Float3([float(1.), float(2.), float(3.)])).unwrap();
    layout.set("f", ParamValue::Int(-2)).unwrap();
    let bytes = layout.bytes();
    assert_eq!(&bytes[24..28], &3f32.to_le_bytes());
    assert_eq!(&bytes[28..32], &[0; 4]);
    assert_eq!(&bytes[64..68], &(-2i32).to_le_bytes());
}

#[test]
fn set_unknown_name_is_error() {
    let mut layout = ParamLayout::new(&[("tint", Param::Float4)]).unwrap();
    assert_eq!(
        layout.set("tnt", ParamValue::Float(float(1.))),
        Err(ParamError::UnknownName("tnt".into()))
    );
}

#[test]
fn set_wrong_type_is_error() {
    let mut layout = ParamLayout::new(&[("tint", Param::Float4)]).unwrap();
    assert_eq!(
        layout.set("tint", ParamValue::Float(float(1.))),
        Err(ParamError::TypeMismatch {
            name: "tint".into(),
            expected: Param::Float4,
            got: Param::Float,
        })
    );
}

#[test]
fn params_rejects_duplicate_and_bad_identifier() {
    assert_eq!(
        ParamLayout::new(&[("a", Param::Float), ("a", Param::Int)]),
        Err(ParamError::DuplicateName("a".into()))
    );
    for bad in ["", "1a", "a-b", "a b", "_pad0", "_pad", "ü"] {
        assert_eq!(
            ParamLayout::new(&[(bad, Param::Float)]),
            Err(ParamError::BadIdentifier(bad.into())),
            "{bad:?}"
        );
    }
    assert!(ParamLayout::new(&[("_ok", Param::Float), ("a1", Param::Int)]).is_ok());
}

#[test]
fn param_sizes_alignments_and_names() {
    let all = [Param::Float, Param::Float2, Param::Float3, Param::Float4, Param::Int];
    let sizes: Vec<usize> = all.iter().map(|p| p.size()).collect();
    let aligns: Vec<usize> = all.iter().map(|p| p.align()).collect();
    let names: Vec<&str> = all.iter().map(|p| p.msl()).collect();
    assert_eq!(sizes, [4, 8, 16, 16, 4]);
    assert_eq!(aligns, [4, 8, 16, 16, 4]);
    assert_eq!(names, ["float", "float2", "float3", "float4", "int"]);
}

#[test]
fn value_types_and_error_messages() {
    assert_eq!(ParamValue::Float2([0, 0]).ty(), Param::Float2);
    assert_eq!(ParamValue::Int(3).ty(), Param::Int);
    assert_eq!(
        ParamError::UnknownName("tnt".into()).message(),
        "no parameter named `tnt`"
    );
    assert_eq!(
        ParamError::TypeMismatch { name: "tint".into(), expected: Param::Float4, got: Param::Float }
            .message(),
        "parameter `tint` is float4 but the value is float"
    );
    assert_eq!(
        ParamError::DuplicateName("a".into()).message(),
        "parameter `a` declared twice"
    );
}

#[test]
fn set_leaves_other_bytes_alone() {
    let mut layout = awkward();
    layout.set("a", ParamValue::Float(float(9.))).unwrap();
    let before = layout.bytes().to_vec();
    layout.set("e", ParamValue::Float4([1, 2, 3, 4])).unwrap();
    let after = layout.bytes();
    assert_eq!(&after[0..48], &before[0..48]);
    assert_eq!(&after[48..52], &1u32.to_le_bytes());
    assert_eq!(&after[64..80], &before[64..80]);
}

#[test]
fn align_up_rounds_to_the_next_multiple() {
    assert_eq!(gangplank::params::align_up(0, 16), 0);
    assert_eq!(gangplank::params::align_up(4, 16), 16);
    assert_eq!(gangplank::params::align_up(16, 16), 16);
    assert_eq!(gangplank::params::align_up(17, 8), 24);
    assert!(gangplank::params::is_identifier("_ok"));
    assert!(gangplank::params::is_identifier("a1_b"));
    assert!(!gangplank::params::is_identifier("_pad7"));
    assert!(!gangplank::params::is_identifier("9a"));
}

#[test]
fn check_names_the_first_offending_declaration() {
    assert_eq!(ParamLayout::check(&[("a", Param::Float), ("b", Param::Int)]), Ok(()));
    assert_eq!(
        ParamLayout::check(&[("a", Param::Float), ("1x", Param::Int), ("a", Param::Int)]),
        Err(ParamError::BadIdentifier("1x".into()))
    );
    assert_eq!(
        ParamLayout::check(&[("a", Param::Float), ("b", Param::Int), ("a", Param::Int)]),
        Err(ParamError::DuplicateName("a".into()))
    );
}

#[test]
fn small_declarations_fit_and_can_be_laid_out() {
    assert!(ParamLayout::fits(&[]));
    assert!(ParamLayout::fits(&[("tint", Param::Float4), ("k", Param::Float)]));
    assert!(ParamLayout::can_lay_out(&[("tint", Param::Float4)]));
    assert!(ParamLayout::can_lay_out(&[("a", Param::Float), ("a", Param::Float)]));
    assert!(ParamLayout::can_lay_out(&[]));
}
