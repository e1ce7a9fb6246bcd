use bumpalo::Bump;

use dioxus_template::value::{
    ArbitraryAttributeValue, AttributeValue, OwnedArbitraryAttributeValue, OwnedAttributeValue,
    StaticAttributeValue, TemplateValue, F32, F64,
};

fn f(value: f32) -> F32 {
    F32 { bits: value.to_bits() }
}

fn d(value: f64) -> F64 {
    F64 { bits: value.to_bits() }
}

#[test]
fn single_precision_equality_is_that_of_floats() {
    let values =
        [0.0f32, -0.0, 1.5, -1.5, f32::MIN_POSITIVE, f32::INFINITY, f32::NEG_INFINITY, f32::NAN];
    for a in values {
        for b in values {
            assert_eq!(f(a) == f(b), a == b);
        }
    }
    assert!(F32 { bits: 0xffc0_0001 } != F32 { bits: 0xffc0_0001 });
    assert!(F32 { bits: 1 } == F32 { bits: 1 });
}

#[test]
fn double_precision_equality_is_that_of_floats() {
    let values =
        [0.0f64, -0.0, 1.5, -1.5, f64::MIN_POSITIVE, f64::INFINITY, f64::NEG_INFINITY, f64::NAN];
    for a in values {
        for b in values {
            assert_eq!(d(a) == d(b), a == b);
        }
    }
}

#[test]
fn static_values_are_allocated() {
    let bump = Bump::new();
    let text: &'static str = "hello";
    let allocated = StaticAttributeValue::Text(text).allocate(&bump);
    assert_eq!(allocated, AttributeValue::Text("hello"));
    if let AttributeValue::Text(copy) = allocated {
        assert!(copy.as_ptr() != text.as_ptr());
    }
    let bytes: &'static [u8] = &[1, 2, 3];
    let allocated = StaticAttributeValue::Bytes(bytes).allocate(&bump);
    assert_eq!(allocated, AttributeValue::Bytes(&[1, 2, 3]));
    if let AttributeValue::Bytes(copy) = allocated {
        assert!(copy.as_ptr() != bytes.as_ptr());
    }
}

#[test]
fn static_numbers_keep_their_kind() {
    let b = Bump::new();
    assert_eq!(StaticAttributeValue::Float32(f(1.5)).allocate(&b), AttributeValue::Float32(f(1.5)));
    assert_eq!(StaticAttributeValue::Float64(d(2.5)).allocate(&b), AttributeValue::Float64(d(2.5)));
    assert_eq!(StaticAttributeValue::Int32(-1).allocate(&b), AttributeValue::Int32(-1));
    assert_eq!(StaticAttributeValue::Int64(-2).allocate(&b), AttributeValue::Int64(-2));
    assert_eq!(StaticAttributeValue::Uint32(3).allocate(&b), AttributeValue::Uint32(3));
    assert_eq!(StaticAttributeValue::Uint64(4).allocate(&b), AttributeValue::Uint64(4));
    assert_eq!(StaticAttributeValue::Bool(true).allocate(&b), AttributeValue::Bool(true));
    assert_eq!(
        StaticAttributeValue::Vec3Float(f(1.0), f(2.0), f(3.0)).allocate(&b),
        AttributeValue::Vec3Float(f(1.0), f(2.0), f(3.0))
    );
    assert_eq!(
        StaticAttributeValue::Vec3Int(1, 2, 3).allocate(&b),
        AttributeValue::Vec3Int(1, 2, 3)
    );
    assert_eq!(
        StaticAttributeValue::Vec3Uint(1, 2, 3).allocate(&b),
        AttributeValue::Vec3Uint(1, 2, 3)
    );
    assert_eq!(
        StaticAttributeValue::Vec4Float(f(1.0), f(2.0), f(3.0), f(4.0)).allocate(&b),
        AttributeValue::Vec4Float(f(1.0), f(2.0), f(3.0), f(4.0))
    );
    assert_eq!(
        StaticAttributeValue::Vec4Int(1, 2, 3, 4).allocate(&b),
        AttributeValue::Vec4Int(1, 2, 3, 4)
    );
    assert_eq!(
        StaticAttributeValue::Vec4Uint(1, 2, 3, 4).allocate(&b),
        AttributeValue::Vec4Uint(1, 2, 3, 4)
    );
}

#[test]
fn owned_values_are_allocated() {
    let b = Bump::new();
    assert_eq!(
        OwnedAttributeValue::Text("hello".to_string()).allocate(&b),
        AttributeValue::Text("hello")
    );
    assert_eq!(
        OwnedAttributeValue::Bytes(vec![1, 2, 3]).allocate(&b),
        AttributeValue::Bytes(&[1, 2, 3])
    );
    assert_eq!(
        OwnedAttributeValue::Any(OwnedArbitraryAttributeValue { value: 6, cmp: 9 }).allocate(&b),
        AttributeValue::Any(ArbitraryAttributeValue { value: &6, cmp: 9 })
    );
}

#[test]
fn owned_numbers_keep_their_kind() {
    let b = Bump::new();
    assert_eq!(OwnedAttributeValue::Float32(f(1.5)).allocate(&b), AttributeValue::Float32(f(1.5)));
    assert_eq!(OwnedAttributeValue::Float64(d(2.5)).allocate(&b), AttributeValue::Float64(d(2.5)));
    assert_eq!(OwnedAttributeValue::Int32(-1).allocate(&b), AttributeValue::Int32(-1));
    assert_eq!(OwnedAttributeValue::Int64(-2).allocate(&b), AttributeValue::Int64(-2));
    assert_eq!(OwnedAttributeValue::Uint32(3).allocate(&b), AttributeValue::Uint32(3));
    assert_eq!(OwnedAttributeValue::Uint64(4).allocate(&b), AttributeValue::Uint64(4));
    assert_eq!(OwnedAttributeValue::Bool(false).allocate(&b), AttributeValue::Bool(false));
    assert_eq!(
        OwnedAttributeValue::Vec3Float(f(1.0), f(2.0), f(3.0)).allocate(&b),
        AttributeValue::Vec3Float(f(1.0), f(2.0), f(3.0))
    );
    assert_eq!(
        OwnedAttributeValue::Vec3Int(1, 2, 3).allocate(&b),
        AttributeValue::Vec3Int(1, 2, 3)
    );
    assert_eq!(
        OwnedAttributeValue::Vec3Uint(1, 2, 3).allocate(&b),
        AttributeValue::Vec3Uint(1, 2, 3)
    );
    assert_eq!(
        OwnedAttributeValue::Vec4Float(f(1.0), f(2.0), f(3.0), f(4.0)).allocate(&b),
        AttributeValue::Vec4Float(f(1.0), f(2.0), f(3.0), f(4.0))
    );
    assert_eq!(
        OwnedAttributeValue::Vec4Int(1, 2, 3, 4).allocate(&b),
        AttributeValue::Vec4Int(1, 2, 3, 4)
    );
    assert_eq!(
        OwnedAttributeValue::Vec4Uint(1, 2, 3, 4).allocate(&b),
        AttributeValue::Vec4Uint(1, 2, 3, 4)
    );
}
