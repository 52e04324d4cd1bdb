//! Tests of the tagged-union value bridge.

use rusty_winapi::com_env::ComEnv;
use rusty_winapi::com_env::ObjectScript;
use rusty_winapi::hresult::S_OK;
use rusty_winapi::smart_variant::AutoVariant;
use rusty_winapi::smart_variant::SmartVariant;
use rusty_winapi::smart_variant::VT_BOOL;
use rusty_winapi::smart_variant::VT_BSTR;
use rusty_winapi::smart_variant::VT_EMPTY;
use rusty_winapi::smart_variant::VT_I4;

#[test]
fn test1() {}

#[test]
fn test_variant_round_trip_plain() {
    // Every variant that is not a reference type comes back equal from a trip
    // through the raw union.
    let mut env = ComEnv::new(1 << 16);
    let values = vec![
        SmartVariant::Empty,
        SmartVariant::Int2(-5),
        SmartVariant::Int2(i16::MIN),
        SmartVariant::Int4(123456),
        SmartVariant::Int4(i32::MIN),
        SmartVariant::Real4(1.5f32.to_bits()),
        SmartVariant::Real8(2.25f64.to_bits()),
        SmartVariant::Date(36526.0f64.to_bits()),
        SmartVariant::ErrorCode(-7),
        SmartVariant::Bool(true),
        SmartVariant::Bool(false),
        SmartVariant::Int1(-8),
        SmartVariant::UInt1(200),
        SmartVariant::UInt2(50000),
        SmartVariant::UInt4(4000000000),
        SmartVariant::Int(-42),
        SmartVariant::UInt(99),
        SmartVariant::Text(String::from("Hello, мир! 🌍")),
        SmartVariant::Text(String::new()),
    ];
    for v in values {
        let av = AutoVariant::from_value(&mut env, &v).unwrap();
        let back = av.into_value(&mut env);
        assert_eq!(v, back);
    }
}

#[test]
fn test_variant_round_trip_references() {
    // Reference variants come back pointer-equal, and the bridge adjusts no
    // reference count.
    let mut env = ComEnv::new(1 << 16);
    let p = env.add_object(ObjectScript::empty()).unwrap();
    let values = vec![
        SmartVariant::IDispatch(p),
        SmartVariant::IUnknown(p),
        SmartVariant::Variant(64),
        SmartVariant::Array(80),
        SmartVariant::ByRef(96),
    ];
    for v in values {
        let before = env.ref_count_of(p);
        let av = AutoVariant::from_value(&mut env, &v).unwrap();
        assert_eq!(before, env.ref_count_of(p));
        let back = av.into_value(&mut env);
        assert_eq!(v, back);
        assert_eq!(before, env.ref_count_of(p));
    }
}

#[test]
fn test_variant_text_owns_one_buffer() {
    let mut env = ComEnv::new(1 << 16);
    let before = env.heap.live_count();
    let av = AutoVariant::from_value(&mut env, &SmartVariant::Text(String::from("abc"))).unwrap();
    assert_eq!(av.vtype(), VT_BSTR);
    assert_eq!(before + 1, env.heap.live_count());
    let back = av.into_value(&mut env);
    assert_eq!(SmartVariant::Text(String::from("abc")), back);
    assert_eq!(before, env.heap.live_count());
}

#[test]
fn test_variant_clear() {
    let mut env = ComEnv::new(1 << 16);
    let p = env.add_object(ObjectScript::empty()).unwrap();
    env.add_ref(p);

    // Clearing a dispatch reference releases the count the union owned.
    let mut av = AutoVariant::from_value(&mut env, &SmartVariant::IDispatch(p)).unwrap();
    assert_eq!(2, env.ref_count_of(p));
    assert_eq!(S_OK, av.clear(&mut env));
    assert_eq!(1, env.ref_count_of(p));
    assert_eq!(VT_EMPTY, av.vtype());

    // Clearing an already-empty union is a no-op.
    assert_eq!(S_OK, av.clear(&mut env));
    assert_eq!(1, env.ref_count_of(p));

    // Clearing a text union frees the owned buffer.
    let before = env.heap.live_count();
    let mut av = AutoVariant::from_value(&mut env, &SmartVariant::Text(String::from("t"))).unwrap();
    assert_eq!(before + 1, env.heap.live_count());
    assert_eq!(S_OK, av.clear(&mut env));
    assert_eq!(before, env.heap.live_count());
}

#[test]
fn test_variant_value_reads_without_consuming() {
    let mut env = ComEnv::new(1 << 16);
    let av = AutoVariant::from_value(&mut env, &SmartVariant::Text(String::from("peek"))).unwrap();
    let live = env.heap.live_count();
    assert_eq!(SmartVariant::Text(String::from("peek")), av.value(&env));
    assert_eq!(SmartVariant::Text(String::from("peek")), av.value(&env));
    assert_eq!(live, env.heap.live_count());
    let mut av = av;
    av.clear(&mut env);
}

#[test]
fn test_variant_value_set() {
    let mut env = ComEnv::new(1 << 16);
    let av = AutoVariant::new();
    assert_eq!(VT_EMPTY, av.vtype());
    let av = av.value_set(&mut env, &SmartVariant::Int4(17)).unwrap();
    assert_eq!(VT_I4, av.vtype());
    assert_eq!(17, av.data());
    // Overwriting a text union frees its old buffer.
    let before = env.heap.live_count();
    let av = av.value_set(&mut env, &SmartVariant::Text(String::from("x"))).unwrap();
    assert_eq!(before + 1, env.heap.live_count());
    let av = av.value_set(&mut env, &SmartVariant::Bool(true)).unwrap();
    assert_eq!(before, env.heap.live_count());
    assert_eq!(VT_BOOL, av.vtype());
    assert_eq!(0xFFFF, av.data());
}
