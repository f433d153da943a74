use kokoro_sapi::guid::{
    class_object_request, clsid_braced, clsid_kokoro_engine, ClassObjectRequest, Guid,
    CLSID_KOKORO_ENGINE_VALUE,
};

#[test]
fn clsid_in_registry_form() {
    assert_eq!(clsid_braced(), "{6A2C7F52-3B19-4E5D-9C01-8F4A2D7B61E3}");
}

#[test]
fn clsid_fields() {
    let g = clsid_kokoro_engine();
    assert_eq!(g.data1, 0x6a2c7f52);
    assert_eq!(g.data2, 0x3b19);
    assert_eq!(g.data3, 0x4e5d);
    assert_eq!(g.data4, [0x9c, 0x01, 0x8f, 0x4a, 0x2d, 0x7b, 0x61, 0xe3]);
    assert_eq!(CLSID_KOKORO_ENGINE_VALUE, 0x6a2c7f52_3b19_4e5d_9c01_8f4a2d7b61e3);
}

#[test]
fn registry_form_pads_and_upper_cases() {
    let g = Guid::from_u128(0x0000000a_000b_00c0_0d00_00000000000f);
    assert_eq!(g.registry_form(), "{0000000A-000B-00C0-0D00-00000000000F}");
    let zero = Guid::from_u128(0);
    assert_eq!(zero.registry_form(), "{00000000-0000-0000-0000-000000000000}");
    let max = Guid::from_u128(u128::MAX);
    assert_eq!(max.registry_form(), "{FFFFFFFF-FFFF-FFFF-FFFF-FFFFFFFFFFFF}");
}

#[test]
fn registry_form_shape() {
    let s: Vec<char> = Guid::from_u128(0x0123_4567_89ab_cdef_fedc_ba98_7654_3210).registry_form().chars().collect();
    assert_eq!(s.len(), 38);
    assert_eq!(s[0], '{');
    assert_eq!(s[37], '}');
    for i in [9, 14, 19, 24] {
        assert_eq!(s[i], '-');
    }
    assert_eq!(s.iter().collect::<String>(), "{01234567-89AB-CDEF-FEDC-BA9876543210}");
}

#[test]
fn same_as_compares_all_fields() {
    let a = Guid::from_u128(CLSID_KOKORO_ENGINE_VALUE);
    let b = clsid_kokoro_engine();
    assert!(a.same_as(&b));
    let c = Guid::from_u128(CLSID_KOKORO_ENGINE_VALUE ^ 1);
    assert!(!a.same_as(&c));
    let d = Guid::from_u128(CLSID_KOKORO_ENGINE_VALUE ^ (1 << 100));
    assert!(!a.same_as(&d));
}

#[test]
fn class_object_requests() {
    let engine = clsid_kokoro_engine();
    assert!(matches!(class_object_request(false, &engine), ClassObjectRequest::InvalidPointer));
    assert!(matches!(class_object_request(true, &engine), ClassObjectRequest::Provide));
    let other = Guid::from_u128(42);
    assert!(matches!(class_object_request(true, &other), ClassObjectRequest::ClassNotAvailable));
    assert!(matches!(class_object_request(false, &other), ClassObjectRequest::InvalidPointer));
}
