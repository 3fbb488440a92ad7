use crucible::id_vendor::IdVendor;
use crucible::scene::{ObjectInfo, ObjectType};

#[test]
fn alias_collision() {
    let mut vendor = IdVendor::new();

    let id = vendor.vend_id("test_var", ObjectType::Sphere);
    assert!(id.is_some());

    let id2 = vendor.vend_id("test_var", ObjectType::Triangle);
    assert!(id2.is_none());
}

#[test]
fn alias_coherence() {
    let mut vendor = IdVendor::new();

    let id = vendor.vend_id("test_var", ObjectType::Sphere).unwrap();
    let id2 = vendor.alias_lookup("test_var").unwrap().id;

    assert_eq!(id, id2);
}

#[test]
fn camera_alias_is_reserved() {
    let mut vendor = IdVendor::new();
    let cam = vendor.alias_lookup("cam").unwrap();
    assert_eq!(cam, ObjectInfo::new(0, ObjectType::Camera));
    assert_eq!(vendor.vend_id("cam", ObjectType::Sphere), None);
}

#[test]
fn ids_are_dealt_in_order() {
    let mut vendor = IdVendor::new();
    assert_eq!(vendor.vend_id("a", ObjectType::Sphere), Some(1));
    assert_eq!(vendor.vend_id("b", ObjectType::TriangleMesh), Some(2));
    assert_eq!(vendor.vend_id("a", ObjectType::Triangle), None);
    assert_eq!(vendor.vend_id("c", ObjectType::Triangle), Some(3));
    let b = vendor.alias_lookup("b").unwrap();
    assert_eq!(b.id, 2);
    assert_eq!(b.o_type, ObjectType::TriangleMesh);
    assert!(vendor.alias_lookup("missing").is_none());
}
