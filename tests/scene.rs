use crucible::id_vendor::IdVendor;
use crucible::scene::{check_and_get_alias, check_type, AliasError, ObjectInfo, ObjectType};

#[test]
fn object_info_holds_its_fields() {
    let oi = ObjectInfo::new(7, ObjectType::Triangle);
    assert_eq!(oi.id, 7);
    assert_eq!(oi.o_type, ObjectType::Triangle);
}

#[test]
fn check_type_finds_listed_kinds() {
    let invalid = vec![ObjectType::Camera, ObjectType::TriangleMesh];
    assert!(check_type(ObjectType::Camera, invalid.clone()));
    assert!(check_type(ObjectType::TriangleMesh, invalid.clone()));
    assert!(!check_type(ObjectType::Sphere, invalid));
    assert!(!check_type(ObjectType::Sphere, Vec::new()));
}

#[test]
fn alias_check_reports_each_refusal() {
    let mut vendor = IdVendor::new();
    vendor.vend_id("ball", ObjectType::Sphere).unwrap();
    vendor.vend_id("teapot", ObjectType::TriangleMesh).unwrap();
    let no_spheres = vec![ObjectType::Sphere];

    assert_eq!(check_and_get_alias(&vendor, "ghost", &no_spheres), Err(AliasError::Unknown));
    assert_eq!(check_and_get_alias(&vendor, "ball", &no_spheres), Err(AliasError::InvalidType));
    assert_eq!(
        check_and_get_alias(&vendor, "teapot", &no_spheres),
        Ok(ObjectInfo::new(2, ObjectType::TriangleMesh))
    );
}
