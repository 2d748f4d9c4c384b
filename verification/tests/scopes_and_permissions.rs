use auth_core::permissions::project_permissions_of;
use auth_core::permissions::OrganizationPermissions;
use auth_core::permissions::ProjectPermissions;
use auth_core::permissions::ORGANIZATION_ADD_PROJECT;
use auth_core::permissions::ORGANIZATION_DELETE_ORGANIZATION;
use auth_core::permissions::ORGANIZATION_EDIT_DETAILS;
use auth_core::permissions::ORGANIZATION_EDIT_MEMBER;
use auth_core::permissions::ORGANIZATION_MANAGE_INVITES;
use auth_core::permissions::ORGANIZATION_REMOVE_MEMBER;
use auth_core::permissions::PROJECT_EDIT_DETAILS;
use auth_core::permissions::PROJECT_EDIT_MEMBER;
use auth_core::permissions::PROJECT_MANAGE_INVITES;
use auth_core::permissions::PROJECT_REMOVE_MEMBER;
use auth_core::scopes::Scopes;
use auth_core::scopes::SCOPE_PROJECT_READ;
use auth_core::scopes::SCOPE_USER_READ_EMAIL;
use auth_core::scopes::SCOPE_VERSION_WRITE;

#[test]
fn scope_encoding_round_trips_for_named_bits() {
    let s = Scopes(SCOPE_PROJECT_READ | SCOPE_VERSION_WRITE | SCOPE_USER_READ_EMAIL);
    assert_eq!(Scopes::from_postgres(s.to_postgres()), s);
    assert_eq!(s.to_postgres(), 0b10_0100_0001_i64);
}

#[test]
fn scope_encoding_round_trips_for_unknown_high_bits() {
    // Bits far above the named capabilities survive a decode/encode cycle
    // verbatim, including the sign bit of the storage integer.
    let high = Scopes(1u64 << 63 | 1u64 << 40 | SCOPE_PROJECT_READ);
    let encoded = high.to_postgres();
    assert!(encoded < 0);
    assert_eq!(Scopes::from_postgres(encoded), high);

    let all_bits = Scopes(u64::MAX);
    assert_eq!(Scopes::from_postgres(all_bits.to_postgres()), all_bits);
    assert_eq!(all_bits.to_postgres(), -1_i64);

    let from_negative = Scopes::from_postgres(-1_i64);
    assert_eq!(from_negative, Scopes(u64::MAX));
    assert_eq!(from_negative.to_postgres(), -1_i64);
}

#[test]
fn scope_set_operations_are_bitwise() {
    let a = Scopes(0b1100);
    let b = Scopes(0b1010);
    assert_eq!(a.union(&b), Scopes(0b1110));
    assert_eq!(a.intersect(&b), Scopes(0b1000));
    assert_eq!(a.difference(&b), Scopes(0b0100));
    assert!(a.contains_all(&Scopes(0b0100)));
    assert!(!a.contains_all(&Scopes(0b0010)));
    assert!(Scopes(0b1000).is_subset_of(&a));
    assert!(!a.is_subset_of(&b));
    assert_eq!(Scopes::none(), Scopes(0));
}

#[test]
fn intersection_clamps_to_ceiling() {
    // Whatever is requested, the clamp is a subset of the ceiling.
    let ceiling = Scopes(0b0110);
    for requested in [0u64, 1, 0b11, 0b101, u64::MAX, 1u64 << 63] {
        let clamped = Scopes(requested).intersect(&ceiling);
        assert!(clamped.is_subset_of(&ceiling));
    }
}

#[test]
fn organization_permissions_project_into_shared_flags() {
    let org = OrganizationPermissions(
        ORGANIZATION_EDIT_DETAILS | ORGANIZATION_MANAGE_INVITES | ORGANIZATION_REMOVE_MEMBER
            | ORGANIZATION_EDIT_MEMBER,
    );
    let projected = project_permissions_of(&org);
    assert_eq!(
        projected,
        ProjectPermissions(
            PROJECT_EDIT_DETAILS | PROJECT_MANAGE_INVITES | PROJECT_REMOVE_MEMBER
                | PROJECT_EDIT_MEMBER
        )
    );
}

#[test]
fn organization_only_flags_project_to_nothing() {
    let org = OrganizationPermissions(ORGANIZATION_ADD_PROJECT | ORGANIZATION_DELETE_ORGANIZATION);
    assert_eq!(project_permissions_of(&org), ProjectPermissions(0));
    assert_eq!(project_permissions_of(&OrganizationPermissions(0)), ProjectPermissions(0));
}

#[test]
fn permission_set_operations_are_bitwise() {
    let a = ProjectPermissions(0b0101);
    let b = ProjectPermissions(0b0011);
    assert_eq!(a.union(&b), ProjectPermissions(0b0111));
    assert_eq!(a.intersect(&b), ProjectPermissions(0b0001));
    assert!(a.contains_all(&ProjectPermissions(0b0100)));
    assert!(!a.contains_all(&b));
    let c = OrganizationPermissions(0b10);
    assert_eq!(c.union(&OrganizationPermissions(0b01)), OrganizationPermissions(0b11));
    assert!(c.contains_all(&OrganizationPermissions(0b10)));
    assert_eq!(ProjectPermissions::none(), ProjectPermissions(0));
    assert_eq!(OrganizationPermissions::none(), OrganizationPermissions(0));
}
