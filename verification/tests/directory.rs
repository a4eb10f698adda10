use osmium::error::ApiError;
use osmium::handlers::dev::{seed_response, seed_users};
use osmium::handlers::publications::{
    ensure_file_can_link, merge_publication_update, new_publication_input, normalize_category_key,
    normalize_publication_status, updated_category_id, AuditAction, CreatePublicationRequest,
    FileAssetLinkRow, PublicationFields, UpdatePublicationRequest,
};
use osmium::handlers::users::{
    basic_info_from_row, can_view_full_profile, can_view_private_directory, display_name,
    normalize_facility_code,
    private_info_from_row, validate_visitor_application, RosterUserRow,
};
use osmium::handlers::api_keys::{PermissionAction, PermissionPath};
use osmium::handlers::welcome_messages::{my_welcome_message, normalize_welcome_texts};
use osmium::timestamp::UtcTimestamp;

fn link_row(deleted: bool, public: bool, domain: Option<(&str, &str)>) -> FileAssetLinkRow {
    FileAssetLinkRow {
        deleted_at: if deleted { UtcTimestamp::new(0, 0) } else { None },
        is_public: public,
        domain_type: domain.map(|d| d.0.to_string()),
        domain_id: domain.map(|d| d.1.to_string()),
    }
}

#[test]
fn publication_fields() {
    assert_eq!(normalize_publication_status(" Published "), Ok("published".to_string()));
    assert_eq!(normalize_publication_status("hidden"), Err(ApiError::BadRequest));
    assert_eq!(normalize_category_key(" SOPs-2026 "), Ok("sops-2026".to_string()));
    assert_eq!(normalize_category_key("-sops"), Err(ApiError::BadRequest));
    assert_eq!(normalize_category_key("sops-"), Err(ApiError::BadRequest));
    assert_eq!(normalize_category_key("sop s"), Err(ApiError::BadRequest));
    assert_eq!(normalize_category_key("   "), Err(ApiError::BadRequest));
    assert_eq!(AuditAction::Delete.as_str(), "DELETE");
}

#[test]
fn file_linking() {
    assert_eq!(ensure_file_can_link(&link_row(false, true, None), None, true), Ok(()));
    assert_eq!(ensure_file_can_link(&link_row(true, true, None), None, false), Err(ApiError::BadRequest));
    assert_eq!(ensure_file_can_link(&link_row(false, false, None), None, true), Err(ApiError::BadRequest));
    assert_eq!(
        ensure_file_can_link(&link_row(false, false, Some(("publication", "p1"))), Some("p1"), false),
        Ok(())
    );
    assert_eq!(
        ensure_file_can_link(&link_row(false, false, Some(("publication", "p1"))), Some("p2"), false),
        Err(ApiError::BadRequest)
    );
    assert_eq!(
        ensure_file_can_link(&link_row(false, false, Some(("event", "p1"))), Some("p1"), false),
        Err(ApiError::BadRequest)
    );
}

fn stored() -> PublicationFields {
    PublicationFields {
        category_id: "c1".to_string(),
        title: "Title".to_string(),
        description: Some("Desc".to_string()),
        effective_at: UtcTimestamp::new(1_000, 0).unwrap(),
        file_id: "f1".to_string(),
        is_public: false,
        sort_order: 3,
        status: "draft".to_string(),
    }
}

fn empty_update() -> UpdatePublicationRequest {
    UpdatePublicationRequest {
        category_id: None,
        title: None,
        description: None,
        effective_at: None,
        file_id: None,
        is_public: None,
        sort_order: None,
        status: None,
    }
}

#[test]
fn publication_create_and_update() {
    let created = new_publication_input(CreatePublicationRequest {
        category_id: " c1 ".to_string(),
        title: " T ".to_string(),
        description: Some("  ".to_string()),
        effective_at: UtcTimestamp::new(5, 0).unwrap(),
        file_id: "f".to_string(),
        is_public: true,
        sort_order: None,
        status: "PUBLISHED".to_string(),
    })
    .unwrap();
    assert_eq!(created.category_id, "c1");
    assert_eq!(created.title, "T");
    assert_eq!(created.description, None);
    assert_eq!(created.sort_order, 0);
    assert_eq!(created.status, "published");

    let s = stored();
    let merged = merge_publication_update(&s, "c1".to_string(), empty_update()).unwrap();
    assert_eq!(merged.title, "Title");
    assert_eq!(merged.description.as_deref(), Some("Desc"));
    assert_eq!(merged.sort_order, 3);
    let mut u = empty_update();
    u.title = Some(" New ".to_string());
    u.description = Some(" ".to_string());
    u.status = Some("archived".to_string());
    let merged = merge_publication_update(&s, "c2".to_string(), u).unwrap();
    assert_eq!(merged.title, "New");
    assert_eq!(merged.description.as_deref(), Some("Desc"));
    assert_eq!(merged.status, "archived");
    assert_eq!(merged.category_id, "c2");
    let mut bad = empty_update();
    bad.status = Some("nope".to_string());
    assert!(matches!(merge_publication_update(&s, "c1".to_string(), bad), Err(ApiError::BadRequest)));
    assert_eq!(updated_category_id(None, &"c1".to_string()), Ok("c1".to_string()));
    assert_eq!(updated_category_id(Some(" ".to_string()), &"c1".to_string()), Err(ApiError::BadRequest));
}

fn roster_row(first: Option<&str>, last: Option<&str>) -> RosterUserRow {
    RosterUserRow {
        id: "u1".to_string(),
        cid: 10000001,
        email: Some("a@example.com".to_string()),
        display_name: "Display".to_string(),
        role: None,
        first_name: first.map(str::to_string),
        last_name: last.map(str::to_string),
        rating: Some("S2".to_string()),
        artcc: Some("ZDC".to_string()),
        division: None,
        status: None,
        controller_status: Some("HOME".to_string()),
        membership_status: None,
        join_date: None,
        home_facility: None,
        visitor_home_facility: None,
        is_active: true,
    }
}

#[test]
fn directory_names() {
    assert_eq!(display_name(&roster_row(Some(" Jane "), Some("Doe"))), "Jane Doe");
    assert_eq!(display_name(&roster_row(None, Some("Doe"))), "Doe");
    assert_eq!(display_name(&roster_row(None, None)), "Display");
    let basic = basic_info_from_row(&roster_row(Some("Jane"), None));
    assert_eq!(basic.name, "Jane");
    assert_eq!(basic.rating.as_deref(), Some("S2"));
    let private = private_info_from_row(&roster_row(None, None));
    assert_eq!(private.email.as_deref(), Some("a@example.com"));
    assert!(private.is_active);
    assert!(can_view_full_profile(1, 1, false));
    assert!(!can_view_full_profile(1, 2, false));
}

#[test]
fn visitor_facility_codes() {
    assert_eq!(normalize_facility_code(" zny "), Ok("ZNY".to_string()));
    assert_eq!(normalize_facility_code("ABCDEFGHI"), Err(ApiError::BadRequest));
    assert_eq!(normalize_facility_code(" "), Err(ApiError::BadRequest));
    assert_eq!(
        validate_visitor_application("zob", " training "),
        Ok(("ZOB".to_string(), "training".to_string()))
    );
    assert_eq!(validate_visitor_application("zob", " "), Err(ApiError::BadRequest));
}

#[test]
fn welcome_messages() {
    let none = my_welcome_message(None, "home", "visitor");
    assert!(!none.show && none.text.is_none());
    let off = my_welcome_message(Some((false, Some("HOME"))), "home", "visitor");
    assert!(!off.show);
    let home = my_welcome_message(Some((true, Some("HOME"))), "home", "visitor");
    assert!(home.show);
    assert_eq!(home.text.as_deref(), Some("home"));
    let visitor = my_welcome_message(Some((true, Some("VISITOR"))), "home", "visitor");
    assert_eq!(visitor.text.as_deref(), Some("visitor"));
    let other = my_welcome_message(Some((true, Some("NONE"))), "home", "visitor");
    assert!(other.show && other.text.is_none());
    assert_eq!(normalize_welcome_texts(" a ", "b "), ("a".to_string(), "b".to_string()));
}

#[test]
fn seed_data() {
    let users = seed_users();
    assert_eq!(users.len(), 3);
    assert_eq!(users[1].cid, 10000011);
    let r = seed_response();
    assert!(r.ok);
    assert_eq!((r.users, r.events, r.training), (3, 1, 3));
}

#[test]
fn private_directory_needs_its_read_permission() {
    let perm = |segs: &[&str], action: PermissionAction| PermissionPath {
        segments: segs.iter().map(|s| s.to_string()).collect(),
        action,
    };
    assert!(can_view_private_directory(&[
        perm(&["users"], PermissionAction::Read),
        perm(&["users", "directory_private"], PermissionAction::Read),
    ]));
    assert!(!can_view_private_directory(&[perm(&["users", "directory_private"], PermissionAction::Update)]));
    assert!(!can_view_private_directory(&[perm(&["users", "directory"], PermissionAction::Read)]));
    assert!(!can_view_private_directory(&[]));
}
