use sync_core::config::ConfigError;
use sync_core::config::ConfigMetadata;
use sync_core::config::LibraryConfig;
use sync_core::frontend::BackendFeature;
use sync_core::frontend::CompositeId;
use sync_core::frontend::FileEraserJobInit;
use sync_core::frontend::FileEraserJobStep;
use sync_core::frontend::JobMessage;
use sync_core::frontend::Organisation;
use sync_core::frontend::User;
use sync_core::registry::ModelRegistry;
use sync_core::registry::SyncKind;
use sync_core::value::bytes_eq;
use sync_core::value::clone_value;
use sync_core::value::field_names_distinct;
use sync_core::value::record_id_eq;
use sync_core::value::set_field;
use sync_core::value::value_eq;
use sync_core::value::ForeignRef;
use sync_core::value::RecordId;
use sync_core::value::Value;

#[test]
fn value_equality_is_structural() {
    assert!(value_eq(&Value::Null, &Value::Null));
    assert!(value_eq(&Value::Int(5), &Value::Int(5)));
    assert!(!value_eq(&Value::Int(5), &Value::Int(6)));
    assert!(!value_eq(&Value::Int(0), &Value::Null));
    assert!(value_eq(&Value::Text("a".to_string()), &Value::Text("a".to_string())));
    assert!(!value_eq(&Value::Text("a".to_string()), &Value::Bytes(vec![97])));
    let r1 = Value::Ref(ForeignRef { model: "Tag".to_string(), pub_id: vec![1, 2] });
    let r2 = Value::Ref(ForeignRef { model: "Tag".to_string(), pub_id: vec![1, 2] });
    let r3 = Value::Ref(ForeignRef { model: "Tag".to_string(), pub_id: vec![1, 3] });
    assert!(value_eq(&r1, &r2));
    assert!(!value_eq(&r1, &r3));
    assert!(value_eq(&r1, &clone_value(&r1)));
}

#[test]
fn byte_strings_compare_by_content() {
    assert!(bytes_eq(&vec![], &vec![]));
    assert!(bytes_eq(&vec![1, 2, 3], &vec![1, 2, 3]));
    assert!(!bytes_eq(&vec![1, 2, 3], &vec![1, 2]));
    assert!(!bytes_eq(&vec![1, 2, 3], &vec![1, 2, 4]));
}

#[test]
fn record_identities_compare_part_by_part() {
    let a = RecordId::from_pub_id(vec![7; 4]);
    let b = RecordId::from_pub_id(vec![7; 4]);
    let c = RecordId::from_pub_id(vec![8; 4]);
    assert!(record_id_eq(&a, &b));
    assert!(!record_id_eq(&a, &c));
    let compound = RecordId::new(vec![("id".to_string(), Value::Int(5))]);
    assert!(!record_id_eq(&a, &compound));
}

#[test]
fn set_field_overwrites_first_occurrence_or_appends() {
    let mut fields = vec![
        ("name".to_string(), Value::Text("a".to_string())),
        ("size".to_string(), Value::Int(1)),
    ];
    set_field(&mut fields, "name".to_string(), Value::Text("b".to_string()));
    assert_eq!(fields.len(), 2);
    assert!(matches!(&fields[0].1, Value::Text(s) if s == "b"));
    set_field(&mut fields, "hidden".to_string(), Value::Bool(false));
    assert_eq!(fields.len(), 3);
    assert_eq!(fields[2].0, "hidden");
}

#[test]
fn repeated_names_are_detected() {
    let ok = vec![
        ("a".to_string(), Value::Int(1)),
        ("b".to_string(), Value::Int(2)),
    ];
    let bad = vec![
        ("a".to_string(), Value::Int(1)),
        ("a".to_string(), Value::Int(2)),
    ];
    assert!(field_names_distinct(&ok));
    assert!(!field_names_distinct(&bad));
    assert!(field_names_distinct(&vec![]));
}

#[test]
fn registry_registers_each_name_once() {
    let mut reg = ModelRegistry::new();
    assert!(reg.register("Note".to_string(), SyncKind::Owned));
    assert!(!reg.register("Note".to_string(), SyncKind::Shared));
    assert_eq!(reg.lookup(&"Note".to_string()), Some(SyncKind::Owned));
    assert_eq!(reg.lookup(&"Tag".to_string()), None);
    let defaults = ModelRegistry::with_default_models();
    assert_eq!(defaults.lookup(&"Tag".to_string()), Some(SyncKind::Shared));
    assert_eq!(defaults.lookup(&"TagOnObject".to_string()), Some(SyncKind::Relation));
}

#[test]
fn config_migration_check_follows_the_version_header() {
    let current = ConfigMetadata::default();
    assert_eq!(current.migration_check(&current), Ok(false));
    let old = ConfigMetadata { version: Some("0.0.9".to_string()) };
    assert_eq!(old.migration_check(&current), Ok(true));
    let unversioned = ConfigMetadata { version: None };
    assert_eq!(unversioned.migration_check(&current), Err(ConfigError::MissingVersion));
}

#[test]
fn default_library_config_is_current_and_unnamed() {
    let config = LibraryConfig::default();
    assert_eq!(config.name, "");
    assert_eq!(config.description, "");
    assert_eq!(config.metadata.migration_check(&ConfigMetadata::default()), Ok(false));
}

#[test]
fn frontend_types_carry_their_fields() {
    assert_ne!(BackendFeature::SyncEmitMessages, BackendFeature::FilesOverP2P);
    assert!(matches!(JobMessage::Complete, JobMessage::Complete));
    let owner = User { id: "user-1".to_string(), name: "Monty Beaumont".to_string() };
    let org = Organisation {
        id: "org-1".to_string(),
        name: "Org 1".to_string(),
        users: vec![owner.clone()],
        owner,
        non_normalised_data: vec![(), ()],
    };
    assert_eq!(org.users.len(), 1);
    assert_eq!(org.owner.name, "Monty Beaumont");
    let key = CompositeId { org_id: "org-1".to_string(), user_id: "user-1".to_string() };
    assert_eq!(key.org_id, "org-1");
    let init = FileEraserJobInit { location_id: 3, path_id: 5, passes: 2 };
    assert_eq!(init, FileEraserJobInit { location_id: 3, path_id: 5, passes: 2 });
    let step = FileEraserJobStep::File { path: "/tmp/x".to_string() };
    assert!(matches!(step, FileEraserJobStep::File { ref path } if path == "/tmp/x"));
}
