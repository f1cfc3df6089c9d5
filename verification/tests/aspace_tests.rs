use fedora_aspace::aspace_api::ArchivesSpaceUpdate;
use fedora_aspace::aspace_objects::{
    ArchivalObject, ArchivesSpaceData, ArchivesSpaceRecordId, Auth, DigitalObject, DigitalObjectWrapper, FileVersion,
    SessionShared,
};
use fedora_aspace::error::AspaceError;
use fedora_aspace::fedora_api::{FedoraResource, HyraxModel};
use fedora_aspace::json::{set_field, Json};

const BASE: &str = "http://127.0.0.1:8089";

fn to_json(v: serde_json::Value) -> Json {
    match v {
        serde_json::Value::Null => Json::Null,
        serde_json::Value::Bool(b) => Json::Bool(b),
        serde_json::Value::Number(n) => Json::Number(n.to_string()),
        serde_json::Value::String(s) => Json::Str(s),
        serde_json::Value::Array(a) => Json::Array(a.into_iter().map(to_json).collect()),
        serde_json::Value::Object(m) => Json::Object(m.into_iter().map(|(k, v)| (k, to_json(v))).collect()),
    }
}

fn parse(text: &str) -> Json {
    to_json(serde_json::from_str(text).unwrap())
}

const ARCHIVAL_OBJECT_HEAD: &str = r#"{"jsonmodel_type": "archival_object", "title": "Letter", "ref_id": "id", "lock_version": 3, "instances": ["#;
const ARCHIVAL_OBJECT_TAIL: &str = r#"], "uri": "/repositories/2/archival_objects/12"}"#;
const ANALOG_INSTANCE: &str = r#"{"instance_type": "mixed_materials", "is_representative": false, "sub_container": {"top_container": {"ref": "/repositories/2/top_containers/1"}}}"#;
const DIGITAL_INSTANCE: &str = r#"{"instance_type": "digital_object", "digital_object": {"ref": "/repositories/2/digital_objects/7"}}"#;
const DIGITAL_OBJECT: &str = r#"{"jsonmodel_type": "digital_object", "title": "Letter", "digital_object_id": "do-7", "publish": true,
  "file_versions": [{"jsonmodel_type": "file_version", "file_uri": "https://example.org/old", "use_statement": "image-service",
    "xlink_actuate_attribute": "onLoad", "xlink_show_attribute": "embed", "publish": false, "is_representative": true, "lock_version": 0}],
  "uri": "/repositories/2/digital_objects/7"}"#;

fn archival_objects() -> Vec<(&'static str, String)> {
    vec![
        ("no-instances", format!("{}{}", ARCHIVAL_OBJECT_HEAD, ARCHIVAL_OBJECT_TAIL)),
        ("analog-instance", format!("{}{}{}", ARCHIVAL_OBJECT_HEAD, ANALOG_INSTANCE, ARCHIVAL_OBJECT_TAIL)),
        ("digital-instance", format!("{}{}, {}{}", ARCHIVAL_OBJECT_HEAD, ANALOG_INSTANCE, DIGITAL_INSTANCE, ARCHIVAL_OBJECT_TAIL)),
    ]
}

fn fedora_resource() -> FedoraResource {
    FedoraResource {
        uri: "test_uri".to_owned(),
        model: HyraxModel::ArchivalDocument,
        ref_id: "id".to_owned(),
        related_url: None,
    }
}

fn file_uris(json: &Json) -> Vec<String> {
    let versions = json.get("file_versions").unwrap();
    let mut out = Vec::new();
    let mut i = 0;
    while let Some(v) = versions.get_index(i) {
        match v.get("file_uri") {
            Some(Json::Str(s)) => out.push(s.clone()),
            _ => panic!("file version without file_uri"),
        }
        i += 1;
    }
    out
}

#[test]
fn handles_workflow() {
    let auth = Auth::new("admin", "admin", BASE).unwrap();
    assert_eq!(auth.login_url().unwrap(), format!("{}/{}", BASE, "users/admin/login"));
    let session = SessionShared::from_login_response(&parse(r#"{"session": "a0385c2e9f1b", "user": {"username": "admin"}}"#)).unwrap();
    assert!(session.session().starts_with("a0385"));

    let mut fedora_resource = fedora_resource();
    for (url, data) in archival_objects() {
        let _ = fedora_resource.related_url.insert(url.to_owned());
        let mut aspace_update = ArchivesSpaceUpdate::new(&auth.base_url, &fedora_resource).unwrap();
        assert_eq!(aspace_update.object_url(), format!("{}/{}", BASE, url));
        let result = aspace_update.get_object(parse(&data));
        assert!(result.is_ok());
        match url {
            "no-instances" | "analog-instance" => {
                let r = aspace_update.extract_digital_object_ref();
                assert!(r.is_err_and(|e| e.message() == "No digital object identifier found in archival object"));
            },
            "digital-instance" => {
                assert!(aspace_update.extract_digital_object_ref().is_ok());
                assert_eq!(aspace_update.object_url(), format!("{}/repositories/2/digital_objects/7", BASE));
                let result = aspace_update.get_object(parse(DIGITAL_OBJECT));
                assert!(result.is_ok());
                let result = aspace_update.update_digital_object();
                assert!(result.is_ok());
                let (post_url, body) = aspace_update.update_request().unwrap();
                assert_eq!(post_url, format!("{}/repositories/2/digital_objects/7", BASE));
                assert_eq!(file_uris(body), vec!["https://example.org/old".to_string(), fedora_resource.uri.clone()]);
                assert_eq!(body.get("title"), Some(&Json::Str("Letter".to_string())));
            },
            _ => {},
        }
    }
}

#[test]
fn ref_id_query_is_resolved() {
    let resource = fedora_resource();
    let mut update = ArchivesSpaceUpdate::new(BASE, &resource).unwrap();
    assert_eq!(
        update.object_url(),
        "http://127.0.0.1:8089/find_by_id/archival_objects?ref_id[]=id;resolve[]=archival_objects"
    );
    assert_eq!(update.get_object(parse(r#"{"archival_objects": []}"#)), Err(AspaceError::ArchivalObjectNotFound));
    assert!(update.object.is_none());
    let answer = format!(
        r#"{{"archival_objects": [{{"ref": "/repositories/2/archival_objects/12", "_resolve": {}{}{}}}]}}"#,
        ARCHIVAL_OBJECT_HEAD, DIGITAL_INSTANCE, ARCHIVAL_OBJECT_TAIL
    );
    assert_eq!(update.get_object(parse(&answer)), Ok(()));
    assert!(update.extract_digital_object_ref().is_ok());
    assert_eq!(
        update.object_id,
        ArchivesSpaceRecordId::DigitalObjectURI("http://127.0.0.1:8089/repositories/2/digital_objects/7".to_string())
    );
}

#[test]
fn update_needs_digital_object() {
    let mut resource = fedora_resource();
    resource.related_url = Some("https://aspace.example.org/repositories/2/archival_objects/12".to_string());
    let mut update = ArchivesSpaceUpdate::new(BASE, &resource).unwrap();
    assert_eq!(update.object_url(), "https://aspace.example.org/repositories/2/archival_objects/12");
    assert_eq!(update.update_digital_object(), Err(AspaceError::NoDigitalObjectToUpdate));
    assert_eq!(AspaceError::NoDigitalObjectToUpdate.message(), "No digital object found to update");
    assert!(update.update_request().is_none());
    assert_eq!(update.get_object(parse(r#"{"title": "no instances member"}"#)), Err(AspaceError::InvalidArchivalObject));
    // nothing received: nothing to extract
    assert_eq!(update.extract_digital_object_ref(), Ok(()));
}

#[test]
fn invalid_digital_object_is_refused() {
    let mut resource = fedora_resource();
    resource.related_url = Some("x".to_string());
    let mut update = ArchivesSpaceUpdate::new(BASE, &resource).unwrap();
    update.object_id = ArchivesSpaceRecordId::DigitalObjectURI("http://127.0.0.1:8089/repositories/2/digital_objects/7".into());
    let bad = r#"{"file_versions": [{"jsonmodel_type": "file_version"}]}"#;
    assert_eq!(update.get_object(parse(bad)), Err(AspaceError::InvalidDigitalObject));
    assert!(matches!(DigitalObjectWrapper::new(parse("[1, 2]")), Err(AspaceError::InvalidDigitalObject)));
}

#[test]
fn file_version_defaults() {
    let fv = FileVersion::new("https://hyrax.example.org/concern/works/1");
    assert_eq!(fv.jsonmodel_type, "file_version");
    assert_eq!(fv.file_uri, "https://hyrax.example.org/concern/works/1");
    assert_eq!(fv.use_statement, "public-access");
    assert_eq!(fv.xlink_actuate_attribute, "onRequest");
    assert_eq!(fv.xlink_show_attribute, "new");
    assert!(fv.publish);
    assert!(!fv.is_representative);
    let back = FileVersion::from_json(&fv.to_json()).unwrap();
    assert_eq!(back, fv);
}

#[test]
fn extracts_first_digital_instance() {
    let a = ArchivalObject::from_json(&parse(&archival_objects()[2].1)).unwrap();
    assert_eq!(a.extract_digital_object_ref(), Some("/repositories/2/digital_objects/7".to_string()));
    let a = ArchivalObject::from_json(&parse(&archival_objects()[1].1)).unwrap();
    assert_eq!(a.extract_digital_object_ref(), None);
    let first_without_ref = r#"{"instances": [{"instance_type": "digital_object", "digital_object": null},
        {"instance_type": "digital_object", "digital_object": {"ref": "/later"}}]}"#;
    let a = ArchivalObject::from_json(&parse(first_without_ref)).unwrap();
    assert_eq!(a.extract_digital_object_ref(), None);
}

#[test]
fn decodes_array_form_records() {
    let a = ArchivalObject::from_json(&parse(r#"[[["digital_object", ["/repositories/2/digital_objects/9"]]]]"#)).unwrap();
    assert_eq!(a.extract_digital_object_ref(), Some("/repositories/2/digital_objects/9".to_string()));
    assert!(ArchivalObject::from_json(&parse(r#"[[["digital_object"]]]"#)).is_none());
    assert!(ArchivalObject::from_json(&parse(r#"{"instances": null}"#)).is_none());
    assert!(ArchivalObject::from_json(&parse(r#"{"instances": [{"digital_object": null}]}"#)).is_none());
    let d = DigitalObject::from_json(&parse(r#"{"file_versions": []}"#)).unwrap();
    assert!(d.file_versions.is_empty());
}

#[test]
fn adds_file_version_to_record() {
    let mut w = DigitalObjectWrapper::new(parse(DIGITAL_OBJECT)).unwrap();
    w.add_file_version(FileVersion::new("test_uri"));
    assert_eq!(w.digital_object.file_versions.len(), 2);
    assert_eq!(file_uris(w.get_json()), vec!["https://example.org/old".to_string(), "test_uri".to_string()]);
    let reread = DigitalObject::from_json(w.get_json()).unwrap();
    assert_eq!(reread, w.digital_object);
    // a record without file versions gets the member
    let mut w = DigitalObjectWrapper::new(parse(r#"{"file_versions": [], "title": "t"}"#)).unwrap();
    w.add_file_version(FileVersion::new("u"));
    assert_eq!(file_uris(w.get_json()), vec!["u".to_string()]);
}

#[test]
fn set_field_replaces_or_appends() {
    let mut entries = vec![("a".to_string(), Json::Null), ("b".to_string(), Json::Bool(true))];
    set_field(&mut entries, "a", Json::Bool(false));
    assert_eq!(entries, vec![("a".to_string(), Json::Bool(false)), ("b".to_string(), Json::Bool(true))]);
    set_field(&mut entries, "c", Json::Number("1".to_string()));
    assert_eq!(entries.len(), 3);
    assert_eq!(Json::Object(entries).get("c"), Some(&Json::Number("1".to_string())));
}

#[test]
fn record_ids_resolve_links() {
    let id = ArchivesSpaceRecordId::from_digital_object_ref("/repositories/2/digital_objects/7", "http://h:1/api/").unwrap();
    assert_eq!(id.url(), "http://h:1/repositories/2/digital_objects/7");
    let id = ArchivesSpaceRecordId::from_digital_object_ref("repositories/2/digital_objects/7", "http://h:1/api/").unwrap();
    assert_eq!(id.url(), "http://h:1/api/repositories/2/digital_objects/7");
    let id = ArchivesSpaceRecordId::from_digital_object_ref("http://other/x", "http://h:1/api/").unwrap();
    assert_eq!(id, ArchivesSpaceRecordId::DigitalObjectURI("http://other/x".to_string()));
    assert_eq!(
        ArchivesSpaceRecordId::from_digital_object_ref("http//broken", "http://h:1/"),
        Err(AspaceError::InvalidUrl("relative URL without a base".to_string()))
    );
    assert_eq!(
        ArchivesSpaceRecordId::from_digital_object_ref("x", "not a base"),
        Err(AspaceError::InvalidUrl("relative URL without a base".to_string()))
    );
}

#[test]
fn auth_and_session() {
    let err = Auth::new("admin", "pw", "no scheme").unwrap_err();
    assert_eq!(err, AspaceError::InvalidUrl("relative URL without a base".to_string()));
    assert_eq!(err.message(), "relative URL without a base");
    let auth = Auth::new("admin", "pw", "http://localhost:8089").unwrap();
    assert_eq!(auth.base_url, "http://localhost:8089/");
    assert_eq!(auth.login_form(), vec![("password".to_string(), "pw".to_string())]);
    assert!(matches!(SessionShared::from_login_response(&parse(r#"{"token": "x"}"#)), Err(AspaceError::InvalidSession)));
    let s = SessionShared::from_login_response(&parse(r#"["tok"]"#)).unwrap();
    assert_eq!(s.session(), "tok");
    assert_eq!(s.header_value().unwrap().to_str().unwrap(), "tok");
    let bad = SessionShared::from_login_response(&parse(r#"{"session": "line\u0007bell"}"#)).unwrap();
    assert!(matches!(bad.header_value(), Err(AspaceError::InvalidHeaderValue)));
    assert_eq!(AspaceError::InvalidHeaderValue.message(), "failed to parse header value");
    match ArchivesSpaceData::ArchivalObject(ArchivalObject { instances: Vec::new() }) {
        ArchivesSpaceData::ArchivalObject(a) => assert!(a.instances.is_empty()),
        _ => unreachable!(),
    }
}
