use fedora_aspace::error::FedoraError;
use fedora_aspace::fedora_api::{FedoraResource, HyraxModel, RdfNode, RdfTriple};
use fedora_aspace::fedora_auth::FedoraAuth;
use fedora_aspace::fedora_queue::{parse_stomp_headers, QueueAction, QueueCollector, QueueEvent};

const IDENTIFIER: &str = "/development/4a/0d/8a/83/4a0d8a83-c024-483e-90e7-884274f13b56";

fn headers(pairs: &[(&str, &str)]) -> Vec<(String, String)> {
    pairs.iter().map(|(k, v)| (k.to_string(), v.to_string())).collect()
}

fn event_headers(event_type: &str) -> Vec<(String, String)> {
    headers(&[
        ("destination", "/queue/fedora"),
        ("org.fcrepo.jms.identifier", IDENTIFIER),
        ("org.fcrepo.jms.eventType", event_type),
        ("org.fcrepo.jms.resourceType", "http://fedora.info/definitions/v4/repository#Resource"),
    ])
}

#[test]
fn fails_with_invalid_uri() {
    let f_auth = FedoraAuth::new("username", "password", "://localhost:8080/rest/development");
    assert!(f_auth.is_err());
}

#[test]
fn invalid_uri_error_carries_parser_error() {
    match FedoraAuth::new("username", "password", "://localhost:8080/rest/development") {
        Err(e) => {
            assert_eq!(e, FedoraError::InvalidUrl("relative URL without a base".to_string()));
            assert_eq!(e.message(), "relative URL without a base");
        },
        Ok(_) => panic!("the URI should not parse"),
    }
}

#[test]
fn filters_for_events() {
    let cases = vec![
        ("message_create", event_headers("https://www.w3.org/ns/activitystreams#Create")),
        ("message_update", event_headers("https://www.w3.org/ns/activitystreams#Update")),
        ("message_follow", event_headers("https://www.w3.org/ns/activitystreams#Follow")),
    ];
    for (key, message_headers) in cases {
        let tag = key.rsplit_once('_').unwrap().1;
        match (tag, parse_stomp_headers(message_headers)) {
            (tag, Some(identifier)) => {
                assert_eq!(tag, "create");
                assert_eq!(identifier, "/development/4a/0d/8a/83/4a0d8a83-c024-483e-90e7-884274f13b56");
            },
            (tag, None) => assert!(tag == "update" || tag == "follow"),
        }
    }
}

#[test]
fn stomp_headers_need_identifier_and_type() {
    let no_id = headers(&[("org.fcrepo.jms.eventType", "https://www.w3.org/ns/activitystreams#Create")]);
    assert_eq!(parse_stomp_headers(no_id), None);
    let no_type = headers(&[("org.fcrepo.jms.identifier", IDENTIFIER)]);
    assert_eq!(parse_stomp_headers(no_type), None);
    assert_eq!(parse_stomp_headers(Vec::new()), None);
}

#[test]
fn stomp_headers_last_value_counts() {
    let h = headers(&[
        ("org.fcrepo.jms.identifier", "/first"),
        ("org.fcrepo.jms.eventType", "https://www.w3.org/ns/activitystreams#Update"),
        ("org.fcrepo.jms.identifier", "/second"),
        ("org.fcrepo.jms.eventType", "https://www.w3.org/ns/activitystreams#Create"),
    ]);
    assert_eq!(parse_stomp_headers(h), Some("/second".to_string()));
    let h = headers(&[
        ("org.fcrepo.jms.eventType", "https://www.w3.org/ns/activitystreams#Create"),
        ("org.fcrepo.jms.identifier", "/x"),
        ("org.fcrepo.jms.eventType", "https://www.w3.org/ns/activitystreams#Delete"),
    ]);
    assert_eq!(parse_stomp_headers(h), None);
}

#[test]
fn collector_keeps_created_uris_once() {
    let mut c = QueueCollector::new();
    let create = |id: &str| {
        QueueEvent::Message(headers(&[
            ("org.fcrepo.jms.identifier", id),
            ("org.fcrepo.jms.eventType", "https://www.w3.org/ns/activitystreams#Create"),
        ]))
    };
    assert_eq!(c.handle(create("/a")), QueueAction::Continue);
    assert_eq!(c.handle(QueueEvent::OtherFrame), QueueAction::Continue);
    assert_eq!(c.handle(QueueEvent::Message(event_headers("https://www.w3.org/ns/activitystreams#Update"))), QueueAction::Continue);
    assert_eq!(c.handle(create("/b")), QueueAction::Continue);
    assert_eq!(c.handle(create("/a")), QueueAction::Continue);
    assert_eq!(c.handle(QueueEvent::TimedOut), QueueAction::Stop);
    assert_eq!(c.into_uris(), vec!["/a".to_string(), "/b".to_string()]);
}

#[test]
fn collector_stops_on_connection_end() {
    let mut c = QueueCollector::new();
    assert_eq!(c.handle(QueueEvent::ConnectionLost), QueueAction::Stop);
    assert_eq!(c.handle(QueueEvent::Closed), QueueAction::Stop);
    assert!(c.into_uris().is_empty());
}

#[test]
fn fedora_auth_parses_root_url() {
    let auth = FedoraAuth::new("user", "pw", "http://localhost:8080").unwrap();
    assert_eq!(auth.root_url, "http://localhost:8080/");
    assert_eq!(auth.username, "user");
    assert_eq!(auth.password, "pw");
    let url = auth.resource_url("fcrepo/rest/development/cc/49").unwrap();
    assert_eq!(url, "http://localhost:8080/fcrepo/rest/development/cc/49");
}

fn lit(s: &str) -> RdfNode {
    RdfNode::Literal { literal: s.to_string(), data_type: None, language: None }
}

fn uri(s: &str) -> RdfNode {
    RdfNode::Uri(s.to_string())
}

fn triple(p: &str, o: RdfNode) -> RdfTriple {
    RdfTriple { subject: uri("http://localhost/res"), predicate: uri(p), object: o }
}

#[test]
fn recognises_resource_from_matching_triples() {
    let models = vec![
        triple("info:fedora/fedora-system:def/model#hasModel", lit("FileSet")),
        triple("info:fedora/fedora-system:def/model#hasModel", lit("ArchivalDocument")),
    ];
    let refs = vec![
        triple("http://purl.org/dc/terms/identifier", uri("http://example.org/not-a-literal")),
        triple("http://purl.org/dc/terms/identifier", lit("aspace-ref")),
        triple("http://purl.org/dc/terms/identifier", lit("later-ref")),
    ];
    let r = FedoraResource::from_matching_triples(&models, &refs, "some/uri").unwrap();
    assert_eq!(
        r,
        FedoraResource {
            uri: "some/uri".to_owned(),
            model: HyraxModel::ArchivalDocument,
            ref_id: "aspace-ref".to_owned(),
            related_url: None,
        }
    );
    let other_models = vec![triple("info:fedora/fedora-system:def/model#hasModel", lit("GwWork"))];
    assert_eq!(FedoraResource::from_matching_triples(&other_models, &refs, "some/uri"), None);
    let no_literal = vec![triple("http://purl.org/dc/terms/identifier", uri("http://x"))];
    assert_eq!(FedoraResource::from_matching_triples(&models, &no_literal, "some/uri"), None);
}

const ARCHIVAL_DOCUMENT_TURTLE: &str = "@prefix dcterms: <http://purl.org/dc/terms/> .
@prefix fedoramodel: <info:fedora/fedora-system:def/model#> .

<http://localhost:8080/fcrepo/rest/development/cc/49/3b/7e/cc493b7e-b7f4-4783-8d94-569479fb5011> fedoramodel:hasModel \"ArchivalDocument\" .
<http://localhost:8080/fcrepo/rest/development/cc/49/3b/7e/cc493b7e-b7f4-4783-8d94-569479fb5011> dcterms:title \"A letter\" .
<http://localhost:8080/fcrepo/rest/development/cc/49/3b/7e/cc493b7e-b7f4-4783-8d94-569479fb5011> dcterms:identifier \"some-archivesspace-identifier\" .
";

const GW_WORK_TURTLE: &str = "<http://localhost:8080/fcrepo/rest/development/fb/3e/29/53/fb3e2953> <info:fedora/fedora-system:def/model#hasModel> \"GwWork\" .
<http://localhost:8080/fcrepo/rest/development/fb/3e/29/53/fb3e2953> <http://purl.org/dc/terms/identifier> \"other-identifier\" .
";

#[test]
fn parses_turtle_response() {
    let uris = vec![
        ("fcrepo/rest/development/cc/49/3b/7e/cc493b7e-b7f4-4783-8d94-569479fb5011", "ArchivalDocument", ARCHIVAL_DOCUMENT_TURTLE),
        ("fcrepo/rest/development/fb/3e/29/53/fb3e2953-2e03-4d05-a13e-44ef5821ead8", "GwWork", GW_WORK_TURTLE),
    ];
    for (uri, model, text) in uris {
        let resource = FedoraResource::from_turtle(text, uri).unwrap();
        match model {
            "ArchivalDocument" => {
                assert!(!resource.is_none());
                match resource {
                    Some(r) => assert_eq!(
                        r,
                        FedoraResource {
                            uri: uri.to_owned(),
                            ref_id: "some-archivesspace-identifier".to_owned(),
                            model: HyraxModel::ArchivalDocument,
                            related_url: None,
                        }
                    ),
                    None => (),
                }
            },
            _ => assert!(resource.is_none()),
        }
    }
}

#[test]
fn rejects_invalid_turtle() {
    let r = FedoraResource::from_turtle("<http://a> <http://b> \"unterminated .", "x");
    match r {
        Err(e @ FedoraError::InvalidTurtle(_)) => {
            let text = e.message();
            assert!(text.starts_with("Error { error_type: "), "{}", text);
        },
        other => panic!("expected a Turtle error, got {:?}", other),
    }
}

fn collect(events: Vec<QueueEvent>) -> Vec<String> {
    let mut c = QueueCollector::new();
    for e in events {
        if c.handle(e) == QueueAction::Stop {
            break;
        }
    }
    let mut uris = c.into_uris();
    uris.sort();
    uris
}

fn create_event(id: &str) -> QueueEvent {
    QueueEvent::Message(headers(&[
        ("org.fcrepo.jms.identifier", id),
        ("org.fcrepo.jms.eventType", "https://www.w3.org/ns/activitystreams#Create"),
    ]))
}

#[test]
fn collected_set_ignores_order_repeats_and_ignored_events() {
    let first = collect(vec![create_event("/a"), create_event("/b"), QueueEvent::TimedOut]);
    let second = collect(vec![
        create_event("/b"),
        QueueEvent::OtherFrame,
        create_event("/a"),
        QueueEvent::Message(event_headers("https://www.w3.org/ns/activitystreams#Update")),
        create_event("/b"),
        QueueEvent::TimedOut,
        create_event("/c"),
    ]);
    assert_eq!(first, vec!["/a".to_string(), "/b".to_string()]);
    assert_eq!(first, second);
}
