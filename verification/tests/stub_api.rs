use socket_bridge::stub::{Stub, StubCollection};

fn method_stub(class: &str, method: &str, specifics: Option<&str>) -> Stub {
    Stub::Avm1Method {
        class: String::from(class),
        method: String::from(method),
        specifics: specifics.map(String::from),
    }
}

#[test]
fn encounter_reports_each_stub_once() {
    let mut stubs = StubCollection::new();
    assert!(stubs.encounter(method_stub("Sound", "attachSound", None)));
    assert!(!stubs.encounter(method_stub("Sound", "attachSound", None)));
    assert!(stubs.encounter(method_stub("Sound", "loadSound", None)));
    assert!(!stubs.encounter(method_stub("Sound", "attachSound", None)));
    assert_eq!(stubs.iter().len(), 2);
}

#[test]
fn specifics_distinguish_stubs() {
    let mut stubs = StubCollection::new();
    assert!(stubs.encounter(method_stub("XML", "load", Some("https"))));
    assert!(stubs.encounter(method_stub("XML", "load", Some("ftp"))));
    assert!(stubs.encounter(method_stub("XML", "load", None)));
    assert!(!stubs.encounter(method_stub("XML", "load", Some("ftp"))));
    assert_eq!(stubs.iter().len(), 3);
}

#[test]
fn free_form_stubs_compare_by_text() {
    let mut stubs = StubCollection::new();
    assert!(stubs.encounter(Stub::Other(String::from("filters"))));
    assert!(!stubs.encounter(Stub::Other(String::from("filters"))));
    assert!(stubs.encounter(Stub::Other(String::from("shaders"))));
    assert_eq!(stubs.iter().len(), 2);
}

#[test]
fn kinds_never_collide() {
    let mut stubs = StubCollection::new();
    assert!(stubs.encounter(Stub::Other(String::from("Sound.attachSound"))));
    assert!(stubs.encounter(method_stub("Sound", "attachSound", None)));
    assert_eq!(stubs.iter().len(), 2);
}

#[test]
fn messages_describe_the_stub() {
    assert_eq!(
        method_stub("Sound", "attachSound", None).message(),
        "AVM1 Sound.attachSound"
    );
    assert_eq!(
        method_stub("XML", "load", Some("over ftp")).message(),
        "AVM1 XML.load over ftp"
    );
    assert_eq!(
        Stub::Other(String::from("anything else")).message(),
        "anything else"
    );
}
