use ini::Ini;
use t3_update_version::error::ConfigError;
use t3_update_version::service::{
    after_read, after_write, reply_to, reply_to_fault, update_version, Reply, Step,
    VersionRequest, REQUEST_TIMEOUT_SECONDS, STATUS_INTERNAL_SERVER_ERROR, STATUS_OK,
    STATUS_REQUEST_TIMEOUT, UPDATE_ROUTE, URL_KEY, VERSION_KEY, VERSION_SECTION,
};

const FILE: &[u8] = b"[Version]\nT3000Version=1.0.0\nT3000_INSTALL_URL=http://old\n[Other]\nk=v\n";

fn request(version: Option<&str>, url: Option<&str>) -> VersionRequest {
    VersionRequest {
        version: version.map(|s| s.to_string()),
        url: url.map(|s| s.to_string()),
    }
}

#[test]
fn names_are_fixed() {
    assert_eq!(VERSION_SECTION, "Version");
    assert_eq!(VERSION_KEY, "T3000Version");
    assert_eq!(URL_KEY, "T3000_INSTALL_URL");
    assert_eq!(UPDATE_ROUTE, "/update-version");
    assert_eq!(REQUEST_TIMEOUT_SECONDS, 10);
}

#[test]
fn version_only_request_keeps_url_and_other_section() {
    let out = update_version(FILE, &request(Some("2.0.0"), None)).unwrap();
    let doc = Ini::load_from_str(std::str::from_utf8(&out).unwrap()).unwrap();
    assert_eq!(doc.get_from(Some("Version"), "T3000Version"), Some("2.0.0"));
    assert_eq!(
        doc.get_from(Some("Version"), "T3000_INSTALL_URL"),
        Some("http://old")
    );
    assert_eq!(doc.get_from(Some("Other"), "k"), Some("v"));
    assert_eq!(doc.section(Some("Version")).unwrap().len(), 2);
    assert_eq!(doc.section(Some("Other")).unwrap().len(), 1);
    assert_eq!(doc.len(), 3);
}

#[test]
fn version_only_request_writes_these_bytes() {
    let out = update_version(FILE, &request(Some("2.0.0"), None)).unwrap();
    assert_eq!(
        String::from_utf8(out).unwrap(),
        "[Version]\nT3000_INSTALL_URL=http://old\nT3000Version=2.0.0\n\n[Other]\nk=v\n"
    );
}

#[test]
fn url_only_request_keeps_version() {
    let out = update_version(FILE, &request(None, Some("http://new"))).unwrap();
    assert_eq!(
        String::from_utf8(out).unwrap(),
        "[Version]\nT3000Version=1.0.0\nT3000_INSTALL_URL=http://new\n\n[Other]\nk=v\n"
    );
}

#[test]
fn request_with_both_fields_sets_both_keys() {
    let out = update_version(FILE, &request(Some("2.0.0"), Some("http://new"))).unwrap();
    assert_eq!(
        String::from_utf8(out).unwrap(),
        "[Version]\nT3000Version=2.0.0\nT3000_INSTALL_URL=http://new\n\n[Other]\nk=v\n"
    );
}

#[test]
fn request_without_fields_writes_document_back() {
    let out = update_version(FILE, &request(None, None)).unwrap();
    assert_eq!(
        String::from_utf8(out).unwrap(),
        "[Version]\nT3000Version=1.0.0\nT3000_INSTALL_URL=http://old\n\n[Other]\nk=v\n"
    );
    assert_eq!(VersionRequest::default(), request(None, None));
}

#[test]
fn request_inserts_keys_that_the_section_lacks() {
    let out = update_version(
        b"[Version]\nname=T3000\n",
        &request(Some("1"), Some("http://u")),
    )
    .unwrap();
    assert_eq!(
        String::from_utf8(out).unwrap(),
        "[Version]\nname=T3000\nT3000Version=1\nT3000_INSTALL_URL=http://u\n"
    );
}

#[test]
fn empty_string_is_a_value() {
    let out = update_version(FILE, &request(Some(""), None)).unwrap();
    let doc = Ini::load_from_str(std::str::from_utf8(&out).unwrap()).unwrap();
    assert_eq!(doc.get_from(Some("Version"), "T3000Version"), Some(""));
    assert_eq!(
        doc.get_from(Some("Version"), "T3000_INSTALL_URL"),
        Some("http://old")
    );
}

#[test]
fn same_request_twice_leaves_same_file() {
    let req = request(Some("2.0.0"), Some("http://new"));
    let once = update_version(FILE, &req).unwrap();
    let twice = update_version(&once, &req).unwrap();
    assert_eq!(twice, once);
    let req = request(Some("3.0.0"), None);
    let once = update_version(FILE, &req).unwrap();
    let twice = update_version(&once, &req).unwrap();
    assert_eq!(twice, once);
}

#[test]
fn file_without_version_section_is_a_structural_failure() {
    let r = update_version(b"[Other]\nk=v\n", &request(Some("2.0.0"), None));
    assert_eq!(r, Err(ConfigError::SectionNotFound("Version".to_string())));
    let reply = reply_to(&r.map(|_| ()));
    assert_eq!(
        reply,
        Reply { status: 500, body: "Version section not found".to_string() }
    );
}

#[test]
fn malformed_file_is_a_load_failure() {
    let r = update_version(b"=oops\n", &request(Some("2.0.0"), None));
    assert_eq!(r, Err(ConfigError::Load("1:2 missing key".to_string())));
    let reply = reply_to(&r.map(|_| ()));
    assert_eq!(
        reply,
        Reply {
            status: 500,
            body: "Failed to load config file: 1:2 missing key".to_string()
        }
    );
}

#[test]
fn success_is_answered_with_empty_body() {
    assert_eq!(
        reply_to(&Ok(())),
        Reply { status: 200, body: String::new() }
    );
    assert_eq!(STATUS_OK, 200);
}

#[test]
fn unreadable_file_is_answered_with_its_description() {
    let outcome = Err(ConfigError::Load(
        "No such file or directory (os error 2)".to_string(),
    ));
    assert_eq!(
        reply_to(&outcome),
        Reply {
            status: 500,
            body: "Failed to load config file: No such file or directory (os error 2)".to_string()
        }
    );
    assert_eq!(STATUS_INTERNAL_SERVER_ERROR, 500);
}

#[test]
fn write_failure_is_answered_with_its_description() {
    let outcome = Err(ConfigError::Write("Permission denied (os error 13)".to_string()));
    assert_eq!(
        reply_to(&outcome),
        Reply {
            status: 500,
            body: "Failed to write config file: Permission denied (os error 13)".to_string()
        }
    );
}

#[test]
fn error_messages() {
    assert_eq!(
        ConfigError::Load("x".to_string()).message(),
        "Failed to load config file: x"
    );
    assert_eq!(
        ConfigError::SectionNotFound("Version".to_string()).message(),
        "Version section not found"
    );
    assert_eq!(
        ConfigError::Write("y".to_string()).message(),
        "Failed to write config file: y"
    );
}

#[test]
fn timeout_is_answered_as_request_timeout() {
    assert_eq!(
        reply_to_fault(true, "request timed out"),
        Reply { status: 408, body: String::new() }
    );
    assert_eq!(STATUS_REQUEST_TIMEOUT, 408);
}

#[test]
fn other_fault_is_answered_as_internal_error() {
    assert_eq!(
        reply_to_fault(false, "boom"),
        Reply {
            status: 500,
            body: "Unhandled internal error: boom".to_string()
        }
    );
}

#[test]
fn readable_file_with_version_section_is_stored() {
    let step = after_read(Ok(FILE), &request(Some("2.0.0"), None));
    assert_eq!(
        step,
        Step::Store(
            b"[Version]\nT3000_INSTALL_URL=http://old\nT3000Version=2.0.0\n\n[Other]\nk=v\n"
                .to_vec()
        )
    );
}

#[test]
fn file_that_does_not_exist_is_not_stored() {
    let step = after_read(
        Err("No such file or directory (os error 2)".to_string()),
        &request(Some("2.0.0"), None),
    );
    assert_eq!(
        step,
        Step::Answer(Reply {
            status: 500,
            body: "Failed to load config file: No such file or directory (os error 2)"
                .to_string()
        })
    );
}

#[test]
fn file_without_version_section_is_not_stored() {
    let step = after_read(Ok(b"[Other]\nk=v\n"), &request(Some("2.0.0"), None));
    assert_eq!(
        step,
        Step::Answer(Reply {
            status: 500,
            body: "Version section not found".to_string()
        })
    );
}

#[test]
fn malformed_file_is_not_stored() {
    let step = after_read(Ok(b"[Version\n"), &request(None, Some("http://new")));
    assert_eq!(
        step,
        Step::Answer(Reply {
            status: 500,
            body: "Failed to load config file: 2:1 expecting \"[Some(']')]\" but found EOF."
                .to_string()
        })
    );
}

#[test]
fn written_file_is_answered_with_success() {
    assert_eq!(
        after_write(Ok(())),
        Reply { status: 200, body: String::new() }
    );
}

#[test]
fn failed_write_is_answered_with_its_description() {
    assert_eq!(
        after_write(Err("No space left on device (os error 28)".to_string())),
        Reply {
            status: 500,
            body: "Failed to write config file: No space left on device (os error 28)"
                .to_string()
        }
    );
}
