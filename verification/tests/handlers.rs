use tackd::auth::{auth, Credentials};
use tackd::error::Error;
use tackd::handlers::{split_tags, tags_deserialize, CreateUser, HeaderText, QueriesGet, RoleTagsCreate, Tags};

fn words(list: &[&str]) -> Vec<String> {
    list.iter().map(|w| w.to_string()).collect()
}

#[test]
fn tags_are_split_at_commas() {
    assert_eq!(split_tags("a,b,c"), words(&["a", "b", "c"]));
    assert_eq!(split_tags("one"), words(&["one"]));
    assert_eq!(split_tags(""), words(&[""]));
    assert_eq!(split_tags(","), words(&["", ""]));
    assert_eq!(split_tags("a,,b"), words(&["a", "", "b"]));
    assert_eq!(split_tags("a,"), words(&["a", ""]));
    assert_eq!(split_tags(",a"), words(&["", "a"]));
    assert_eq!(split_tags(" a , b "), words(&[" a ", " b "]));
    assert_eq!(split_tags("grün,blau"), words(&["grün", "blau"]));
}

#[test]
fn tags_are_split_as_std_splits() {
    for text in ["", ",", "a", "a,b", ",,", "x,y,", "ä,ö,ü", "no commas here"] {
        let expected: Vec<String> = text.split(',').map(|t| t.to_owned()).collect();
        assert_eq!(split_tags(text), expected, "{:?}", text);
    }
}

#[test]
fn absent_tags_stay_absent() {
    assert_eq!(tags_deserialize(None), None);
    assert_eq!(tags_deserialize(Some("a,b".to_string())), Some(words(&["a", "b"])));
}

#[test]
fn header_is_recorded_or_marked() {
    assert_eq!(HeaderText::Absent.recorded(), None);
    assert_eq!(HeaderText::Opaque.recorded().as_deref(), Some("error"));
    assert_eq!(HeaderText::Text("curl/8".to_string()).recorded().as_deref(), Some("curl/8"));
    assert_eq!(HeaderText::Absent.text_or("none"), "none");
    assert_eq!(HeaderText::Opaque.text_or("none"), "none");
    assert_eq!(HeaderText::Text("text/csv".to_string()).text_or("none"), "text/csv");
}

#[test]
fn id_parameter_overrides_the_path() {
    let q = QueriesGet { key: None, id: Some("from-query".to_string()), pwd: None };
    assert_eq!(q.link_id("from-path".to_string()), "from-query");
    let q = QueriesGet { key: Some("k".to_string()), id: None, pwd: None };
    assert_eq!(q.link_id("from-path".to_string()), "from-path");
}

#[test]
fn request_types_hold_their_fields() {
    let r = RoleTagsCreate { tags: None, role: Some("admin".to_string()) };
    assert_eq!(r.role.as_deref(), Some("admin"));
    assert_eq!(r.tags, None);
    let t = Tags { tags: Some(words(&["a"])) };
    assert_eq!(t.tags.unwrap().len(), 1);
    let c = CreateUser { email: "a@example.org".to_string(), pwd: "pw".to_string() };
    assert_eq!(c.email, "a@example.org");
    assert_eq!(c.pwd, "pw");
}

#[test]
fn no_header_is_anonymous() {
    assert!(matches!(auth(None), Credentials::Anonymous));
}

#[test]
fn basic_header_names_user_and_password() {
    let header = b"Basic dXNlcjpwYXNz".to_vec();
    match auth(Some(&header)) {
        Credentials::Login { username, password } => {
            assert_eq!(username, "user");
            assert_eq!(password, "pass");
        }
        other => panic!("{:?}", other),
    }
    // "key:se:cret" splits at the first colon.
    let header = b"Basic a2V5OnNlOmNyZXQ=".to_vec();
    match auth(Some(&header)) {
        Credentials::Login { username, password } => {
            assert_eq!(username, "key");
            assert_eq!(password, "se:cret");
        }
        other => panic!("{:?}", other),
    }
}

#[test]
fn unreadable_header_is_rejected() {
    for header in [
        &b""[..],
        &b"Basic"[..],
        &b"Basic "[..],
        &b"Bearer dXNlcjpwYXNz"[..],
        &b"basic dXNlcjpwYXNz"[..],
        &b"Basic not base64!"[..],
        &b"Basic dXNlcg=="[..],
        &b"XXXXXXdXNlcjpwYXNz"[..],
    ] {
        let header = header.to_vec();
        assert!(matches!(auth(Some(&header)), Credentials::Rejected), "{:?}", header);
    }
}

#[test]
fn errors_say_what_went_wrong() {
    assert_eq!(Error::NotFound.message(), "{\"error\": \"Not found\"}");
    assert_eq!(Error::BadInsert.message(), "{\"error\": \"Unable to insert metadata\"}");
    assert_eq!(
        Error::CleanupNotRequired.message(),
        "{\"error\": \"Cleanup not required at this time\"}"
    );
    assert_eq!(Error::UserExists.message(), "{\"error\": \"User already exists\"}");
    assert_eq!(Error::BadLogin.message(), "{\"error\": \"Incorrect login credentials\"}");
    assert_eq!(Error::Unauthorized.message(), "{\"error\": \"Unauthorized\"}");
    assert_eq!(Error::Mongo("down".to_string()).message(), "{\"error\": \"down\"}");
    assert_eq!(Error::Storage("full".to_string()).message(), "{\"error\": \"full\"}");
    assert_eq!(Error::Azure("gone".to_string()).message(), "{\"error\": \"gone\"}");
    assert_eq!(Error::DeError("bad doc".to_string()).message(), "{\"error\": \"bad doc\"}");
    assert_eq!(Error::SerError("bad value".to_string()).message(), "{\"error\": \"bad value\"}");
    assert_eq!(Error::Bson("no field".to_string()).message(), "{\"error\": \"no field\"}");
    assert_eq!(Error::Utf("not text".to_string()).message(), "{\"error\": \"not text\"}");
    assert_eq!(Error::Ms("invalid postfix".to_string()).message(), "{\"error\": \"invalid postfix\"}");
}

#[test]
fn crypto_error_names_itself() {
    let refused = tackd::data::Data::encrypt("short".to_string(), b"x".to_vec()).unwrap_err();
    assert_eq!(refused.message(), "{\"error\": \"UnknownCryptoError\"}");
    assert_eq!(refused.status_code(), 500);
}

#[test]
fn duration_error_carries_the_parsers_message() {
    let q = tackd::handlers::QueriesSet {
        filename: None,
        expires: Some("5 fortnights".to_string()),
        reads: None,
        pwd: None,
        tags: None,
    };
    let refused = q.requested_expiry().unwrap_err();
    assert_eq!(refused.message(), "{\"error\": \"invalid postfix\"}");
    assert_eq!(refused.status_code(), 500);
}

#[test]
fn errors_have_their_status() {
    assert_eq!(Error::NotFound.status_code(), 404);
    assert_eq!(Error::UserExists.status_code(), 409);
    assert_eq!(Error::BadLogin.status_code(), 401);
    assert_eq!(Error::Unauthorized.status_code(), 401);
    assert_eq!(Error::DeError("x".to_string()).status_code(), 404);
    assert_eq!(Error::BadInsert.status_code(), 500);
    assert_eq!(Error::CleanupNotRequired.status_code(), 500);
    assert_eq!(Error::SerError("x".to_string()).status_code(), 500);
    assert_eq!(Error::Mongo("x".to_string()).status_code(), 500);
    assert_eq!(Error::Storage("x".to_string()).status_code(), 500);
    assert_eq!(Error::Bson("x".to_string()).status_code(), 500);
    assert_eq!(Error::Utf("x".to_string()).status_code(), 500);
    assert_eq!(Error::Azure("x".to_string()).status_code(), 500);
    assert_eq!(Error::Ms("x".to_string()).status_code(), 500);
}

#[test]
fn pieces_joined_with_commas_are_the_text() {
    for text in ["", ",", "a,b,c", "a,,b", ",x,", "no comma"] {
        assert_eq!(split_tags(text).join(","), text);
        assert!(split_tags(text).iter().all(|piece| !piece.contains(',')));
    }
}
