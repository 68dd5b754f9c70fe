use skool::error::Error;
use skool::login::{
    basic_login_href, login_form_body, scope_from_landing, sso_request_form, sso_response_form,
    student_href, Session,
};
use skool::scrape;

fn field<'a>(fields: &'a [(String, String)], key: &str) -> Option<&'a str> {
    fields.iter().find(|(k, _)| k == key).map(|(_, v)| v.as_str())
}

#[test]
fn scrape_form() {
    let html = r#"
        <html>
            <form>
                <input type="email" name="email" />
                <input type="text" name="username" value="Prefilled" />
                <input type="submit" />
            </form>
        </html>
    "#;
    let fields = scrape::scrape_form(html).unwrap();
    assert_eq!(field(&fields, "email").unwrap(), "");
    assert_eq!(field(&fields, "username").unwrap(), "Prefilled");
    assert!(field(&fields, "submit").is_none());
}

#[test]
fn scrape_form_keeps_the_last_of_duplicate_names() {
    let html = r#"<html><form>
        <input name="target" value="first"/>
        <input name="other" value="kept"/>
        <input name="target" value="second"/>
    </form></html>"#;
    let fields = scrape::scrape_form(html).unwrap();
    assert_eq!(fields.iter().filter(|(k, _)| k == "target").count(), 1);
    assert_eq!(field(&fields, "target").unwrap(), "second");
    assert_eq!(field(&fields, "other").unwrap(), "kept");
}

#[test]
fn scrape_form_without_form_is_none() {
    assert!(scrape::scrape_form("<html><p>nothing here</p></html>").is_none());
}

#[test]
fn login_happy_path() {
    // Leg 1: the bootstrap page names the student entry.
    let leg1 = r#"<html><a class="navBtn" href="/teachers">Personal</a>
        <a class="navBtn" href="/students?x=1">Elever</a></html>"#;
    let href = student_href(leg1).unwrap();
    assert_eq!(href, "/students?x=1");

    // Leg 2: the student page offers the username/password option.
    let leg2 = r#"<html><a class="beta" href="basic.fcc?foo">user &amp; password</a></html>"#;
    let basic = basic_login_href(leg2).unwrap();
    assert_eq!(basic, "basic.fcc?foo");

    // Leg 3: the credentials form is scraped and filled.
    let leg3 = r#"<html><form><input name="target" value="T1"/>
        <input name="user" value="stale"/></form></html>"#;
    let body = login_form_body(leg3, "alice", "hunter2").unwrap();
    assert_eq!(field(&body, "target").unwrap(), "T1");
    assert_eq!(field(&body, "user").unwrap(), "alice");
    assert_eq!(field(&body, "password").unwrap(), "hunter2");
    assert_eq!(field(&body, "submit").unwrap(), "");
    assert_eq!(body.iter().filter(|(k, _)| k == "user").count(), 1);

    // Leg 4: the login response carries the SAML request form.
    let leg4 = r#"<html><form><input name="SAMLRequest" value="abc"/></form></html>"#;
    let saml = sso_request_form(leg4).unwrap();
    assert_eq!(field(&saml, "SAMLRequest").unwrap(), "abc");

    // Leg 5: the SSO answers with the response form.
    let leg5 = r#"<html><form><input name="SAMLResponse" value="xyz"/></form></html>"#;
    let response = sso_response_form(200, leg5).unwrap();
    assert_eq!(field(&response, "SAMLResponse").unwrap(), "xyz");

    // Leg 7: the landing page yields the scope.
    let landing = r#"<html><nova-widget scope="Z"></nova-widget></html>"#;
    let scope = scope_from_landing(landing).unwrap();
    assert_eq!(scope, "Z");

    let session = Session { cookies: vec![1], scope };
    assert_eq!(session.scope, "Z");
}

#[test]
fn bad_password_is_terminal() {
    let any = r#"<html><form><input name="x" value="y"/></form></html>"#;
    assert!(matches!(sso_response_form(400, any), Err(Error::BadCredentials)));
}

#[test]
fn missing_scope_is_scraping_failure() {
    let landing = r#"<html><p>no widget at all</p></html>"#;
    match scope_from_landing(landing) {
        Err(Error::ScrapingFailed { details }) => assert_eq!(details, "no scope found"),
        other => panic!("unexpected: {:?}", other),
    }
}

#[test]
fn missing_student_link_is_scraping_failure() {
    let html = r#"<html><a class="navBtn" href="/x">Personal</a></html>"#;
    match student_href(html) {
        Err(Error::ScrapingFailed { details }) => {
            assert_eq!(details, "no student login button found")
        }
        other => panic!("unexpected: {:?}", other),
    }
}

#[test]
fn missing_basic_option_is_scraping_failure() {
    match basic_login_href("<html></html>") {
        Err(Error::ScrapingFailed { details }) => {
            assert_eq!(details, "no username-password option found")
        }
        other => panic!("unexpected: {:?}", other),
    }
}

#[test]
fn missing_sso_forms_are_scraping_failures() {
    match sso_request_form("<html></html>") {
        Err(Error::ScrapingFailed { details }) => {
            assert_eq!(details, "no sso request form found")
        }
        other => panic!("unexpected: {:?}", other),
    }
    match sso_response_form(200, "<html></html>") {
        Err(Error::ScrapingFailed { details }) => {
            assert_eq!(details, "no sso response form found")
        }
        other => panic!("unexpected: {:?}", other),
    }
}
