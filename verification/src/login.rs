//! The login flow against the upstream SSO: each leg's decision on the
//! document it got back, in the strict order the flow prescribes. The HTTP
//! round-trips and the cookie jar live outside; these functions turn each
//! response into the next request's data or the exact error the flow
//! reports.

use vstd::prelude::*;

use crate::error::Error;
use crate::scrape::{
    anchors_of, attr_of, form_fields_of, scrape_form, select_anchors, select_attr_first,
    str_pairs_view,
};

verus! {

/// Where the SSO bootstrap document is fetched.
pub const BOOTSTRAP_URL: &'static str =
    "https://fnsservicesso1.stockholm.se/sso-ng/saml-2.0/authenticate?customer=https://login001.stockholm.se&targetsystem=TimetableViewer";

/// Prefix of the forms host the login pages live under.
pub const FORMS_PREFIX: &'static str = "https://login001.stockholm.se/siteminderagent/forms/";

/// Where the filled login form is posted.
pub const LOGIN_FORM_URL: &'static str =
    "https://login001.stockholm.se/siteminderagent/forms/login.fcc";

/// Where the SAML request form is posted.
pub const SAML_SSO_URL: &'static str =
    "https://login001.stockholm.se/affwebservices/public/saml2sso";

/// Where the SAML response form is posted.
pub const SAML_RESPONSE_URL: &'static str =
    "https://fnsservicesso1.stockholm.se/sso-ng/saml-2.0/response";

/// The landing page the scope is scraped from.
pub const TIMETABLE_VIEWER_URL: &'static str =
    "https://fns.stockholm.se/ng/timetable/timetable-viewer/fns.stockholm.se/";

/// An authenticated upstream session: the cookie jar's snapshot, opaque to
/// this library, and the scope header value scraped at the end of the flow.
#[derive(Debug, Clone)]
pub struct Session {
    pub cookies: Vec<u8>,
    pub scope: String,
}

/// The href of the first anchor whose inner HTML is the given text; the
/// outer option is the finding, the inner the anchor's href.
pub open spec fn spec_find_text(
    anchors: Seq<(Seq<char>, Option<Seq<char>>)>,
    text: Seq<char>,
) -> Option<Option<Seq<char>>>
    decreases anchors.len(),
{
    if anchors.len() == 0 {
        None
    } else if anchors.first().0 == text {
        Some(anchors.first().1)
    } else {
        spec_find_text(anchors.drop_first(), text)
    }
}

/// Leg 1: the student-login link of the bootstrap document — the first
/// `a.navBtn` anchor labelled `Elever`.
pub fn student_href(html: &str) -> (r: Result<String, Error>)
    ensures
        r is Ok <==> spec_find_text(anchors_of(html@, "a.navBtn"@), "Elever"@) matches Some(
            Some(_),
        ),
        r matches Ok(h) ==> spec_find_text(anchors_of(html@, "a.navBtn"@), "Elever"@) == Some(
            Some(h@),
        ),
        r matches Err(e) ==> e matches Error::ScrapingFailed { details } && details@
            == "no student login button found"@,
{
    let anchors = select_anchors(html, "a.navBtn");
    let label = String::from_str("Elever");
    let mut i: usize = 0;
    proof {
        assert(crate::scrape::anchors_view(anchors@).skip(0) =~= crate::scrape::anchors_view(
            anchors@,
        ));
    }
    while i < anchors.len()
        invariant
            label@ == "Elever"@,
            i <= anchors@.len(),
            spec_find_text(anchors_of(html@, "a.navBtn"@), "Elever"@) == spec_find_text(
                crate::scrape::anchors_view(anchors@).skip(i as int),
                "Elever"@,
            ),
        decreases anchors@.len() - i,
    {
        proof {
            assert(crate::scrape::anchors_view(anchors@).skip(i as int).drop_first()
                =~= crate::scrape::anchors_view(anchors@).skip(i + 1));
            assert(crate::scrape::anchors_view(anchors@).skip(i as int).first()
                == crate::scrape::anchors_view(anchors@)[i as int]);
        }
        if anchors[i].0 == label {
            match &anchors[i].1 {
                Some(h) => {
                    return Ok(h.clone());
                },
                None => {
                    return Err(
                        Error::ScrapingFailed {
                            details: String::from_str("no student login button found"),
                        },
                    );
                },
            }
        }
        i += 1;
    }
    Err(Error::ScrapingFailed { details: String::from_str("no student login button found") })
}

/// Leg 2: the username/password option of the student landing page — the
/// href of the first `a.beta` anchor.
pub fn basic_login_href(html: &str) -> (r: Result<String, Error>)
    ensures
        r is Ok <==> (anchors_of(html@, "a.beta"@).len() > 0 && anchors_of(
            html@,
            "a.beta"@,
        )[0].1 is Some),
        r matches Ok(h) ==> anchors_of(html@, "a.beta"@)[0].1 == Some(h@),
        r matches Err(e) ==> e matches Error::ScrapingFailed { details } && details@
            == "no username-password option found"@,
{
    let anchors = select_anchors(html, "a.beta");
    if anchors.len() > 0 {
        proof {
            assert(crate::scrape::anchors_view(anchors@)[0].0 == anchors@[0].0@);
        }
        match &anchors[0].1 {
            Some(h) => {
                return Ok(h.clone());
            },
            None => {},
        }
    }
    Err(Error::ScrapingFailed { details: String::from_str("no username-password option found") })
}

/// The form fields with the credential fields replaced: entries named
/// `user`, `password` or `submit` are dropped, then the three are appended
/// with the given username, password, and an empty submit value.
pub open spec fn spec_without_credential_keys(fields: Seq<(Seq<char>, Seq<char>)>) -> Seq<
    (Seq<char>, Seq<char>),
>
    decreases fields.len(),
{
    if fields.len() == 0 {
        Seq::empty()
    } else {
        spec_without_credential_keys(fields.drop_last()) + (if fields.last().0 == "user"@
            || fields.last().0 == "password"@ || fields.last().0 == "submit"@ {
            Seq::empty()
        } else {
            seq![fields.last()]
        })
    }
}

/// Leg 3: the credentials form of the login page, with the username and
/// password injected and an empty submit field.
pub fn login_form_body(html: &str, username: &str, password: &str) -> (r: Result<
    Vec<(String, String)>,
    Error,
>)
    ensures
        r is Ok <==> form_fields_of(html@) is Some,
        r matches Ok(v) ==> str_pairs_view(v@) == spec_without_credential_keys(
            form_fields_of(html@)->Some_0,
        ) + seq![("user"@, username@), ("password"@, password@), ("submit"@, Seq::<char>::empty())],
        r matches Err(e) ==> e matches Error::ScrapingFailed { details } && details@
            == "no login form found"@,
{
    let fields = match scrape_form(html) {
        Some(f) => f,
        None => {
            return Err(
                Error::ScrapingFailed { details: String::from_str("no login form found") },
            );
        },
    };
    let user_key = String::from_str("user");
    let password_key = String::from_str("password");
    let submit_key = String::from_str("submit");
    let mut out: Vec<(String, String)> = Vec::new();
    let mut i: usize = 0;
    while i < fields.len()
        invariant
            user_key@ == "user"@,
            password_key@ == "password"@,
            submit_key@ == "submit"@,
            i <= fields@.len(),
            str_pairs_view(out@) == spec_without_credential_keys(
                str_pairs_view(fields@.take(i as int)),
            ),
        decreases fields@.len() - i,
    {
        proof {
            assert(str_pairs_view(fields@.take(i + 1)).drop_last() =~= str_pairs_view(
                fields@.take(i as int),
            ));
            assert(str_pairs_view(fields@.take(i + 1)).last() == (
                fields@[i as int].0@,
                fields@[i as int].1@,
            ));
        }
        let keep = !(fields[i].0 == user_key || fields[i].0 == password_key || fields[i].0
            == submit_key);
        if keep {
            let ghost before = str_pairs_view(out@);
            out.push((fields[i].0.clone(), fields[i].1.clone()));
            proof {
                assert(str_pairs_view(out@) =~= before.push(
                    (fields@[i as int].0@, fields@[i as int].1@),
                ));
                assert(str_pairs_view(out@) =~= spec_without_credential_keys(
                    str_pairs_view(fields@.take(i + 1)),
                ));
            }
        } else {
            proof {
                assert(str_pairs_view(out@) =~= spec_without_credential_keys(
                    str_pairs_view(fields@.take(i + 1)),
                ));
            }
        }
        i += 1;
    }
    proof {
        assert(fields@.take(fields@.len() as int) =~= fields@);
    }
    let ghost stripped = str_pairs_view(out@);
    out.push((user_key, username.to_owned()));
    out.push((password_key, password.to_owned()));
    out.push((submit_key, String::new()));
    proof {
        reveal_strlit("");
        assert(""@ =~= Seq::<char>::empty());
        assert(str_pairs_view(out@) =~= stripped + seq![
            ("user"@, username@),
            ("password"@, password@),
            ("submit"@, Seq::<char>::empty()),
        ]);
    }
    Ok(out)
}

/// Leg 4: the SAML request form returned by the credentials post.
pub fn sso_request_form(html: &str) -> (r: Result<Vec<(String, String)>, Error>)
    ensures
        r is Ok <==> form_fields_of(html@) is Some,
        r matches Ok(v) ==> Some(str_pairs_view(v@)) == form_fields_of(html@),
        r matches Err(e) ==> e matches Error::ScrapingFailed { details } && details@
            == "no sso request form found"@,
{
    match scrape_form(html) {
        Some(f) => Ok(f),
        None => Err(
            Error::ScrapingFailed { details: String::from_str("no sso request form found") },
        ),
    }
}

/// Leg 5: the SAML response form. A 400 status means the upstream rejected
/// the credentials, and that is terminal.
pub fn sso_response_form(status: u16, html: &str) -> (r: Result<Vec<(String, String)>, Error>)
    ensures
        status == 400 ==> (r matches Err(e) && e is BadCredentials),
        r is Ok <==> (status != 400 && form_fields_of(html@) is Some),
        r matches Ok(v) ==> Some(str_pairs_view(v@)) == form_fields_of(html@),
        r matches Err(e) ==> e is BadCredentials || (e matches Error::ScrapingFailed { details }
            && details@ == "no sso response form found"@),
{
    if status == 400 {
        return Err(Error::BadCredentials);
    }
    match scrape_form(html) {
        Some(f) => Ok(f),
        None => Err(
            Error::ScrapingFailed { details: String::from_str("no sso response form found") },
        ),
    }
}

/// Leg 7: the scope token of the timetable-viewer landing page, read off
/// the `nova-widget` element.
pub fn scope_from_landing(html: &str) -> (r: Result<String, Error>)
    ensures
        r is Ok <==> attr_of(html@, "nova-widget"@, "scope"@) is Some,
        r matches Ok(s) ==> Some(s@) == attr_of(html@, "nova-widget"@, "scope"@),
        r matches Err(e) ==> e matches Error::ScrapingFailed { details } && details@
            == "no scope found"@,
{
    match select_attr_first(html, "nova-widget", "scope") {
        Some(s) => Ok(s),
        None => Err(Error::ScrapingFailed { details: String::from_str("no scope found") }),
    }
}

} // verus!
