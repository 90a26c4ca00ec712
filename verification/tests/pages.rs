use zero2prod::flash::{render_flashes, FlashMessage, Level};
use zero2prod::idempotency::key::IdempotencyKey;
use zero2prod::response::HttpResponse;
use zero2prod::routes::admin::dashboard::admin_dashboard;
use zero2prod::routes::admin::newsletters::get::{
    fresh_idempotency_key, publish_newsletter_form, publish_newsletter_form_with,
};
use zero2prod::routes::admin::password::get::change_password_form;
use zero2prod::routes::home::home;
use zero2prod::routes::login::get::login_form;

fn body(response: &HttpResponse) -> String {
    assert_eq!(response.status_code.as_u16(), 200);
    assert_eq!(response.headers.len(), 1);
    assert_eq!(response.headers[0].name, "content-type");
    assert_eq!(
        response.headers[0].value,
        b"text/html; charset=utf-8".to_vec()
    );
    String::from_utf8(response.body.clone()).unwrap()
}

fn flashes() -> Vec<FlashMessage> {
    vec![
        FlashMessage::info("The newsletter has been published."),
        FlashMessage::error("Authentication failed"),
        FlashMessage {
            level: Level::Warning,
            message: "careful".to_string(),
        },
    ]
}

#[test]
fn flashes_are_rendered_as_paragraphs() {
    assert_eq!(render_flashes(&vec![], false), "");
    assert_eq!(
        render_flashes(&flashes(), false),
        "<p><i>The newsletter has been published.</i></p>\n<p><i>Authentication failed</i></p>\n<p><i>careful</i></p>\n"
    );
    assert_eq!(
        render_flashes(&flashes(), true),
        "<p><i>Authentication failed</i></p>\n"
    );
}

#[test]
fn the_login_page_shows_only_errors() {
    let page = body(&login_form(&flashes()));
    assert!(page.starts_with("<!DOCTYPE html>"));
    assert!(page.contains("<title>Login</title>"));
    assert!(page.contains("<p><i>Authentication failed</i></p>"));
    assert!(!page.contains("The newsletter has been published."));
    assert!(page.contains("<form action=\"/login\" method=\"post\">"));
    assert!(page.ends_with("</html>"));
}

#[test]
fn the_password_page_shows_only_errors() {
    let page = body(&change_password_form(&vec![FlashMessage::error(
        "The current password is incorrect.",
    )]));
    assert!(page.contains("<p><i>The current password is incorrect.</i></p>"));
    assert!(page.contains("<form action=\"/admin/password\" method=\"post\">"));
    assert!(page.contains("name=\"new_password_check\""));
    let page = body(&change_password_form(&flashes()));
    assert!(!page.contains("careful"));
}

#[test]
fn the_newsletter_page_shows_every_flash_and_carries_the_key() {
    let page = body(&publish_newsletter_form_with(&flashes(), "abc123"));
    assert!(page.contains("<p><i>The newsletter has been published.</i></p>"));
    assert!(page.contains("<p><i>careful</i></p>"));
    assert!(page.contains(
        "<input hidden type=\"text\" name=\"idempotency_key\" value=\"abc123\">"
    ));
    assert!(page.contains("<form action=\"/admin/newsletters\" method=\"post\">"));
}

#[test]
fn every_rendering_of_the_newsletter_page_carries_a_fresh_valid_key() {
    let marker = "name=\"idempotency_key\" value=\"";
    let mut seen = Vec::new();
    for _ in 0..20 {
        let page = body(&publish_newsletter_form(&vec![]));
        let start = page.find(marker).unwrap() + marker.len();
        let key = &page[start..start + 36];
        assert!(IdempotencyKey::parse(key.to_string()).is_ok());
        assert_eq!(&page[start + 36..start + 37], "\"");
        assert!(!seen.contains(&key.to_string()));
        seen.push(key.to_string());
    }
}

#[test]
fn a_fresh_key_is_a_random_uuid_in_hyphenated_form() {
    let key = fresh_idempotency_key();
    let text = key.as_str();
    assert_eq!(text.len(), 36);
    for (i, c) in text.chars().enumerate() {
        if i == 8 || i == 13 || i == 18 || i == 23 {
            assert_eq!(c, '-');
        } else {
            assert!(c.is_ascii_digit() || ('a'..='f').contains(&c));
        }
    }
    assert_eq!(text.as_bytes()[14], b'4');
    assert!(matches!(text.as_bytes()[19], b'8' | b'9' | b'a' | b'b'));
}

#[test]
fn the_dashboard_greets_the_user() {
    let page = body(&admin_dashboard("admin"));
    assert!(page.contains("<p>Welcome admin!</p>"));
    assert!(page.contains("<a href=\"/admin/password\">Change password</a>"));
    assert!(page.contains("action=\"/admin/logout\""));
}

#[test]
fn the_home_page_is_served_as_html() {
    let page = body(&home("<h1>Welcome to our newsletter!</h1>"));
    assert_eq!(page, "<h1>Welcome to our newsletter!</h1>");
}

#[test]
fn the_login_page_is_rendered_to_the_letter() {
    let page = body(&login_form(&vec![FlashMessage::error("Authentication failed")]));
    let expected = r#"<!DOCTYPE html>
            <html lang="en">
            <head>
                <meta http-equiv="content-type" content="text/html; charset=utf-8">
                <title>Login</title>
            </head>
            <body>
                <p><i>Authentication failed</i></p>

                <form action="/login" method="post">
                    <label>Username
                        <input
                            type="text"
                            placeholder="Enter Username"
                            name="username"
                        >
                    </label>
                    <label>Password
                        <input
                            type="password"
                            placeholder="Enter Password"
                            name="password"
                        >
                    </label>
                    <button type="submit">Login</button>
                </form>
            </body>
            </html>"#;
    assert_eq!(page, expected);
}

#[test]
fn the_dashboard_is_rendered_to_the_letter() {
    let page = body(&admin_dashboard("admin"));
    let expected = r#"<!DOCTYPE html>
            <html lang="en">
            <head>
                <meta http-equiv="content-type" content="text/html; charset=utf-8">
                <title>Admin dashboard</title>
            </head>
            <body>
                <p>Welcome admin!</p>
                <p>Available actions:</p>
                <ol>
                    <li><a href="/admin/password">Change password</a></li>
                    <li>
                        <form name="logoutForm" action="/admin/logout" method="post">
                        <input type="submit" value="Logout">
                        </form>
                    </li>
                </ol>
            </body>
            </html>"#;
    assert_eq!(page, expected);
}
