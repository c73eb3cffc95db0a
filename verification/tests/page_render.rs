use token_checkin::flow::{ConfirmOutcome, ValidateOutcome};
use token_checkin::pages::{
    page_wrapper, render_confirm_page, render_enter_id_page, render_validate_page,
    show_token_form, NavButton,
};

const BACK_BUTTON: &str =
    "<button onclick=\"window.history.back()\" class=\"go-back\">Go Back</button>";
const HOME_BUTTON: &str =
    "<button onclick=\"window.location.href='/'\" class=\"go-back\">Go Home</button>";

#[test]
fn wrapper_surrounds_content() {
    let page = page_wrapper("<h2>Hello.</h2>", NavButton::Absent);
    assert!(page.contains("<div class=\"msg\"><h2>Hello.</h2></div>"));
    assert!(page.contains("<style>"));
    assert!(!page.contains("<button"));
}

#[test]
fn wrapper_nav_buttons() {
    let back = page_wrapper("x", NavButton::GoBack);
    assert!(back.contains(BACK_BUTTON));
    assert!(!back.contains(HOME_BUTTON));
    let home = page_wrapper("x", NavButton::GoHome);
    assert!(home.contains(HOME_BUTTON));
    assert!(!home.contains(BACK_BUTTON));
}

#[test]
fn wrapper_exact_page() {
    let content = "<h2>Invalid token.</h2>";
    let expected = format!(
        "{}{}{}{}{}",
        "\n        <meta name=\"viewport\" content=\"width=device-width, initial-scale=1\">\n        <style>\n            body { font-family: sans-serif; margin: 2em; text-align: center; }\n            .msg { margin: 2em 0; font-size: 1.3em; }\n            input, button.form-btn { font-size: 1.2em; padding: 0.5em; margin: 0.5em 0; width: 100%; box-sizing: border-box; }\n            form { max-width: 400px; margin: auto; }\n            button.go-back { width: auto; display: inline-block; margin: 1em auto 0 auto; font-size: 1em; padding: 0.5em 1.2em; }\n        </style>\n        <div class=\"msg\">",
        content,
        "</div>\n        ",
        HOME_BUTTON,
        "\n        ",
    );
    assert_eq!(page_wrapper(content, NavButton::GoHome), expected);
}

#[test]
fn token_form_page() {
    let page = show_token_form();
    assert!(page.contains("<h1>Enter Token</h1>"));
    assert!(page.contains("pattern=\"\\d{1,8}\""));
    assert!(!page.contains("<button onclick"));
}

#[test]
fn validate_pages() {
    let ok = render_validate_page(ValidateOutcome::Advance, "12345678");
    assert!(ok.contains("<h1>Enter Student ID</h1>"));
    assert!(ok.contains("<input type=\"hidden\" name=\"token\" value=\"12345678\">"));
    assert!(ok.contains(BACK_BUTTON));

    let bad = render_validate_page(ValidateOutcome::FormatInvalid, "x");
    assert!(bad.contains("<h2>Invalid token format.</h2>"));
    assert!(!bad.contains("value=\"x\""));

    let limited = render_validate_page(ValidateOutcome::RateLimited, "12345678");
    assert!(limited.contains("<h2>Rate limit: wait 10 seconds before retrying.</h2>"));

    let used = render_validate_page(ValidateOutcome::AlreadyUsed, "12345678");
    assert!(used.contains("<h2>Token already used.</h2>"));

    let unknown = render_validate_page(ValidateOutcome::NotFound, "12345678");
    assert!(unknown.contains("<h2>Invalid token.</h2>"));
}

#[test]
fn enter_id_pages() {
    let ok = render_enter_id_page(true, "999", "12345678");
    assert!(ok.contains("<h1>Confirm Student ID</h1>"));
    assert!(ok.contains("<input type=\"hidden\" name=\"student_id\" value=\"999\">"));
    assert!(ok.contains("<input type=\"hidden\" name=\"token\" value=\"12345678\">"));
    assert!(ok.contains("<p>Student ID: <b>999</b></p>"));
    assert!(ok.contains("confirm-btn"));

    let bad = render_enter_id_page(false, "", "12345678");
    assert!(bad.contains("<h2>Invalid student ID format.</h2>"));
}

#[test]
fn confirm_pages() {
    let done = render_confirm_page(ConfirmOutcome::Redeemed);
    assert!(done.contains("<h2>Sign-in successful!</h2>"));
    assert!(done.contains(HOME_BUTTON));
    let used = render_confirm_page(ConfirmOutcome::AlreadyUsed);
    assert!(used.contains("<h2>Token already used.</h2>"));
    let bad_token = render_confirm_page(ConfirmOutcome::TokenFormatInvalid);
    assert!(bad_token.contains("<h2>Invalid token format.</h2>"));
    let bad_id = render_confirm_page(ConfirmOutcome::IdFormatInvalid);
    assert!(bad_id.contains("<h2>Invalid student ID format.</h2>"));
    let unknown = render_confirm_page(ConfirmOutcome::NotFound);
    assert!(unknown.contains("<h2>Invalid token.</h2>"));
}
