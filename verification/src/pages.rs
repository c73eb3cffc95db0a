//! HTML pages of the redemption flow.
//!
//! Rendering is pure string assembly: every page is the fixed wrapper
//! around a message or form, with client-supplied fields spliced in, and
//! each renderer's contract gives the exact character sequence produced.

use vstd::prelude::*;
use crate::flow::{ValidateOutcome, ConfirmOutcome};

verus! {

/// The navigation affordance at the foot of a page.
#[derive(Clone, Copy, PartialEq, Eq, Structural, Debug)]
pub enum NavButton {
    /// No button.
    Absent,
    /// A button back to the previous step.
    GoBack,
    /// A button back to the token-entry form.
    GoHome,
}

/// Everything before the page's message.
pub open spec fn spec_page_head() -> Seq<char> {
    "\n        <meta name=\"viewport\" content=\"width=device-width, initial-scale=1\">\n        <style>\n            body { font-family: sans-serif; margin: 2em; text-align: center; }\n            .msg { margin: 2em 0; font-size: 1.3em; }\n            input, button.form-btn { font-size: 1.2em; padding: 0.5em; margin: 0.5em 0; width: 100%; box-sizing: border-box; }\n            form { max-width: 400px; margin: auto; }\n            button.go-back { width: auto; display: inline-block; margin: 1em auto 0 auto; font-size: 1em; padding: 0.5em 1.2em; }\n        </style>\n        <div class=\"msg\">"@
}

/// Between the message and the navigation button.
pub open spec fn spec_page_mid() -> Seq<char> {
    "</div>\n        "@
}

/// After the navigation button.
pub open spec fn spec_page_tail() -> Seq<char> {
    "\n        "@
}

/// The navigation button's markup.
pub open spec fn spec_nav_html(nav: NavButton) -> Seq<char> {
    match nav {
        NavButton::Absent => Seq::<char>::empty(),
        NavButton::GoBack => "<button onclick=\"window.history.back()\" class=\"go-back\">Go Back</button>"@,
        NavButton::GoHome => "<button onclick=\"window.location.href='/'\" class=\"go-back\">Go Home</button>"@,
    }
}

/// A whole page: wrapper head, the message, wrapper middle, the
/// navigation button, wrapper tail.
pub open spec fn spec_page_wrapper(content: Seq<char>, nav: NavButton) -> Seq<char> {
    spec_page_head() + content + spec_page_mid() + spec_nav_html(nav) + spec_page_tail()
}

/// Wrap a message or form in the common page chrome.
pub fn page_wrapper(content: &str, nav: NavButton) -> (r: String)
    ensures
        r@ == spec_page_wrapper(content@, nav),
{
    let mut r = String::from_str(
        "\n        <meta name=\"viewport\" content=\"width=device-width, initial-scale=1\">\n        <style>\n            body { font-family: sans-serif; margin: 2em; text-align: center; }\n            .msg { margin: 2em 0; font-size: 1.3em; }\n            input, button.form-btn { font-size: 1.2em; padding: 0.5em; margin: 0.5em 0; width: 100%; box-sizing: border-box; }\n            form { max-width: 400px; margin: auto; }\n            button.go-back { width: auto; display: inline-block; margin: 1em auto 0 auto; font-size: 1em; padding: 0.5em 1.2em; }\n        </style>\n        <div class=\"msg\">",
    );
    r.append(content);
    r.append("</div>\n        ");
    match nav {
        NavButton::Absent => {},
        NavButton::GoBack => {
            r.append("<button onclick=\"window.history.back()\" class=\"go-back\">Go Back</button>");
        },
        NavButton::GoHome => {
            r.append("<button onclick=\"window.location.href='/'\" class=\"go-back\">Go Home</button>");
        },
    }
    r.append("\n        ");
    proof {
        assert(r@ =~= spec_page_wrapper(content@, nav));
    }
    r
}

/// The token-entry form, step 1's page.
pub open spec fn spec_token_form() -> Seq<char> {
    spec_page_wrapper(
        "\n        <h1>Enter Token</h1>\n        <form method=\"post\">\n            <input name=\"token\" type=\"tel\" inputmode=\"numeric\" pattern=\"\\d{1,8}\" maxlength=\"8\" required placeholder=\"8-digit token\">\n            <button type=\"submit\" class=\"form-btn\">Continue</button>\n        </form>\n        "@,
        NavButton::Absent,
    )
}

/// Render the token-entry form.
pub fn show_token_form() -> (r: String)
    ensures
        r@ == spec_token_form(),
{
    page_wrapper(
        "\n        <h1>Enter Token</h1>\n        <form method=\"post\">\n            <input name=\"token\" type=\"tel\" inputmode=\"numeric\" pattern=\"\\d{1,8}\" maxlength=\"8\" required placeholder=\"8-digit token\">\n            <button type=\"submit\" class=\"form-btn\">Continue</button>\n        </form>\n        ",
        NavButton::Absent,
    )
}

/// The identifier-entry form shown when step 1 succeeds, carrying the
/// validated token as a hidden field.
pub open spec fn spec_id_form(token: Seq<char>) -> Seq<char> {
    "\n        <h1>Enter Student ID</h1>\n        <form method=\"post\" action=\"/id\">\n            <input name=\"student_id\" type=\"tel\" inputmode=\"numeric\" pattern=\"\\d{1,20}\" maxlength=\"20\" required placeholder=\"Student ID\">\n            <input type=\"hidden\" name=\"token\" value=\""@
        + token
        + "\">\n            <button type=\"submit\" class=\"form-btn\">Continue</button>\n        </form>\n        "@
}

/// The page step 1 answers with, for each outcome.
pub open spec fn spec_validate_page(r: ValidateOutcome, token: Seq<char>) -> Seq<char> {
    match r {
        ValidateOutcome::Advance => spec_page_wrapper(spec_id_form(token), NavButton::GoBack),
        ValidateOutcome::FormatInvalid => spec_page_wrapper(
            "<h2>Invalid token format.</h2>"@, NavButton::GoHome),
        ValidateOutcome::RateLimited => spec_page_wrapper(
            "<h2>Rate limit: wait 10 seconds before retrying.</h2>"@, NavButton::GoBack),
        ValidateOutcome::AlreadyUsed => spec_page_wrapper(
            "<h2>Token already used.</h2>"@, NavButton::GoHome),
        ValidateOutcome::NotFound => spec_page_wrapper(
            "<h2>Invalid token.</h2>"@, NavButton::GoHome),
    }
}

/// Render step 1's answer. On success the submitted token is carried
/// forward to the client inside the identifier form.
pub fn render_validate_page(r: ValidateOutcome, token_str: &str) -> (page: String)
    ensures
        page@ == spec_validate_page(r, token_str@),
{
    match r {
        ValidateOutcome::Advance => {
            let mut content = String::from_str(
                "\n        <h1>Enter Student ID</h1>\n        <form method=\"post\" action=\"/id\">\n            <input name=\"student_id\" type=\"tel\" inputmode=\"numeric\" pattern=\"\\d{1,20}\" maxlength=\"20\" required placeholder=\"Student ID\">\n            <input type=\"hidden\" name=\"token\" value=\"",
            );
            content.append(token_str);
            content.append(
                "\">\n            <button type=\"submit\" class=\"form-btn\">Continue</button>\n        </form>\n        ",
            );
            proof {
                assert(content@ =~= spec_id_form(token_str@));
            }
            page_wrapper(content.as_str(), NavButton::GoBack)
        },
        ValidateOutcome::FormatInvalid => page_wrapper(
            "<h2>Invalid token format.</h2>", NavButton::GoHome),
        ValidateOutcome::RateLimited => page_wrapper(
            "<h2>Rate limit: wait 10 seconds before retrying.</h2>", NavButton::GoBack),
        ValidateOutcome::AlreadyUsed => page_wrapper(
            "<h2>Token already used.</h2>", NavButton::GoHome),
        ValidateOutcome::NotFound => page_wrapper(
            "<h2>Invalid token.</h2>", NavButton::GoHome),
    }
}

/// The confirmation form shown when step 2 succeeds, carrying identifier
/// and token as hidden fields and briefly disabling the confirm button
/// against accidental double submission.
pub open spec fn spec_confirm_form(id: Seq<char>, token: Seq<char>) -> Seq<char> {
    "\n        <h1>Confirm Student ID</h1>\n        <form method=\"post\" action=\"/confirm\">\n            <input type=\"hidden\" name=\"student_id\" value=\""@
        + id
        + "\">\n            <input type=\"hidden\" name=\"token\" value=\""@
        + token
        + "\">\n            <p>Student ID: <b>"@
        + id
        + "</b></p>\n            <button type=\"submit\" id=\"confirm-btn\" class=\"form-btn\">Confirm</button>\n        </form>\n        <script>\n            setTimeout(function() {\n                document.getElementById('confirm-btn').disabled = false;\n            }, 3000);\n            document.getElementById('confirm-btn').disabled = true;\n        </script>\n        "@
}

/// The page step 2 answers with.
pub open spec fn spec_enter_id_page(ok: bool, id: Seq<char>, token: Seq<char>) -> Seq<char> {
    if ok {
        spec_page_wrapper(spec_confirm_form(id, token), NavButton::GoBack)
    } else {
        spec_page_wrapper("<h2>Invalid student ID format.</h2>"@, NavButton::GoBack)
    }
}

/// Render step 2's answer: the confirmation form when the identifier
/// passed its format gate, the format error otherwise.
pub fn render_enter_id_page(ok: bool, student_id: &str, token_str: &str) -> (page: String)
    ensures
        page@ == spec_enter_id_page(ok, student_id@, token_str@),
{
    if ok {
        let mut content = String::from_str(
            "\n        <h1>Confirm Student ID</h1>\n        <form method=\"post\" action=\"/confirm\">\n            <input type=\"hidden\" name=\"student_id\" value=\"",
        );
        content.append(student_id);
        content.append("\">\n            <input type=\"hidden\" name=\"token\" value=\"");
        content.append(token_str);
        content.append("\">\n            <p>Student ID: <b>");
        content.append(student_id);
        content.append(
            "</b></p>\n            <button type=\"submit\" id=\"confirm-btn\" class=\"form-btn\">Confirm</button>\n        </form>\n        <script>\n            setTimeout(function() {\n                document.getElementById('confirm-btn').disabled = false;\n            }, 3000);\n            document.getElementById('confirm-btn').disabled = true;\n        </script>\n        ",
        );
        proof {
            assert(content@ =~= spec_confirm_form(student_id@, token_str@));
        }
        page_wrapper(content.as_str(), NavButton::GoBack)
    } else {
        page_wrapper("<h2>Invalid student ID format.</h2>", NavButton::GoBack)
    }
}

/// The page step 3 answers with, for each outcome.
pub open spec fn spec_confirm_page(r: ConfirmOutcome) -> Seq<char> {
    match r {
        ConfirmOutcome::Redeemed => spec_page_wrapper(
            "<h2>Sign-in successful!</h2>"@, NavButton::GoHome),
        ConfirmOutcome::IdFormatInvalid => spec_page_wrapper(
            "<h2>Invalid student ID format.</h2>"@, NavButton::GoBack),
        ConfirmOutcome::TokenFormatInvalid => spec_page_wrapper(
            "<h2>Invalid token format.</h2>"@, NavButton::GoHome),
        ConfirmOutcome::AlreadyUsed => spec_page_wrapper(
            "<h2>Token already used.</h2>"@, NavButton::GoHome),
        ConfirmOutcome::NotFound => spec_page_wrapper(
            "<h2>Invalid token.</h2>"@, NavButton::GoHome),
    }
}

/// Render step 3's answer.
pub fn render_confirm_page(r: ConfirmOutcome) -> (page: String)
    ensures
        page@ == spec_confirm_page(r),
{
    match r {
        ConfirmOutcome::Redeemed => page_wrapper(
            "<h2>Sign-in successful!</h2>", NavButton::GoHome),
        ConfirmOutcome::IdFormatInvalid => page_wrapper(
            "<h2>Invalid student ID format.</h2>", NavButton::GoBack),
        ConfirmOutcome::TokenFormatInvalid => page_wrapper(
            "<h2>Invalid token format.</h2>", NavButton::GoHome),
        ConfirmOutcome::AlreadyUsed => page_wrapper(
            "<h2>Token already used.</h2>", NavButton::GoHome),
        ConfirmOutcome::NotFound => page_wrapper(
            "<h2>Invalid token.</h2>", NavButton::GoHome),
    }
}

} // verus!
