//! Welcome messages: who sees one, and which text they see.
use vstd::prelude::*;

use crate::text::{opt_str_view, opt_view, owned, str_eq, trim, trimmed};

verus! {

/// The welcome message a user is shown, if any.
#[derive(Debug)]
pub struct MyWelcomeMessageResponse {
    pub show: bool,
    pub text: Option<String>,
}

/// The welcome message for a user whose stored state is `state` (whether the message is
/// switched on for them, and their controller status), given the texts for home
/// controllers and for visitors: nothing without a stored state or with the message
/// off; otherwise shown, with the text of their status (none for another status).
pub fn my_welcome_message(
    state: Option<(bool, Option<&str>)>,
    home_text: &str,
    visitor_text: &str,
) -> (r: MyWelcomeMessageResponse)
    ensures
        match state {
            None => !r.show && r.text is None,
            Some((on, status)) => if !on {
                !r.show && r.text is None
            } else {
                &&& r.show
                &&& opt_view(r.text) == match opt_str_view(status) {
                    Some(s) => if s == "HOME"@ {
                        Some(home_text@)
                    } else if s == "VISITOR"@ {
                        Some(visitor_text@)
                    } else {
                        None
                    },
                    None => None,
                }
            },
        },
{
    match state {
        None => MyWelcomeMessageResponse { show: false, text: None },
        Some((on, status)) => {
            if !on {
                return MyWelcomeMessageResponse { show: false, text: None };
            }
            let text = match status {
                Some(s) => if str_eq(s, "HOME") {
                    Some(owned(home_text))
                } else if str_eq(s, "VISITOR") {
                    Some(owned(visitor_text))
                } else {
                    None
                },
                None => None,
            };
            MyWelcomeMessageResponse { show: true, text }
        },
    }
}

/// The welcome texts as stored: each trimmed.
pub fn normalize_welcome_texts(home_text: &str, visitor_text: &str) -> (r: (String, String))
    ensures
        r.0@ == trimmed(home_text@),
        r.1@ == trimmed(visitor_text@),
{
    (owned(trim(home_text)), owned(trim(visitor_text)))
}

} // verus!
