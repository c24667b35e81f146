//! Signing in: the account a session runs as, how a browser login code is
//! shown, and what each answer of the login poll means.
use crate::text::{chars_of, owned, str_eq, string_of};
use crate::types::UserPrivateResponse;
use vstd::prelude::*;

verus! {

/// The token a session uses and the account it belongs to.
#[derive(Debug)]
pub struct AuthContext {
    pub token: String,
    pub me: UserPrivateResponse,
}

/// A login code as shown to the user: an eight-character code as two groups
/// of four joined by a hyphen, any other code as it is.
pub open spec fn shown_login_code(code: Seq<char>) -> Seq<char> {
    if code.len() == 8 {
        code.take(4) + seq!['-'] + code.skip(4)
    } else {
        code
    }
}

/// The login code as the user is asked to type it.
pub fn format_login_code(code: &str) -> (r: String)
    ensures
        r@ == shown_login_code(code@),
{
    let cs = chars_of(code);
    if cs.len() == 8 {
        let mut v: Vec<char> = Vec::new();
        let mut i: usize = 0;
        while i < 8
            invariant
                i <= 8,
                cs@ == code@,
                cs@.len() == 8,
                v@ == (if i <= 4 {
                    cs@.take(i as int)
                } else {
                    cs@.take(4) + seq!['-'] + cs@.subrange(4, i as int)
                }),
            decreases 8 - i,
        {
            if i == 4 {
                v.push('-');
                assert(cs@.subrange(4, 4) =~= Seq::<char>::empty());
                assert(v@ =~= cs@.take(4) + seq!['-'] + cs@.subrange(4, 4));
            }
            proof {
                if i < 4 {
                    assert(cs@.take(i + 1) =~= cs@.take(i as int).push(cs@[i as int]));
                } else {
                    assert(cs@.subrange(4, i + 1) =~= cs@.subrange(4, i as int).push(cs@[i as int]));
                }
            }
            v.push(cs[i]);
            i = i + 1;
        }
        assert(cs@.subrange(4, 8) =~= cs@.skip(4));
        string_of(v.as_slice())
    } else {
        owned(code)
    }
}

/// The page a browser login starts from.
pub open spec fn login_url_of(webapp_url: Seq<char>) -> Seq<char> {
    webapp_url + "/login?desktop_handoff=1"@
}

/// The address of the browser login page of the web app.
pub fn login_url(webapp_url: &str) -> (r: String)
    ensures
        r@ == login_url_of(webapp_url@),
{
    let mut s = owned(webapp_url);
    s.append("/login?desktop_handoff=1");
    s
}

/// What one answer of the login poll means.
#[derive(Debug, PartialEq, Eq)]
pub enum HandoffStep {
    /// Not finished yet (or the poll failed): ask again.
    Wait,
    /// The login went through with this token.
    Completed(String),
    /// The login went through but no token came with it.
    MissingToken,
    /// The code expired before the login was done.
    Expired,
}

/// Reads one answer of the login poll: its status and the token it carries,
/// or `None` when the request failed (which is asked again).
pub fn handoff_step(answer: Option<(String, Option<String>)>) -> (r: HandoffStep)
    ensures
        match answer {
            Some((status, token)) => if status@ == "completed"@ {
                match token {
                    Some(t) => r == HandoffStep::Completed(t),
                    None => r == HandoffStep::MissingToken,
                }
            } else if status@ == "expired"@ {
                r == HandoffStep::Expired
            } else {
                r == HandoffStep::Wait
            },
            None => r == HandoffStep::Wait,
        },
{
    match answer {
        Some((status, token)) => {
            if str_eq(status.as_str(), "completed") {
                match token {
                    Some(t) => HandoffStep::Completed(t),
                    None => HandoffStep::MissingToken,
                }
            } else if str_eq(status.as_str(), "expired") {
                HandoffStep::Expired
            } else {
                HandoffStep::Wait
            }
        },
        None => HandoffStep::Wait,
    }
}

} // verus!
