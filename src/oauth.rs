use crate::responses::DiscordGuild;
use vstd::prelude::*;
use vstd::string::StrSliceExecFns;

verus! {

/// An OAuth callback is processed only when it carries no error, carries a
/// code, and its state is the one stored in the session.
pub open spec fn callback_acceptable(
    oauth_error: Seq<char>,
    oauth_code: Seq<char>,
    validation_state: Seq<char>,
    session_state: Seq<char>,
) -> bool {
    oauth_error.len() == 0 && oauth_code.len() > 0 && validation_state == session_state
}

/// Whether an OAuth callback is to be processed.
pub fn should_process(
    oauth_error: &String,
    oauth_code: &String,
    validation_state: &String,
    session_state: &String,
) -> (r: bool)
    ensures
        r == callback_acceptable(oauth_error@, oauth_code@, validation_state@, session_state@),
{
    let no_error = oauth_error.as_str().unicode_len() == 0;
    let has_code = oauth_code.as_str().unicode_len() > 0;
    let same_state = *validation_state == *session_state;
    no_error && has_code && same_state
}

/// Some guild of the member is among the allowed guilds.
pub open spec fn member_allowed(guilds: Seq<DiscordGuild>, allowed: Seq<String>) -> bool {
    exists|g: int, a: int|
        0 <= g < guilds.len() && 0 <= a < allowed.len() && (#[trigger] guilds[g]).id@ == (
        #[trigger] allowed[a])@
}

/// Whether a member of `guilds` may log in, given the allowed guild ids.
pub fn is_allowed(guilds: &Vec<DiscordGuild>, allowed: &Vec<String>) -> (r: bool)
    ensures
        r == member_allowed(guilds@, allowed@),
{
    let mut g: usize = 0;
    while g < guilds.len()
        invariant
            g <= guilds@.len(),
            forall|x: int, a: int|
                0 <= x < g && 0 <= a < allowed@.len() ==> (#[trigger] guilds@[x]).id@ != (
                #[trigger] allowed@[a])@,
        decreases guilds@.len() - g,
    {
        let mut a: usize = 0;
        while a < allowed.len()
            invariant
                g < guilds@.len(),
                a <= allowed@.len(),
                forall|x: int, y: int|
                    0 <= x < g && 0 <= y < allowed@.len() ==> (#[trigger] guilds@[x]).id@ != (
                    #[trigger] allowed@[y])@,
                forall|y: int| 0 <= y < a ==> guilds@[g as int].id@ != (#[trigger] allowed@[y])@,
            decreases allowed@.len() - a,
        {
            if guilds[g].id == allowed[a] {
                assert(member_allowed(guilds@, allowed@)) by {
                    assert((guilds@[g as int]).id@ == (allowed@[a as int])@);
                }
                return true;
            }
            a = a + 1;
        }
        g = g + 1;
    }
    false
}

/// The redirect that tells the caller its member is not allowed: the
/// caller's URL with `error=NotAllowed` added as a query parameter.
pub open spec fn not_allowed_url(redirect: Seq<char>) -> Seq<char> {
    redirect + (if redirect.contains('?') {
        "&"@
    } else {
        "?"@
    }) + "error=NotAllowed"@
}

fn contains_char(s: &String, c: char) -> (r: bool)
    ensures
        r == s@.contains(c),
{
    let n = s.as_str().unicode_len();
    let mut i: usize = 0;
    while i < n
        invariant
            n == s@.len(),
            i <= n,
            forall|j: int| 0 <= j < i ==> s@[j] != c,
        decreases n - i,
    {
        if s.as_str().get_char(i) == c {
            assert(s@[i as int] == c);
            return true;
        }
        i = i + 1;
    }
    false
}

/// The caller's URL with the not-allowed error added.
pub fn not_allowed_redirect(redirect: &String) -> (r: String)
    ensures
        r@ == not_allowed_url(redirect@),
{
    let mut r = redirect.clone();
    if contains_char(redirect, '?') {
        r.append("&");
    } else {
        r.append("?");
    }
    r.append("error=NotAllowed");
    r
}

} // verus!
