//! Authentication for the broker's HTTP server.
//!
//! Where a token is configured, every request must present it, either in an
//! `Authorization: Bearer` header or in the session cookie.  The login page is
//! exempt.  Without a token all requests pass.
use vstd::prelude::*;

use crate::json::{string_view, text_view, texts_view};
use crate::text::{
    contains, lemma_split_at_none, lemma_trimmed_bare, occurs, replace, replaced, same, split_at, split_on,
    strip_prefix, trim, trimmed, whitespace,
};

verus! {

/// The session cookie.
pub const SESSION_COOKIE: &'static str = "__clawshake_session";

/// Where users log in.
pub const LOGIN_PATH: &'static str = "/ui/login";

/// What becomes of a request.
#[derive(Debug, Clone, Copy, PartialEq, Eq, Structural)]
pub enum Access {
    Pass,
    /// A browser is sent to the login page.
    ToLogin,
    Unauthorized,
}

/// What a request presents.
pub struct Credentials<'a> {
    pub path: &'a str,
    pub authorization: Option<&'a str>,
    pub cookie: Option<&'a str>,
    pub accept: Option<&'a str>,
}

/// An `Authorization` header with the token.
pub open spec fn bearer(header: Option<Seq<char>>, token: Seq<char>) -> bool {
    match header {
        Some(h) => "Bearer "@.is_prefix_of(h) && h.skip("Bearer "@.len() as int) == token,
        None => false,
    }
}

/// One cookie that carries the token.
pub open spec fn session_part(part: Seq<char>, token: Seq<char>) -> bool {
    trimmed(part) == SESSION_COOKIE@ + "="@ + token
}

/// Some cookie carries the token.
pub open spec fn some_session(cookies: Seq<Seq<char>>, token: Seq<char>) -> bool {
    exists|i: int| 0 <= i < cookies.len() && session_part(#[trigger] cookies[i], token)
}

/// A `Cookie` header with the token.
pub open spec fn session(header: Option<Seq<char>>, token: Seq<char>) -> bool {
    match header {
        Some(h) => some_session(split_at(h, ';'), token),
        None => false,
    }
}

/// What becomes of a request.
pub open spec fn access(
    path: Seq<char>,
    authorization: Option<Seq<char>>,
    cookie: Option<Seq<char>>,
    accept: Option<Seq<char>>,
    token: Option<Seq<char>>,
) -> Access {
    match token {
        None => Access::Pass,
        Some(t) => if path == LOGIN_PATH@ || bearer(authorization, t) || session(cookie, t) {
            Access::Pass
        } else if accept is Some && occurs(accept->0, "text/html"@) {
            Access::ToLogin
        } else {
            Access::Unauthorized
        },
    }
}

proof fn lemma_head(a: Seq<char>, b: Seq<char>)
    ensures
        a.is_prefix_of(a + b),
        (a + b).skip(a.len() as int) == b,
{
    assert((a + b).subrange(0, a.len() as int) =~= a);
    assert((a + b).skip(a.len() as int) =~= b);
}

proof fn lemma_tail(a: Seq<char>, b: Seq<char>, c: Seq<char>)
    ensures
        a + b == a + c ==> b == c,
{
    lemma_head(a, b);
    lemma_head(a, c);
}

/// Whether some cookie carries the token.
fn has_session(header: &str, token: &str) -> (r: bool)
    ensures
        r == session(Some(header@), token@),
{
    let parts = split_on(header, ';');
    let ghost all = split_at(header@, ';');
    let mut i: usize = 0;
    while i < parts.len()
        invariant
            i <= parts@.len(),
            all == split_at(header@, ';'),
            texts_view(parts@) == all,
            forall|j: int| 0 <= j < i ==> !session_part(#[trigger] all[j], token@),
        decreases parts@.len() - i,
    {
        assert(all[i as int] == parts@[i as int]@);
        let part = trim(parts[i].as_str());
        match strip_prefix(part.as_str(), SESSION_COOKIE) {
            Some(rest) => match strip_prefix(rest.as_str(), "=") {
                Some(value) => {
                    assert(part@ =~= SESSION_COOKIE@ + "="@ + value@);
                    if same(value.as_str(), token) {
                        assert(all.len() == parts@.len());
                        assert(session_part(all[i as int], token@));
                        assert(some_session(all, token@));
                        return true;
                    }
                    proof {
                        lemma_tail(SESSION_COOKIE@ + "="@, value@, token@);
                    }
                },
                None => {
                    proof {
                        lemma_head(SESSION_COOKIE@, "="@ + token@);
                        lemma_head("="@, token@);
                        assert(SESSION_COOKIE@ + ("="@ + token@) =~= SESSION_COOKIE@ + "="@ + token@);
                    }
                },
            },
            None => {
                proof {
                    lemma_head(SESSION_COOKIE@, "="@ + token@);
                    assert(SESSION_COOKIE@ + ("="@ + token@) =~= SESSION_COOKIE@ + "="@ + token@);
                }
            },
        }
        i += 1;
    }
    assert(all.len() == parts@.len());
    false
}

/// Checks a request against the configured token.
pub fn check_access(request: &Credentials, token: Option<&str>) -> (r: Access)
    ensures
        r == access(
            request.path@,
            text_view(request.authorization),
            text_view(request.cookie),
            text_view(request.accept),
            text_view(token),
        ),
{
    let expected = match token {
        Some(t) => t,
        None => return Access::Pass,
    };
    if same(request.path, LOGIN_PATH) {
        return Access::Pass;
    }
    match request.authorization {
        Some(h) => match strip_prefix(h, "Bearer ") {
            Some(t) => {
                if same(t.as_str(), expected) {
                    return Access::Pass;
                }
            },
            None => {},
        },
        None => {},
    }
    match request.cookie {
        Some(c) => {
            if has_session(c, expected) {
                return Access::Pass;
            }
        },
        None => {},
    }
    match request.accept {
        Some(a) => {
            if contains(a, "text/html") {
                return Access::ToLogin;
            }
        },
        None => {},
    }
    Access::Unauthorized
}

// ---------------------------------------------------------------------------
// Login
// ---------------------------------------------------------------------------

/// A form value, decoded as far as tokens need it.
pub open spec fn decoded(value: Seq<char>) -> Seq<char> {
    replaced(replaced(replaced(value, "+"@, " "@), "%26"@, "&"@), "%3D"@, "="@)
}

/// The token among the pairs of a form: the last one.
pub open spec fn last_token(pairs: Seq<Seq<char>>) -> Option<Seq<char>>
    decreases pairs.len(),
{
    if pairs.len() == 0 {
        None
    } else if "token="@.is_prefix_of(pairs.last()) {
        Some(decoded(pairs.last().skip("token="@.len() as int)))
    } else {
        last_token(pairs.drop_last())
    }
}

/// The token in a submitted form.
pub fn form_token(body: &str) -> (r: Option<String>)
    ensures
        string_view(r) == last_token(split_at(body@, '&')),
{
    let pairs = split_on(body, '&');
    let ghost all = split_at(body@, '&');
    let mut i: usize = pairs.len();
    assert(all.take(i as int) =~= all);
    while i > 0
        invariant
            i <= pairs@.len(),
            texts_view(pairs@) == all,
            all == split_at(body@, '&'),
            last_token(all.take(i as int)) == last_token(all),
        decreases i,
    {
        assert(all.take(i as int).last() == pairs@[i - 1]@);
        assert(all.take(i as int).drop_last() =~= all.take(i - 1));
        match strip_prefix(pairs[i - 1].as_str(), "token=") {
            Some(value) => {
                proof {
                    reveal_strlit("+");
                    reveal_strlit("%26");
                    reveal_strlit("%3D");
                }
                let spaced = replace(value.as_str(), "+", " ");
                let joined = replace(spaced.as_str(), "%26", "&");
                return Some(replace(joined.as_str(), "%3D", "="));
            },
            None => {},
        }
        i -= 1;
    }
    None
}

/// The session cookie of a token, as the browser is asked to keep it.
pub open spec fn cookie_text(token: Seq<char>) -> Seq<char> {
    SESSION_COOKIE@ + "="@ + token + "; Path=/; HttpOnly; SameSite=Strict; Max-Age=31536000"@
}

/// The answer to a submitted login form.
pub enum LoginAnswer {
    /// The cookie to set; the browser goes on to `/ui`.
    Welcome { cookie: String },
    /// The form has no token.
    MissingToken,
}

/// Handles a submitted login form.  The token is validated when the cookie is
/// presented.
pub fn handle_login_post(body: &str) -> (r: LoginAnswer)
    ensures
        match last_token(split_at(body@, '&')) {
            Some(t) => r matches LoginAnswer::Welcome { cookie } && cookie@ == cookie_text(t),
            None => r is MissingToken,
        },
{
    match form_token(body) {
        Some(t) => {
            let mut cookie = SESSION_COOKIE.to_owned();
            cookie.push_str("=");
            cookie.push_str(t.as_str());
            cookie.push_str("; Path=/; HttpOnly; SameSite=Strict; Max-Age=31536000");
            LoginAnswer::Welcome { cookie }
        },
        None => LoginAnswer::MissingToken,
    }
}

// ---------------------------------------------------------------------------
// Laws
// ---------------------------------------------------------------------------

/// Without a configured token every request passes.
pub proof fn law_without_token_all_pass(
    path: Seq<char>,
    authorization: Option<Seq<char>>,
    cookie: Option<Seq<char>>,
    accept: Option<Seq<char>>,
)
    ensures
        access(path, authorization, cookie, accept, None) == Access::Pass,
{
}

/// With a configured token a request passes only to the login page or with the
/// token in its header or cookie.
pub proof fn law_with_token_only_its_bearers_pass(
    path: Seq<char>,
    authorization: Option<Seq<char>>,
    cookie: Option<Seq<char>>,
    accept: Option<Seq<char>>,
    token: Seq<char>,
)
    ensures
        access(path, authorization, cookie, accept, Some(token)) == Access::Pass <==> path == LOGIN_PATH@ || bearer(
            authorization,
            token,
        ) || session(cookie, token),
        bearer(Some("Bearer "@ + token), token),
{
    let h = "Bearer "@ + token;
    assert(h.subrange(0, "Bearer "@.len() as int) =~= "Bearer "@);
    assert(h.skip("Bearer "@.len() as int) =~= token);
}

/// The cookie that a login with the right token sets lets the browser pass,
/// where the token can stand in a cookie: it has no semicolon and no white
/// space at its end.
pub proof fn law_login_lets_pass(token: Seq<char>, path: Seq<char>, accept: Option<Seq<char>>)
    requires
        !token.contains(';'),
        token.len() > 0 ==> !whitespace(token.last()),
    ensures
        (SESSION_COOKIE@ + "="@ + token).is_prefix_of(cookie_text(token)),
        access(path, None, Some(SESSION_COOKIE@ + "="@ + token), accept, Some(token)) == Access::Pass,
{
    let name = SESSION_COOKIE@;
    let kept = name + "="@ + token;
    assert(cookie_text(token).subrange(0, kept.len() as int) =~= kept);
    reveal_strlit("__clawshake_session");
    reveal_strlit("=");
    assert("="@.len() == 1);
    assert("="@[0] == '=');
    assert(name.len() == 19);
    assert(name =~= seq!['_', '_', 'c', 'l', 'a', 'w', 's', 'h', 'a', 'k', 'e', '_', 's', 'e', 's', 's', 'i', 'o', 'n']);
    assert forall|i: int| 0 <= i < kept.len() implies kept[i] != ';' by {
        if i >= 20 {
            assert(kept[i] == token[i - 20]);
            assert(token.contains(token[i - 20]));
        }
    }
    assert(!kept.contains(';'));
    lemma_split_at_none(kept, ';');
    assert(kept[0] == '_');
    if token.len() > 0 {
        assert(kept.last() == token.last());
    } else {
        assert(kept.last() == '=');
    }
    lemma_trimmed_bare(kept);
    assert(split_at(kept, ';')[0] == kept);
    assert(split_at(kept, ';').len() == 1);
    assert(session_part(split_at(kept, ';')[0], token));
    assert(some_session(split_at(kept, ';'), token));
}

} // verus!
