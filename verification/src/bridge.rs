//! Who may use a bridge: the token, as it is sent and as it is checked.

use crate::text::same_text;
use vstd::prelude::*;

verus! {

/// What a bridge answers to a client that asks for a WebSocket.
#[derive(Debug, Clone, Copy, PartialEq, Eq, Structural)]
pub enum UpgradeAnswer {
    Accept,
    /// There is nothing at the path that was asked for.
    NotFound,
    /// The client did not show the token.
    Unauthorized,
}

/// The pairs of names and values that `form_urlencoded::parse` reads out of a query.
pub uninterp spec fn form_pairs(query: Seq<char>) -> Seq<(Seq<char>, Seq<char>)>;

/// Calls `form_urlencoded::parse`, as the `url` crate exports it.
///
/// Trusted: the pairs are a function of the query alone.
#[verifier::external_body]
fn read_pairs(query: &str) -> (r: Vec<(String, String)>)
    ensures
        pairs_view(r@) == form_pairs(query@),
{
    url::form_urlencoded::parse(query.as_bytes()).into_owned().collect()
}

/// Pairs of texts as values.
pub open spec fn pairs_view(pairs: Seq<(String, String)>) -> Seq<(Seq<char>, Seq<char>)> {
    pairs.map_values(|p: (String, String)| (p.0@, p.1@))
}

/// The value of the `Authorization` header that shows a token.
pub open spec fn bearer(token: Seq<char>) -> Seq<char> {
    "Bearer "@ + token
}

/// Whether a request shows the token that is asked for: in its `Authorization` header, or as
/// `token` in its query. Where no token is asked for, every request will do.
pub open spec fn grants(
    token: Option<Seq<char>>,
    authorization: Option<Seq<char>>,
    pairs: Seq<(Seq<char>, Seq<char>)>,
) -> bool {
    match token {
        None => true,
        Some(token) => authorization == Some(bearer(token)) || pairs.contains(("token"@, token)),
    }
}

/// What a bridge that serves `path` answers to a request.
pub open spec fn upgrade_answer(
    path: Seq<char>,
    token: Option<Seq<char>>,
    request_path: Seq<char>,
    authorization: Option<Seq<char>>,
    pairs: Seq<(Seq<char>, Seq<char>)>,
) -> UpgradeAnswer {
    if request_path != path {
        UpgradeAnswer::NotFound
    } else if !grants(token, authorization, pairs) {
        UpgradeAnswer::Unauthorized
    } else {
        UpgradeAnswer::Accept
    }
}

/// The value of the `Authorization` header that shows a token.
pub fn authorization_value(token: &str) -> (r: String)
    ensures
        r@ == bearer(token@),
{
    "Bearer ".to_owned().concat(token)
}

/// Whether a request shows the token that is asked for.
pub fn shows_token(
    token: &Option<String>,
    authorization: &Option<String>,
    pairs: &Vec<(String, String)>,
) -> (r: bool)
    ensures
        r == grants(token.deep_view(), authorization.deep_view(), pairs_view(pairs@)),
{
    let expected = match token {
        None => return true,
        Some(expected) => expected,
    };
    if let Some(authorization) = authorization {
        if same_text(authorization, &authorization_value(expected)) {
            return true;
        }
    }
    let ghost shown = pairs_view(pairs@);
    let mut i: usize = 0;
    while i < pairs.len()
        invariant
            shown == pairs_view(pairs@),
            token.deep_view() == Some(expected@),
            i <= pairs@.len(),
            forall|j: int| 0 <= j < i ==> #[trigger] shown[j] != ("token"@, expected@),
        decreases pairs@.len() - i,
    {
        assert(shown[i as int] == (pairs@[i as int].0@, pairs@[i as int].1@));
        if same_text(&pairs[i].0, "token") && same_text(&pairs[i].1, expected) {
            assert(shown.contains(("token"@, expected@)));
            return true;
        }
        i += 1;
    }
    assert(!shown.contains(("token"@, expected@)));
    false
}

/// Decides what a bridge that serves `path` answers, given the pairs of the request's query.
pub fn answer_with_pairs(
    path: &str,
    token: &Option<String>,
    request_path: &str,
    authorization: &Option<String>,
    pairs: &Vec<(String, String)>,
) -> (r: UpgradeAnswer)
    ensures
        r == upgrade_answer(
            path@,
            token.deep_view(),
            request_path@,
            authorization.deep_view(),
            pairs_view(pairs@),
        ),
{
    if !same_text(request_path, path) {
        UpgradeAnswer::NotFound
    } else if !shows_token(token, authorization, pairs) {
        UpgradeAnswer::Unauthorized
    } else {
        UpgradeAnswer::Accept
    }
}

/// Decides what a bridge that serves `path` answers to a request.
pub fn answer_upgrade(
    path: &str,
    token: &Option<String>,
    request_path: &str,
    authorization: &Option<String>,
    query: &Option<String>,
) -> (r: UpgradeAnswer)
    ensures
        r == upgrade_answer(
            path@,
            token.deep_view(),
            request_path@,
            authorization.deep_view(),
            match query {
                Some(query) => form_pairs(query@),
                None => Seq::empty(),
            },
        ),
{
    let pairs = match query {
        Some(query) => read_pairs(query),
        None => Vec::new(),
    };
    assert(query is None ==> pairs_view(pairs@) =~= Seq::empty());
    answer_with_pairs(path, token, request_path, authorization, &pairs)
}

/// A bridge admits the bridge that dials it at its path with its token, and one without a token
/// admits everybody there. Without a `token` in the query, no other header will do.
pub proof fn law_token_admits(
    path: Seq<char>,
    token: Seq<char>,
    other: Option<Seq<char>>,
    pairs: Seq<(Seq<char>, Seq<char>)>,
)
    ensures
        upgrade_answer(path, Some(token), path, Some(bearer(token)), pairs)
            == UpgradeAnswer::Accept,
        upgrade_answer(path, None, path, other, pairs) == UpgradeAnswer::Accept,
        other != Some(bearer(token)) && !pairs.contains(("token"@, token)) ==> upgrade_answer(
            path,
            Some(token),
            path,
            other,
            pairs,
        ) == UpgradeAnswer::Unauthorized,
{
}

/// A request is not found if and only if it asks for another path than the one served. One that
/// asks for that path is accepted if and only if no token is asked for, or its `Authorization`
/// header is `Bearer`, a space and the token, or `token` is among its query's names with the
/// token as its value; else it is unauthorized.
pub proof fn law_upgrade_answers(
    path: Seq<char>,
    token: Option<Seq<char>>,
    request_path: Seq<char>,
    authorization: Option<Seq<char>>,
    pairs: Seq<(Seq<char>, Seq<char>)>,
)
    ensures
        ({
            let answer = upgrade_answer(path, token, request_path, authorization, pairs);
            let in_header = authorization is Some && token is Some && authorization->Some_0
                == "Bearer "@ + token->Some_0;
            let in_query = token is Some && exists|i: int|
                0 <= i < pairs.len() && (#[trigger] pairs[i]).0 == "token"@ && pairs[i].1
                    == token->Some_0;
            &&& answer == UpgradeAnswer::NotFound <==> request_path != path
            &&& answer == UpgradeAnswer::Accept <==> request_path == path && (token is None
                || in_header || in_query)
            &&& answer == UpgradeAnswer::Unauthorized <==> request_path == path && token is Some
                && !in_header && !in_query
        }),
{
    if token is Some {
        let wanted = ("token"@, token->Some_0);
        if pairs.contains(wanted) {
            let i = choose|i: int| 0 <= i < pairs.len() && pairs[i] == wanted;
            assert(pairs[i].0 == "token"@ && pairs[i].1 == token->Some_0);
        }
        if exists|i: int|
            0 <= i < pairs.len() && (#[trigger] pairs[i]).0 == "token"@ && pairs[i].1
                == token->Some_0 {
            let i = choose|i: int|
                0 <= i < pairs.len() && (#[trigger] pairs[i]).0 == "token"@ && pairs[i].1
                    == token->Some_0;
            assert(pairs[i] == wanted);
        }
    }
}

/// Pairs of texts as values are the same pairs, in the same order.
pub proof fn law_pairs_are_kept(pairs: Seq<(String, String)>)
    ensures
        pairs_view(pairs).len() == pairs.len(),
        forall|i: int|
            0 <= i < pairs.len() ==> (#[trigger] pairs_view(pairs)[i]).0 == pairs[i].0@
                && pairs_view(pairs)[i].1 == pairs[i].1@,
{
}

/// The header that shows a token is `Bearer`, a space and the token, and no other token has it.
pub proof fn law_bearers_tell_tokens_apart(token: Seq<char>, other: Seq<char>)
    ensures
        bearer(token).len() == 7 + token.len(),
        bearer(token).take(7) == "Bearer "@,
        bearer(token).skip(7) == token,
        bearer(token) == bearer(other) ==> token == other,
{
    reveal_strlit("Bearer ");
    assert(bearer(token).take(7) == "Bearer "@);
    assert(bearer(token).skip(7) == token);
    assert(bearer(other).skip(7) == other);
}

} // verus!
