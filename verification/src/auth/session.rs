//! The session cookie: the value set at login, the value that clears it at
//! logout, and how the session token is read back from a `Cookie` header.
use crate::text::{split_char, split_on, split_once, split_once_at, str_eq, trim, trim_str, views_of};
use vstd::prelude::*;
use vstd::string::*;

verus! {

broadcast use vstd::string::group_string_axioms;

/// The name of the session cookie.
pub const SESSION_COOKIE_NAME: &'static str = "orchid_session";

pub open spec fn cookie_name() -> Seq<char> {
    "orchid_session"@
}

/// The value of the first `name=value` pair, after trimming, whose name is
/// the session cookie's.
pub open spec fn session_value(pairs: Seq<Seq<char>>) -> Option<Seq<char>>
    decreases pairs.len(),
{
    if pairs.len() == 0 {
        None
    } else {
        match split_once_at(trim(pairs[0]), '=') {
            Some((name, value)) => if name == cookie_name() {
                Some(value)
            } else {
                session_value(pairs.drop_first())
            },
            None => session_value(pairs.drop_first()),
        }
    }
}

proof fn lemma_session_value_skip(pairs: Seq<Seq<char>>, i: int)
    requires
        0 <= i <= pairs.len(),
        forall|j: int|
            0 <= j < i ==> !(#[trigger] split_once_at(trim(pairs[j]), '=') matches Some(
                (name, _),
            ) && name == cookie_name()),
    ensures
        session_value(pairs) == session_value(pairs.skip(i)),
    decreases i,
{
    if i > 0 {
        let t = pairs.drop_first();
        assert forall|j: int|
            0 <= j < i - 1 implies !(#[trigger] split_once_at(trim(t[j]), '=') matches Some(
                (name, _),
            ) && name == cookie_name()) by {
            assert(t[j] == pairs[j + 1]);
        }
        assert(split_once_at(trim(pairs[0]), '=') == split_once_at(trim(pairs[0]), '='));
        lemma_session_value_skip(t, i - 1);
        assert(t.skip(i - 1) =~= pairs.skip(i));
    } else {
        assert(pairs.skip(0) =~= pairs);
    }
}

/// The session token carried by a `Cookie` header, if any.
pub fn session_token(cookie_header: &str) -> (r: Option<String>)
    ensures
        match session_value(split_on(cookie_header@, ';')) {
            Some(v) => r matches Some(t) && t@ == v,
            None => r is None,
        },
{
    proof {
        reveal_strlit("orchid_session");
    }
    let pairs = split_char(cookie_header, ';');
    let ghost ps = views_of(pairs@);
    let n = pairs.len();
    let mut i: usize = 0;
    while i < n
        invariant
            n == pairs@.len(),
            ps == views_of(pairs@),
            ps == split_on(cookie_header@, ';'),
            i <= n,
            forall|j: int|
                0 <= j < i ==> !(#[trigger] split_once_at(trim(ps[j]), '=') matches Some(
                    (name, _),
                ) && name == cookie_name()),
        decreases n - i,
    {
        let pair = trim_str(pairs[i].as_str());
        assert(ps[i as int] == pairs@[i as int]@);
        match split_once(pair.as_str(), '=') {
            Some((name, value)) => {
                if str_eq(name.as_str(), SESSION_COOKIE_NAME) {
                    proof {
                        lemma_session_value_skip(ps, i as int);
                        assert(ps.skip(i as int)[0] == ps[i as int]);
                    }
                    return Some(value);
                }
            },
            None => {},
        }
        i = i + 1;
    }
    proof {
        lemma_session_value_skip(ps, n as int);
        assert(ps.skip(n as int) =~= Seq::<Seq<char>>::empty());
    }
    None
}

/// The attributes of the session cookie.
pub open spec fn cookie_attributes() -> Seq<char> {
    "; Path=/; HttpOnly; SameSite=Lax"@
}

/// The `Set-Cookie` value that opens a session.
pub fn session_cookie(token: &str) -> (r: String)
    ensures
        r@ == cookie_name() + "="@ + token@ + cookie_attributes(),
{
    SESSION_COOKIE_NAME.to_string().concat("=").concat(token).concat("; Path=/; HttpOnly; SameSite=Lax")
}

/// The `Set-Cookie` value that ends a session.
pub fn logout_cookie() -> (r: String)
    ensures
        r@ == "orchid_session=; Path=/; HttpOnly; SameSite=Lax; Max-Age=0"@,
{
    "orchid_session=; Path=/; HttpOnly; SameSite=Lax; Max-Age=0".to_string()
}

/// Without the separator, the text is one piece.
proof fn lemma_split_on_none(s: Seq<char>, sep: char)
    requires
        forall|i: int| 0 <= i < s.len() ==> s[i] != sep,
    ensures
        split_on(s, sep) == seq![s],
    decreases s.len(),
{
    if s.len() > 0 {
        lemma_split_on_none(s.drop_last(), sep);
        assert(s.drop_last().push(s.last()) =~= s);
    } else {
        assert(s =~= Seq::<char>::empty());
    }
}

/// The first piece is the text before the first separator.
proof fn lemma_split_on_first(a: Seq<char>, sep: char, rest: Seq<char>)
    requires
        forall|i: int| 0 <= i < a.len() ==> a[i] != sep,
    ensures
        split_on(a + seq![sep] + rest, sep).len() >= 2,
        split_on(a + seq![sep] + rest, sep)[0] == a,
    decreases rest.len(),
{
    let s = a + seq![sep] + rest;
    if rest.len() == 0 {
        assert(s.drop_last() =~= a);
        assert(s.last() == sep);
        lemma_split_on_none(a, sep);
    } else {
        lemma_split_on_first(a, sep, rest.drop_last());
        assert(s.drop_last() =~= a + seq![sep] + rest.drop_last());
    }
}

/// The session token set at login reads back from a `Cookie` header that
/// carries it first (as the browser returns it, or with further pairs or
/// attributes after a `;`), provided the token holds no `;` and does not end
/// in whitespace.
pub proof fn law_session_cookie_roundtrip(token: Seq<char>, tail: Seq<char>)
    requires
        forall|i: int| 0 <= i < token.len() ==> token[i] != ';',
        token.len() == 0 || !crate::text::is_ws(token.last()),
        tail.len() == 0 || tail[0] == ';',
    ensures
        session_value(split_on(cookie_name() + "="@ + token + tail, ';')) == Some(token),
{
    reveal_strlit("orchid_session");
    reveal_strlit("=");
    let pair = cookie_name() + "="@ + token;
    assert(pair.len() == 15 + token.len());
    assert forall|i: int| 0 <= i < pair.len() implies pair[i] != ';' by {
        if i >= 15 {
            assert(pair[i] == token[i - 15]);
        }
    }
    let header = pair + tail;
    let pieces = split_on(header, ';');
    if tail.len() == 0 {
        assert(header =~= pair);
        lemma_split_on_none(pair, ';');
    } else {
        assert(header =~= pair + seq![';'] + tail.drop_first());
        lemma_split_on_first(pair, ';', tail.drop_first());
    }
    assert(pieces[0] == pair);
    // the pair is its own trim
    crate::text::lemma_strip_start_at(pair, crate::text::Strip::Whitespace, 0);
    assert(pair.subrange(0, pair.len() as int) =~= pair);
    assert(pair.last() == if token.len() == 0 { '=' } else { token.last() });
    crate::text::lemma_strip_end_at(pair, crate::text::Strip::Whitespace, pair.len() as int);
    assert(trim(pair) == pair);
    // it splits at the `=` after the name
    assert forall|j: int| 0 <= j < 14 implies pair[j] != '=' by {}
    assert(pair[14] == '=');
    crate::text::lemma_first_index_of(pair, '=', 14);
    assert(pair.subrange(0, 14) =~= cookie_name());
    assert(pair.subrange(15, pair.len() as int) =~= token);
}

} // verus!
