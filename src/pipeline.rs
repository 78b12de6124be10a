//! The whole exchange on one connection, as a function of the request text
//! and of the document root, and the laws it obeys.
//!
//! A connection is served by `parse_request`, then `HttpServer::find_entry`
//! over the names the document root lists, then reading the entry found and
//! `ResolvedFile::new`, then `HttpServer::prepare_response`; each of them is
//! verified against the part of `served_text` it computes.
use vstd::prelude::*;
use crate::mime::{extension_of, mime_of};
use crate::request::{
    first_line, first_space, has_three_tokens, is_disallowed_method, lemma_three_tokens,
    method_token, normalized, parse_text, path_token, second_space, token_count, RequestError,
};
use crate::response::{not_found_response, ok_response};
use crate::server::{first_match, lemma_first_match, lookup_name};
use crate::text::{find_from, find_last, lemma_find_from_skip};

verus! {

/// The response to the request text `t`, where `names` are the names of the
/// document root's entries in the order they are listed and `bodies[i]` is the
/// text of entry `i` if it can be read; `None` when the connection is closed
/// without a byte written.
pub open spec fn served_text(
    t: Seq<char>,
    names: Seq<Seq<char>>,
    bodies: Seq<Option<Seq<char>>>,
) -> Option<Seq<char>> {
    match parse_text(t) {
        Err(_) => None,
        Ok((_, path)) => Some(
            match first_match(names, lookup_name(path)) {
                Some(i) => match bodies[i] {
                    Some(b) => ok_response(mime_of(extension_of(names[i])), b),
                    None => not_found_response(),
                },
                None => not_found_response(),
            },
        ),
    }
}

/// A request whose first line is `method target version`, ended by `\r\n`.
pub open spec fn request_text(
    method: Seq<char>,
    target: Seq<char>,
    version: Seq<char>,
    rest: Seq<char>,
) -> Seq<char> {
    method + seq![' '] + target + seq![' '] + version + seq!['\r', '\n'] + rest
}

/// What `request_text` needs of its parts to be read back as they were given.
pub open spec fn well_formed_parts(method: Seq<char>, target: Seq<char>, version: Seq<char>) -> bool {
    &&& !method.contains(' ') && !method.contains('\n')
    &&& !target.contains(' ') && !target.contains('\n')
    &&& !version.contains('\n')
}

/// The names of a directory's entries: distinct, and none holds a `/`.
pub open spec fn valid_listing(names: Seq<Seq<char>>, bodies: Seq<Option<Seq<char>>>) -> bool {
    &&& names.no_duplicates()
    &&& names.len() == bodies.len()
    &&& forall|i: int| 0 <= i < names.len() ==> !(#[trigger] names[i]).contains('/')
}

/// A request line built from a method, a target and a version is read back
/// as that method and the normalised target, unless the method is refused.
pub proof fn lemma_parse_request_text(
    method: Seq<char>,
    target: Seq<char>,
    version: Seq<char>,
    rest: Seq<char>,
)
    requires
        well_formed_parts(method, target, version),
    ensures
        parse_text(request_text(method, target, version, rest)) == (if method == "POST"@ {
            Err::<(Seq<char>, Seq<char>), RequestError>(RequestError::DisallowedMethod)
        } else {
            Ok((method, normalized(target)))
        }),
{
    let t = request_text(method, target, version, rest);
    let l = method + seq![' '] + target + seq![' '] + version;
    let a = method.len() as int;
    let b = a + 1 + target.len();
    assert(t =~= l + seq!['\r', '\n'] + rest);
    assert forall|j: int| 0 <= j < l.len() implies t[j] != '\n' by {
        if j < a {
            assert(t[j] == method[j]);
        } else if a < j < b {
            assert(t[j] == target[j - a - 1]);
        } else if j > b {
            assert(t[j] == version[j - b - 1]);
        }
    }
    assert(t[l.len() as int] == '\r');
    assert(t[l.len() as int + 1] == '\n');
    lemma_find_from_skip(t, '\n', 0, l.len() as int + 1);
    assert(find_from(t, '\n', 0) == l.len() + 1);
    assert(first_line(t) =~= l);
    assert forall|j: int| 0 <= j < a implies l[j] != ' ' by {
        assert(l[j] == method[j]);
    }
    lemma_find_from_skip(l, ' ', 0, a);
    assert(first_space(l) == a);
    assert forall|j: int| a + 1 <= j < b implies l[j] != ' ' by {
        assert(l[j] == target[j - a - 1]);
    }
    lemma_find_from_skip(l, ' ', a + 1, b);
    assert(second_space(l) == b);
    assert(has_three_tokens(l));
    assert(method_token(l) =~= method);
    assert(path_token(l) =~= target);
}

/// A file listed in the document root, requested by `/` and its name, is
/// answered with status 200, the content type of its extension, a length
/// equal to the byte length of its text, and that text as the body.
pub proof fn lemma_file_is_served(
    method: Seq<char>,
    version: Seq<char>,
    rest: Seq<char>,
    names: Seq<Seq<char>>,
    bodies: Seq<Option<Seq<char>>>,
    i: int,
    body: Seq<char>,
)
    requires
        valid_listing(names, bodies),
        0 <= i < names.len(),
        names[i].len() > 0,
        bodies[i] == Some(body),
        method != "POST"@,
        well_formed_parts(method, seq!['/'] + names[i], version),
    ensures
        served_text(request_text(method, seq!['/'] + names[i], version, rest), names, bodies)
            == Some(ok_response(mime_of(extension_of(names[i])), body)),
{
    let name = names[i];
    let target = seq!['/'] + name;
    lemma_parse_request_text(method, target, version, rest);
    assert(normalized(target) =~= name);
    assert(!names[i].contains('/'));
    assert(name != "/"@) by {
        reveal_strlit("/");
        if name == "/"@ {
            assert(name[0] == '/');
        }
    }
    assert(names.contains(name));
    lemma_first_match(names, name);
    let k = first_match(names, name)->0;
    assert(names[k] == names[i]);
    assert(k == i);
}

/// Requesting `/` and requesting `/index.html` get the same answer: the
/// default document when the root lists it, and not found when it does not.
pub proof fn lemma_root_is_index(
    method: Seq<char>,
    version: Seq<char>,
    rest: Seq<char>,
    names: Seq<Seq<char>>,
    bodies: Seq<Option<Seq<char>>>,
)
    requires
        valid_listing(names, bodies),
        method != "POST"@,
        !method.contains(' ') && !method.contains('\n'),
        !version.contains('\n'),
    ensures
        served_text(request_text(method, "/"@, version, rest), names, bodies) == served_text(
            request_text(method, "/index.html"@, version, rest),
            names,
            bodies,
        ),
        !names.contains("index.html"@) ==> served_text(
            request_text(method, "/"@, version, rest),
            names,
            bodies,
        ) == Some(not_found_response()),
        forall|i: int|
            0 <= i < names.len() && names[i] == "index.html"@ && bodies[i] is Some ==> served_text(
                request_text(method, "/"@, version, rest),
                names,
                bodies,
            ) == Some(ok_response("text/html"@, bodies[i]->0)),
{
    reveal_strlit("/");
    reveal_strlit("/index.html");
    reveal_strlit("index.html");
    reveal_strlit("html");
    assert(well_formed_parts(method, "/"@, version));
    assert(well_formed_parts(method, "/index.html"@, version));
    lemma_parse_request_text(method, "/"@, version, rest);
    lemma_parse_request_text(method, "/index.html"@, version, rest);
    assert(normalized("/"@) == "/"@);
    assert(normalized("/index.html"@) =~= "index.html"@);
    assert(lookup_name("index.html"@) == "index.html"@);
    let idx = "index.html"@;
    lemma_first_match(names, idx);
    assert(extension_of(idx) =~= "html"@) by {
        reveal_with_fuel(find_last, 6);
    }
    assert forall|i: int|
        0 <= i < names.len() && names[i] == idx && bodies[i] is Some implies served_text(
            request_text(method, "/"@, version, rest),
            names,
            bodies,
        ) == Some(ok_response("text/html"@, bodies[i]->0)) by {
        assert(names.contains(idx));
        let k = first_match(names, idx)->0;
        assert(names[k] == names[i]);
        assert(k == i);
    }
}

/// A request for a name the document root does not list is answered with
/// the not-found page, whose content type is `text/html`.
pub proof fn lemma_unlisted_is_not_found(
    method: Seq<char>,
    target: Seq<char>,
    version: Seq<char>,
    rest: Seq<char>,
    names: Seq<Seq<char>>,
    bodies: Seq<Option<Seq<char>>>,
)
    requires
        method != "POST"@,
        well_formed_parts(method, target, version),
        !names.contains(lookup_name(normalized(target))),
    ensures
        served_text(request_text(method, target, version, rest), names, bodies) == Some(
            not_found_response(),
        ),
{
    lemma_parse_request_text(method, target, version, rest);
    lemma_first_match(names, lookup_name(normalized(target)));
}

/// A request with the refused method is never answered.
pub proof fn lemma_disallowed_method_closed(
    t: Seq<char>,
    names: Seq<Seq<char>>,
    bodies: Seq<Option<Seq<char>>>,
)
    requires
        is_disallowed_method(method_token(first_line(t))),
    ensures
        served_text(t, names, bodies) is None,
{
}

/// A request whose first line splits into fewer than three tokens is never answered.
pub proof fn lemma_short_line_closed(
    t: Seq<char>,
    names: Seq<Seq<char>>,
    bodies: Seq<Option<Seq<char>>>,
)
    requires
        token_count(first_line(t)) < 3,
    ensures
        served_text(t, names, bodies) is None,
{
    lemma_three_tokens(first_line(t));
}

} // verus!
