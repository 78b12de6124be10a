//! File extensions and the content types they are served with.
use vstd::prelude::*;
use vstd::string::*;
use crate::text::{find_last, same_text};

verus! {

/// The part of a file name after its last `.`; empty when the name has no `.`.
pub open spec fn extension_of(name: Seq<char>) -> Seq<char> {
    let k = find_last(name, '.');
    if k < 0 {
        Seq::empty()
    } else {
        name.subrange(k + 1, name.len() as int)
    }
}

/// The content type served for a file extension.
pub open spec fn mime_of(ext: Seq<char>) -> Seq<char> {
    if ext == "html"@ {
        "text/html"@
    } else if ext == "css"@ {
        "text/css"@
    } else if ext == "js"@ {
        "text/javascript"@
    } else {
        "text/plain"@
    }
}

/// The extension of `name`: what follows its last `.`, or nothing if there is no `.`.
pub fn extension(name: &str) -> (r: &str)
    ensures
        r@ == extension_of(name@),
{
    let n = name.unicode_len();
    let mut i: usize = n;
    assert(name@.subrange(0, n as int) =~= name@);
    while i > 0
        invariant
            n == name@.len(),
            i <= n,
            find_last(name@, '.') == find_last(name@.subrange(0, i as int), '.'),
        decreases i,
    {
        if name.get_char(i - 1) == '.' {
            assert(name@.subrange(0, i as int).last() == '.');
            return name.substring_char(i, n);
        }
        assert(name@.subrange(0, i as int).drop_last() =~= name@.subrange(0, i - 1));
        i = i - 1;
    }
    assert(name@.subrange(0, 0) =~= Seq::<char>::empty());
    name.substring_char(n, n)
}

/// The content type for an extension: `text/html`, `text/css` and
/// `text/javascript` for `html`, `css` and `js`, `text/plain` for anything else.
pub fn mime_type(ext: &str) -> (r: &'static str)
    ensures
        r@ == mime_of(ext@),
{
    if same_text(ext, "html") {
        "text/html"
    } else if same_text(ext, "css") {
        "text/css"
    } else if same_text(ext, "js") {
        "text/javascript"
    } else {
        "text/plain"
    }
}

/// The content type a file is served with, from its name.
pub fn mime_for_name(name: &str) -> (r: &'static str)
    ensures
        r@ == mime_of(extension_of(name@)),
{
    mime_type(extension(name))
}

} // verus!
