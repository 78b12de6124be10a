//! The server's configuration and the lookup of a requested name among the
//! entries of the document root.
use vstd::prelude::*;
use vstd::string::*;
use crate::response::{decimal, decimal_of};
use crate::text::same_text;

verus! {

/// Where the server listens and which directory it serves.
pub struct HttpServer {
    port: u16,
    doc_root: String,
    ip: String,
}

/// The name looked up for a normalised request path: `/` asks for the
/// default document `index.html`, any other path for itself.
pub open spec fn lookup_name(path: Seq<char>) -> Seq<char> {
    if path == "/"@ {
        "index.html"@
    } else {
        path
    }
}

/// The index of the first of `names`, from `i` on, that equals `name`.
pub open spec fn first_match_from(names: Seq<Seq<char>>, name: Seq<char>, i: int) -> Option<int>
    decreases names.len() - i,
{
    if i < 0 || i >= names.len() {
        None
    } else if names[i] == name {
        Some(i)
    } else {
        first_match_from(names, name, i + 1)
    }
}

/// The index of the first of `names` that equals `name`.
pub open spec fn first_match(names: Seq<Seq<char>>, name: Seq<char>) -> Option<int> {
    first_match_from(names, name, 0)
}

pub proof fn lemma_first_match_from(names: Seq<Seq<char>>, name: Seq<char>, i: int)
    requires
        0 <= i <= names.len(),
    ensures
        first_match_from(names, name, i) matches Some(k) ==> i <= k < names.len() && names[k]
            == name && forall|j: int| i <= j < k ==> names[j] != name,
        first_match_from(names, name, i) is None ==> forall|j: int|
            i <= j < names.len() ==> names[j] != name,
    decreases names.len() - i,
{
    if i < names.len() && names[i] != name {
        lemma_first_match_from(names, name, i + 1);
    }
}

/// `first_match` finds the first equal name, and finds none only when no name is equal.
pub proof fn lemma_first_match(names: Seq<Seq<char>>, name: Seq<char>)
    ensures
        first_match(names, name) matches Some(k) ==> 0 <= k < names.len() && names[k] == name
            && forall|j: int| 0 <= j < k ==> names[j] != name,
        first_match(names, name) is None <==> !names.contains(name),
{
    lemma_first_match_from(names, name, 0);
}

impl HttpServer {
    pub closed spec fn ip_view(&self) -> Seq<char> {
        self.ip@
    }

    pub closed spec fn port_view(&self) -> u16 {
        self.port
    }

    pub closed spec fn doc_root_view(&self) -> Seq<char> {
        self.doc_root@
    }

    pub fn new(ip: String, port: u16, doc_root: String) -> (r: Self)
        ensures
            r.ip_view() == ip@,
            r.port_view() == port,
            r.doc_root_view() == doc_root@,
    {
        Self { port, doc_root, ip }
    }

    pub fn ip(&self) -> (r: &str)
        ensures
            r@ == self.ip_view(),
    {
        self.ip.as_str()
    }

    pub fn port(&self) -> (r: u16)
        ensures
            r == self.port_view(),
    {
        self.port
    }

    pub fn doc_root(&self) -> (r: &str)
        ensures
            r@ == self.doc_root_view(),
    {
        self.doc_root.as_str()
    }

    /// The address to bind: the IP, a colon and the port in decimal.
    pub fn address(&self) -> (r: String)
        ensures
            r@ == self.ip_view() + ":"@ + decimal_of(self.port_view() as nat),
    {
        let mut r = String::from_str(self.ip.as_str());
        r.append(":");
        r.append(decimal(self.port as usize).as_str());
        r
    }

    /// The position, among the names of the document root's entries in the
    /// order they are listed, of the first one equal to the name that
    /// `request_path` asks for.
    pub fn find_entry(names: &Vec<String>, request_path: &str) -> (r: Option<usize>)
        ensures
            r matches Some(i) ==> first_match(names.deep_view(), lookup_name(request_path@))
                == Some(i as int),
            r is None ==> first_match(names.deep_view(), lookup_name(request_path@)) is None,
    {
        let target: &str = if same_text(request_path, "/") {
            "index.html"
        } else {
            request_path
        };
        assert(target@ == lookup_name(request_path@));
        let ghost dv = names.deep_view();
        let mut i: usize = 0;
        while i < names.len()
            invariant
                i <= names.len(),
                dv == names.deep_view(),
                target@ == lookup_name(request_path@),
                first_match_from(dv, target@, 0) == first_match_from(dv, target@, i as int),
            decreases names.len() - i,
        {
            if same_text(names[i].as_str(), target) {
                return Some(i);
            }
            i = i + 1;
        }
        None
    }
}

} // verus!
