use vstd::prelude::*;

verus! {

/// Number of `/` characters in `s[0..i]`.
pub open spec fn slashes_before(s: Seq<char>, i: int) -> nat
    decreases i,
{
    if i <= 0 {
        0
    } else {
        slashes_before(s, i - 1) + if s[i - 1] == '/' { 1nat } else { 0nat }
    }
}

/// A scoped name (`@scope/name`) keeps its first `/`: the boundary is the second one.
pub open spec fn boundary_rank(s: Seq<char>) -> nat {
    if s.len() > 0 && s[0] == '@' { 1 } else { 0 }
}

/// `i` is the position of the `/` that separates the module name from its subpath.
pub open spec fn is_boundary(s: Seq<char>, i: int) -> bool {
    0 <= i < s.len() && s[i] == '/' && slashes_before(s, i) == boundary_rank(s)
}

pub open spec fn split_point(s: Seq<char>) -> Option<int> {
    if exists|i: int| is_boundary(s, i) {
        Some(choose|i: int| is_boundary(s, i))
    } else {
        None
    }
}

pub open spec fn module_name(s: Seq<char>) -> Seq<char> {
    match split_point(s) {
        Some(i) => s.subrange(0, i),
        None => s,
    }
}

pub open spec fn subpath(s: Seq<char>) -> Option<Seq<char>> {
    match split_point(s) {
        Some(i) => Some(s.subrange(i, s.len() as int)),
        None => None,
    }
}

proof fn lemma_slashes_monotone(s: Seq<char>, i: int, j: int)
    requires
        0 <= i < j <= s.len(),
        s[i] == '/',
    ensures
        slashes_before(s, j) > slashes_before(s, i),
    decreases j - i,
{
    if j > i + 1 {
        lemma_slashes_monotone(s, i, j - 1);
    }
}

/// At most one position is a boundary.
pub proof fn lemma_boundary_unique(s: Seq<char>, i: int, j: int)
    requires
        is_boundary(s, i),
        is_boundary(s, j),
    ensures
        i == j,
{
    if i < j {
        lemma_slashes_monotone(s, i, j);
    } else if j < i {
        lemma_slashes_monotone(s, j, i);
    }
}

/// Position of the `/` that splits `[module-name]/[path]`, counted in characters.
pub fn split_slash_from_request(target: &str) -> (r: Option<usize>)
    ensures
        match r {
            Some(i) => split_point(target@) == Some(i as int),
            None => split_point(target@) is None,
        },
{
    let n = target.unicode_len();
    let want: usize = if n > 0 && target.get_char(0) == '@' { 1 } else { 0 };
    let mut seen: usize = 0;
    let mut i: usize = 0;
    while i < n
        invariant
            n == target@.len(),
            0 <= i <= n,
            want == boundary_rank(target@),
            seen == slashes_before(target@, i as int),
            seen <= want,
            forall|j: int| 0 <= j < i ==> !is_boundary(target@, j),
        decreases n - i,
    {
        if target.get_char(i) == '/' {
            if seen == want {
                proof {
                    assert(is_boundary(target@, i as int));
                    let k = choose|k: int| is_boundary(target@, k);
                    lemma_boundary_unique(target@, i as int, k);
                }
                return Some(i);
            }
            seen = seen + 1;
        }
        i = i + 1;
    }
    None
}

/// The leading `name` or `@scope/name` of a request target.
pub fn get_module_name_from_request(target: &str) -> (r: &str)
    ensures
        r@ == module_name(target@),
{
    match split_slash_from_request(target) {
        Some(i) => target.substring_char(0, i),
        None => target,
    }
}

/// What follows the module name, starting with its `/`, if anything does.
pub fn get_path_from_request(target: &str) -> (r: Option<String>)
    ensures
        match r {
            Some(p) => subpath(target@) == Some(p@),
            None => subpath(target@) is None,
        },
{
    match split_slash_from_request(target) {
        Some(i) => {
            let n = target.unicode_len();
            Some(String::from_str(target.substring_char(i, n)))
        },
        None => None,
    }
}

/// Module name and subpath put back together give the request again;
/// without a boundary there is no subpath and the name is the whole request.
pub proof fn lemma_name_and_subpath_rebuild(s: Seq<char>)
    ensures
        match subpath(s) {
            Some(p) => module_name(s) + p == s,
            None => module_name(s) == s,
        },
{
    match split_point(s) {
        Some(i) => {
            let w = choose|k: int| is_boundary(s, k);
            assert(is_boundary(s, w));
            assert(s.subrange(0, i) + s.subrange(i, s.len() as int) =~= s);
        },
        None => {},
    }
}

/// Character-wise equality of two texts.
pub fn same_text(a: &str, b: &str) -> (r: bool)
    ensures
        r == (a@ == b@),
{
    let n = a.unicode_len();
    if n != b.unicode_len() {
        return false;
    }
    let mut i: usize = 0;
    while i < n
        invariant
            n == a@.len(),
            n == b@.len(),
            0 <= i <= n,
            forall|j: int| 0 <= j < i ==> a@[j] == b@[j],
        decreases n - i,
    {
        if a.get_char(i) != b.get_char(i) {
            return false;
        }
        i = i + 1;
    }
    assert(a@ =~= b@);
    true
}

/// A request split into the part that names a file and what rides along with it.
pub struct Request {
    pub target: String,
    pub query: String,
    pub fragment: String,
}

/// Index of the first `c` in `s`, or `s.len()` where there is none.
pub open spec fn first_of(s: Seq<char>, c: char) -> int
    decreases s.len(),
{
    if s.len() == 0 {
        0
    } else if s.last() != c && first_of(s.drop_last(), c) == s.len() - 1 {
        s.len() as int
    } else {
        first_of(s.drop_last(), c)
    }
}

fn find_char(s: &str, c: char) -> (r: usize)
    ensures
        r == first_of(s@, c),
        0 <= r <= s@.len(),
        r < s@.len() ==> s@[r as int] == c,
        forall|j: int| 0 <= j < r ==> s@[j] != c,
{
    let n = s.unicode_len();
    let mut i: usize = 0;
    while i < n
        invariant
            n == s@.len(),
            0 <= i <= n,
            forall|j: int| 0 <= j < i ==> s@[j] != c,
        decreases n - i,
    {
        if s.get_char(i) == c {
            proof {
                lemma_first_of(s@, c, i as int);
            }
            return i;
        }
        i = i + 1;
    }
    proof {
        lemma_first_of(s@, c, n as int);
    }
    n
}

proof fn lemma_first_of(s: Seq<char>, c: char, i: int)
    requires
        0 <= i <= s.len(),
        i < s.len() ==> s[i] == c,
        forall|j: int| 0 <= j < i ==> s[j] != c,
    ensures
        first_of(s, c) == i,
    decreases s.len(),
{
    if s.len() > 0 {
        if i < s.len() {
            if i < s.len() - 1 {
                lemma_first_of(s.drop_last(), c, i);
            } else {
                lemma_first_of(s.drop_last(), c, s.len() - 1);
            }
        } else {
            lemma_first_of(s.drop_last(), c, s.len() - 1);
        }
    }
}

/// The fragment starts at the first `#`; the query at the first `?` before it.
pub open spec fn fragment_start(s: Seq<char>) -> int {
    first_of(s, '#')
}

pub open spec fn query_start(s: Seq<char>) -> int {
    first_of(s.subrange(0, fragment_start(s)), '?')
}

/// Splits `text` into target, query (from `?`) and fragment (from `#`).
pub fn parse_request(text: &str) -> (r: Request)
    ensures
        r.target@ == text@.subrange(0, query_start(text@)),
        r.query@ == text@.subrange(query_start(text@), fragment_start(text@)),
        r.fragment@ == text@.subrange(fragment_start(text@), text@.len() as int),
        r.target@ + r.query@ + r.fragment@ == text@,
{
    let n = text.unicode_len();
    let f = find_char(text, '#');
    let head = text.substring_char(0, f);
    let q = find_char(head, '?');
    let r = Request {
        target: String::from_str(text.substring_char(0, q)),
        query: String::from_str(text.substring_char(q, f)),
        fragment: String::from_str(text.substring_char(f, n)),
    };
    assert(r.target@ + r.query@ + r.fragment@ =~= text@);
    r
}

impl Request {
    /// A request that names a directory: empty, or ending with `/`.
    pub fn is_directory(&self) -> (r: bool)
        ensures
            r == (self.target@.len() == 0 || self.target@.last() == '/'),
    {
        let n = self.target.as_str().unicode_len();
        n == 0 || self.target.as_str().get_char(n - 1) == '/'
    }

    pub fn with_target(&self, target: &str) -> (r: Request)
        ensures
            r.target@ == target@,
            r.query@ == self.query@,
            r.fragment@ == self.fragment@,
    {
        Request {
            target: String::from_str(target),
            query: self.query.clone(),
            fragment: self.fragment.clone(),
        }
    }

    pub fn duplicate(&self) -> (r: Request)
        ensures
            r.target@ == self.target@,
            r.query@ == self.query@,
            r.fragment@ == self.fragment@,
    {
        self.with_target(self.target.as_str())
    }
}

} // verus!
