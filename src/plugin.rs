use vstd::prelude::*;
use crate::exports::{check_target, field_process_spec, valid_target, view_texts};
use crate::fs::PkgInfo;
use crate::path::join_spec;
use crate::request::{get_path_from_request, parse_request, query_start, same_text, subpath, Request};
use crate::resolver::Resolver;
use crate::state::{Context, Info, ResolveError, State};

verus! {

/// Whether a request's module name is the package's own declared name.
pub fn is_resolve_self(pkg_info: &PkgInfo, request_module_name: &str) -> (r: bool)
    ensures
        r == (pkg_info.name matches Some(n) && n@ == request_module_name@),
{
    match &pkg_info.name {
        Some(n) => same_text(request_module_name, n.as_str()),
        None => false,
    }
}

/// The key looked up in the exports map of `pkg` for target `t` (query `q`,
/// fragment `f`) read from `dir`, or `None` where the rule does not apply: no
/// subpath, and the target neither exists nor is the package's name.
pub open spec fn export_key_for(
    resolver: Resolver,
    pkg: PkgInfo,
    dir: Seq<Seq<char>>,
    t: Seq<char>,
    q: Seq<char>,
    f: Seq<char>,
) -> Option<Seq<char>> {
    let base: Option<Seq<char>> = match subpath(t) {
        Some(sub) => Some(seq!['.'] + sub),
        None => if resolver.fs.is_file_spec(join_spec(dir, t)) || resolver.fs.is_dir_spec(
            join_spec(dir, t),
        ) || (pkg.name matches Some(n) && n@ == t) {
            Some(seq!['.'])
        } else {
            None
        },
    };
    match base {
        None => None,
        Some(k) => if q.len() > 0 || f.len() > 0 {
            Some((if k == seq!['.'] { seq!['.', '/'] } else { k }) + q + f)
        } else {
            Some(k)
        },
    }
}

/// The mapped targets, in order, that the exports map of `pkg` gives for the
/// request; `None` where the map is absent, the rule does not apply, or the key
/// is not exported.
pub open spec fn export_list(
    resolver: Resolver,
    pkg: PkgInfo,
    dir: Seq<Seq<char>>,
    t: Seq<char>,
    q: Seq<char>,
    f: Seq<char>,
) -> Option<Seq<Seq<char>>> {
    match pkg.exports {
        Some(m) => match export_key_for(resolver, pkg, dir, t, q, f) {
            Some(k) => field_process_spec(m, k, view_texts(resolver.options.condition_names@)),
            None => None,
        },
        None => None,
    }
}

/// The target part of a mapped target (what precedes its query and fragment).
pub open spec fn item_target(item: Seq<char>) -> Seq<char> {
    item.subrange(0, query_start(item))
}

/// The target part of the first mapped target, where the map gives any.
pub open spec fn first_export_target(
    resolver: Resolver,
    pkg: PkgInfo,
    dir: Seq<Seq<char>>,
    t: Seq<char>,
    q: Seq<char>,
    f: Seq<char>,
) -> Option<Seq<char>> {
    match export_list(resolver, pkg, dir, t, q, f) {
        Some(l) => if l.len() > 0 {
            Some(item_target(l[0]))
        } else {
            None
        },
        None => None,
    }
}

/// The file that the first mapped target names inside the package, where that
/// target is legal and names a file (directories not being answers).
pub open spec fn first_export_file(
    resolver: Resolver,
    pkg: PkgInfo,
    dir: Seq<Seq<char>>,
    t: Seq<char>,
    q: Seq<char>,
    f: Seq<char>,
) -> Option<Seq<Seq<char>>> {
    match first_export_target(resolver, pkg, dir, t, q, f) {
        Some(t0) => if valid_target(t0) && !resolver.options.resolve_to_context {
            resolver.file_at(pkg.dir@, t0)
        } else {
            None
        },
        None => None,
    }
}

/// `r` is a success at the path `p`.
pub open spec fn succeeds_at(r: State, p: Seq<Seq<char>>) -> bool {
    r matches State::Success(res) && res.path@ == p
}

/// Routes a request into a package through the package's `exports` map.
pub struct ExportsFieldPlugin<'a> {
    pub pkg_info: &'a PkgInfo,
}

impl<'a> ExportsFieldPlugin<'a> {
    pub fn new(pkg_info: &'a PkgInfo) -> (r: Self)
        ensures
            r.pkg_info == pkg_info,
    {
        ExportsFieldPlugin { pkg_info }
    }

    /// The key looked up in the exports map for `info`.
    pub open spec fn export_key(&self, resolver: &Resolver, info: Info) -> Option<Seq<char>> {
        export_key_for(
            *resolver,
            *self.pkg_info,
            info.path@,
            info.request.target@,
            info.request.query@,
            info.request.fragment@,
        )
    }

    pub open spec fn list_of(&self, resolver: &Resolver, info: Info) -> Option<Seq<Seq<char>>> {
        export_list(
            *resolver,
            *self.pkg_info,
            info.path@,
            info.request.target@,
            info.request.query@,
            info.request.fragment@,
        )
    }

    pub open spec fn first_of(&self, resolver: &Resolver, info: Info) -> Option<Seq<char>> {
        first_export_target(
            *resolver,
            *self.pkg_info,
            info.path@,
            info.request.target@,
            info.request.query@,
            info.request.fragment@,
        )
    }

    pub open spec fn file_of(&self, resolver: &Resolver, info: Info) -> Option<Seq<Seq<char>>> {
        first_export_file(
            *resolver,
            *self.pkg_info,
            info.path@,
            info.request.target@,
            info.request.query@,
            info.request.fragment@,
        )
    }

    /// `r` rejects the mapped target `t` of this package's exports map.
    pub open spec fn invalid_target(&self, r: State, t: Seq<char>) -> bool {
        r matches State::Error(ResolveError::InvalidTarget { manifest_dir, target })
            && manifest_dir@ == self.pkg_info.dir@ && target@ == t
    }

    /// `r` says that this package does not export the request's target.
    pub open spec fn not_exported(&self, r: State, info: Info) -> bool {
        r matches State::Error(ResolveError::NotExported { manifest_dir, target })
            && manifest_dir@ == self.pkg_info.dir@ && target@ == info.request.target@
    }

    fn key_for(&self, resolver: &Resolver, info: &Info) -> (r: Option<String>)
        ensures
            match r {
                Some(k) => self.export_key(resolver, *info) == Some(k@),
                None => self.export_key(resolver, *info) is None,
            },
    {
        let target = info.request.target.as_str();
        proof {
            reveal_strlit(".");
            reveal_strlit("./");
        }
        let (key, is_root) = match get_path_from_request(target) {
            Some(sub) => (String::from_str(".").concat(sub.as_str()), false),
            None => {
                let path = info.to_resolved_path();
                let named = match &self.pkg_info.name {
                    Some(n) => same_text(target, n.as_str()),
                    None => false,
                };
                if resolver.fs.path_exists(&path) || named {
                    (String::from_str("."), true)
                } else {
                    return None;
                }
            },
        };
        assert(is_root ==> key@ =~= seq!['.']);
        let q = info.request.query.as_str();
        let f = info.request.fragment.as_str();
        if q.unicode_len() > 0 || f.unicode_len() > 0 {
            let head = if is_root {
                String::from_str("./")
            } else {
                key
            };
            Some(head.concat(q).concat(f))
        } else {
            Some(key)
        }
    }

    /// Applies the exports map. Without one, or where the rule does not apply,
    /// the request passes on unchanged. Once a key is formed the outcome is final:
    /// a success through a mapped target, or an error; never a plain file lookup.
    pub fn apply(&self, resolver: &Resolver, info: Info, context: Context) -> (r: State)
        ensures
            r@ == resolver.exports_out(context.depth as nat, *self.pkg_info, info@),
            self.pkg_info.exports is None ==> r == State::Resolving(info),
            self.pkg_info.exports is Some && self.export_key(resolver, info) is None ==> r
                == State::Resolving(info),
            self.pkg_info.exports is Some && self.export_key(resolver, info) is Some ==> r.finished(),
            (self.pkg_info.exports matches Some(m) && self.export_key(resolver, info) matches Some(
                k,
            ) && field_process_spec(m, k, view_texts(resolver.options.condition_names@)) is None)
                ==> self.not_exported(r, info),
            self.list_of(resolver, info) matches Some(l) ==> (l.len() == 0 ==> self.not_exported(
                r,
                info,
            )),
            self.first_of(resolver, info) matches Some(t0) ==> (!valid_target(t0)
                ==> self.invalid_target(r, t0)),
            context.depth > 0 ==> (self.file_of(resolver, info) matches Some(p) ==> succeeds_at(r, p)),
            resolver.sound(r),
        decreases context.depth, 1nat,
    {
        let map = match &self.pkg_info.exports {
            Some(m) => m,
            None => return State::Resolving(info),
        };
        let key = match self.key_for(resolver, &info) {
            Some(k) => k,
            None => return State::Resolving(info),
        };
        let list = match map.field_process(key.as_str(), &resolver.options.condition_names) {
            Some(l) => l,
            None => {
                return State::Error(
                    ResolveError::NotExported {
                        manifest_dir: self.pkg_info.dir.duplicate(),
                        target: info.request.target,
                    },
                );
            },
        };
        let mut i: usize = 0;
        while i < list.len()
            invariant
                0 <= i <= list@.len(),
                self.pkg_info.exports matches Some(m) && self.export_key(resolver, info) matches Some(
                    k,
                ) && field_process_spec(m, k, view_texts(resolver.options.condition_names@)) is Some,
                self.list_of(resolver, info) == Some(view_texts(list@)),
                resolver.exports_out(context.depth as nat, *self.pkg_info, info@)
                    == resolver.exports_from(
                    context.depth as nat,
                    *self.pkg_info,
                    info@,
                    view_texts(list@),
                    i as int,
                ),
                i > 0 ==> self.file_of(resolver, info) is None || context.depth == 0,
                i > 0 ==> (self.first_of(resolver, info) matches Some(t0) ==> valid_target(t0)),
            decreases list@.len() - i,
        {
            let request: Request = parse_request(list[i].as_str());
            proof {
                if i == 0 {
                    assert(view_texts(list@)[0] == list@[0]@);
                }
            }
            if !check_target(request.target.as_str()) {
                return State::Error(
                    ResolveError::InvalidTarget {
                        manifest_dir: self.pkg_info.dir.duplicate(),
                        target: request.target,
                    },
                );
            }
            let next = Info { path: self.pkg_info.dir.duplicate(), request };
            proof {
                if i == 0 {
                    assert(next.request.target@ == item_target(list@[0]@));
                }
            }
            let state = resolver._resolve(next, context);
            if state.is_finished() {
                return state;
            }
            i = i + 1;
        }
        State::Error(
            ResolveError::NotExported {
                manifest_dir: self.pkg_info.dir.duplicate(),
                target: info.request.target,
            },
        )
    }
}

} // verus!
