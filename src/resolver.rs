use vstd::prelude::*;
use crate::exports::{field_process_spec, valid_target, view_texts};
use crate::fs::{FileSystem, PkgInfo, PkgLookup};
use crate::plugin::{
    export_key_for, export_list, first_export_file, is_resolve_self, item_target, succeeds_at,
    ExportsFieldPlugin,
};
use crate::path::{join_spec, walk, FsPath};
use crate::request::{fragment_start, get_module_name_from_request, module_name, parse_request, query_start, subpath};
use crate::state::{Context, ErrorView, Info, InfoView, Outcome, ResolveError, ResolveResult, State};

verus! {

/// The resolver's fixed configuration.
pub struct ResolveOptions {
    /// Tried in this order after a path that is not itself a file.
    pub extensions: Vec<String>,
    /// Names of the module-storage directories; an absolute one is searched alone.
    pub modules: Vec<String>,
    /// Active export conditions.
    pub condition_names: Vec<String>,
    /// Names of the entry files of a directory without extension (`index`).
    pub main_files: Vec<String>,
    /// Only `path + ext` may resolve, never the bare path.
    pub enforce_extension: bool,
    /// A directory is itself an answer.
    pub resolve_to_context: bool,
}

pub struct Resolver {
    pub options: ResolveOptions,
    pub fs: FileSystem,
}

/// `p` with `e` appended to its last component.
pub open spec fn with_ext(p: Seq<Seq<char>>, e: Seq<char>) -> Seq<Seq<char>> {
    if p.len() == 0 {
        seq![e]
    } else {
        p.drop_last().push(p.last() + e)
    }
}

pub open spec fn ext_hit(fs: FileSystem, p: Seq<Seq<char>>, exts: Seq<Seq<char>>, i: int) -> bool {
    0 <= i < exts.len() && fs.is_file_spec(with_ext(p, exts[i]))
}

pub open spec fn first_ext(fs: FileSystem, p: Seq<Seq<char>>, exts: Seq<Seq<char>>, i: int) -> bool {
    ext_hit(fs, p, exts, i) && forall|j: int| 0 <= j < i ==> !ext_hit(fs, p, exts, j)
}

/// The first `p + ext` that is a file, extensions taken in order.
pub open spec fn probe_ext(fs: FileSystem, p: Seq<Seq<char>>, exts: Seq<Seq<char>>) -> Option<
    Seq<Seq<char>>,
> {
    if exists|i: int| first_ext(fs, p, exts, i) {
        Some(with_ext(p, exts[choose|i: int| first_ext(fs, p, exts, i)]))
    } else {
        None
    }
}

/// A target that names a path (relative, absolute, or empty) rather than a module.
pub open spec fn path_like(t: Seq<char>) -> bool {
    t.len() == 0 || t[0] == '.' || t[0] == '/'
}

pub open spec fn names_directory(t: Seq<char>) -> bool {
    t.len() == 0 || t.last() == '/'
}

/// `st` succeeded on `p`, carrying the query and fragment of `info`.
pub open spec fn success_at(st: State, p: Seq<Seq<char>>, info: Info) -> bool {
    st matches State::Success(res) && res.path@ == p && res.query@ == info.request.query@
        && res.fragment@ == info.request.fragment@
}

impl Resolver {
    pub fn new(options: ResolveOptions, fs: FileSystem) -> (r: Resolver)
        ensures
            r.options == options,
            r.fs == fs,
    {
        Resolver { options, fs }
    }

    /// Resolves `request` (target, `?query`, `#fragment`) from the directory `dir`.
    pub fn resolve(&self, dir: &FsPath, request: &str) -> (r: State)
        ensures
            r@ == self.resolve_out(
                256,
                InfoView {
                    path: dir@,
                    target: request@.subrange(0, query_start(request@)),
                    query: request@.subrange(query_start(request@), fragment_start(request@)),
                    fragment: request@.subrange(fragment_start(request@), request@.len() as int),
                },
            ),
            ({
                let t = request@.subrange(0, query_start(request@));
                let q = request@.subrange(query_start(request@), fragment_start(request@));
                let f = request@.subrange(fragment_start(request@), request@.len() as int);
                &&& path_like(t) && !self.options.resolve_to_context ==> match self.file_at(dir@, t) {
                    Some(p) => r matches State::Success(res) && res.path@ == p,
                    None => !self.fs.is_dir_spec(join_spec(dir@, t)) ==> r is Failed,
                }
                &&& forall|k: nat, p: Seq<Seq<char>>|
                    k < 255 && !path_like(t) && #[trigger] self.found_up(dir@, t, q, f, k, p) ==> succeeds_at(
                        r,
                        p,
                    )
            }),
            !(r is Resolving),
            self.sound(r),
    {
        let info = Info { path: dir.duplicate(), request: parse_request(request) };
        let ghost v = info;
        let r = self._resolve(info, Context::new());
        proof {
            assert forall|k: nat, p: Seq<Seq<char>>|
                k < 255 && !path_like(v.request.target@) && #[trigger] self.found_up(
                    dir@,
                    v.request.target@,
                    v.request.query@,
                    v.request.fragment@,
                    k,
                    p,
                ) implies succeeds_at(r, p) by {
                assert(self.found_up(v.path@, v.request.target@, v.request.query@, v.request.fragment@, k, p));
            }
        }
        r
    }

    pub open spec fn exts(&self) -> Seq<Seq<char>> {
        view_texts(self.options.extensions@)
    }

    /// The file that `resolve_as_file` settles on, if any.
    pub open spec fn file_target(&self, info: Info) -> Option<Seq<Seq<char>>> {
        self.file_at(info.path@, info.request.target@)
    }

    /// The file that target `t`, read from `dir`, settles on: the path itself
    /// unless extensions are enforced, else the first path + extension.
    pub open spec fn file_at(&self, dir: Seq<Seq<char>>, t: Seq<char>) -> Option<Seq<Seq<char>>> {
        if names_directory(t) {
            None
        } else if !self.options.enforce_extension && self.fs.is_file_spec(join_spec(dir, t)) {
            Some(join_spec(dir, t))
        } else {
            probe_ext(self.fs, join_spec(dir, t), self.exts())
        }
    }

    /// Where the storage directory `nm` exists and the request's module is either
    /// no directory in it or a directory that no manifest governs, the file that
    /// the request names inside `nm`.
    pub open spec fn module_file(&self, nm: Seq<Seq<char>>, t: Seq<char>) -> Option<Seq<Seq<char>>> {
        let pd = join_spec(nm, module_name(t));
        if self.fs.is_dir_spec(nm) && !(self.fs.pkg_of(nm) is Broken) && !self.fs.is_dir_spec(pd) {
            self.file_at(nm, t)
        } else if self.fs.is_dir_spec(nm) && !(self.fs.pkg_of(nm) is Broken) && self.fs.pkg_of(pd)
            is NotFound && !self.options.resolve_to_context {
            self.file_at(nm, t)
        } else {
            None
        }
    }

    /// The manifest that governs `nm` is that of the package in `dir`, with an
    /// exports map, and `t` asks for a subpath of that package by its own name.
    pub open spec fn self_export(&self, nm: Seq<Seq<char>>, dir: Seq<Seq<char>>, t: Seq<char>) -> bool {
        match self.fs.pkg_of(nm) {
            PkgLookup::Found(k) => {
                &&& self.fs.manifests@[k].dir@ == dir
                &&& self.fs.manifests@[k].exports is Some
                &&& subpath(t) is Some
                &&& match self.fs.manifests@[k].name {
                    Some(n) => n@ == module_name(t),
                    None => false,
                }
            },
            _ => false,
        }
    }

    /// The manifest that governs `nm` is that of the package in `dir`, and the
    /// request `t` names that package.
    pub open spec fn self_ref(&self, nm: Seq<Seq<char>>, dir: Seq<Seq<char>>, t: Seq<char>) -> bool {
        match self.fs.pkg_of(nm) {
            PkgLookup::Found(k) => self.fs.manifests@[k].dir@ == dir && match self.fs.manifests@[k].name {
                Some(n) => n@ == module_name(t),
                None => false,
            },
            _ => false,
        }
    }

    /// For a self-reference from `dir`, the file that the package's first mapped
    /// target names.
    pub open spec fn self_ref_file(
        &self,
        nm: Seq<Seq<char>>,
        dir: Seq<Seq<char>>,
        t: Seq<char>,
        q: Seq<char>,
        f: Seq<char>,
    ) -> Option<Seq<Seq<char>>> {
        match self.fs.pkg_of(nm) {
            PkgLookup::Found(k) => if self.self_ref(nm, dir, t) {
                first_export_file(*self, self.fs.manifests@[k], dir, t, q, f)
            } else {
                None
            },
            _ => None,
        }
    }

    /// What the first storage directory, read from `d`, gives for the request:
    /// a file directly inside it, or a self-reference through the exports map.
    pub open spec fn level_hit(&self, d: Seq<Seq<char>>, t: Seq<char>, q: Seq<char>, f: Seq<char>) -> Option<
        Seq<Seq<char>>,
    > {
        let nm = join_spec(d, self.options.modules@[0]@);
        if self.module_file(nm, t) is Some {
            self.module_file(nm, t)
        } else if !self.fs.is_dir_spec(nm) {
            self.self_ref_file(nm, d, t, q, f)
        } else {
            None
        }
    }

    /// The directory whose unreadable manifest governs `p`.
    pub open spec fn broken_dir(&self, p: Seq<Seq<char>>) -> Seq<Seq<char>> {
        match self.fs.pkg_of(p) {
            PkgLookup::Broken(j) => p.subrange(0, j),
            _ => p,
        }
    }

    /// What `resolve_as_file` gives for `iv`.
    pub open spec fn file_out(&self, iv: InfoView) -> Outcome {
        match self.file_at(iv.path, iv.target) {
            Some(p) => Outcome::Success(p, iv.query, iv.fragment),
            None => Outcome::Resolving(iv),
        }
    }

    /// What `resolve_as_context` gives for `iv`.
    pub open spec fn context_out(&self, iv: InfoView) -> Outcome {
        let d = join_spec(iv.path, iv.target);
        if !self.options.resolve_to_context {
            Outcome::Resolving(iv)
        } else if self.fs.is_dir_spec(d) {
            Outcome::Success(d, Seq::empty(), Seq::empty())
        } else {
            Outcome::Failed(iv)
        }
    }

    /// The entry files of the directory that `iv` names, tried from the `i`-th on.
    pub open spec fn entries_from(&self, iv: InfoView, i: int) -> Outcome
        decreases self.options.main_files@.len() - i,
    {
        if i < 0 || i >= self.options.main_files@.len() {
            Outcome::Failed(iv)
        } else {
            match self.entry_file(join_spec(iv.path, iv.target), i) {
                Some(p) => Outcome::Success(p, iv.query, iv.fragment),
                None => self.entries_from(iv, i + 1),
            }
        }
    }

    /// The manifest `pkg` declares the name `name`.
    pub open spec fn declares(pkg: PkgInfo, name: Seq<char>) -> bool {
        match pkg.name {
            Some(n) => n@ == name,
            None => false,
        }
    }

    /// What a full resolution of `iv` gives with `fuel` nested resolutions left.
    pub open spec fn resolve_out(&self, fuel: nat, iv: InfoView) -> Outcome
        decreases fuel, 0nat, 0int,
    {
        if fuel == 0 {
            Outcome::Error(ErrorView::TooDeep)
        } else if path_like(iv.target) {
            let s = match self.context_out(iv) {
                Outcome::Resolving(j) => self.file_out(j),
                o => o,
            };
            match s {
                Outcome::Resolving(j) => self.dir_out((fuel - 1) as nat, j),
                o => o,
            }
        } else {
            self.modules_from((fuel - 1) as nat, iv, 0)
        }
    }

    /// What the `main` entry of `pkg` gives for the directory that `iv` names.
    pub open spec fn main_field_out(&self, fuel: nat, pkg: PkgInfo, iv: InfoView) -> Outcome
        decreases fuel, 1nat, 0int,
    {
        let d = join_spec(iv.path, iv.target);
        match pkg.main {
            Some(m) => if pkg.dir@ == d {
                let s = self.resolve_out(
                    fuel,
                    InfoView { path: join_spec(d, m@), target: seq!['.'], query: iv.query, fragment: iv.fragment },
                );
                if s.done() {
                    s
                } else {
                    Outcome::Resolving(iv)
                }
            } else {
                Outcome::Resolving(iv)
            },
            None => Outcome::Resolving(iv),
        }
    }

    /// The mapped targets `l` of `pkg`, tried from the `i`-th on.
    pub open spec fn exports_from(
        &self,
        fuel: nat,
        pkg: PkgInfo,
        iv: InfoView,
        l: Seq<Seq<char>>,
        i: int,
    ) -> Outcome
        decreases fuel, 1nat, l.len() - i,
    {
        if i < 0 || i >= l.len() {
            Outcome::Error(ErrorView::NotExported(pkg.dir@, iv.target))
        } else if !valid_target(item_target(l[i])) {
            Outcome::Error(ErrorView::InvalidTarget(pkg.dir@, item_target(l[i])))
        } else {
            let s = self.resolve_out(
                fuel,
                InfoView {
                    path: pkg.dir@,
                    target: item_target(l[i]),
                    query: l[i].subrange(query_start(l[i]), fragment_start(l[i])),
                    fragment: l[i].subrange(fragment_start(l[i]), l[i].len() as int),
                },
            );
            if s.done() {
                s
            } else {
                self.exports_from(fuel, pkg, iv, l, i + 1)
            }
        }
    }

    /// What the exports map of `pkg` gives for `iv`.
    pub open spec fn exports_out(&self, fuel: nat, pkg: PkgInfo, iv: InfoView) -> Outcome
        decreases fuel, 2nat, 0int,
    {
        match pkg.exports {
            None => Outcome::Resolving(iv),
            Some(m) => match export_key_for(*self, pkg, iv.path, iv.target, iv.query, iv.fragment) {
                None => Outcome::Resolving(iv),
                Some(k) => match field_process_spec(m, k, view_texts(self.options.condition_names@)) {
                    None => Outcome::Error(ErrorView::NotExported(pkg.dir@, iv.target)),
                    Some(l) => self.exports_from(fuel, pkg, iv, l, 0),
                },
            },
        }
    }

    /// What `resolve_as_dir` gives for `iv`: the `main` entry first, the entry
    /// files only where that is inconclusive.
    pub open spec fn dir_out(&self, fuel: nat, iv: InfoView) -> Outcome
        decreases fuel, 3nat, 0int,
    {
        let d = join_spec(iv.path, iv.target);
        if !self.fs.is_dir_spec(d) {
            Outcome::Failed(iv)
        } else if self.fs.pkg_of(d) is Broken {
            Outcome::Error(ErrorView::BrokenManifest(self.broken_dir(d)))
        } else {
            let iv2 = InfoView { path: d, target: seq!['.'], query: iv.query, fragment: iv.fragment };
            let s = match self.fs.pkg_of(d) {
                PkgLookup::Found(k) => self.main_field_out(fuel, self.fs.manifests@[k], iv2),
                _ => Outcome::Resolving(iv2),
            };
            match s {
                Outcome::Resolving(j) => self.entries_from(j, 0),
                o => o,
            }
        }
    }

    /// What the storage directory `nm` gives for the request's module: a file in
    /// it, or the package directory through exports, `main`, and the primitives.
    pub open spec fn node_out(&self, fuel: nat, iv: InfoView, nm: Seq<Seq<char>>) -> Outcome
        decreases fuel, 4nat, 0int,
    {
        let name = module_name(iv.target);
        let pd = join_spec(nm, name);
        let miv = InfoView { path: nm, target: iv.target, query: iv.query, fragment: iv.fragment };
        if !self.fs.is_dir_spec(pd) {
            let s = self.file_out(miv);
            if s.done() {
                s
            } else {
                Outcome::Resolving(iv)
            }
        } else if self.fs.pkg_of(pd) is Broken {
            Outcome::Error(ErrorView::BrokenManifest(self.broken_dir(pd)))
        } else {
            let s = match self.fs.pkg_of(pd) {
                PkgLookup::Found(k) => {
                    let p = self.fs.manifests@[k];
                    let s1 = if p.dir@ != iv.path || Self::declares(p, name) {
                        self.exports_out(fuel, p, miv)
                    } else {
                        Outcome::Resolving(miv)
                    };
                    match s1 {
                        Outcome::Resolving(n) => self.main_field_out(
                            fuel,
                            p,
                            InfoView {
                                path: join_spec(n.path, n.target),
                                target: seq!['.'],
                                query: n.query,
                                fragment: n.fragment,
                            },
                        ),
                        o => o,
                    }
                },
                _ => Outcome::Resolving(miv),
            };
            let s = match s {
                Outcome::Resolving(n) => self.context_out(n),
                o => o,
            };
            let s = match s {
                Outcome::Resolving(n) => self.file_out(n),
                o => o,
            };
            let s = match s {
                Outcome::Resolving(n) => self.dir_out(fuel, n),
                o => o,
            };
            match s {
                Outcome::Failed(n) => Outcome::Resolving(n),
                o => o,
            }
        }
    }

    /// What one candidate storage directory `nm`, reached from `orig`, gives.
    pub open spec fn cand_out(
        &self,
        fuel: nat,
        iv: InfoView,
        orig: Seq<Seq<char>>,
        nm: Seq<Seq<char>>,
    ) -> Outcome
        decreases fuel, 5nat, 0int,
    {
        if self.fs.pkg_of(nm) is Broken {
            Outcome::Error(ErrorView::BrokenManifest(self.broken_dir(nm)))
        } else if self.fs.is_dir_spec(nm) {
            match self.node_out(fuel, iv, nm) {
                Outcome::Resolving(j) => match self.fs.pkg_of(nm) {
                    PkgLookup::Found(k) => if Self::declares(self.fs.manifests@[k], module_name(j.target)) {
                        self.exports_out(fuel, self.fs.manifests@[k], j)
                    } else {
                        Outcome::Resolving(j)
                    },
                    _ => Outcome::Resolving(j),
                },
                o => o,
            }
        } else {
            match self.fs.pkg_of(nm) {
                PkgLookup::Found(k) => if self.fs.manifests@[k].dir@ == orig && Self::declares(
                    self.fs.manifests@[k],
                    module_name(iv.target),
                ) {
                    self.exports_out(fuel, self.fs.manifests@[k], iv)
                } else {
                    Outcome::Resolving(iv)
                },
                _ => Outcome::Resolving(iv),
            }
        }
    }

    /// The storage names tried from the `i`-th on: the first finished outcome
    /// wins; a relative name that gives nothing is retried from the parent.
    pub open spec fn modules_from(&self, fuel: nat, iv: InfoView, i: int) -> Outcome
        decreases fuel, 6nat, self.options.modules@.len() - i,
    {
        if i < 0 || i >= self.options.modules@.len() {
            Outcome::Failed(iv)
        } else {
            let m = self.options.modules@[i]@;
            let s = match self.cand_out(fuel, iv, iv.path, join_spec(iv.path, m)) {
                Outcome::Resolving(n) => if m.len() > 0 && m[0] == '/' {
                    Outcome::Resolving(n)
                } else if iv.path.len() > 0 {
                    self.resolve_out(
                        fuel,
                        InfoView {
                            path: iv.path.drop_last(),
                            target: n.target,
                            query: n.query,
                            fragment: n.fragment,
                        },
                    )
                } else {
                    Outcome::Resolving(n)
                },
                o => o,
            };
            if s.done() {
                s
            } else {
                self.modules_from(fuel, iv, i + 1)
            }
        }
    }

    /// The manifest that governs `nm` declares the request's module name.
    pub open spec fn names_self(&self, nm: Seq<Seq<char>>, t: Seq<char>) -> bool {
        match self.fs.pkg_of(nm) {
            PkgLookup::Found(k) => match self.fs.manifests@[k].name {
                Some(n) => n@ == module_name(t),
                None => false,
            },
            _ => false,
        }
    }

    /// The candidate storage directory `nm`, reached from `dir`, gives nothing for
    /// `t`: no package directory, no file, and no self-reference.
    pub open spec fn quiet(&self, nm: Seq<Seq<char>>, dir: Seq<Seq<char>>, t: Seq<char>) -> bool {
        &&& !(self.fs.pkg_of(nm) is Broken)
        &&& if self.fs.is_dir_spec(nm) {
            &&& !self.fs.is_dir_spec(join_spec(nm, module_name(t)))
            &&& self.file_at(nm, t) is None
            &&& !self.names_self(nm, t)
        } else {
            !self.self_ref(nm, dir, t)
        }
    }

    /// The `i`-th storage name is absolute and its one directory gives nothing.
    pub open spec fn quiet_absolute(&self, i: int, dir: Seq<Seq<char>>, t: Seq<char>) -> bool {
        let m = self.options.modules@[i]@;
        m.len() > 0 && m[0] == '/' && self.quiet(join_spec(dir, m), dir, t)
    }

    /// Every storage name before the `j`-th is absolute and gives nothing.
    pub open spec fn quiet_before(&self, j: int, dir: Seq<Seq<char>>, t: Seq<char>) -> bool {
        forall|i: int| 0 <= i < j ==> #[trigger] self.quiet_absolute(i, dir, t)
    }

    /// Where the request's module is a package directory inside `nm` whose manifest
    /// has an exports map that applies (the package lies outside the requesting
    /// directory, or the request names it), that manifest's index.
    pub open spec fn package_exports(&self, nm: Seq<Seq<char>>, info: Info) -> Option<int> {
        let pd = join_spec(nm, module_name(info.request.target@));
        if !self.fs.is_dir_spec(pd) {
            None
        } else {
            match self.fs.pkg_of(pd) {
                PkgLookup::Found(k) => if self.fs.manifests@[k].exports is Some && (
                self.fs.manifests@[k].dir@ != info.path@ || match self.fs.manifests@[k].name {
                    Some(n) => n@ == module_name(info.request.target@),
                    None => false,
                }) {
                    Some(k)
                } else {
                    None
                },
                _ => None,
            }
        }
    }

    /// Read from `dir`, the first storage directory offers nothing to `t`: it is
    /// no directory, its manifest is readable, and no self-reference applies.
    pub open spec fn passes_by(&self, dir: Seq<Seq<char>>, t: Seq<char>) -> bool {
        let nm = join_spec(dir, self.options.modules@[0]@);
        !self.fs.is_dir_spec(nm) && !(self.fs.pkg_of(nm) is Broken) && !self.self_ref(nm, dir, t)
    }

    /// Climbing from `dir` through a relative first storage directory, the first
    /// `k` levels offer nothing and the `k`-th ancestor's level gives `p`.
    pub open spec fn found_up(
        &self,
        dir: Seq<Seq<char>>,
        t: Seq<char>,
        q: Seq<char>,
        f: Seq<char>,
        k: nat,
        p: Seq<Seq<char>>,
    ) -> bool {
        &&& self.options.modules@.len() > 0
        &&& !(self.options.modules@[0]@.len() > 0 && self.options.modules@[0]@[0] == '/')
        &&& k <= dir.len()
        &&& forall|m: int| dir.len() - k < m <= dir.len() ==> #[trigger] self.passes_by(dir.subrange(0, m), t)
        &&& self.level_hit(dir.subrange(0, dir.len() - k), t, q, f) == Some(p)
    }

    /// Where `pkg` is the manifest of the directory `d` and names a `main` entry,
    /// the file that entry settles on.
    pub open spec fn main_file_of(&self, pkg: PkgInfo, d: Seq<Seq<char>>) -> Option<Seq<Seq<char>>> {
        match pkg.main {
            Some(m) => if pkg.dir@ == d {
                self.file_at(join_spec(d, m@), seq!['.'])
            } else {
                None
            },
            None => None,
        }
    }

    /// The file that the `i`-th entry-file name gives inside `dir`.
    pub open spec fn entry_file(&self, dir: Seq<Seq<char>>, i: int) -> Option<Seq<Seq<char>>> {
        self.file_at(dir, self.options.main_files@[i]@)
    }

    /// `r` is what probing the entry-file names inside `dir` in order gives.
    pub open spec fn entry_outcome(&self, dir: Seq<Seq<char>>, info: Info, r: State) -> bool {
        match r {
            State::Success(res) => exists|i: int|
                0 <= i < self.options.main_files@.len() && self.entry_file(dir, i) == Some(res.path@)
                    && (forall|j: int| 0 <= j < i ==> self.entry_file(dir, j) is None)
                    && res.query@ == info.request.query@ && res.fragment@ == info.request.fragment@,
            State::Failed(_) => forall|i: int|
                0 <= i < self.options.main_files@.len() ==> self.entry_file(dir, i) is None,
            _ => false,
        }
    }

    /// Every success names a file, or a directory when resolving to a context;
    /// every rejected export target breaks the rules for export targets.
    pub open spec fn sound(&self, st: State) -> bool {
        &&& st matches State::Success(res) ==> (self.fs.is_file_spec(res.path@) || (
        self.options.resolve_to_context && self.fs.is_dir_spec(res.path@)))
        &&& st matches State::Error(ResolveError::InvalidTarget { target, .. }) ==> !valid_target(
            target@,
        )
    }

    /// `path` with `ext` appended to its last component.
    pub fn append_ext_for_path(path: &FsPath, ext: &str) -> (r: FsPath)
        ensures
            r@ == with_ext(path@, ext@),
    {
        let n = path.len();
        if n == 0 {
            let mut r = FsPath::root();
            r.push_seg(String::from_str(ext));
            assert(r@ =~= seq![ext@]);
            r
        } else {
            let mut r = path.prefix(n - 1);
            assert(path@.subrange(0, n - 1) =~= path@.drop_last());
            let last = path.segs[n - 1].clone().concat(ext);
            r.push_seg(last);
            assert(r@ =~= with_ext(path@, ext@));
            r
        }
    }

    fn resolve_file_with_ext(&self, path: FsPath, info: Info) -> (r: State)
        ensures
            match probe_ext(self.fs, path@, self.exts()) {
                Some(p) => success_at(r, p, info),
                None => r == State::Resolving(info),
            },
    {
        let mut i: usize = 0;
        while i < self.options.extensions.len()
            invariant
                0 <= i <= self.exts().len(),
                self.exts().len() == self.options.extensions@.len(),
                forall|j: int| 0 <= j < i ==> !ext_hit(self.fs, path@, self.exts(), j),
            decreases self.exts().len() - i,
        {
            let p = Self::append_ext_for_path(&path, self.options.extensions[i].as_str());
            if self.fs.is_file(&p) {
                proof {
                    assert(first_ext(self.fs, path@, self.exts(), i as int));
                    let w = choose|w: int| first_ext(self.fs, path@, self.exts(), w);
                    assert(first_ext(self.fs, path@, self.exts(), w));
                    if w < i {
                    } else if w > i {
                        assert(!ext_hit(self.fs, path@, self.exts(), i as int));
                    }
                }
                return State::Success(
                    ResolveResult { path: p, query: info.request.query, fragment: info.request.fragment },
                );
            }
            i = i + 1;
        }
        State::Resolving(info)
    }

    /// Accepts the named directory itself, when resolving to a context.
    pub fn resolve_as_context(&self, info: Info) -> (r: State)
        ensures
            r@ == self.context_out(info@),
            !self.options.resolve_to_context ==> r == State::Resolving(info),
            self.options.resolve_to_context && self.fs.is_dir_spec(info.resolved()) ==> (
            r matches State::Success(res) && res.path@ == info.resolved() && res.query@.len() == 0
                && res.fragment@.len() == 0),
            self.options.resolve_to_context && !self.fs.is_dir_spec(info.resolved()) ==> r
                == State::Failed(info),
            self.sound(r),
    {
        if !self.options.resolve_to_context {
            return State::Resolving(info);
        }
        let path = info.to_resolved_path();
        if self.fs.is_dir(&path) {
            State::Success(ResolveResult { path, query: String::new(), fragment: String::new() })
        } else {
            State::Failed(info)
        }
    }

    /// Resolves the named path as a file: the path itself unless extensions are
    /// enforced, then the path with each extension in turn.
    pub fn resolve_as_file(&self, info: Info) -> (r: State)
        ensures
            r@ == self.file_out(info@),
            match self.file_target(info) {
                Some(p) => success_at(r, p, info),
                None => r == State::Resolving(info),
            },
            self.sound(r),
    {
        if info.request.is_directory() {
            return State::Resolving(info);
        }
        let path = info.to_resolved_path();
        if self.options.enforce_extension {
            return self.resolve_file_with_ext(path, info);
        }
        if self.fs.is_file(&path) {
            State::Success(
                ResolveResult { path, query: info.request.query, fragment: info.request.fragment },
            )
        } else {
            self.resolve_file_with_ext(path, info)
        }
    }

    /// Follows the manifest's `main` entry of the directory that `info` names.
    fn main_field(&self, pkg_info: &PkgInfo, info: Info, context: Context) -> (r: State)
        ensures
            r@ == self.main_field_out(context.depth as nat, *pkg_info, info@),
            self.sound(r),
            r.finished() || r == State::Resolving(info),
            pkg_info.main is None || pkg_info.dir@ != info.resolved() ==> r == State::Resolving(info),
            context.depth > 0 && !self.options.resolve_to_context ==> (self.main_file_of(
                *pkg_info,
                info.resolved(),
            ) matches Some(p) ==> success_at(r, p, info)),
        decreases context.depth, 1nat,
    {
        let dir = info.to_resolved_path();
        match &pkg_info.main {
            Some(m) => {
                if !pkg_info.dir.eq_path(&dir) {
                    return State::Resolving(info);
                }
                proof {
                    reveal_strlit(".");
                }
                let next = Info { path: dir.join(m.as_str()), request: info.request.with_target(".") };
                assert(next.request.target@ == seq!['.']);
                assert(path_like(next.request.target@));
                assert(next.path@ == join_spec(info.resolved(), m@));
                let state = self._resolve(next, context);
                if state.is_finished() {
                    state
                } else {
                    State::Resolving(info)
                }
            },
            None => State::Resolving(info),
        }
    }

    /// Tries the configured entry files (`index`, ...) inside the named directory.
    fn main_file(&self, info: Info) -> (r: State)
        ensures
            r@ == self.entries_from(info@, 0),
            self.sound(r),
            r is Success || r == State::Failed(info),
            self.entry_outcome(info.resolved(), info, r),
    {
        let dir = info.to_resolved_path();
        let mut i: usize = 0;
        while i < self.options.main_files.len()
            invariant
                0 <= i <= self.options.main_files@.len(),
                dir@ == info.resolved(),
                forall|j: int| 0 <= j < i ==> self.entry_file(dir@, j) is None,
                self.entries_from(info@, 0) == self.entries_from(info@, i as int),
            decreases self.options.main_files@.len() - i,
        {
            let next = Info {
                path: dir.duplicate(),
                request: info.request.with_target(self.options.main_files[i].as_str()),
            };
            let state = self.resolve_as_file(next);
            if state.is_finished() {
                assert(self.entry_file(dir@, i as int) is Some);
                return state;
            }
            i = i + 1;
        }
        State::Failed(info)
    }

    /// Resolves the named directory through its manifest's `main`, then its entry files.
    pub fn resolve_as_dir(&self, info: Info, context: Context) -> (r: State)
        ensures
            r@ == self.dir_out(context.depth as nat, info@),
            !self.fs.is_dir_spec(info.resolved()) ==> r == State::Failed(info),
            self.fs.is_dir_spec(info.resolved()) && self.fs.pkg_of(info.resolved()) is Broken
                ==> (r matches State::Error(ResolveError::BrokenManifest { .. })),
            self.fs.is_dir_spec(info.resolved()) && (self.fs.pkg_of(info.resolved()) is NotFound
                || (self.fs.pkg_of(info.resolved()) matches PkgLookup::Found(k) && (
            self.fs.manifests@[k].main is None || self.fs.manifests@[k].dir@ != info.resolved())))
                ==> self.entry_outcome(info.resolved(), info, r),
            self.fs.is_dir_spec(info.resolved()) && !(self.fs.pkg_of(info.resolved()) is Broken) ==> (
            r.finished() || self.entry_outcome(info.resolved(), info, r)),
            self.fs.is_dir_spec(info.resolved()) && context.depth > 0 && !self.options.resolve_to_context
                ==> (self.fs.pkg_of(info.resolved()) matches PkgLookup::Found(k) ==> (self.main_file_of(
                self.fs.manifests@[k],
                info.resolved(),
            ) matches Some(p) ==> success_at(r, p, info))),
            !(r is Resolving),
            self.sound(r),
        decreases context.depth, 2nat,
    {
        let dir = info.to_resolved_path();
        if !self.fs.is_dir(&dir) {
            return State::Failed(info);
        }
        let pkg = match self.fs.pkg_info(&dir) {
            Ok(p) => p,
            Err(q) => return State::Error(ResolveError::BrokenManifest { manifest_dir: q }),
        };
        let ghost original = info;
        let ghost dir_view = dir@;
        proof {
            reveal_strlit(".");
        }
        let info = info.with_path(dir).with_target(".");
        proof {
            assert(info.path@ == dir_view);
            assert(info.request.target@ == seq!['.']);
            let d = original.resolved();
            assert(seq!['.'].drop_first() =~= Seq::<char>::empty());
            assert(Seq::<char>::empty().push('.') =~= seq!['.']);
            assert(walk(d, seq!['.'], Seq::empty()) == d);
            assert(walk(d, Seq::empty(), seq!['.']) == walk(d, seq!['.'], Seq::empty()));
            assert(join_spec(d, seq!['.']) == d);
            assert(info.resolved() == d);
        }
        let state = match pkg {
            Some(k) => self.main_field(&self.fs.manifests[k], info, context),
            None => State::Resolving(info),
        };
        match state {
            State::Resolving(info) => self.main_file(info),
            other => other,
        }
    }

    /// Resolves `info` from the start: a path-like target as a context, file or
    /// directory; a bare module name through the module-storage directories.
    pub fn _resolve(&self, info: Info, context: Context) -> (r: State)
        ensures
            r@ == self.resolve_out(context.depth as nat, info@),
            context.depth == 0 ==> r == State::Error(ResolveError::TooDeep),
            context.depth > 0 && path_like(info.request.target@) && !self.options.resolve_to_context
                ==> match self.file_target(info) {
                Some(p) => success_at(r, p, info),
                None => !self.fs.is_dir_spec(info.resolved()) ==> r == State::Failed(info),
            },
            context.depth > 0 && !path_like(info.request.target@) && self.options.modules@.len() > 0
                ==> (self.module_file(
                join_spec(info.path@, self.options.modules@[0]@),
                info.request.target@,
            ) matches Some(p) ==> success_at(r, p, info)),
            forall|k: nat, p: Seq<Seq<char>>|
                context.depth > k + 1 && !path_like(info.request.target@) && #[trigger] self.found_up(
                    info.path@,
                    info.request.target@,
                    info.request.query@,
                    info.request.fragment@,
                    k,
                    p,
                ) ==> succeeds_at(r, p),
            context.depth > 0 && path_like(info.request.target@) && self.options.resolve_to_context
                && self.fs.is_dir_spec(info.resolved()) ==> (r matches State::Success(res)
                && res.path@ == info.resolved()),
            !(r is Resolving),
            self.sound(r),
        decreases context.depth, 0nat,
    {
        if context.depth == 0 {
            return State::Error(ResolveError::TooDeep);
        }
        let inner = Context { depth: context.depth - 1 };
        let t = info.request.target.as_str();
        let n = t.unicode_len();
        let is_path = n == 0 || t.get_char(0) == '.' || t.get_char(0) == '/';
        if is_path {
            let state = match self.resolve_as_context(info) {
                State::Resolving(info) => self.resolve_as_file(info),
                other => other,
            };
            match state {
                State::Resolving(info) => self.resolve_as_dir(info, inner),
                other => other,
            }
        } else {
            self.resolve_as_modules(info, inner)
        }
    }

    /// Searches the module-storage directories in order; a relative one is also
    /// searched in every ancestor of the starting directory.
    pub fn resolve_as_modules(&self, info: Info, context: Context) -> (r: State)
        ensures
            r@ == self.modules_from(context.depth as nat, info@, 0),
            !(r is Resolving),
            r is Failed ==> r == State::Failed(info),
            self.quiet_before(self.options.modules@.len() as int, info.path@, info.request.target@)
                ==> r == State::Failed(info),
            forall|j: int|
                0 <= j < self.options.modules@.len() && self.quiet_before(
                    j,
                    info.path@,
                    info.request.target@,
                ) && #[trigger] self.module_file(
                    join_spec(info.path@, self.options.modules@[j]@),
                    info.request.target@,
                ) is Some ==> success_at(
                    r,
                    self.module_file(join_spec(info.path@, self.options.modules@[j]@), info.request.target@)->0,
                    info,
                ),
            self.options.modules@.len() > 0 ==> (self.module_file(
                join_spec(info.path@, self.options.modules@[0]@),
                info.request.target@,
            ) matches Some(p) ==> success_at(r, p, info)),
            forall|k: nat, p: Seq<Seq<char>>|
                context.depth > k && !path_like(info.request.target@) && #[trigger] self.found_up(
                    info.path@,
                    info.request.target@,
                    info.request.query@,
                    info.request.fragment@,
                    k,
                    p,
                ) ==> succeeds_at(r, p),
            self.sound(r),
        decreases context.depth, 5nat,
    {
        let original_dir = info.path.duplicate();
        let mut i: usize = 0;
        while i < self.options.modules.len()
            invariant
                0 <= i <= self.options.modules@.len(),
                original_dir@ == info.path@,
                self.modules_from(context.depth as nat, info@, 0) == self.modules_from(
                    context.depth as nat,
                    info@,
                    i as int,
                ),
                forall|j: int|
                    0 <= j < i && self.quiet_before(j, info.path@, info.request.target@) ==> #[trigger] self.module_file(
                        join_spec(info.path@, self.options.modules@[j]@),
                        info.request.target@,
                    ) is None,
                !self.quiet_before(i as int, info.path@, info.request.target@) ==> !self.quiet_before(
                    self.options.modules@.len() as int,
                    info.path@,
                    info.request.target@,
                ),
                i > 0 ==> self.module_file(
                    join_spec(info.path@, self.options.modules@[0]@),
                    info.request.target@,
                ) is None,
                i > 0 ==> forall|k: nat, p: Seq<Seq<char>>|
                    context.depth > k && !path_like(info.request.target@) && #[trigger] self.found_up(
                        info.path@,
                        info.request.target@,
                        info.request.query@,
                        info.request.fragment@,
                        k,
                        p,
                    ) ==> false,
            decreases self.options.modules@.len() - i,
        {
            let module = self.options.modules[i].as_str();
            let absolute = module.unicode_len() > 0 && module.get_char(0) == '/';
            let node_modules_path = original_dir.join(module);
            let dup = info.duplicate();
            let ghost dup_view = dup;
            let first = self._resolve_as_modules(dup, &original_dir, &node_modules_path, context);
            let ghost first_view = first;
            let state = match first {
                State::Resolving(next) => {
                    if absolute {
                        State::Resolving(next)
                    } else {
                        match original_dir.parent() {
                            Some(parent) => {
                                let ghost parent_view = parent@;
                                let up = next.with_path(parent);
                                let ghost up_view = up;
                                let r = self._resolve(up, context);
                                proof {
                                    if i == 0 {
                                        assert forall|k: nat, p: Seq<Seq<char>>|
                                            context.depth > k && k > 0 && !path_like(
                                                info.request.target@,
                                            ) && #[trigger] self.found_up(
                                                info.path@,
                                                info.request.target@,
                                                info.request.query@,
                                                info.request.fragment@,
                                                k,
                                                p,
                                            ) implies succeeds_at(r, p) by {
                                            let d = info.path@;
                                            assert(d.subrange(0, d.len() as int) =~= d);
                                            assert(self.passes_by(d.subrange(0, d.len() as int), info.request.target@));
                                            assert(first_view == State::Resolving(dup_view));
                                            assert(parent_view =~= d.subrange(0, d.len() - 1));
                                            assert forall|m: int|
                                                parent_view.len() - (k - 1) < m <= parent_view.len()
                                                implies #[trigger] self.passes_by(parent_view.subrange(0, m), info.request.target@) by {
                                                assert(parent_view.subrange(0, m) =~= d.subrange(0, m));
                                                assert(self.passes_by(d.subrange(0, m), info.request.target@));
                                            }
                                            assert(parent_view.subrange(0, parent_view.len() - (k - 1))
                                                =~= d.subrange(0, d.len() - k));
                                            assert(up_view.path@ == parent_view);
                                            assert(up_view.request.target@ == info.request.target@);
                                            assert(self.found_up(up_view.path@, up_view.request.target@, up_view.request.query@, up_view.request.fragment@, (k - 1) as nat, p));
                                            assert(succeeds_at(r, p));
                                        }
                                    }
                                }
                                r
                            },
                            None => State::Resolving(next),
                        }
                    }
                },
                other => other,
            };
            proof {
                if i == 0 {
                    assert forall|k: nat, p: Seq<Seq<char>>|
                        context.depth > k && !path_like(info.request.target@) && #[trigger] self.found_up(
                            info.path@,
                            info.request.target@,
                            info.request.query@,
                            info.request.fragment@,
                            k,
                            p,
                        ) implies succeeds_at(state, p) by {
                        let d = info.path@;
                        assert(d.subrange(0, d.len() - 0) =~= d);
                        if k > 0 {
                            assert(self.passes_by(d.subrange(0, d.len() as int), info.request.target@));
                            assert(first_view == State::Resolving(dup_view));
                        }
                    }
                }
            }
            proof {
                let d = info.path@;
                let t = info.request.target@;
                let n = self.options.modules@.len() as int;
                let cand = join_spec(d, self.options.modules@[i as int]@);
                assert(module@ == self.options.modules@[i as int]@);
                if self.quiet_absolute(i as int, d, t) {
                    assert(first_view == State::Resolving(dup_view));
                    assert(!state.finished());
                }
                if self.quiet_before(i as int, d, t) && self.module_file(cand, t) is Some {
                    assert(success_at(state, self.module_file(cand, t)->0, info));
                }
                if self.quiet_before(n, d, t) {
                    assert(self.quiet_absolute(i as int, d, t));
                }
                if state.finished() {
                    assert forall|j: int|
                        0 <= j < n && self.quiet_before(j, d, t) && #[trigger] self.module_file(
                            join_spec(d, self.options.modules@[j]@),
                            t,
                        ) is Some implies success_at(
                        state,
                        self.module_file(join_spec(d, self.options.modules@[j]@), t)->0,
                        info,
                    ) by {
                        if j > i {
                            assert(self.quiet_absolute(i as int, d, t));
                        }
                    }
                } else {
                    if !self.quiet_before(i + 1, d, t) && self.quiet_before(i as int, d, t) {
                        assert(!self.quiet_absolute(i as int, d, t)) by {
                            if self.quiet_absolute(i as int, d, t) {
                                assert forall|k: int| 0 <= k < i + 1 implies #[trigger] self.quiet_absolute(
                                    k,
                                    d,
                                    t,
                                ) by {}
                            }
                        }
                    }
                }
            }
            if state.is_finished() {
                return state;
            }
            i = i + 1;
        }
        State::Failed(info)
    }

    /// One candidate module-storage directory: descend into it where it exists;
    /// otherwise, sitting in the package's own directory, try a self-reference.
    fn _resolve_as_modules(
        &self,
        info: Info,
        original_dir: &FsPath,
        node_modules_path: &FsPath,
        context: Context,
    ) -> (r: State)
        ensures
            r@ == self.cand_out(context.depth as nat, info@, original_dir@, node_modules_path@),
            self.fs.pkg_of(node_modules_path@) is Broken ==> (r matches State::Error(ResolveError::BrokenManifest { .. })),
            !self.fs.is_dir_spec(node_modules_path@) && !(self.fs.pkg_of(node_modules_path@) is Broken)
                && !self.self_ref(node_modules_path@, original_dir@, info.request.target@) ==> r
                == State::Resolving(info),
            self.fs.is_dir_spec(node_modules_path@) && !(self.fs.pkg_of(node_modules_path@) is Broken)
                ==> (self.package_exports(node_modules_path@, info) matches Some(k) ==> (export_key_for(
                *self,
                self.fs.manifests@[k],
                node_modules_path@,
                info.request.target@,
                info.request.query@,
                info.request.fragment@,
            ) is Some ==> r.finished())),
            original_dir@ == info.path@ && self.quiet(node_modules_path@, original_dir@, info.request.target@)
                ==> r == State::Resolving(info),
            context.depth > 0 && original_dir@ == info.path@ && !self.fs.is_dir_spec(node_modules_path@)
                ==> (self.self_ref_file(
                node_modules_path@,
                info.path@,
                info.request.target@,
                info.request.query@,
                info.request.fragment@,
            ) matches Some(p) ==> succeeds_at(r, p)),
            !self.fs.is_dir_spec(node_modules_path@) && self.self_export(
                node_modules_path@,
                original_dir@,
                info.request.target@,
            ) ==> r.finished(),
            self.module_file(node_modules_path@, info.request.target@) matches Some(p) ==> success_at(
                r,
                p,
                info,
            ),
            self.sound(r),
        decreases context.depth, 4nat,
    {
        let pkg = match self.fs.pkg_info(node_modules_path) {
            Ok(p) => p,
            Err(q) => return State::Error(ResolveError::BrokenManifest { manifest_dir: q }),
        };
        if self.fs.is_dir(node_modules_path) {
            match self.resolve_node_modules(info, node_modules_path, context) {
                State::Resolving(info) => match pkg {
                    Some(k) => {
                        let pkg_info = &self.fs.manifests[k];
                        let name = get_module_name_from_request(info.request.target.as_str());
                        if is_resolve_self(pkg_info, name) {
                            ExportsFieldPlugin::new(pkg_info).apply(self, info, context)
                        } else {
                            State::Resolving(info)
                        }
                    },
                    None => State::Resolving(info),
                },
                other => other,
            }
        } else {
            match pkg {
                Some(k) => {
                    let pkg_info = &self.fs.manifests[k];
                    let name = get_module_name_from_request(info.request.target.as_str());
                    if pkg_info.dir.eq_path(original_dir) && is_resolve_self(pkg_info, name) {
                        ExportsFieldPlugin::new(pkg_info).apply(self, info, context)
                    } else {
                        State::Resolving(info)
                    }
                },
                None => State::Resolving(info),
            }
        }
    }

    /// Resolves the request's module inside one module-storage directory.
    fn resolve_node_modules(&self, info: Info, node_modules_path: &FsPath, context: Context) -> (r: State)
        ensures
            r@ == self.node_out(context.depth as nat, info@, node_modules_path@),
            !self.fs.is_dir_spec(join_spec(node_modules_path@, module_name(info.request.target@)))
                ==> match self.file_at(node_modules_path@, info.request.target@) {
                Some(p) => success_at(r, p, info),
                None => r == State::Resolving(info),
            },
            self.fs.is_dir_spec(join_spec(node_modules_path@, module_name(info.request.target@)))
                && self.fs.pkg_of(join_spec(node_modules_path@, module_name(info.request.target@)))
                is Broken ==> (r matches State::Error(ResolveError::BrokenManifest { .. })),
            self.package_exports(node_modules_path@, info) matches Some(k) ==> ({
                let pkg = self.fs.manifests@[k];
                let (nm, t, q, f) = (
                    node_modules_path@,
                    info.request.target@,
                    info.request.query@,
                    info.request.fragment@,
                );
                &&& export_key_for(*self, pkg, nm, t, q, f) is Some ==> r.finished()
                &&& export_key_for(*self, pkg, nm, t, q, f) is Some && export_list(*self, pkg, nm, t, q, f)
                    is None ==> r is Error
                &&& context.depth > 0 ==> (first_export_file(*self, pkg, nm, t, q, f) matches Some(p)
                    ==> succeeds_at(r, p))
            }),
            self.fs.is_dir_spec(join_spec(node_modules_path@, module_name(info.request.target@)))
                && self.fs.pkg_of(join_spec(node_modules_path@, module_name(info.request.target@)))
                is NotFound && !self.options.resolve_to_context ==> (self.file_at(
                node_modules_path@,
                info.request.target@,
            ) matches Some(p) ==> success_at(r, p, info)),
            self.sound(r),
            !(r is Failed),
        decreases context.depth, 3nat,
    {
        let name = get_module_name_from_request(info.request.target.as_str());
        let package_dir = node_modules_path.join(name);
        let module_info = Info { path: node_modules_path.duplicate(), request: info.request.duplicate() };
        if !self.fs.is_dir(&package_dir) {
            let state = self.resolve_as_file(module_info);
            if state.is_finished() {
                return state;
            }
            return State::Resolving(info);
        }
        let pkg = match self.fs.pkg_info(&package_dir) {
            Ok(p) => p,
            Err(q) => return State::Error(ResolveError::BrokenManifest { manifest_dir: q }),
        };
        let state = match pkg {
            Some(k) => {
                let pkg_info = &self.fs.manifests[k];
                let outside = !pkg_info.dir.eq_path(&info.path);
                let state = if outside || is_resolve_self(pkg_info, name) {
                    ExportsFieldPlugin::new(pkg_info).apply(self, module_info, context)
                } else {
                    State::Resolving(module_info)
                };
                match state {
                    State::Resolving(next) => {
                        let path = next.path.join(next.request.target.as_str());
                        proof {
                            reveal_strlit(".");
                        }
                        let ghost n0 = next@;
                        let next = next.with_path(path).with_target(".");
                        assert(next.request.target@ == seq!['.']);
                        assert(next.path@ == join_spec(n0.path, n0.target));
                        assert(next.request.query@ == n0.query);
                        self.main_field(pkg_info, next, context)
                    },
                    other => other,
                }
            },
            None => State::Resolving(module_info),
        };
        let state = match state {
            State::Resolving(next) => self.resolve_as_context(next),
            other => other,
        };
        let state = match state {
            State::Resolving(next) => self.resolve_as_file(next),
            other => other,
        };
        let state = match state {
            State::Resolving(next) => self.resolve_as_dir(next, context),
            other => other,
        };
        match state {
            State::Failed(next) => State::Resolving(next),
            other => other,
        }
    }
}

/// Extensions are probed in order and the first that names a file wins, whatever
/// later extensions would also name.
pub proof fn lemma_first_extension_wins(r: Resolver, info: Info, i: int)
    requires
        !names_directory(info.request.target@),
        r.options.enforce_extension || !r.fs.is_file_spec(info.resolved()),
        first_ext(r.fs, info.resolved(), r.exts(), i),
    ensures
        r.file_target(info) == Some(with_ext(info.resolved(), r.exts()[i])),
{
    let w = choose|w: int| first_ext(r.fs, info.resolved(), r.exts(), w);
    assert(first_ext(r.fs, info.resolved(), r.exts(), w));
    if w < i {
        assert(!ext_hit(r.fs, info.resolved(), r.exts(), w));
    } else if w > i {
        assert(!ext_hit(r.fs, info.resolved(), r.exts(), i));
    }
}

/// With extensions enforced, a path that no configured extension completes to a
/// file is never taken as a file, even where the bare path is one.
pub proof fn lemma_enforced_extension_needs_extension(r: Resolver, info: Info)
    requires
        r.options.enforce_extension,
        forall|i: int| !ext_hit(r.fs, info.resolved(), r.exts(), i),
    ensures
        r.file_target(info) is None,
{
    let p = join_spec(info.path@, info.request.target@);
    assert(p == info.resolved());
    if exists|i: int| first_ext(r.fs, p, r.exts(), i) {
        let w = choose|w: int| first_ext(r.fs, p, r.exts(), w);
        assert(ext_hit(r.fs, info.resolved(), r.exts(), w));
    }
    assert(probe_ext(r.fs, p, r.exts()) is None);
}

/// Storage names are tried in order and the first finished outcome wins; where
/// the candidate of a relative name gives nothing, the whole resolution is run
/// again from the parent directory, and that outcome counts for the name.
pub proof fn lemma_candidate_then_parent(r: Resolver, fuel: nat, iv: InfoView, i: int)
    requires
        0 <= i < r.options.modules@.len(),
        !(r.options.modules@[i]@.len() > 0 && r.options.modules@[i]@[0] == '/'),
        iv.path.len() > 0,
        r.cand_out(fuel, iv, iv.path, join_spec(iv.path, r.options.modules@[i]@)) is Resolving,
    ensures
        ({
            let n = r.cand_out(fuel, iv, iv.path, join_spec(iv.path, r.options.modules@[i]@))->Resolving_0;
            let up = r.resolve_out(
                fuel,
                InfoView { path: iv.path.drop_last(), target: n.target, query: n.query, fragment: n.fragment },
            );
            r.modules_from(fuel, iv, i) == if up.done() {
                up
            } else {
                r.modules_from(fuel, iv, i + 1)
            }
        }),
{
}

} // verus!
