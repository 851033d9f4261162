use vstd::prelude::*;
use crate::path::{join_spec, FsPath};
use crate::request::Request;

verus! {

/// A resolution in flight: the directory it is relative to and the request.
pub struct Info {
    pub path: FsPath,
    pub request: Request,
}

/// What an `Info` holds, as plain values.
pub struct InfoView {
    pub path: Seq<Seq<char>>,
    pub target: Seq<char>,
    pub query: Seq<char>,
    pub fragment: Seq<char>,
}

impl View for Info {
    type V = InfoView;

    open spec fn view(&self) -> InfoView {
        InfoView {
            path: self.path@,
            target: self.request.target@,
            query: self.request.query@,
            fragment: self.request.fragment@,
        }
    }
}

/// What a `ResolveError` says, as plain values.
pub enum ErrorView {
    BrokenManifest(Seq<Seq<char>>),
    NotExported(Seq<Seq<char>>, Seq<char>),
    InvalidTarget(Seq<Seq<char>>, Seq<char>),
    TooDeep,
}

/// What a `State` says, as plain values.
pub enum Outcome {
    Resolving(InfoView),
    Success(Seq<Seq<char>>, Seq<char>, Seq<char>),
    Failed(InfoView),
    Error(ErrorView),
}

impl Outcome {
    pub open spec fn done(self) -> bool {
        self is Success || self is Error
    }
}

impl View for State {
    type V = Outcome;

    open spec fn view(&self) -> Outcome {
        match self {
            State::Resolving(i) => Outcome::Resolving(i@),
            State::Success(res) => Outcome::Success(res.path@, res.query@, res.fragment@),
            State::Failed(i) => Outcome::Failed(i@),
            State::Error(e) => Outcome::Error(
                match e {
                    ResolveError::BrokenManifest { manifest_dir } => ErrorView::BrokenManifest(
                        manifest_dir@,
                    ),
                    ResolveError::NotExported { manifest_dir, target } => ErrorView::NotExported(
                        manifest_dir@,
                        target@,
                    ),
                    ResolveError::InvalidTarget { manifest_dir, target } => ErrorView::InvalidTarget(
                        manifest_dir@,
                        target@,
                    ),
                    ResolveError::TooDeep => ErrorView::TooDeep,
                },
            ),
        }
    }
}

impl Info {
    /// The path that the request names, read from `path`.
    pub open spec fn resolved(&self) -> Seq<Seq<char>> {
        join_spec(self.path@, self.request.target@)
    }

    pub fn to_resolved_path(&self) -> (r: FsPath)
        ensures
            r@ == self.resolved(),
    {
        self.path.join(self.request.target.as_str())
    }

    /// The same request read from another directory.
    pub fn with_path(self, path: FsPath) -> (r: Info)
        ensures
            r.path@ == path@,
            r.request == self.request,
    {
        Info { path, request: self.request }
    }

    /// The same directory with another target; query and fragment are kept.
    pub fn with_target(self, target: &str) -> (r: Info)
        ensures
            r.path == self.path,
            r.request.target@ == target@,
            r.request.query@ == self.request.query@,
            r.request.fragment@ == self.request.fragment@,
    {
        let request = self.request.with_target(target);
        Info { path: self.path, request }
    }

    pub fn duplicate(&self) -> (r: Info)
        ensures
            r.path@ == self.path@,
            r.request.target@ == self.request.target@,
            r.request.query@ == self.request.query@,
            r.request.fragment@ == self.request.fragment@,
    {
        Info { path: self.path.duplicate(), request: self.request.duplicate() }
    }
}

/// A resolved file (or directory, when resolving to a context) with what rode along.
pub struct ResolveResult {
    pub path: FsPath,
    pub query: String,
    pub fragment: String,
}

/// Why a resolution stopped for good.
pub enum ResolveError {
    /// The manifest of `manifest_dir` is there but could not be read.
    BrokenManifest { manifest_dir: FsPath },
    /// The exports map of the package in `manifest_dir` does not export `target`.
    NotExported { manifest_dir: FsPath, target: String },
    /// A target that the exports map gives breaks the rules for export targets.
    InvalidTarget { manifest_dir: FsPath, target: String },
    /// The recursion budget of the call ran out.
    TooDeep,
}

/// The outcome of one resolution step.
pub enum State {
    /// No rule matched: the next step is tried.
    Resolving(Info),
    Success(ResolveResult),
    /// This alternative is exhausted; a sibling may still succeed.
    Failed(Info),
    /// Fatal for the whole call.
    Error(ResolveError),
}

impl State {
    pub open spec fn finished(&self) -> bool {
        self is Success || self is Error
    }

    pub fn is_finished(&self) -> (r: bool)
        ensures
            r == self.finished(),
    {
        match self {
            State::Success(_) | State::Error(_) => true,
            _ => false,
        }
    }
}

/// Per-call state: how many more nested resolutions the call may start.
#[derive(Clone, Copy)]
pub struct Context {
    pub depth: u64,
}

impl Context {
    pub fn new() -> (r: Context)
        ensures
            r.depth == 256,
    {
        Context { depth: 256 }
    }
}

} // verus!
