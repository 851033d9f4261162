use vstd::prelude::*;

verus! {

/// Ends the segment being read: `""` and `"."` add nothing, `".."` climbs one level.
pub open spec fn flush(segs: Seq<Seq<char>>, cur: Seq<char>) -> Seq<Seq<char>> {
    if cur.len() == 0 || cur == seq!['.'] {
        segs
    } else if cur == seq!['.', '.'] {
        if segs.len() > 0 { segs.drop_last() } else { segs }
    } else {
        segs.push(cur)
    }
}

/// Reads the rest of a `/`-separated path onto `segs`, with `cur` the segment begun.
pub open spec fn walk(segs: Seq<Seq<char>>, cur: Seq<char>, rest: Seq<char>) -> Seq<Seq<char>>
    decreases rest.len(),
{
    if rest.len() == 0 {
        flush(segs, cur)
    } else if rest[0] == '/' {
        walk(flush(segs, cur), Seq::empty(), rest.drop_first())
    } else {
        walk(segs, cur.push(rest[0]), rest.drop_first())
    }
}

/// `rel` read relative to `base`; a leading `/` starts again from the root.
pub open spec fn join_spec(base: Seq<Seq<char>>, rel: Seq<char>) -> Seq<Seq<char>> {
    if rel.len() > 0 && rel[0] == '/' {
        walk(Seq::empty(), Seq::empty(), rel)
    } else {
        walk(base, Seq::empty(), rel)
    }
}

/// An absolute, normalised path: the names of its components from the root.
pub struct FsPath {
    pub segs: Vec<String>,
}

impl View for FsPath {
    type V = Seq<Seq<char>>;

    open spec fn view(&self) -> Seq<Seq<char>> {
        Seq::new(self.segs@.len(), |i: int| self.segs@[i]@)
    }
}

fn copy_string(s: &String) -> (r: String)
    ensures
        r@ == s@,
{
    s.clone()
}

impl FsPath {
    pub fn root() -> (r: FsPath)
        ensures
            r@ == Seq::<Seq<char>>::empty(),
    {
        let r = FsPath { segs: Vec::new() };
        assert(r@ =~= Seq::<Seq<char>>::empty());
        r
    }

    pub fn len(&self) -> (r: usize)
        ensures
            r == self@.len(),
    {
        self.segs.len()
    }

    pub fn duplicate(&self) -> (r: FsPath)
        ensures
            r@ == self@,
    {
        self.prefix(self.segs.len())
    }

    /// The first `k` components.
    pub fn prefix(&self, k: usize) -> (r: FsPath)
        requires
            k <= self@.len(),
        ensures
            r@ == self@.subrange(0, k as int),
    {
        let mut out: Vec<String> = Vec::new();
        let mut i: usize = 0;
        while i < k
            invariant
                k <= self.segs@.len(),
                0 <= i <= k,
                out@.len() == i,
                forall|j: int| 0 <= j < i ==> out@[j]@ == self.segs@[j]@,
            decreases k - i,
        {
            out.push(copy_string(&self.segs[i]));
            i = i + 1;
        }
        let r = FsPath { segs: out };
        assert(r@ =~= self@.subrange(0, k as int));
        r
    }

    /// The parent directory; the root has none.
    pub fn parent(&self) -> (r: Option<FsPath>)
        ensures
            match r {
                Some(p) => self@.len() > 0 && p@ == self@.drop_last(),
                None => self@.len() == 0,
            },
    {
        if self.segs.len() == 0 {
            None
        } else {
            let p = self.prefix(self.segs.len() - 1);
            assert(p@ =~= self@.drop_last());
            Some(p)
        }
    }

    pub fn push_seg(&mut self, s: String)
        ensures
            final(self)@ == old(self)@.push(s@),
    {
        self.segs.push(s);
        assert(self@ =~= old(self)@.push(s@));
    }

    fn pop_seg(&mut self)
        requires
            old(self)@.len() > 0,
        ensures
            final(self)@ == old(self)@.drop_last(),
    {
        self.segs.pop();
        assert(self@ =~= old(self)@.drop_last());
    }

    fn flush_seg(&mut self, cur: String)
        ensures
            final(self)@ == flush(old(self)@, cur@),
    {
        let n = cur.as_str().unicode_len();
        if n == 0 {
        } else if n == 1 && cur.as_str().get_char(0) == '.' {
            assert(cur@ =~= seq!['.']);
        } else if n == 2 && cur.as_str().get_char(0) == '.' && cur.as_str().get_char(1) == '.' {
            assert(cur@ =~= seq!['.', '.']);
            if self.segs.len() > 0 {
                self.pop_seg();
            }
        } else {
            assert(cur@ != seq!['.']);
            assert(cur@ != seq!['.', '.']);
            self.push_seg(cur);
        }
    }

    /// `rel` read relative to this path (`.`, `..` and empty components folded).
    pub fn join(&self, rel: &str) -> (r: FsPath)
        ensures
            r@ == join_spec(self@, rel@),
    {
        let n = rel.unicode_len();
        let mut out = if n > 0 && rel.get_char(0) == '/' {
            FsPath::root()
        } else {
            self.duplicate()
        };
        let mut start: usize = 0;
        let mut i: usize = 0;
        assert(rel@.subrange(0, n as int) =~= rel@);
        assert(rel@.subrange(0, 0) =~= Seq::<char>::empty());
        while i < n
            invariant
                n == rel@.len(),
                0 <= start <= i <= n,
                walk(out@, rel@.subrange(start as int, i as int), rel@.subrange(i as int, n as int))
                    == join_spec(self@, rel@),
            decreases n - i,
        {
            let c = rel.get_char(i);
            assert(rel@.subrange(i as int, n as int).drop_first() =~= rel@.subrange(i + 1, n as int));
            if c == '/' {
                let cur = String::from_str(rel.substring_char(start, i));
                out.flush_seg(cur);
                start = i + 1;
                assert(rel@.subrange(start as int, start as int) =~= Seq::<char>::empty());
            } else {
                assert(rel@.subrange(start as int, i as int).push(c) =~= rel@.subrange(start as int, i + 1));
            }
            i = i + 1;
        }
        let cur = String::from_str(rel.substring_char(start, n));
        out.flush_seg(cur);
        out
    }

    pub fn eq_path(&self, other: &FsPath) -> (r: bool)
        ensures
            r == (self@ == other@),
    {
        if self.segs.len() != other.segs.len() {
            assert(self@.len() != other@.len());
            return false;
        }
        let mut i: usize = 0;
        while i < self.segs.len()
            invariant
                self.segs@.len() == other.segs@.len(),
                0 <= i <= self.segs@.len(),
                forall|j: int| 0 <= j < i ==> self@[j] == other@[j],
            decreases self.segs@.len() - i,
        {
            if self.segs[i] != other.segs[i] {
                assert(self@[i as int] != other@[i as int]);
                return false;
            }
            i = i + 1;
        }
        assert(self@ =~= other@);
        true
    }

    /// The path as text, `/`-separated from the root.
    pub fn display(&self) -> (r: String)
        ensures
            r@ == (if self@.len() == 0 { seq!['/'] } else { render(self@) }),
    {
        let mut out = String::new();
        let mut i: usize = 0;
        while i < self.segs.len()
            invariant
                0 <= i <= self.segs@.len(),
                out@ == render(self@.subrange(0, i as int)),
            decreases self.segs@.len() - i,
        {
            assert(self@.subrange(0, i + 1).drop_last() =~= self@.subrange(0, i as int));
            assert(self@.subrange(0, i + 1).last() == self.segs@[i as int]@);
            proof {
                reveal_strlit("/");
            }
            out.append("/");
            out.append(self.segs[i].as_str());
            i = i + 1;
        }
        assert(self@.subrange(0, self@.len() as int) =~= self@);
        if self.segs.len() == 0 {
            proof {
                reveal_strlit("/");
            }
            out.append("/");
        }
        out
    }
}

pub open spec fn render(segs: Seq<Seq<char>>) -> Seq<char>
    decreases segs.len(),
{
    if segs.len() == 0 {
        Seq::empty()
    } else {
        render(segs.drop_last()) + seq!['/'] + segs.last()
    }
}

} // verus!
