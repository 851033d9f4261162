use vstd::prelude::*;
use crate::request::same_text;

verus! {

/// One mapped target of an exports key; `condition: None` applies always.
pub struct ExportTarget {
    pub condition: Option<String>,
    pub target: String,
}

/// A subpath key (`"."`, `"./util"`) with its targets in the manifest's order.
pub struct ExportEntry {
    pub key: String,
    pub targets: Vec<ExportTarget>,
}

/// The `exports` map of a package manifest, keys in the manifest's order.
pub struct ExportsMap {
    pub entries: Vec<ExportEntry>,
}

pub open spec fn view_texts(v: Seq<String>) -> Seq<Seq<char>> {
    Seq::new(v.len(), |i: int| v[i]@)
}

pub open spec fn applies(t: ExportTarget, conds: Seq<Seq<char>>) -> bool {
    match t.condition {
        None => true,
        Some(c) => conds.contains(c@),
    }
}

/// The targets that the active conditions select, in order.
pub open spec fn select(ts: Seq<ExportTarget>, conds: Seq<Seq<char>>) -> Seq<Seq<char>>
    decreases ts.len(),
{
    if ts.len() == 0 {
        Seq::empty()
    } else {
        select(ts.drop_last(), conds) + if applies(ts.last(), conds) {
            seq![ts.last().target@]
        } else {
            Seq::empty()
        }
    }
}

/// `i` is the first entry whose key is `key`.
pub open spec fn first_key(es: Seq<ExportEntry>, key: Seq<char>, i: int) -> bool {
    0 <= i < es.len() && es[i].key@ == key && forall|j: int| 0 <= j < i ==> es[j].key@ != key
}

pub open spec fn has_key(es: Seq<ExportEntry>, key: Seq<char>) -> bool {
    exists|i: int| 0 <= i < es.len() && es[i].key@ == key
}

/// What the map gives for `key` under `conds`: `None` where the key is not exported.
pub open spec fn field_process_spec(
    m: ExportsMap,
    key: Seq<char>,
    conds: Seq<Seq<char>>,
) -> Option<Seq<Seq<char>>> {
    if has_key(m.entries@, key) {
        let i = choose|i: int| first_key(m.entries@, key, i);
        Some(select(m.entries@[i].targets@, conds))
    } else {
        None
    }
}

proof fn lemma_first_key_unique(es: Seq<ExportEntry>, key: Seq<char>, i: int, j: int)
    requires
        first_key(es, key, i),
        first_key(es, key, j),
    ensures
        i == j,
{
}

fn condition_active(c: &String, conds: &Vec<String>) -> (r: bool)
    ensures
        r == view_texts(conds@).contains(c@),
{
    let mut i: usize = 0;
    while i < conds.len()
        invariant
            0 <= i <= conds@.len(),
            forall|j: int| 0 <= j < i ==> conds@[j]@ != c@,
        decreases conds@.len() - i,
    {
        if same_text(conds[i].as_str(), c.as_str()) {
            assert(view_texts(conds@)[i as int] == c@);
            return true;
        }
        i = i + 1;
    }
    assert forall|j: int| 0 <= j < view_texts(conds@).len() implies view_texts(conds@)[j] != c@ by {
        assert(conds@[j]@ != c@);
    }
    false
}

impl ExportsMap {
    /// The targets mapped from `key` under the ordered condition names `conds`;
    /// `None` where no entry has that key.
    pub fn field_process(&self, key: &str, conds: &Vec<String>) -> (r: Option<Vec<String>>)
        ensures
            match r {
                Some(v) => field_process_spec(*self, key@, view_texts(conds@)) == Some(
                    view_texts(v@),
                ),
                None => field_process_spec(*self, key@, view_texts(conds@)) is None,
            },
    {
        let mut i: usize = 0;
        while i < self.entries.len()
            invariant
                0 <= i <= self.entries@.len(),
                forall|j: int| 0 <= j < i ==> self.entries@[j].key@ != key@,
            decreases self.entries@.len() - i,
        {
            if same_text(self.entries[i].key.as_str(), key) {
                proof {
                    let k = choose|k: int| first_key(self.entries@, key@, k);
                    assert(first_key(self.entries@, key@, i as int));
                    lemma_first_key_unique(self.entries@, key@, i as int, k);
                }
                let ts = &self.entries[i].targets;
                let mut out: Vec<String> = Vec::new();
                let mut t: usize = 0;
                assert(ts@.subrange(0, 0) =~= Seq::<ExportTarget>::empty());
                assert(view_texts(out@) =~= Seq::<Seq<char>>::empty());
                while t < ts.len()
                    invariant
                        0 <= t <= ts@.len(),
                        view_texts(out@) == select(ts@.subrange(0, t as int), view_texts(conds@)),
                    decreases ts@.len() - t,
                {
                    assert(ts@.subrange(0, t + 1).drop_last() =~= ts@.subrange(0, t as int));
                    assert(ts@.subrange(0, t + 1).last() == ts@[t as int]);
                    let active = match &ts[t].condition {
                        None => true,
                        Some(c) => condition_active(c, conds),
                    };
                    if active {
                        let v = ts[t].target.clone();
                        let ghost before = out@;
                        out.push(v);
                        assert(view_texts(out@) =~= view_texts(before) + seq![ts@[t as int].target@]);
                    } else {
                        assert(select(ts@.subrange(0, t + 1), view_texts(conds@)) =~= select(
                            ts@.subrange(0, t as int),
                            view_texts(conds@),
                        ));
                    }
                    t = t + 1;
                }
                assert(ts@.subrange(0, ts@.len() as int) =~= ts@);
                return Some(out);
            }
            i = i + 1;
        }
        None
    }
}

/// A legal target: relative to the package (`./`) and never climbing out of it.
pub open spec fn valid_target(t: Seq<char>) -> bool {
    t.len() >= 2 && t[0] == '.' && t[1] == '/' && !has_parent_segment(t)
}

/// Some `/`-separated component of `t` is `..`.
pub open spec fn has_parent_segment(t: Seq<char>) -> bool {
    exists|i: int| is_parent_segment_at(t, i)
}

pub open spec fn is_parent_segment_at(t: Seq<char>, i: int) -> bool {
    0 <= i && i + 1 < t.len() && t[i] == '.' && t[i + 1] == '.' && (i == 0 || t[i - 1] == '/')
        && (i + 2 == t.len() || t[i + 2] == '/')
}

/// Whether a mapped target obeys the rules for export targets.
pub fn check_target(t: &str) -> (r: bool)
    ensures
        r == valid_target(t@),
{
    let n = t.unicode_len();
    if n < 2 || t.get_char(0) != '.' || t.get_char(1) != '/' {
        return false;
    }
    let mut i: usize = 0;
    while i < n - 1
        invariant
            n == t@.len(),
            n >= 2,
            0 <= i <= n,
            forall|j: int| 0 <= j < i ==> !is_parent_segment_at(t@, j),
        decreases n - i,
    {
        if t.get_char(i) == '.' && t.get_char(i + 1) == '.' && (i == 0 || t.get_char(i - 1) == '/')
            && (i + 2 == n || t.get_char(i + 2) == '/') {
            assert(is_parent_segment_at(t@, i as int));
            return false;
        }
        i = i + 1;
    }
    assert forall|j: int| !is_parent_segment_at(t@, j) by {
        if 0 <= j < i {
        }
    }
    true
}

} // verus!
