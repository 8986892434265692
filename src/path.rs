//! Virtual paths: the normalized, absolute form of a caller path, used as
//! the identity key of every table in the library.
//!
//! A caller path is read as forward-slash separated segments. A leading `/`
//! makes it absolute; otherwise it is taken relative to the current working
//! directory. Empty segments and `.` are skipped, `..` drops the last name
//! (the parent of the root is the root), and every other segment is a name.
use vstd::prelude::*;
use vstd::string::*;

verus! {

/// A name of a virtual path: non-empty, neither `.` nor `..`, with no `/`.
pub open spec fn is_name(n: Seq<char>) -> bool {
    &&& n.len() > 0
    &&& n != seq!['.']
    &&& n != seq!['.', '.']
    &&& !n.contains('/')
}

/// Every component is a name.
pub open spec fn all_names(names: Seq<Seq<char>>) -> bool {
    forall|i: int| 0 <= i < names.len() ==> is_name(#[trigger] names[i])
}

/// The effect of one finished segment on the names gathered so far.
pub open spec fn push_segment(acc: Seq<Seq<char>>, seg: Seq<char>) -> Seq<Seq<char>> {
    if seg.len() == 0 || seg == seq!['.'] {
        acc
    } else if seg == seq!['.', '.'] {
        if acc.len() > 0 {
            acc.drop_last()
        } else {
            acc
        }
    } else {
        acc.push(seg)
    }
}

/// The effect of one character on the scan state: the names gathered so far
/// and the segment being read.
pub open spec fn scan_char(st: (Seq<Seq<char>>, Seq<char>), c: char) -> (Seq<Seq<char>>, Seq<char>) {
    if c == '/' {
        (push_segment(st.0, st.1), Seq::empty())
    } else {
        (st.0, st.1.push(c))
    }
}

/// The scan state after reading `s` from the state `st`.
pub open spec fn scan(st: (Seq<Seq<char>>, Seq<char>), s: Seq<char>) -> (Seq<Seq<char>>, Seq<char>)
    decreases s.len(),
{
    if s.len() == 0 {
        st
    } else {
        scan_char(scan(st, s.drop_last()), s.last())
    }
}

/// Whether a caller path is absolute.
pub open spec fn is_absolute(s: Seq<char>) -> bool {
    s.len() > 0 && s[0] == '/'
}

/// The virtual path that the caller path `s` denotes when the current
/// working directory is `cwd`.
pub open spec fn virtualize_spec(cwd: Seq<Seq<char>>, s: Seq<char>) -> Seq<Seq<char>> {
    let start = if is_absolute(s) {
        Seq::<Seq<char>>::empty()
    } else {
        cwd
    };
    let st = scan((start, Seq::empty()), s);
    push_segment(st.0, st.1)
}

/// `/n0/n1/...` for the names `n0, n1, ...`; empty for no names.
pub open spec fn rend(names: Seq<Seq<char>>) -> Seq<char>
    decreases names.len(),
{
    if names.len() == 0 {
        Seq::empty()
    } else {
        rend(names.drop_last()) + seq!['/'] + names.last()
    }
}

/// The text of a virtual path: `/` for the root.
pub open spec fn render(names: Seq<Seq<char>>) -> Seq<char> {
    if names.len() == 0 {
        seq!['/']
    } else {
        rend(names)
    }
}

/// `a` is a component-wise prefix of `b`.
pub open spec fn is_prefix(a: Seq<Seq<char>>, b: Seq<Seq<char>>) -> bool {
    a.len() <= b.len() && b.subrange(0, a.len() as int) == a
}

/// A normalized absolute path, held as the list of its names; the root has
/// none.
#[derive(Clone, Debug)]
pub struct VirtualPath {
    names: Vec<String>,
}

impl View for VirtualPath {
    type V = Seq<Seq<char>>;

    closed spec fn view(&self) -> Seq<Seq<char>> {
        self.names@.map_values(|n: String| n@)
    }
}

impl VirtualPath {
    /// Every component is a name.
    pub open spec fn wf(&self) -> bool {
        all_names(self@)
    }

    /// The root.
    pub fn root() -> (r: VirtualPath)
        ensures
            r@ == Seq::<Seq<char>>::empty(),
            r.wf(),
    {
        let r = VirtualPath { names: Vec::new() };
        assert(r@ =~= Seq::<Seq<char>>::empty());
        r
    }

    /// The number of names.
    pub fn depth(&self) -> (r: usize)
        ensures
            r == self@.len(),
    {
        self.names.len()
    }

    /// Whether this is the root.
    pub fn is_root(&self) -> (r: bool)
        ensures
            r == (self@.len() == 0),
    {
        self.names.len() == 0
    }

    /// The name at position `i`.
    pub fn name(&self, i: usize) -> (r: &String)
        requires
            i < self@.len(),
        ensures
            r@ == self@[i as int],
    {
        &self.names[i]
    }

    /// A copy of this path.
    pub fn duplicate(&self) -> (r: VirtualPath)
        ensures
            r@ == self@,
    {
        let names = self.names.clone();
        assert(names@ =~= self.names@);
        VirtualPath { names }
    }

    /// The path made of the first `k` names.
    pub fn prefix(&self, k: usize) -> (r: VirtualPath)
        requires
            k <= self@.len(),
        ensures
            r@ == self@.subrange(0, k as int),
            self.wf() ==> r.wf(),
    {
        let mut names: Vec<String> = Vec::new();
        let mut i: usize = 0;
        while i < k
            invariant
                i <= k,
                k <= self@.len(),
                names@.map_values(|n: String| n@) == self@.subrange(0, i as int),
            decreases k - i,
        {
            let c = self.names[i].clone();
            assert(c@ == self@[i as int]);
            let ghost before = names@;
            names.push(c);
            assert(names@ == before.push(c));
            assert(names@.map_values(|n: String| n@) =~= before.map_values(|n: String| n@).push(c@));
            assert(self@.subrange(0, i + 1) =~= self@.subrange(0, i as int).push(self@[i as int]));
            i = i + 1;
        }
        VirtualPath { names }
    }

    /// This path with one more name at its end.
    pub fn join_name(&self, name: &str) -> (r: VirtualPath)
        ensures
            r@ == self@.push(name@),
            self.wf() && is_name(name@) ==> r.wf(),
    {
        let mut names = self.names.clone();
        assert(names@ =~= self.names@);
        names.push(name.to_owned());
        let r = VirtualPath { names };
        assert(r@ =~= self@.push(name@));
        r
    }

    /// The parent of this path and its last name; `None` for the root.
    pub fn split_last(&self) -> (r: Option<(VirtualPath, String)>)
        ensures
            self@.len() == 0 ==> r.is_none(),
            self@.len() > 0 ==> (r matches Some((p, n)) && p@ == self@.drop_last() && n@
                == self@.last() && (self.wf() ==> p.wf() && is_name(n@))),
    {
        let k = self.names.len();
        if k == 0 {
            None
        } else {
            let p = self.prefix(k - 1);
            let n = self.names[k - 1].clone();
            Some((p, n))
        }
    }

    /// Whether two paths have the same names.
    pub fn same_as(&self, other: &VirtualPath) -> (r: bool)
        ensures
            r == (self@ == other@),
    {
        let r = self.starts_with(other) && other.starts_with(self);
        assert(self@.subrange(0, self@.len() as int) =~= self@);
        assert(other@.subrange(0, other@.len() as int) =~= other@);
        r
    }

    /// Whether `base` is a component-wise prefix of this path.
    pub fn starts_with(&self, base: &VirtualPath) -> (r: bool)
        ensures
            r == is_prefix(base@, self@),
    {
        let n = base.names.len();
        if n > self.names.len() {
            return false;
        }
        let mut i: usize = 0;
        while i < n
            invariant
                n == base@.len(),
                n <= self@.len(),
                i <= n,
                self@.subrange(0, i as int) == base@.subrange(0, i as int),
            decreases n - i,
        {
            if self.names[i] != base.names[i] {
                assert(self@[i as int] != base@[i as int]);
                assert(self@.subrange(0, n as int)[i as int] == self@[i as int]);
                return false;
            }
            assert(self@.subrange(0, i + 1) =~= self@.subrange(0, i as int).push(self@[i as int]));
            assert(base@.subrange(0, i + 1) =~= base@.subrange(0, i as int).push(base@[i as int]));
            i = i + 1;
        }
        assert(base@.subrange(0, n as int) =~= base@);
        true
    }

    /// The text of this path: `/` for the root, `/n0/n1/...` otherwise.
    pub fn to_string(&self) -> (r: String)
        ensures
            r@ == render(self@),
    {
        let n = self.names.len();
        if n == 0 {
            let r = "/".to_owned();
            proof {
                reveal_strlit("/");
            }
            return r;
        }
        let mut out = String::new();
        let mut i: usize = 0;
        proof {
            reveal_strlit("/");
            assert(self@.subrange(0, 0) =~= Seq::<Seq<char>>::empty());
        }
        while i < n
            invariant
                n == self@.len(),
                i <= n,
                out@ == rend(self@.subrange(0, i as int)),
            decreases n - i,
        {
            out.append("/");
            out.append(self.names[i].as_str());
            proof {
                reveal_strlit("/");
                let pre = self@.subrange(0, i + 1);
                assert(pre.drop_last() =~= self@.subrange(0, i as int));
                assert(pre.last() == self@[i as int]);
            }
            i = i + 1;
        }
        assert(self@.subrange(0, n as int) =~= self@);
        out
    }
}

/// Applies a finished segment to the names gathered so far.
fn finish_segment(acc: &mut Vec<String>, seg: &str)
    ensures
        final(acc)@.map_values(|n: String| n@) == push_segment(
            old(acc)@.map_values(|n: String| n@),
            seg@,
        ),
{
    let ghost before = old(acc)@.map_values(|n: String| n@);
    let len = seg.unicode_len();
    if len == 0 {
        return;
    }
    let c0 = seg.get_char(0);
    if len == 1 && c0 == '.' {
        assert(seg@ =~= seq!['.']);
        return;
    }
    if len == 2 && c0 == '.' && seg.get_char(1) == '.' {
        assert(seg@ =~= seq!['.', '.']);
        if acc.len() > 0 {
            acc.pop();
            assert(acc@.map_values(|n: String| n@) =~= before.drop_last());
        }
        return;
    }
    assert(seg@ != seq!['.']) by {
        if len == 1 {
            assert(seg@[0] == c0);
        }
    }
    assert(seg@ != seq!['.', '.']) by {
        if len == 2 && c0 == '.' {
            assert(seg@[1] != '.');
        }
    }
    acc.push(seg.to_owned());
    assert(acc@.map_values(|n: String| n@) =~= before.push(seg@));
}

/// The virtual path that `path` denotes when the current working directory
/// is `cwd`.
pub fn virtualize(cwd: &VirtualPath, path: &str) -> (r: VirtualPath)
    ensures
        r@ == virtualize_spec(cwd@, path@),
        cwd.wf() ==> r.wf(),
{
    let n = path.unicode_len();
    let absolute = n > 0 && path.get_char(0) == '/';
    let mut acc: Vec<String> = if absolute {
        Vec::new()
    } else {
        cwd.names.clone()
    };
    let ghost start: Seq<Seq<char>> = if absolute {
        Seq::empty()
    } else {
        cwd@
    };
    assert(acc@.map_values(|s: String| s@) =~= start);
    let mut seg_start: usize = 0;
    let mut i: usize = 0;
    proof {
        assert(path@.subrange(0, 0) =~= Seq::<char>::empty());
        assert(path@.subrange(0, 0) =~= Seq::<char>::empty());
    }
    while i < n
        invariant
            n == path@.len(),
            seg_start <= i <= n,
            scan((start, Seq::empty()), path@.subrange(0, i as int)) == (
                acc@.map_values(|s: String| s@),
                path@.subrange(seg_start as int, i as int),
            ),
            start == (if is_absolute(path@) {
                Seq::<Seq<char>>::empty()
            } else {
                cwd@
            }),
        decreases n - i,
    {
        let c = path.get_char(i);
        proof {
            let pre = path@.subrange(0, i + 1);
            assert(pre.drop_last() =~= path@.subrange(0, i as int));
            assert(pre.last() == c);
        }
        if c == '/' {
            let seg = path.substring_char(seg_start, i);
            finish_segment(&mut acc, seg);
            seg_start = i + 1;
            assert(path@.subrange(seg_start as int, i + 1) =~= Seq::<char>::empty());
        } else {
            assert(path@.subrange(seg_start as int, i + 1) =~= path@.subrange(
                seg_start as int,
                i as int,
            ).push(c));
        }
        i = i + 1;
    }
    let seg = path.substring_char(seg_start, n);
    finish_segment(&mut acc, seg);
    assert(path@.subrange(0, n as int) =~= path@);
    let r = VirtualPath { names: acc };
    proof {
        if cwd.wf() {
            lemma_scan_names(start, Seq::empty(), path@);
        }
    }
    r
}

/// A segment free of `/` leaves names intact when it is pushed.
pub proof fn lemma_push_segment_names(acc: Seq<Seq<char>>, seg: Seq<char>)
    requires
        all_names(acc),
        !seg.contains('/'),
    ensures
        all_names(push_segment(acc, seg)),
{
    let r = push_segment(acc, seg);
    if seg.len() == 0 || seg == seq!['.'] {
    } else if seg == seq!['.', '.'] {
        if acc.len() > 0 {
            assert forall|i: int| 0 <= i < r.len() implies is_name(#[trigger] r[i]) by {
                assert(r[i] == acc[i]);
            }
        }
    } else {
        assert forall|i: int| 0 <= i < r.len() implies is_name(#[trigger] r[i]) by {
            if i < acc.len() {
                assert(r[i] == acc[i]);
            }
        }
    }
}

/// Scanning from names and a `/`-free segment ends in names and a
/// `/`-free segment, and the virtual path made of them has only names.
pub proof fn lemma_scan_names(acc: Seq<Seq<char>>, cur: Seq<char>, s: Seq<char>)
    requires
        all_names(acc),
        !cur.contains('/'),
    ensures
        all_names(scan((acc, cur), s).0),
        !scan((acc, cur), s).1.contains('/'),
        all_names(push_segment(scan((acc, cur), s).0, scan((acc, cur), s).1)),
    decreases s.len(),
{
    if s.len() > 0 {
        lemma_scan_names(acc, cur, s.drop_last());
        let st = scan((acc, cur), s.drop_last());
        if s.last() == '/' {
            lemma_push_segment_names(st.0, st.1);
        } else {
            assert forall|i: int| 0 <= i < st.1.push(s.last()).len() implies st.1.push(
                s.last(),
            )[i] != '/' by {
                if i < st.1.len() {
                    assert(st.1.push(s.last())[i] == st.1[i]);
                    assert(!st.1.contains('/'));
                }
            }
        }
    }
    let fin = scan((acc, cur), s);
    lemma_push_segment_names(fin.0, fin.1);
}

/// Scanning `a + b` is scanning `a`, then `b`.
pub proof fn lemma_scan_concat(st: (Seq<Seq<char>>, Seq<char>), a: Seq<char>, b: Seq<char>)
    ensures
        scan(st, a + b) == scan(scan(st, a), b),
    decreases b.len(),
{
    if b.len() == 0 {
        assert(a + b =~= a);
    } else {
        lemma_scan_concat(st, a, b.drop_last());
        assert((a + b).drop_last() =~= a + b.drop_last());
        assert((a + b).last() == b.last());
    }
}

/// Reading a `/`-free text extends the current segment by it.
pub proof fn lemma_scan_name(st: (Seq<Seq<char>>, Seq<char>), n: Seq<char>)
    requires
        !n.contains('/'),
    ensures
        scan(st, n) == (st.0, st.1 + n),
    decreases n.len(),
{
    if n.len() == 0 {
        assert(st.1 + n =~= st.1);
    } else {
        assert(!n.drop_last().contains('/')) by {
            assert forall|i: int| 0 <= i < n.drop_last().len() implies n.drop_last()[i] != '/' by {
                assert(n.drop_last()[i] == n[i]);
            }
        }
        lemma_scan_name(st, n.drop_last());
        assert(n.last() == n[n.len() - 1]);
        assert((st.1 + n.drop_last()).push(n.last()) =~= st.1 + n);
    }
}

/// Reading the text of non-empty names, then finishing, appends them.
pub proof fn lemma_scan_rend(acc: Seq<Seq<char>>, v: Seq<Seq<char>>)
    requires
        all_names(v),
        v.len() > 0,
    ensures
        scan((acc, Seq::empty()), rend(v)) == (acc + v.drop_last(), v.last()),
    decreases v.len(),
{
    let w = v.drop_last();
    let n = v.last();
    assert(is_name(v[v.len() - 1]));
    assert(all_names(w)) by {
        assert forall|i: int| 0 <= i < w.len() implies is_name(#[trigger] w[i]) by {
            assert(w[i] == v[i]);
        }
    }
    let e = Seq::<char>::empty();
    lemma_scan_concat((acc, e), rend(w) + seq!['/'], n);
    lemma_scan_concat((acc, e), rend(w), seq!['/']);
    assert(scan(scan((acc, e), rend(w)), seq!['/']) == scan_char(scan(scan((acc, e), rend(w)), seq![]), '/')) by {
        assert(seq!['/'].drop_last() =~= Seq::<char>::empty());
    }
    if w.len() == 0 {
        assert(rend(w) == e);
        assert(push_segment(acc, e) == acc);
        assert(acc + w =~= acc);
    } else {
        lemma_scan_rend(acc, w);
        assert(is_name(w.last())) by {
            assert(w.last() == w[w.len() - 1]);
        }
        assert(push_segment(acc + w.drop_last(), w.last()) =~= acc + w);
    }
    lemma_scan_name((acc + w, e), n);
    assert(e + n =~= n);
    assert(rend(v) == rend(w) + seq!['/'] + n);
}

/// The text of a non-empty list of names starts with `/`.
pub proof fn lemma_rend_absolute(v: Seq<Seq<char>>)
    requires
        v.len() > 0,
    ensures
        is_absolute(rend(v)),
    decreases v.len(),
{
    let w = v.drop_last();
    if w.len() > 0 {
        lemma_rend_absolute(w);
    }
    assert(rend(v) == rend(w) + seq!['/'] + v.last());
}

/// Virtualizing the text of a virtual path gives that path back, whatever
/// the current working directory.
pub proof fn lemma_virtualize_render(cwd: Seq<Seq<char>>, v: Seq<Seq<char>>)
    requires
        all_names(v),
    ensures
        virtualize_spec(cwd, render(v)) == v,
{
    let e = Seq::<char>::empty();
    let none = Seq::<Seq<char>>::empty();
    if v.len() == 0 {
        assert(render(v) == seq!['/']);
        assert(seq!['/'].drop_last() =~= e);
        assert(scan((none, e), e) == (none, e));
        assert(scan((none, e), seq!['/']) == (push_segment(none, e), e));
    } else {
        lemma_rend_absolute(v);
        lemma_scan_rend(none, v);
        assert(is_name(v[v.len() - 1]));
        assert(push_segment(none + v.drop_last(), v.last()) =~= v);
    }
}

/// Virtualization is idempotent: virtualizing the text of a virtualized
/// path yields the same virtual path.
pub proof fn lemma_virtualize_idempotent(cwd: Seq<Seq<char>>, s: Seq<char>)
    requires
        all_names(cwd),
    ensures
        virtualize_spec(cwd, render(virtualize_spec(cwd, s))) == virtualize_spec(cwd, s),
{
    let start = if is_absolute(s) {
        Seq::<Seq<char>>::empty()
    } else {
        cwd
    };
    lemma_scan_names(start, Seq::empty(), s);
    lemma_virtualize_render(cwd, virtualize_spec(cwd, s));
}

} // verus!
