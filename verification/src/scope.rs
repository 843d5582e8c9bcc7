//! The variable frames of a running program: a stack of frames, each mapping
//! names to their declaration keyword and value.

use vstd::prelude::*;
use crate::expr::{Expr, Variable};

verus! {

/// One frame: names (each once) with their keyword and value.
pub type Frame<V> = Vec<(String, Variable, V)>;

/// The frames of a program, and the index of the frame that bindings search from.
#[derive(Debug)]
pub struct Scopes<V> {
    local_value: Vec<Frame<V>>,
    block_index: usize,
}

/// The entries of a frame with their names as sequences.
pub open spec fn frame_view<V>(f: Seq<(String, Variable, V)>) -> Seq<(Seq<char>, Variable, V)> {
    f.map_values(|e: (String, Variable, V)| (e.0@, e.1, e.2))
}

/// No name occurs twice in the frame.
pub open spec fn names_distinct<V>(f: Seq<(Seq<char>, Variable, V)>) -> bool {
    forall|i: int, j: int| 0 <= i < j < f.len() ==> #[trigger] f[i].0 != #[trigger] f[j].0
}

/// The position of `key` in the frame, if it is there.
pub open spec fn find_in<V>(f: Seq<(Seq<char>, Variable, V)>, key: Seq<char>) -> Option<int> {
    if exists|i: int| 0 <= i < f.len() && #[trigger] f[i].0 == key {
        Some(choose|i: int| 0 <= i < f.len() && #[trigger] f[i].0 == key)
    } else {
        None
    }
}

/// The highest frame at or below `top` that holds `key`.
pub open spec fn frame_with<V>(frames: Seq<Seq<(Seq<char>, Variable, V)>>, top: int, key: Seq<char>) -> Option<int>
    decreases top + 1,
{
    if top < 0 {
        None
    } else if find_in(frames[top], key) is Some {
        Some(top)
    } else {
        frame_with(frames, top - 1, key)
    }
}

/// The value of `key` in the highest frame that holds it.
pub open spec fn lookup<V>(frames: Seq<Seq<(Seq<char>, Variable, V)>>, key: Seq<char>) -> Option<V> {
    match frame_with(frames, frames.len() - 1, key) {
        Some(j) => Some(frames[j][find_in(frames[j], key)->0].2),
        None => None,
    }
}

/// The frame with `key` set to `var` and `v`: its entry is replaced, or a new
/// entry is added at the end.
pub open spec fn frame_insert<V>(
    f: Seq<(Seq<char>, Variable, V)>,
    key: Seq<char>,
    var: Variable,
    v: V,
) -> Seq<(Seq<char>, Variable, V)> {
    match find_in(f, key) {
        Some(p) => f.update(p, (key, var, v)),
        None => f.push((key, var, v)),
    }
}

/// The frame that binds the first `n` names to the first `n` values, in
/// order, all with the keyword `var`; a later name replaces an earlier equal one.
pub open spec fn build_frame<V>(names: Seq<Seq<char>>, var: Variable, vals: Seq<V>, n: int) -> Seq<(Seq<char>, Variable, V)>
    decreases n,
{
    if n <= 0 {
        Seq::empty()
    } else {
        frame_insert(build_frame(names, var, vals, n - 1), names[n - 1], var, vals[n - 1])
    }
}

/// The names of the parameters, which are all identifiers.
pub open spec fn param_names(args: Seq<Expr>) -> Seq<Seq<char>> {
    args.map_values(|e: Expr| match e {
        Expr::Identifier(t) => t@,
        _ => Seq::empty(),
    })
}

proof fn lemma_find_in_unique<V>(f: Seq<(Seq<char>, Variable, V)>, key: Seq<char>, i: int)
    requires
        names_distinct(f),
        0 <= i < f.len(),
        f[i].0 == key,
    ensures
        find_in(f, key) == Some(i),
{
    let c = choose|k: int| 0 <= k < f.len() && #[trigger] f[k].0 == key;
    if c != i {
        if c < i {
            assert(f[c].0 != f[i].0);
        } else {
            assert(f[i].0 != f[c].0);
        }
    }
}

proof fn lemma_frame_insert_distinct<V>(f: Seq<(Seq<char>, Variable, V)>, key: Seq<char>, var: Variable, v: V)
    requires
        names_distinct(f),
    ensures
        names_distinct(frame_insert(f, key, var, v)),
{
    let g = frame_insert(f, key, var, v);
    match find_in(f, key) {
        Some(p) => {
            assert(f[p].0 == key);
            assert forall|i: int, j: int| 0 <= i < j < g.len() implies #[trigger] g[i].0 != #[trigger] g[j].0 by {
                assert(g[i].0 == f[i].0);
                assert(g[j].0 == f[j].0);
            }
        },
        None => {
            assert forall|i: int, j: int| 0 <= i < j < g.len() implies #[trigger] g[i].0 != #[trigger] g[j].0 by {
                if j == f.len() {
                    assert(g[i].0 == f[i].0);
                    if f[i].0 == key {
                        assert(exists|k: int| 0 <= k < f.len() && #[trigger] f[k].0 == key);
                    }
                } else {
                    assert(g[i].0 == f[i].0);
                    assert(g[j].0 == f[j].0);
                }
            }
        },
    }
}

/// Sets `key` in the frame, as `frame_insert` describes.
fn insert_into<V>(list: &mut Frame<V>, key: String, var: Variable, v: V)
    requires
        names_distinct(frame_view(old(list)@)),
    ensures
        frame_view(final(list)@) == frame_insert(frame_view(old(list)@), key@, var, v),
        names_distinct(frame_view(final(list)@)),
{
    let ghost f = frame_view(list@);
    let ghost k = key@;
    proof { lemma_frame_insert_distinct(f, k, var, v); }
    let mut i: usize = 0;
    while i < list.len()
        invariant
            i <= list.len(),
            list@ == old(list)@,
            f == frame_view(list@),
            names_distinct(f),
            k == key@,
            forall|j: int| 0 <= j < i ==> #[trigger] f[j].0 != k,
        decreases list.len() - i,
    {
        if list[i].0 == key {
            proof { lemma_find_in_unique(f, k, i as int); }
            list.set(i, (key, var, v));
            proof {
                assert(frame_view(list@) =~= f.update(i as int, (k, var, v)));
            }
            return;
        }
        i += 1;
    }
    list.push((key, var, v));
    proof {
        assert(frame_view(list@) =~= f.push((k, var, v)));
    }
}

/// The frames after binding `k` to `value` in a program whose current frame
/// is `index`, or `None` where the binding is refused.
///
/// A `let` or `const` declaration binds in the current frame: a new name is
/// added there, and a name the frame already holds is refused (an outer one is
/// shadowed). A `var` declaration and an assignment (`typ` unset) look for the
/// name in the highest frame at or below the current one that holds it: a
/// `var` declaration over a `let` or `const` there is refused; otherwise the
/// value is replaced there, keeping its keyword. A name that no such frame
/// holds is added as `var`: to the current frame for a declaration, to the
/// bottom frame for an assignment.
pub open spec fn bind_result<V>(
    fr: Seq<Seq<(Seq<char>, Variable, V)>>,
    index: int,
    typ: Option<Variable>,
    k: Seq<char>,
    value: V,
) -> Option<Seq<Seq<(Seq<char>, Variable, V)>>> {
    match typ {
        Some(t) if t != Variable::Var => match find_in(fr[index], k) {
            Some(_) => None,
            None => Some(fr.update(index, fr[index].push((k, t, value)))),
        },
        _ => match frame_with(fr, index, k) {
            Some(j) => {
                let p = find_in(fr[j], k)->0;
                let existing = fr[j][p].1;
                if typ is Some && existing != Variable::Var {
                    None
                } else {
                    Some(fr.update(j, fr[j].update(p, (k, existing, value))))
                }
            },
            None => if typ is Some {
                Some(fr.update(index, fr[index].push((k, Variable::Var, value))))
            } else {
                Some(fr.update(0, fr[0].push((k, Variable::Var, value))))
            },
        },
    }
}

/// The frames and index after entering a block: a new empty frame on top,
/// and the index one up.
pub open spec fn entered<V>(fr: Seq<Seq<(Seq<char>, Variable, V)>>, index: int) -> (Seq<Seq<(Seq<char>, Variable, V)>>, int) {
    (fr.push(Seq::empty()), index + 1)
}

/// The frames and index after leaving a block: the top frame goes and the
/// index moves one down; at the bottom frame nothing changes.
pub open spec fn left<V>(fr: Seq<Seq<(Seq<char>, Variable, V)>>, index: int) -> (Seq<Seq<(Seq<char>, Variable, V)>>, int) {
    if index > 0 {
        (fr.drop_last(), index - 1)
    } else {
        (fr, index)
    }
}

impl<V> Scopes<V> {
    /// The frames, bottom first.
    pub closed spec fn frames(&self) -> Seq<Seq<(Seq<char>, Variable, V)>> {
        self.local_value@.map_values(|f: Frame<V>| frame_view(f@))
    }

    /// The frame that bindings start their search from.
    pub closed spec fn index(&self) -> int {
        self.block_index as int
    }

    pub open spec fn wf(&self) -> bool {
        &&& 0 <= self.index() < self.frames().len()
        &&& forall|i: int| 0 <= i < self.frames().len() ==> names_distinct(#[trigger] self.frames()[i])
    }

    /// One empty frame.
    pub fn new() -> (s: Self)
        ensures
            s.wf(),
            s.frames() == seq![Seq::<(Seq<char>, Variable, V)>::empty()],
            s.index() == 0,
    {
        let mut local_value: Vec<Frame<V>> = Vec::new();
        local_value.push(Vec::new());
        let s = Scopes { local_value, block_index: 0 };
        assert(frame_view(s.local_value@[0]@) =~= Seq::<(Seq<char>, Variable, V)>::empty());
        assert(s.frames() =~= seq![Seq::<(Seq<char>, Variable, V)>::empty()]);
        s
    }

    /// The position of `key` in frame `j`.
    fn find_index(&self, j: usize, key: &String) -> (r: Option<usize>)
        requires
            self.wf(),
            j < self.frames().len(),
        ensures
            match r {
                Some(p) => find_in(self.frames()[j as int], key@) == Some(p as int),
                None => find_in(self.frames()[j as int], key@) is None,
            },
    {
        let frame = &self.local_value[j];
        let ghost f = self.frames()[j as int];
        assert(f =~= frame_view(frame@));
        let mut i: usize = 0;
        while i < frame.len()
            invariant
                i <= frame.len(),
                f == frame_view(frame@),
                f == self.frames()[j as int],
                names_distinct(f),
                forall|k: int| 0 <= k < i ==> #[trigger] f[k].0 != key@,
            decreases frame.len() - i,
        {
            if frame[i].0 == *key {
                proof {
                    assert(f[i as int].0 == key@);
                    let c = choose|k: int| 0 <= k < f.len() && #[trigger] f[k].0 == key@;
                    if c != i as int {
                        if c < i as int {
                            assert(f[c].0 != f[i as int].0);
                        } else {
                            assert(f[i as int].0 != f[c].0);
                        }
                    }
                    assert(find_in(f, key@) == Some(i as int));
                }
                return Some(i);
            }
            i += 1;
        }
        None
    }

    /// Enters a block (`is_inc`) or leaves one, as `entered` and `left` say.
    pub fn update_index(&mut self, is_inc: bool)
        requires
            old(self).wf(),
        ensures
            final(self).wf(),
            (final(self).frames(), final(self).index()) == if is_inc {
                entered(old(self).frames(), old(self).index())
            } else {
                left(old(self).frames(), old(self).index())
            },
    {
        let ghost before = self.frames();
        assert(before.len() == self.local_value@.len());
        let n = self.local_value.len();
        if is_inc {
            self.block_index = self.block_index + 1;
            self.local_value.push(Vec::new());
            proof {
                assert(frame_view(self.local_value@.last()@) =~= Seq::<(Seq<char>, Variable, V)>::empty());
                assert(self.frames() =~= before.push(Seq::empty()));
            }
        } else {
            if self.block_index > 0 {
                self.block_index = self.block_index - 1;
                self.local_value.pop();
                proof {
                    assert(self.frames() =~= before.drop_last());
                }
            }
        }
    }

    /// The value of `key` in the highest frame that holds it.
    pub fn get_value(&self, key: &String) -> (r: Option<&V>)
        requires
            self.wf(),
        ensures
            match r {
                Some(v) => lookup(self.frames(), key@) == Some(*v),
                None => lookup(self.frames(), key@) is None,
            },
    {
        let n = self.local_value.len();
        let mut index = n;
        while index > 0
            invariant
                index <= n,
                n == self.frames().len(),
                self.wf(),
                frame_with(self.frames(), n - 1, key@) == frame_with(self.frames(), index - 1, key@),
            decreases index,
        {
            let j = index - 1;
            match self.find_index(j, key) {
                Some(p) => {
                    proof {
                        assert(self.frames()[j as int] == frame_view(self.local_value@[j as int]@));
                    }
                    return Some(&self.local_value[j][p].2);
                },
                None => {},
            }
            index = index - 1;
        }
        None
    }

    /// The highest frame at or below the current one that holds `key`, with
    /// the name's position there.
    fn find_frame(&self, key: &String) -> (r: Option<(usize, usize)>)
        requires
            self.wf(),
        ensures
            match frame_with(self.frames(), self.index(), key@) {
                Some(j) => r matches Some((a, p)) && a == j
                    && find_in(self.frames()[j], key@) == Some(p as int),
                None => r is None,
            },
            r matches Some((a, p)) ==> a < self.frames().len() && p < self.frames()[a as int].len(),
    {
        let ghost fr = self.frames();
        let ghost k = key@;
        let bi = self.block_index;
        let mut j = bi;
        loop
            invariant_except_break
                frame_with(fr, bi as int, k) == frame_with(fr, j as int, k),
            invariant
                self.wf(),
                fr == self.frames(),
                k == key@,
                bi == self.block_index,
                j <= bi,
            ensures
                frame_with(fr, bi as int, k) is None,
            decreases j,
        {
            match self.find_index(j, key) {
                Some(p) => {
                    assert(frame_with(fr, j as int, k) == Some(j as int));
                    assert(p < fr[j as int].len());
                    return Some((j, p));
                },
                None => {},
            }
            if j == 0 {
                assert(frame_with(fr, -1, k) is None);
                break;
            }
            j = j - 1;
        }
        None
    }

    /// Binds `arg` to `value` as `bind_result` describes; the current frame
    /// stays the same.
    pub fn bind_local_arg(&mut self, typ: Option<Variable>, arg: String, value: V) -> (r: Result<(), String>)
        requires
            old(self).wf(),
        ensures
            final(self).wf(),
            final(self).index() == old(self).index(),
            match bind_result(old(self).frames(), old(self).index(), typ, arg@, value) {
                Some(frames) => r is Ok && final(self).frames() == frames,
                None => {
                    &&& r matches Err(m) && m@ == "Uncaught TypeError: Assignment to constant variable."@
                    &&& final(self).frames() == old(self).frames()
                },
            },
    {
        let bi = self.block_index;
        let block_scoped = match typ {
            Some(t) => t != Variable::Var,
            None => false,
        };
        if block_scoped {
            let t = match typ {
                Some(t) => t,
                None => Variable::Var,
            };
            match self.find_index(bi, &arg) {
                Some(_) => Err(String::from_str("Uncaught TypeError: Assignment to constant variable.")),
                None => {
                    self.add_to_frame(bi, arg, t, value);
                    Ok(())
                },
            }
        } else {
            match self.find_frame(&arg) {
                Some((j, p)) => {
                    proof {
                        assert(self.frames()[j as int] == frame_view(self.local_value@[j as int]@));
                        assert(self.local_value@[j as int]@.len() == self.frames()[j as int].len());
                    }
                    let existing = self.local_value[j][p].1;
                    if typ.is_some() && existing != Variable::Var {
                        Err(String::from_str("Uncaught TypeError: Assignment to constant variable."))
                    } else {
                        self.set_value(j, p, arg, existing, value);
                        Ok(())
                    }
                },
                None => {
                    let ghost fr = self.frames();
                    if typ.is_some() {
                        proof { lemma_frame_with_none(fr, bi as int, arg@, bi as int); }
                        self.add_to_frame(bi, arg, Variable::Var, value);
                    } else {
                        proof { lemma_frame_with_none(fr, bi as int, arg@, 0); }
                        self.add_to_frame(0, arg, Variable::Var, value);
                    }
                    Ok(())
                },
            }
        }
    }

    /// Replaces entry `p` of frame `j`, whose name is `name`.
    fn set_value(&mut self, j: usize, p: usize, name: String, var: Variable, value: V)
        requires
            old(self).wf(),
            j < old(self).frames().len(),
            p < old(self).frames()[j as int].len(),
            old(self).frames()[j as int][p as int].0 == name@,
        ensures
            final(self).wf(),
            final(self).index() == old(self).index(),
            final(self).frames() == old(self).frames().update(j as int,
                old(self).frames()[j as int].update(p as int, (name@, var, value))),
    {
        let ghost fr = self.frames();
        let mut frame = self.local_value.remove(j);
        assert(frame_view(frame@) == fr[j as int]);
        frame.set(p, (name, var, value));
        let ghost g = frame_view(frame@);
        assert(g =~= fr[j as int].update(p as int, (name@, var, value)));
        proof {
            let f = fr[j as int];
            assert forall|a: int, b: int| 0 <= a < b < g.len() implies #[trigger] g[a].0 != #[trigger] g[b].0 by {
                assert(g[a].0 == f[a].0);
                assert(g[b].0 == f[b].0);
            }
        }
        self.local_value.insert(j, frame);
        proof {
            assert(self.frames() =~= fr.update(j as int, g));
        }
    }

    /// Adds a new entry to frame `j`, which does not hold `name`.
    fn add_to_frame(&mut self, j: usize, name: String, var: Variable, value: V)
        requires
            old(self).wf(),
            j < old(self).frames().len(),
            find_in(old(self).frames()[j as int], name@) is None,
        ensures
            final(self).wf(),
            final(self).index() == old(self).index(),
            final(self).frames() == old(self).frames().update(j as int,
                old(self).frames()[j as int].push((name@, var, value))),
    {
        let ghost fr = self.frames();
        let mut frame = self.local_value.remove(j);
        assert(frame_view(frame@) == fr[j as int]);
        proof { lemma_frame_insert_distinct(fr[j as int], name@, var, value); }
        frame.push((name, var, value));
        let ghost g = frame_view(frame@);
        assert(g =~= fr[j as int].push((name@, var, value)));
        self.local_value.insert(j, frame);
        proof {
            assert(self.frames() =~= fr.update(j as int, g));
        }
    }

    /// Replaces the top frame with one that binds each parameter name to the
    /// value at the same position, with the keyword `typ`.
    pub fn bind_local_args(&mut self, typ: Variable, args: &Vec<Expr>, values: Vec<V>)
        requires
            old(self).wf(),
            forall|i: int| 0 <= i < args@.len() ==> #[trigger] args@[i] is Identifier,
            values@.len() >= args@.len(),
        ensures
            final(self).wf(),
            final(self).index() == old(self).index(),
            final(self).frames() == old(self).frames().drop_last().push(
                build_frame(param_names(args@), typ, values@, args@.len() as int)),
    {
        let ghost vals = values@;
        let ghost names = param_names(args@);
        let mut list: Frame<V> = Vec::new();
        let mut values = values;
        let mut i: usize = 0;
        assert(frame_view(list@) =~= build_frame(names, typ, vals, 0));
        while i < args.len()
            invariant
                i <= args@.len(),
                names == param_names(args@),
                vals.len() >= args@.len(),
                values@ == vals.skip(i as int),
                frame_view(list@) == build_frame(names, typ, vals, i as int),
                names_distinct(frame_view(list@)),
                forall|j: int| 0 <= j < args@.len() ==> #[trigger] args@[j] is Identifier,
            decreases args.len() - i,
        {
            let v = values.remove(0);
            assert(v == vals[i as int]);
            match &args[i] {
                Expr::Identifier(t) => {
                    assert(names[i as int] == t@);
                    insert_into(&mut list, t.clone(), typ, v);
                },
                _ => {},
            }
            assert(values@ =~= vals.skip(i + 1));
            i += 1;
        }
        let ghost fr = self.frames();
        self.local_value.pop();
        self.local_value.push(list);
        proof {
            assert(self.frames() =~= fr.drop_last().push(build_frame(names, typ, vals, args@.len() as int)));
        }
    }
}


// ---------------------------------------------------------------------------
// Laws
// ---------------------------------------------------------------------------

proof fn lemma_frame_with_none<V>(fr: Seq<Seq<(Seq<char>, Variable, V)>>, t: int, k: Seq<char>, m: int)
    requires
        frame_with(fr, t, k) is None,
        0 <= m <= t,
    ensures
        find_in(fr[m], k) is None,
    decreases t + 1,
{
    if t > m {
        lemma_frame_with_none(fr, t - 1, k, m);
    }
}

proof fn lemma_frame_with_some<V>(fr: Seq<Seq<(Seq<char>, Variable, V)>>, t: int, k: Seq<char>, m: int)
    requires
        frame_with(fr, t, k) is Some,
        frame_with(fr, t, k)->0 < m <= t,
    ensures
        find_in(fr[m], k) is None,
        0 <= frame_with(fr, t, k)->0 <= t,
    decreases t + 1,
{
    if t > m {
        lemma_frame_with_some(fr, t - 1, k, m);
    } else {
        if t >= 0 && find_in(fr[t], k) is None {
            lemma_frame_with_bound(fr, t - 1, k);
        }
    }
}

proof fn lemma_frame_with_bound<V>(fr: Seq<Seq<(Seq<char>, Variable, V)>>, t: int, k: Seq<char>)
    ensures
        frame_with(fr, t, k) matches Some(j) ==> 0 <= j <= t && find_in(fr[j], k) is Some,
    decreases t + 1,
{
    if t >= 0 && find_in(fr[t], k) is None {
        lemma_frame_with_bound(fr, t - 1, k);
    }
}

/// If the frames above `j` up to `t` hold no `k` and frame `j` does, the
/// search from `t` stops at `j`.
proof fn lemma_frame_with_found<V>(fr: Seq<Seq<(Seq<char>, Variable, V)>>, t: int, j: int, k: Seq<char>)
    requires
        0 <= j <= t < fr.len(),
        find_in(fr[j], k) is Some,
        forall|m: int| j < m <= t ==> find_in(#[trigger] fr[m], k) is None,
    ensures
        frame_with(fr, t, k) == Some(j),
    decreases t - j,
{
    if t > j {
        lemma_frame_with_found(fr, t - 1, j, k);
    }
}

/// Setting `k` in frame `j`, the highest frame up to `top` that holds it,
/// makes `k` read the new value.
proof fn lemma_read_after_set<V>(fr: Seq<Seq<(Seq<char>, Variable, V)>>, top: int, j: int, k: Seq<char>, var: Variable, value: V)
    requires
        top == fr.len() - 1,
        forall|i: int| 0 <= i < fr.len() ==> names_distinct(#[trigger] fr[i]),
        frame_with(fr, top, k) == Some(j),
    ensures
        lookup(fr.update(j, fr[j].update(find_in(fr[j], k)->0, (k, var, value))), k) == Some(value),
{
    lemma_frame_with_bound(fr, top, k);
    let p = find_in(fr[j], k)->0;
    let g = fr[j].update(p, (k, var, value));
    let f2 = fr.update(j, g);
    assert(names_distinct(g)) by {
        assert forall|a: int, b: int| 0 <= a < b < g.len() implies #[trigger] g[a].0 != #[trigger] g[b].0 by {
            assert(g[a].0 == fr[j][a].0);
            assert(g[b].0 == fr[j][b].0);
        }
    }
    assert(g[p].0 == k);
    lemma_find_in_unique(g, k, p);
    assert forall|m: int| j < m <= top implies find_in(#[trigger] f2[m], k) is None by {
        lemma_frame_with_some(fr, top, k, m);
        assert(f2[m] == fr[m]);
    }
    lemma_frame_with_found(f2, top, j, k);
}

/// Adding `k` to frame `m`, where no frame from `m` up to `top` holds it,
/// makes `k` read the new value.
proof fn lemma_read_after_add<V>(fr: Seq<Seq<(Seq<char>, Variable, V)>>, top: int, m: int, k: Seq<char>, var: Variable, value: V)
    requires
        top == fr.len() - 1,
        0 <= m <= top,
        forall|i: int| 0 <= i < fr.len() ==> names_distinct(#[trigger] fr[i]),
        forall|i: int| m <= i <= top ==> find_in(#[trigger] fr[i], k) is None,
    ensures
        lookup(fr.update(m, fr[m].push((k, var, value))), k) == Some(value),
{
    let g = fr[m].push((k, var, value));
    let f2 = fr.update(m, g);
    assert(names_distinct(g)) by {
        lemma_frame_insert_distinct(fr[m], k, var, value);
        assert(find_in(fr[m], k) is None);
        assert(frame_insert(fr[m], k, var, value) == g);
    }
    lemma_find_in_unique(g, k, g.len() - 1);
    assert forall|i: int| m < i <= top implies find_in(#[trigger] f2[i], k) is None by {
        assert(f2[i] == fr[i]);
    }
    lemma_frame_with_found(f2, top, m, k);
}

/// Reading a name right after binding it from the top frame gives the value
/// that was bound.
pub proof fn law_read_after_bind<V>(
    fr: Seq<Seq<(Seq<char>, Variable, V)>>,
    typ: Option<Variable>,
    k: Seq<char>,
    value: V,
)
    requires
        fr.len() > 0,
        forall|i: int| 0 <= i < fr.len() ==> names_distinct(#[trigger] fr[i]),
        bind_result(fr, fr.len() - 1, typ, k, value) is Some,
    ensures
        lookup(bind_result(fr, fr.len() - 1, typ, k, value)->0, k) == Some(value),
{
    let top = fr.len() - 1;
    let block_scoped = typ matches Some(t) && t != Variable::Var;
    if block_scoped {
        let t = typ->0;
        assert(find_in(fr[top], k) is None);
        lemma_read_after_add(fr, top, top, k, t, value);
    } else {
        match frame_with(fr, top, k) {
            Some(j) => {
                lemma_frame_with_bound(fr, top, k);
                let p = find_in(fr[j], k)->0;
                lemma_read_after_set(fr, top, j, k, fr[j][p].1, value);
            },
            None => {
                if typ is Some {
                    lemma_frame_with_none(fr, top, k, top);
                    lemma_read_after_add(fr, top, top, k, Variable::Var, value);
                } else {
                    assert forall|i: int| 0 <= i <= top implies find_in(#[trigger] fr[i], k) is None by {
                        lemma_frame_with_none(fr, top, k, i);
                    }
                    lemma_read_after_add(fr, top, 0, k, Variable::Var, value);
                }
            },
        }
    }
}

/// Entering a block and leaving it again restores the frames and the index.
pub proof fn law_enter_leave<V>(fr: Seq<Seq<(Seq<char>, Variable, V)>>, index: int)
    requires
        0 <= index < fr.len(),
    ensures
        left(entered(fr, index).0, entered(fr, index).1) == (fr, index),
{
    assert(fr.push(Seq::empty()).drop_last() =~= fr);
}

/// With distinct names, the built frame holds each name with its value, in order.
proof fn lemma_build_frame_distinct<V>(names: Seq<Seq<char>>, var: Variable, vals: Seq<V>, n: int)
    requires
        0 <= n <= names.len(),
        n <= vals.len(),
        forall|a: int, b: int| 0 <= a < b < names.len() ==> #[trigger] names[a] != #[trigger] names[b],
    ensures
        build_frame(names, var, vals, n) == Seq::new(n as nat, |i: int| (names[i], var, vals[i])),
    decreases n,
{
    if n > 0 {
        lemma_build_frame_distinct(names, var, vals, n - 1);
        let f = build_frame(names, var, vals, n - 1);
        if find_in(f, names[n - 1]) is Some {
            let c = choose|i: int| 0 <= i < f.len() && #[trigger] f[i].0 == names[n - 1];
            assert(names[c] != names[n - 1]);
        }
        assert(build_frame(names, var, vals, n) =~= Seq::new(n as nat, |i: int| (names[i], var, vals[i])));
    } else {
        assert(build_frame(names, var, vals, n) =~= Seq::new(n as nat, |i: int| (names[i], var, vals[i])));
    }
}

/// After binding parameters with distinct names, each name reads the value at
/// its position.
pub proof fn law_read_params<V>(
    fr: Seq<Seq<(Seq<char>, Variable, V)>>,
    names: Seq<Seq<char>>,
    var: Variable,
    vals: Seq<V>,
    i: int,
)
    requires
        fr.len() > 0,
        names.len() <= vals.len(),
        0 <= i < names.len(),
        forall|a: int, b: int| 0 <= a < b < names.len() ==> #[trigger] names[a] != #[trigger] names[b],
    ensures
        lookup(fr.drop_last().push(build_frame(names, var, vals, names.len() as int)), names[i]) == Some(vals[i]),
{
    let n = names.len() as int;
    lemma_build_frame_distinct(names, var, vals, n);
    let b = build_frame(names, var, vals, n);
    let f2 = fr.drop_last().push(b);
    assert(f2[f2.len() - 1] == b);
    assert(names_distinct(b)) by {
        assert forall|x: int, y: int| 0 <= x < y < b.len() implies #[trigger] b[x].0 != #[trigger] b[y].0 by {
            assert(b[x].0 == names[x]);
            assert(b[y].0 == names[y]);
        }
    }
    assert(b[i].0 == names[i]);
    lemma_find_in_unique(b, names[i], i);
}


/// A `let` or `const` declared in a block is gone once the block is left:
/// entering a block, declaring a name there and leaving gives back the frames
/// and the index from before.
pub proof fn law_block_declaration_scoped<V>(
    fr: Seq<Seq<(Seq<char>, Variable, V)>>,
    t: Variable,
    k: Seq<char>,
    value: V,
)
    requires
        fr.len() > 0,
        t != Variable::Var,
    ensures
        bind_result(entered(fr, fr.len() - 1).0, fr.len() as int, Some(t), k, value) is Some,
        left(bind_result(entered(fr, fr.len() - 1).0, fr.len() as int, Some(t), k, value)->0, fr.len() as int)
            == (fr, fr.len() - 1),
{
    let f1 = entered(fr, fr.len() - 1).0;
    assert(find_in(f1[fr.len() as int], k) is None);
    let f2 = bind_result(f1, fr.len() as int, Some(t), k, value)->0;
    assert(f2.drop_last() =~= fr);
}

} // verus!
