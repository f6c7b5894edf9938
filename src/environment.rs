use vstd::prelude::*;
use crate::error::{MewError, MewResult};
use crate::text::joined;

verus! {

/// One name bound in a frame.
pub struct Binding<V> {
    pub name: String,
    pub value: V,
    pub is_const: bool,
}

/// A scope frame: its bindings, and the frame that encloses it.
pub struct Frame<V> {
    pub bindings: Vec<Binding<V>>,
    pub parent: Option<usize>,
}

/// The position in `bs` of the last binding of `name`, or -1.
pub open spec fn find<V>(bs: Seq<Binding<V>>, name: Seq<char>) -> int
    decreases bs.len(),
{
    if bs.len() == 0 {
        -1
    } else if bs.last().name@ == name {
        bs.len() - 1
    } else {
        find(bs.drop_last(), name)
    }
}

/// Where `name` is bound as seen from frame `f`: the frame and the position
/// of the binding, walking outward through the enclosing frames.
pub open spec fn owner<V>(frames: Seq<Frame<V>>, f: int, name: Seq<char>) -> Option<(int, int)>
    decreases f,
{
    if 0 <= f < frames.len() {
        let i = find(frames[f].bindings@, name);
        if i >= 0 {
            Some((f, i))
        } else {
            match frames[f].parent {
                Some(p) => if p < f { owner(frames, p as int, name) } else { None },
                None => None,
            }
        }
    } else {
        None
    }
}

/// The frames of a running program. Frame 0 is the global frame; each frame
/// created later has a larger index than the frame that encloses it, so the
/// frames form a tree and a closure keeps its frame by holding its index.
pub struct Environment<V> {
    frames: Vec<Frame<V>>,
}

proof fn lemma_find_range<V>(bs: Seq<Binding<V>>, name: Seq<char>)
    ensures
        -1 <= find(bs, name) < bs.len(),
        find(bs, name) >= 0 ==> bs[find(bs, name)].name@ == name,
        find(bs, name) < 0 ==> forall|i: int| 0 <= i < bs.len() ==> bs[i].name@ != name,
    decreases bs.len(),
{
    if bs.len() > 0 && bs.last().name@ != name {
        lemma_find_range(bs.drop_last(), name);
        assert forall|i: int| 0 <= i < bs.len() - 1 implies bs[i] == bs.drop_last()[i] by {}
    }
}

/// Frames below `n` are all that a lookup from a frame below `n` reads.
proof fn lemma_owner_prefix<V>(a: Seq<Frame<V>>, b: Seq<Frame<V>>, n: int, f: int, name: Seq<char>)
    requires
        0 <= f < n <= a.len(),
        n <= b.len(),
        forall|g: int| 0 <= g < n ==> a[g] == b[g],
    ensures
        owner(a, f, name) == owner(b, f, name),
    decreases f,
{
    match a[f].parent {
        Some(p) => {
            if p < f {
                lemma_owner_prefix(a, b, n, p as int, name);
            }
        },
        None => {},
    }
}

/// A binding that a lookup finds exists, has the name looked up, and lies in
/// the frame looked from or one that encloses it.
proof fn lemma_owner_range<V>(frames: Seq<Frame<V>>, f: int, name: Seq<char>)
    ensures
        owner(frames, f, name) matches Some((g, i)) ==> {
            &&& 0 <= g <= f < frames.len()
            &&& 0 <= i < frames[g].bindings@.len()
            &&& frames[g].bindings@[i].name@ == name
        },
    decreases f,
{
    if 0 <= f < frames.len() {
        lemma_find_range(frames[f].bindings@, name);
        match frames[f].parent {
            Some(p) => {
                if p < f {
                    lemma_owner_range(frames, p as int, name);
                }
            },
            None => {},
        }
    }
}

impl<V> Environment<V> {
    pub closed spec fn frames(self) -> Seq<Frame<V>> {
        self.frames@
    }

    pub open spec fn wf(self) -> bool {
        &&& self.frames().len() > 0
        &&& forall|f: int| 0 <= f < self.frames().len() ==> match #[trigger] self.frames()[f].parent {
            Some(p) => p < f,
            None => true,
        }
    }

    /// The value and constness of `name` as seen from frame `f`.
    pub open spec fn lookup(self, f: int, name: Seq<char>) -> Option<(V, bool)> {
        match owner(self.frames(), f, name) {
            Some((g, i)) => {
                let b = self.frames()[g].bindings@[i];
                Some((b.value, b.is_const))
            },
            None => None,
        }
    }

    /// The value and constness of `name` in frame `f` itself.
    pub open spec fn local(self, f: int, name: Seq<char>) -> Option<(V, bool)> {
        let i = find(self.frames()[f].bindings@, name);
        if i >= 0 {
            let b = self.frames()[f].bindings@[i];
            Some((b.value, b.is_const))
        } else {
            None
        }
    }

    /// A program's frames before it runs: the global frame alone.
    pub fn new() -> (r: Environment<V>)
        ensures
            r.wf(),
            r.frames().len() == 1,
            r.frames()[0].parent is None,
            r.frames()[0].bindings@.len() == 0,
    {
        let mut frames: Vec<Frame<V>> = Vec::new();
        frames.push(Frame { bindings: Vec::new(), parent: None });
        Environment { frames }
    }

    pub fn frame_count(&self) -> (r: usize)
        ensures
            r == self.frames().len(),
    {
        self.frames.len()
    }

    /// Opens a new, empty frame inside frame `parent`, for a block or a call.
    pub fn with_enclosing(&mut self, parent: usize) -> (r: usize)
        requires
            old(self).wf(),
            parent < old(self).frames().len(),
        ensures
            final(self).wf(),
            r == old(self).frames().len(),
            final(self).frames().len() == old(self).frames().len() + 1,
            final(self).frames().subrange(0, r as int) == old(self).frames(),
            final(self).frames()[r as int].parent == Some(parent),
            final(self).frames()[r as int].bindings@.len() == 0,
    {
        let r = self.frames.len();
        self.frames.push(Frame { bindings: Vec::new(), parent: Some(parent) });
        assert(self.frames().subrange(0, r as int) =~= old(self).frames());
        r
    }

    /// Binds `name` in frame `f`, replacing a binding of the same name there.
    pub fn define(&mut self, f: usize, name: String, value: V, is_const: bool)
        requires
            old(self).wf(),
            f < old(self).frames().len(),
        ensures
            final(self).wf(),
            final(self).frames().len() == old(self).frames().len(),
            forall|g: int| 0 <= g < old(self).frames().len() && g != f ==> final(self).frames()[g] == old(self).frames()[g],
            final(self).frames()[f as int].parent == old(self).frames()[f as int].parent,
            final(self).local(f as int, name@) == Some((value, is_const)),
            forall|n: Seq<char>| n != name@ ==> final(self).local(f as int, n) == old(self).local(f as int, n),
    {
        let ghost old_bs = self.frames@[f as int].bindings@;
        let found = self.position(f, &name);
        proof {
            lemma_find_range(old_bs, name@);
        }
        match found {
            Some(i) => {
                let b = Binding { name, value, is_const };
                self.frames[f].bindings[i] = b;
                proof {
                    let bs = self.frames@[f as int].bindings@;
                    assert(bs == old_bs.update(i as int, b));
                    assert forall|n: Seq<char>| find(bs, n) == find(old_bs, n) by {
                        lemma_find_update(old_bs, i as int, b, n);
                    }
                    assert forall|n: Seq<char>| n != name@ implies self.local(f as int, n) == old(self).local(f as int, n) by {
                        lemma_find_range(old_bs, n);
                    }
                }
            },
            None => {
                let b = Binding { name, value, is_const };
                self.frames[f].bindings.push(b);
                proof {
                    let bs = self.frames@[f as int].bindings@;
                    assert(bs.drop_last() =~= old_bs);
                    assert forall|n: Seq<char>| n != name@ implies self.local(f as int, n) == old(self).local(f as int, n) by {
                        lemma_find_range(old_bs, n);
                        assert(find(bs, n) == find(old_bs, n));
                    }
                }
            },
        }
        assert forall|g: int| 0 <= g < self.frames().len() implies match #[trigger] self.frames()[g].parent {
            Some(p) => p < g,
            None => true,
        } by {
            assert(old(self).frames()[g].parent == self.frames()[g].parent);
        }
    }

    /// The position of `name` in frame `f`.
    fn position(&self, f: usize, name: &String) -> (r: Option<usize>)
        requires
            f < self.frames().len(),
        ensures
            r matches Some(i) ==> i == find(self.frames()[f as int].bindings@, name@),
            r is None ==> find(self.frames()[f as int].bindings@, name@) == -1,
    {
        let bs = &self.frames[f].bindings;
        let mut i = bs.len();
        assert(bs@.subrange(0, i as int) =~= bs@);
        while i > 0
            invariant
                i <= bs@.len(),
                bs@ == self.frames()[f as int].bindings@,
                find(bs@, name@) == find(bs@.subrange(0, i as int), name@),
            decreases i,
        {
            let ghost pre = bs@.subrange(0, i as int);
            if bs[i - 1].name == *name {
                return Some(i - 1);
            }
            assert(pre.drop_last() =~= bs@.subrange(0, i - 1));
            i -= 1;
        }
        None
    }

    /// Walks outward from frame `f` to the frame that binds `name`, and the
    /// binding's position there.
    fn resolve(&self, f: usize, name: &String) -> (r: Option<(usize, usize)>)
        requires
            self.wf(),
            f < self.frames().len(),
        ensures
            r matches Some((g, i)) ==> owner(self.frames(), f as int, name@) == Some((g as int, i as int)),
            r is None ==> owner(self.frames(), f as int, name@) is None,
    {
        let mut g = f;
        loop
            invariant
                self.wf(),
                g < self.frames().len(),
                owner(self.frames(), f as int, name@) == owner(self.frames(), g as int, name@),
            decreases g,
        {
            match self.position(g, name) {
                Some(i) => {
                    return Some((g, i));
                },
                None => {},
            }
            match self.frames[g].parent {
                Some(p) => {
                    assert(self.frames()[g as int].parent == Some(p));
                    g = p;
                },
                None => {
                    return None;
                },
            }
        }
    }

    /// The value of `name` as seen from frame `f`, or a Name error.
    pub fn get(&self, f: usize, name: &String) -> (r: MewResult<&V>)
        requires
            self.wf(),
            f < self.frames().len(),
        ensures
            r matches Ok(v) ==> (self.lookup(f as int, name@) matches Some((w, _)) && *v == w),
            r matches Err(e) ==> e.spec_kind() is Name && self.lookup(f as int, name@) is None,
            self.lookup(f as int, name@) is None ==> r is Err,
    {
        match self.resolve(f, name) {
            Some((g, i)) => {
                proof {
                    lemma_owner_range(self.frames(), f as int, name@);
                }
                Ok(&self.frames[g].bindings[i].value)
            },
            None => Err(undefined(name)),
        }
    }

    /// Gives `name`, as seen from frame `f`, a new value. Fails with a Name
    /// error where no frame on the way out binds it, and with a Runtime
    /// error where the binding found is constant; no binding is created.
    pub fn assign(&mut self, f: usize, name: &String, value: V) -> (r: MewResult<()>)
        requires
            old(self).wf(),
            f < old(self).frames().len(),
        ensures
            final(self).wf(),
            old(self).lookup(f as int, name@) is None ==> (r matches Err(e) && e.spec_kind() is Name),
            (old(self).lookup(f as int, name@) matches Some((_, c)) && c)
                ==> (r matches Err(e) && e.spec_kind() is Runtime),
            r is Err ==> final(self).frames() == old(self).frames(),
            (old(self).lookup(f as int, name@) matches Some((_, c)) && !c) ==> {
                &&& r is Ok
                &&& owner(old(self).frames(), f as int, name@) matches Some((g, i)) && {
                    &&& final(self).frames().len() == old(self).frames().len()
                    &&& forall|h: int| 0 <= h < old(self).frames().len() && h != g
                        ==> final(self).frames()[h] == old(self).frames()[h]
                    &&& final(self).frames()[g].parent == old(self).frames()[g].parent
                    &&& final(self).frames()[g].bindings@ == old(self).frames()[g].bindings@.update(
                        i,
                        Binding { name: old(self).frames()[g].bindings@[i].name, value, is_const: false },
                    )
                }
            },
    {
        match self.resolve(f, name) {
            Some((g, i)) => {
                proof {
                    lemma_owner_range(self.frames(), f as int, name@);
                }
                if self.frames[g].bindings[i].is_const {
                    return Err(MewError::runtime(joined("Cannot reassign to constant ", name.as_str())));
                }
                self.frames[g].bindings[i].value = value;
                assert forall|h: int| 0 <= h < self.frames().len() implies match #[trigger] self.frames()[h].parent {
                    Some(p) => p < h,
                    None => true,
                } by {
                    assert(old(self).frames()[h].parent == self.frames()[h].parent);
                }
                Ok(())
            },
            None => Err(undefined(name)),
        }
    }

    /// A block's or a call's bindings stay inside it: whatever is bound in
    /// frames opened after frame `f` existed, and in frames opened inside
    /// those, a lookup from `f` finds what it found before they were opened.
    pub proof fn block_bindings_stay_inside(before: Environment<V>, after: Environment<V>, f: int, name: Seq<char>)
        requires
            0 <= f < before.frames().len() <= after.frames().len(),
            forall|g: int| 0 <= g < before.frames().len() ==> #[trigger] after.frames()[g] == before.frames()[g],
        ensures
            after.lookup(f, name) == before.lookup(f, name),
    {
        lemma_owner_prefix(before.frames(), after.frames(), before.frames().len() as int, f, name);
        lemma_owner_range(before.frames(), f, name);
    }

    /// A frame's own binding is what a lookup from that frame finds: a value
    /// bound afresh in each of several frames is seen, from each, as its own.
    pub proof fn own_binding_is_found(env: Environment<V>, f: int, name: Seq<char>)
        requires
            0 <= f < env.frames().len(),
            env.local(f, name) is Some,
        ensures
            env.lookup(f, name) == env.local(f, name),
    {
    }

    /// After an assignment, every frame whose lookup reached the binding that
    /// was assigned sees the new value: names that share one binding share
    /// its latest value.
    pub proof fn assignment_is_shared(before: Environment<V>, after: Environment<V>, f: int, g: int, name: Seq<char>, value: V)
        requires
            before.wf(),
            0 <= f < before.frames().len(),
            0 <= g < before.frames().len(),
            before.lookup(f, name) matches Some((_, c)) && !c,
            owner(before.frames(), g, name) == owner(before.frames(), f, name),
            owner(before.frames(), f, name) matches Some((h, i)) && {
                &&& after.frames().len() == before.frames().len()
                &&& forall|k: int| 0 <= k < before.frames().len() && k != h ==> after.frames()[k] == before.frames()[k]
                &&& after.frames()[h].parent == before.frames()[h].parent
                &&& after.frames()[h].bindings@ == before.frames()[h].bindings@.update(
                    i,
                    Binding { name: before.frames()[h].bindings@[i].name, value, is_const: false },
                )
            },
        ensures
            after.lookup(g, name) == Some((value, false)),
    {
        let (h, i) = owner(before.frames(), f, name)->Some_0;
        lemma_owner_range(before.frames(), g, name);
        lemma_owner_unchanged(before, after, g, name, h, i);
    }

    /// Defining a name never changes what another name means, from any frame.
    pub proof fn define_touches_one_name(before: Environment<V>, after: Environment<V>, f: int, g: int, name: Seq<char>, other: Seq<char>)
        requires
            before.wf(),
            0 <= f < before.frames().len(),
            0 <= g < before.frames().len(),
            after.frames().len() == before.frames().len(),
            forall|h: int| 0 <= h < before.frames().len() && h != f ==> after.frames()[h] == before.frames()[h],
            after.frames()[f].parent == before.frames()[f].parent,
            forall|n: Seq<char>| n != name ==> after.local(f, n) == before.local(f, n),
            other != name,
        ensures
            after.lookup(g, other) == before.lookup(g, other),
        decreases g,
    {
        let bs = before.frames()[g].bindings@;
        let as_ = after.frames()[g].bindings@;
        if g == f {
            lemma_find_range(bs, other);
            lemma_find_range(as_, other);
            assert(after.local(f, other) == before.local(f, other));
            if find(bs, other) < 0 {
                assert(find(as_, other) < 0);
                match before.frames()[g].parent {
                    Some(p) => {
                        Self::define_touches_one_name(before, after, f, p as int, name, other);
                    },
                    None => {},
                }
            } else {
                assert(find(as_, other) >= 0);
            }
        } else {
            assert(before.frames()[g].parent matches Some(p) ==> p < g);
            match before.frames()[g].parent {
                Some(p) => {
                    if find(bs, other) < 0 {
                        Self::define_touches_one_name(before, after, f, p as int, name, other);
                    }
                },
                None => {},
            }
        }
    }
}

proof fn lemma_find_update<V>(bs: Seq<Binding<V>>, i: int, b: Binding<V>, n: Seq<char>)
    requires
        0 <= i < bs.len(),
        bs[i].name@ == b.name@,
    ensures
        find(bs.update(i, b), n) == find(bs, n),
    decreases bs.len(),
{
    let us = bs.update(i, b);
    if i < bs.len() - 1 {
        assert(us.drop_last() =~= bs.drop_last().update(i, b));
        lemma_find_update(bs.drop_last(), i, b, n);
    } else {
        assert(us.drop_last() =~= bs.drop_last());
    }
}

/// Replacing one binding's value (keeping its name) leaves every lookup
/// resolving where it did.
proof fn lemma_owner_unchanged<V>(before: Environment<V>, after: Environment<V>, g: int, name: Seq<char>, h: int, i: int)
    requires
        0 <= h < before.frames().len(),
        0 <= i < before.frames()[h].bindings@.len(),
        after.frames().len() == before.frames().len(),
        forall|k: int| 0 <= k < before.frames().len() && k != h ==> after.frames()[k] == before.frames()[k],
        after.frames()[h].parent == before.frames()[h].parent,
        after.frames()[h].bindings@ == before.frames()[h].bindings@.update(
            i,
            Binding { name: before.frames()[h].bindings@[i].name, value: after.frames()[h].bindings@[i].value, is_const: false },
        ),
    ensures
        owner(after.frames(), g, name) == owner(before.frames(), g, name),
    decreases g,
{
    if 0 <= g < before.frames().len() {
        let bs = before.frames()[g].bindings@;
        let as_ = after.frames()[g].bindings@;
        if g == h {
            lemma_find_update(bs, i, as_[i], name);
            assert(as_ == bs.update(i, as_[i]));
        }
        assert(find(as_, name) == find(bs, name));
        match before.frames()[g].parent {
            Some(p) => {
                if p < g {
                    lemma_owner_unchanged(before, after, p as int, name, h, i);
                }
            },
            None => {},
        }
    }
}

fn undefined(name: &String) -> (r: MewError)
    ensures
        r.spec_kind() is Name,
{
    MewError::name(joined("Undefined variable ", name.as_str()))
}

} // verus!
