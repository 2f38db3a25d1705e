use vstd::prelude::*;
use crate::lox_value::{LoxValue, Val};

verus! {

/// A variable of a scope frame.
#[derive(Debug)]
pub struct Binding {
    pub name: String,
    pub value: LoxValue,
}

/// The runtime scopes.  Frames live in an arena and are never removed, so
/// that a closure can keep the indices of the frames it captured and see
/// later changes to them; `stack` lists the active frames, innermost last.
#[derive(Debug)]
pub struct Environment {
    frames: Vec<Vec<Binding>>,
    stack: Vec<usize>,
}

/// The model of a binding.
pub struct BindingV {
    pub name: Seq<char>,
    pub value: Val,
}

impl View for Binding {
    type V = BindingV;

    open spec fn view(&self) -> BindingV {
        BindingV { name: self.name@, value: self.value@ }
    }
}

/// The model of a frame.
pub open spec fn frame_view(f: Vec<Binding>) -> Seq<BindingV> {
    f@.map_values(|b: Binding| b@)
}

/// The abstract state of an environment.
pub struct EnvState {
    pub frames: Seq<Seq<BindingV>>,
    pub stack: Seq<usize>,
}

/// The latest binding of `name` in a frame.
pub open spec fn slot_in(frame: Seq<BindingV>, name: Seq<char>) -> Option<int>
    decreases frame.len(),
{
    if frame.len() == 0 {
        None
    } else if frame.last().name == name {
        Some(frame.len() - 1)
    } else {
        slot_in(frame.drop_last(), name)
    }
}

/// The position in `stack` of the innermost frame that binds `name`.
pub open spec fn scope_of(frames: Seq<Seq<BindingV>>, stack: Seq<usize>, name: Seq<char>) -> Option<int>
    decreases stack.len(),
{
    if stack.len() == 0 {
        None
    } else if stack.last() < frames.len() && slot_in(frames[stack.last() as int], name) is Some {
        Some(stack.len() - 1)
    } else {
        scope_of(frames, stack.drop_last(), name)
    }
}

/// Every index of `stack` names a frame of an arena of `n` frames.
pub open spec fn valid_stack(n: int, stack: Seq<usize>) -> bool {
    forall|i: int| 0 <= i < stack.len() ==> #[trigger] stack[i] < n
}

impl EnvState {
    /// Every active frame exists in the arena.
    pub open spec fn wf(self) -> bool {
        valid_stack(self.frames.len() as int, self.stack)
    }

    /// The frame (in the arena) and slot that hold `name`, if any.
    pub open spec fn locate(self, name: Seq<char>) -> Option<(int, int)> {
        match scope_of(self.frames, self.stack, name) {
            Some(k) => {
                let f = self.stack[k] as int;
                Some((f, slot_in(self.frames[f], name).unwrap()))
            },
            None => None,
        }
    }

    /// The value of `name`, searched from the innermost frame outwards.
    pub open spec fn lookup(self, name: Seq<char>) -> Option<Val> {
        match self.locate(name) {
            Some((f, i)) => Some(self.frames[f][i].value),
            None => None,
        }
    }

    /// A fresh empty frame pushed on the stack.
    pub open spec fn pushed(self) -> EnvState {
        EnvState { frames: self.frames.push(Seq::empty()), stack: self.stack.push(self.frames.len() as usize) }
    }

    /// The innermost frame taken off the stack (it stays in the arena).
    pub open spec fn popped(self) -> EnvState {
        EnvState { frames: self.frames, stack: if self.stack.len() > 0 { self.stack.drop_last() } else { self.stack } }
    }

    /// `name` bound to `value` in the innermost frame.
    pub open spec fn defined(self, name: Seq<char>, value: Val) -> EnvState {
        let top = self.stack.last() as int;
        if self.stack.len() > 0 && top < self.frames.len() {
            EnvState {
                frames: self.frames.update(top, self.frames[top].push(BindingV { name, value })),
                stack: self.stack,
            }
        } else {
            self
        }
    }

    /// The binding of `name` found by `locate` set to `value`.
    pub open spec fn assigned(self, name: Seq<char>, value: Val) -> EnvState {
        match self.locate(name) {
            Some((f, i)) => EnvState {
                frames: self.frames.update(f, self.frames[f].update(i, BindingV { name, value })),
                stack: self.stack,
            },
            None => self,
        }
    }

    /// The same frames with another active stack.
    pub open spec fn with_stack(self, stack: Seq<usize>) -> EnvState {
        EnvState { frames: self.frames, stack }
    }
}

impl Environment {
    /// The abstract state.
    pub closed spec fn state(&self) -> EnvState {
        EnvState { frames: self.frames@.map_values(|f: Vec<Binding>| frame_view(f)), stack: self.stack@ }
    }

    /// A new environment with one empty (global) frame.
    pub fn new() -> (r: Environment)
        ensures
            r.state().frames =~= seq![Seq::<BindingV>::empty()],
            r.state().stack =~= seq![0usize],
            r.state().wf(),
    {
        let mut frames: Vec<Vec<Binding>> = Vec::new();
        let first: Vec<Binding> = Vec::new();
        assert(frame_view(first) =~= Seq::<BindingV>::empty());
        frames.push(first);
        let mut stack: Vec<usize> = Vec::new();
        stack.push(0);
        let r = Environment { frames, stack };
        assert(r.state().frames =~= seq![Seq::<BindingV>::empty()]);
        r
    }

    /// The active frames, innermost last.
    pub fn active(&self) -> (r: Vec<usize>)
        ensures
            r@ == self.state().stack,
    {
        let mut r: Vec<usize> = Vec::new();
        let mut i: usize = 0;
        while i < self.stack.len()
            invariant
                i <= self.stack@.len(),
                r@ =~= self.stack@.subrange(0, i as int),
            decreases self.stack@.len() - i,
        {
            r.push(self.stack[i]);
            i = i + 1;
        }
        assert(r@ =~= self.stack@);
        r
    }

    /// Makes `stack`, whose frames must exist, the active frames.
    pub fn set_active(&mut self, stack: Vec<usize>)
        requires
            valid_stack(old(self).state().frames.len() as int, stack@),
        ensures
            final(self).state() == old(self).state().with_stack(stack@),
    {
        self.stack = stack;
    }

    /// Opens a new innermost scope.
    pub fn push(&mut self)
        ensures
            final(self).state() == old(self).state().pushed(),
            old(self).state().wf() ==> final(self).state().wf(),
    {
        let n = self.frames.len();
        let fresh: Vec<Binding> = Vec::new();
        assert(frame_view(fresh) =~= Seq::<BindingV>::empty());
        self.frames.push(fresh);
        self.stack.push(n);
        assert(self.state().frames =~= old(self).state().pushed().frames);
    }

    /// Closes the innermost scope.
    pub fn pop(&mut self)
        ensures
            final(self).state() == old(self).state().popped(),
            old(self).state().wf() ==> final(self).state().wf(),
    {
        if self.stack.len() > 0 {
            self.stack.pop();
        }
        assert(self.state().stack =~= old(self).state().popped().stack);
    }

    fn find(&self, name: &String) -> (r: Option<(usize, usize)>)
        ensures
            r matches Some((f, i)) ==> self.state().locate(name@) == Some((f as int, i as int))
                && f < self.frames@.len() && i < self.frames@[f as int]@.len(),
            r is None ==> self.state().locate(name@) is None,
    {
        let ghost st = self.state();
        let mut k = self.stack.len();
        assert(st.stack.subrange(0, k as int) =~= st.stack);
        while k > 0
            invariant
                k <= self.stack@.len(),
                st == self.state(),
                scope_of(st.frames, st.stack, name@) == scope_of(st.frames, st.stack.subrange(0, k as int), name@),
            decreases k,
        {
            let f = self.stack[k - 1];
            if f >= self.frames.len() {
                let ghost sk = st.stack.subrange(0, k as int);
                assert(sk.last() == f);
                assert(sk.drop_last() =~= st.stack.subrange(0, k - 1));
                k = k - 1;
                continue;
            }
            let ghost sk = st.stack.subrange(0, k as int);
            assert(sk.last() == f);
            assert(sk.drop_last() =~= st.stack.subrange(0, k - 1));
            let frame = &self.frames[f];
            let ghost fv = frame_view(*frame);
            assert(fv == st.frames[f as int]);
            let mut i = frame.len();
            assert(fv.subrange(0, i as int) =~= fv);
            while i > 0
                invariant
                    i <= fv.len(),
                    fv.len() == frame@.len(),
                    fv == frame_view(*frame),
                    slot_in(fv, name@) == slot_in(fv.subrange(0, i as int), name@),
                    0 < k <= self.stack@.len(),
                    st == self.state(),
                    f == st.stack[k - 1],
                    f < st.frames.len(),
                    fv == st.frames[f as int],
                    *frame == self.frames@[f as int],
                    scope_of(st.frames, st.stack, name@) == scope_of(st.frames, sk, name@),
                    sk == st.stack.subrange(0, k as int),
                decreases i,
            {
                let ghost sub = fv.subrange(0, i as int);
                assert(sub.last() == fv[i - 1]);
                if frame[i - 1].name.eq(name) {
                    assert(slot_in(sub, name@) == Some(i - 1));
                    assert(scope_of(st.frames, sk, name@) == Some(k - 1));
                    return Some((f, i - 1));
                }
                assert(sub.drop_last() =~= fv.subrange(0, i - 1));
                i = i - 1;
            }
            assert(fv.subrange(0, 0) =~= Seq::<BindingV>::empty());
            k = k - 1;
        }
        assert(st.stack.subrange(0, 0) =~= Seq::<usize>::empty());
        None
    }

    /// Binds `name` to `value` in the innermost scope, shadowing any outer
    /// binding of the name.
    pub fn define(&mut self, name: String, value: LoxValue)
        ensures
            final(self).state() == old(self).state().defined(name@, value@),
            final(self).state().frames.len() == old(self).state().frames.len(),
            final(self).state().stack == old(self).state().stack,
    {
        if self.stack.len() == 0 {
            return;
        }
        let top = self.stack[self.stack.len() - 1];
        if top >= self.frames.len() {
            return;
        }
        let ghost old_frame = self.frames@[top as int];
        let b = Binding { name, value };
        self.frames[top].push(b);
        assert(frame_view(self.frames@[top as int]) =~= frame_view(old_frame).push(b@));
        assert(self.state().frames =~= old(self).state().defined(name@, value@).frames);
    }

    /// The value of `name`, from the innermost scope that binds it.
    pub fn get(&self, name: &String) -> (r: Option<LoxValue>)
        ensures
            r matches Some(v) ==> self.state().lookup(name@) == Some(v@),
            r is None ==> self.state().lookup(name@) is None,
    {
        match self.find(name) {
            Some((f, i)) => Some(self.frames[f][i].value.duplicate()),
            None => None,
        }
    }

    /// Sets `name`, in the innermost scope that binds it, to `value`;
    /// `false` when no scope binds it.
    pub fn assign(&mut self, name: String, value: LoxValue) -> (found: bool)
        ensures
            found == old(self).state().locate(name@) is Some,
            final(self).state().frames.len() == old(self).state().frames.len(),
            final(self).state().stack == old(self).state().stack,
            final(self).state() == old(self).state().assigned(name@, value@),
    {
        match self.find(&name) {
            Some((f, i)) => {
                let ghost old_frame = self.frames@[f as int];
                let b = Binding { name, value };
                self.frames[f].set(i, b);
                assert(frame_view(self.frames@[f as int]) =~= frame_view(old_frame).update(i as int, b@));
                assert(self.state().frames =~= old(self).state().assigned(name@, value@).frames);
                true
            },
            None => false,
        }
    }
}

} // verus!
