//! Where a running program keeps its local variables and reads its barrels.
//!
//! The values are those of the interpreter; here they are a type parameter.
use vstd::prelude::*;

verus! {

/// The binding of `name` in one scope: the latest one made there.
pub open spec fn frame_find<V>(frame: Seq<(Seq<char>, V)>, name: Seq<char>) -> Option<V>
    decreases frame.len(),
{
    if frame.len() == 0 {
        None
    } else if frame.last().0 == name {
        Some(frame.last().1)
    } else {
        frame_find(frame.drop_last(), name)
    }
}

/// The binding of `name` seen from the innermost scope out.
pub open spec fn scopes_find<V>(frames: Seq<Seq<(Seq<char>, V)>>, name: Seq<char>) -> Option<V>
    decreases frames.len(),
{
    if frames.len() == 0 {
        None
    } else {
        match frame_find(frames.last(), name) {
            Some(v) => Some(v),
            None => scopes_find(frames.drop_last(), name),
        }
    }
}

/// The position of the latest binding of `name` in a scope.
pub open spec fn frame_index<V>(frame: Seq<(Seq<char>, V)>, name: Seq<char>) -> Option<int>
    decreases frame.len(),
{
    if frame.len() == 0 {
        None
    } else if frame.last().0 == name {
        Some(frame.len() - 1)
    } else {
        frame_index(frame.drop_last(), name)
    }
}

/// A scope with `name` bound to `value`: the binding it had replaced, or a
/// new one added.
pub open spec fn frame_set<V>(frame: Seq<(Seq<char>, V)>, name: Seq<char>, value: V) -> Seq<(Seq<char>, V)> {
    match frame_index(frame, name) {
        Some(i) => frame.update(i, (name, value)),
        None => frame.push((name, value)),
    }
}

/// The scopes with `name` bound to `value` in the innermost one (no change
/// when there is none).
pub open spec fn scopes_set<V>(frames: Seq<Seq<(Seq<char>, V)>>, name: Seq<char>, value: V) -> Seq<Seq<(Seq<char>, V)>> {
    if frames.len() == 0 {
        frames
    } else {
        frames.update(frames.len() - 1, frame_set(frames.last(), name, value))
    }
}

/// What `frame_index` finds lies in the scope and carries the name.
proof fn lemma_frame_index<V>(frame: Seq<(Seq<char>, V)>, name: Seq<char>)
    ensures
        frame_index(frame, name) matches Some(i) ==> 0 <= i < frame.len() && frame[i].0 == name,
    decreases frame.len(),
{
    if frame.len() > 0 && frame.last().0 != name {
        lemma_frame_index(frame.drop_last(), name);
    }
}

/// Replacing the binding that `frame_index` found changes the lookup of that
/// name only.
proof fn lemma_frame_update<V>(frame: Seq<(Seq<char>, V)>, i: int, name: Seq<char>, value: V, other: Seq<char>)
    requires
        frame_index(frame, name) == Some(i),
    ensures
        frame_find(frame.update(i, (name, value)), other)
            == (if other == name { Some(value) } else { frame_find(frame, other) }),
    decreases frame.len(),
{
    let updated = frame.update(i, (name, value));
    lemma_frame_index(frame, name);
    if i == frame.len() - 1 {
        assert(updated.drop_last() =~= frame.drop_last());
    } else {
        assert(updated.drop_last() =~= frame.drop_last().update(i, (name, value)));
        lemma_frame_update(frame.drop_last(), i, name, value, other);
    }
}

/// A lookup in a scope after `frame_set`: the new value for that name, the
/// old lookup for every other.
proof fn lemma_frame_set<V>(frame: Seq<(Seq<char>, V)>, name: Seq<char>, value: V, other: Seq<char>)
    ensures
        frame_find(frame_set(frame, name, value), other)
            == (if other == name { Some(value) } else { frame_find(frame, other) }),
{
    match frame_index(frame, name) {
        Some(i) => lemma_frame_update(frame, i, name, value, other),
        None => {
            assert(frame.push((name, value)).drop_last() =~= frame);
        },
    }
}

/// Read after write: once `name` is bound to `value` in the innermost scope,
/// looking `name` up gives `value`, and looking up any other name gives what
/// it gave before.
pub proof fn law_lookup_after_set<V>(frames: Seq<Seq<(Seq<char>, V)>>, name: Seq<char>, value: V, other: Seq<char>)
    requires
        frames.len() > 0,
    ensures
        scopes_find(scopes_set(frames, name, value), name) == Some(value),
        other != name ==> scopes_find(scopes_set(frames, name, value), other) == scopes_find(frames, other),
{
    let updated = scopes_set(frames, name, value);
    assert(updated.drop_last() =~= frames.drop_last());
    lemma_frame_set(frames.last(), name, value, name);
    lemma_frame_set(frames.last(), name, value, other);
}

/// A new, empty innermost scope hides nothing: every lookup gives what it
/// gave before the scope was opened.
pub proof fn law_new_scope_sees_outer<V>(frames: Seq<Seq<(Seq<char>, V)>>, name: Seq<char>)
    ensures
        scopes_find(frames.push(Seq::empty()), name) == scopes_find(frames, name),
{
    assert(frames.push(Seq::empty()).drop_last() =~= frames);
}

/// A binding made in a scope does not outlive it: opening a scope, binding a
/// name there and closing the scope again leaves the scopes as they were.
pub proof fn law_scope_bindings_are_local<V>(frames: Seq<Seq<(Seq<char>, V)>>, name: Seq<char>, value: V)
    ensures
        scopes_set(frames.push(Seq::empty()), name, value).drop_last() == frames,
{
    assert(scopes_set(frames.push(Seq::empty()), name, value).drop_last() =~= frames);
}

/// The scopes of local variables: a stack of scopes, the innermost last,
/// each binding names to values.
pub struct Scopes<V> {
    frames: Vec<Vec<(String, V)>>,
}

pub open spec fn frame_view<V>(frame: Seq<(String, V)>) -> Seq<(Seq<char>, V)> {
    frame.map_values(|b: (String, V)| (b.0@, b.1))
}

impl<V> View for Scopes<V> {
    type V = Seq<Seq<(Seq<char>, V)>>;

    closed spec fn view(&self) -> Seq<Seq<(Seq<char>, V)>> {
        self.frames@.map_values(|f: Vec<(String, V)>| frame_view(f@))
    }
}

impl<V> Scopes<V> {
    /// One empty scope, the global one.
    pub fn new() -> (s: Self)
        ensures
            s@ == seq![Seq::<(Seq<char>, V)>::empty()],
    {
        let mut frames: Vec<Vec<(String, V)>> = Vec::new();
        frames.push(Vec::new());
        let s = Scopes { frames };
        assert(frame_view(Seq::<(String, V)>::empty()) =~= Seq::<(Seq<char>, V)>::empty());
        assert(s@ =~= seq![Seq::<(Seq<char>, V)>::empty()]);
        s
    }

    /// Opens a new innermost scope.
    pub fn push_scope(&mut self)
        ensures
            final(self)@ == old(self)@.push(Seq::empty()),
    {
        self.frames.push(Vec::new());
        assert(frame_view(Seq::<(String, V)>::empty()) =~= Seq::<(Seq<char>, V)>::empty());
        assert(self@ =~= old(self)@.push(Seq::empty()));
    }

    /// Closes the innermost scope, with its bindings.
    pub fn pop_scope(&mut self)
        ensures
            final(self)@ == (if old(self)@.len() == 0 { old(self)@ } else { old(self)@.drop_last() }),
    {
        self.frames.pop();
        assert(self@ =~= (if old(self)@.len() == 0 { old(self)@ } else { old(self)@.drop_last() }));
    }

    /// Binds `name` to `value` in the innermost scope.
    pub fn set(&mut self, name: String, value: V)
        ensures
            final(self)@ == scopes_set(old(self)@, name@, value),
    {
        let n = self.frames.len();
        if n == 0 {
            return;
        }
        let mut frame = self.frames.pop().unwrap();
        let ghost f0 = frame@;
        let ghost fv0 = frame_view(f0);
        assert(fv0 == old(self)@.last());
        let name_chars = crate::text::chars_of(name.as_str());
        assert(fv0.subrange(0, f0.len() as int) =~= fv0);
        let mut i = frame.len();
        let mut found = false;
        while i > 0
            invariant_except_break
                !found,
                frame_index(fv0, name@) == frame_index(fv0.subrange(0, i as int), name@),
            invariant
                i <= f0.len(),
                frame@ == f0,
                fv0 == frame_view(f0),
                name_chars@ == name@,
            ensures
                found ==> i < f0.len() && frame_index(fv0, name@) == Some(i as int),
                !found ==> frame_index(fv0, name@) == frame_index(fv0.subrange(0, 0), name@),
            decreases i,
        {
            assert(fv0.subrange(0, i as int).drop_last() =~= fv0.subrange(0, i - 1));
            i -= 1;
            if crate::text::string_eq_chars(&frame[i].0, &name_chars) {
                assert(fv0.subrange(0, i + 1).last() == fv0[i as int]);
                assert(fv0[i as int].0 == name@);
                found = true;
                break;
            }
        }
        let ghost expected = frame_set(fv0, name@, value);
        if found {
            frame.set(i, (name, value));
        } else {
            frame.push((name, value));
        }
        assert(frame_view(frame@) =~= expected);
        self.frames.push(frame);
        assert(self@ =~= scopes_set(old(self)@, name@, value));
    }

    /// The value bound to `name`, seen from the innermost scope out.
    pub fn get(&self, name: &str) -> (r: Option<&V>)
        ensures
            match r {
                Some(v) => scopes_find(self@, name@) == Some(*v),
                None => scopes_find(self@, name@) is None,
            },
    {
        let name_chars = crate::text::chars_of(name);
        let ghost all = self@;
        assert(all.subrange(0, all.len() as int) =~= all);
        let mut j = self.frames.len();
        while j > 0
            invariant
                j <= self.frames.len(),
                all == self@,
                all.len() == self.frames.len(),
                name_chars@ == name@,
                scopes_find(all, name@) == scopes_find(all.subrange(0, j as int), name@),
            decreases j,
        {
            let ghost frames_j = all.subrange(0, j as int);
            assert(frames_j.drop_last() =~= all.subrange(0, j - 1));
            j -= 1;
            let frame = &self.frames[j];
            let ghost fv = frame_view(frame@);
            assert(frames_j.last() == fv);
            assert(fv.subrange(0, fv.len() as int) =~= fv);
            let mut i = frame.len();
            while i > 0
                invariant
                    i <= frame.len(),
                    fv.len() == frame.len(),
                    name_chars@ == name@,
                    fv == frame_view(frame@),
                    all == self@,
                    frames_j.len() > 0,
                    frames_j.last() == fv,
                    scopes_find(all, name@) == scopes_find(frames_j, name@),
                    frame_find(fv, name@) == frame_find(fv.subrange(0, i as int), name@),
                decreases i,
            {
                assert(fv.subrange(0, i as int).drop_last() =~= fv.subrange(0, i - 1));
                i -= 1;
                if crate::text::string_eq_chars(&frame[i].0, &name_chars) {
                    assert(fv.subrange(0, i + 1).last() == fv[i as int]);
                    assert(fv[i as int].0 == name@);
                    assert(frame_find(fv, name@) == Some(fv[i as int].1));
                    assert(scopes_find(frames_j, name@) == Some(fv[i as int].1));
                    return Some(&frame[i].1);
                }
            }
            assert(fv.subrange(0, 0) =~= Seq::<(Seq<char>, V)>::empty());
        }
        assert(all.subrange(0, 0) =~= Seq::<Seq<(Seq<char>, V)>>::empty());
        None
    }
}

/// The element at a 1-based position of a barrel: positions run from 1 to
/// the barrel's length; any other gives nothing.
pub fn barrel_get<V>(barrel: &Vec<V>, position: usize) -> (r: Option<&V>)
    ensures
        match r {
            Some(v) => 1 <= position <= barrel@.len() && *v == barrel@[position - 1],
            None => position < 1 || position > barrel@.len(),
        },
{
    if position < 1 || position > barrel.len() {
        None
    } else {
        Some(&barrel[position - 1])
    }
}

} // verus!
