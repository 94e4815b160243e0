//! Lexical scopes of variable types for the analyzers: a stack of frames,
//! each mapping names to type names, where a later entry for a name hides an
//! earlier one and an inner frame hides an outer one.

use vstd::prelude::*;
use crate::text::str_eq;

verus! {

/// One frame: (name, type) entries in insertion order.
pub type FrameView = Seq<(Seq<char>, Seq<char>)>;

/// The type a frame gives `name`: its latest entry for it.
pub open spec fn frame_lookup(f: FrameView, name: Seq<char>) -> Option<Seq<char>>
    decreases f.len(),
{
    if f.len() == 0 {
        None
    } else if f.last().0 == name {
        Some(f.last().1)
    } else {
        frame_lookup(f.drop_last(), name)
    }
}

/// The type the innermost frame that knows `name` gives it.
pub open spec fn lookup(fs: Seq<FrameView>, name: Seq<char>) -> Option<Seq<char>>
    decreases fs.len(),
{
    if fs.len() == 0 {
        None
    } else {
        match frame_lookup(fs.last(), name) {
            Some(t) => Some(t),
            None => lookup(fs.drop_last(), name),
        }
    }
}

/// Records `name: ty` in the innermost frame (nothing when there is none).
pub open spec fn set_var(fs: Seq<FrameView>, name: Seq<char>, ty: Seq<char>) -> Seq<FrameView> {
    if fs.len() == 0 {
        fs
    } else {
        fs.update(fs.len() - 1, fs.last().push((name, ty)))
    }
}

/// Opens a new innermost frame.
pub open spec fn enter(fs: Seq<FrameView>) -> Seq<FrameView> {
    fs.push(seq![])
}

/// Closes the innermost frame (nothing when there is none).
pub open spec fn exit(fs: Seq<FrameView>) -> Seq<FrameView> {
    if fs.len() == 0 {
        fs
    } else {
        fs.drop_last()
    }
}

pub open spec fn entry_view(p: (String, String)) -> (Seq<char>, Seq<char>) {
    (p.0@, p.1@)
}

pub open spec fn frame_view(f: Vec<(String, String)>) -> FrameView {
    f@.map_values(|p: (String, String)| entry_view(p))
}

/// The scope stack of an analyzer.
pub struct Scopes {
    frames: Vec<Vec<(String, String)>>,
}

impl Scopes {
    pub closed spec fn view(self) -> Seq<FrameView> {
        self.frames@.map_values(|f: Vec<(String, String)>| frame_view(f))
    }

    /// One empty frame: the global scope.
    pub fn global() -> (s: Self)
        ensures
            s.view() == seq![Seq::<(Seq<char>, Seq<char>)>::empty()],
    {
        let mut frames: Vec<Vec<(String, String)>> = Vec::new();
        frames.push(Vec::new());
        let s = Scopes { frames };
        assert(frame_view(s.frames@[0]) =~= Seq::<(Seq<char>, Seq<char>)>::empty());
        assert(s.view() =~= seq![Seq::<(Seq<char>, Seq<char>)>::empty()]);
        s
    }

    pub fn enter_scope(&mut self)
        ensures
            final(self).view() == enter(old(self).view()),
    {
        self.frames.push(Vec::new());
        assert(frame_view(self.frames@.last()) =~= Seq::<(Seq<char>, Seq<char>)>::empty());
        assert(self.view() =~= enter(old(self).view()));
    }

    pub fn exit_scope(&mut self)
        ensures
            final(self).view() == exit(old(self).view()),
    {
        self.frames.pop();
        assert(self.view() =~= exit(old(self).view()));
    }

    pub fn set_var_type(&mut self, name: &str, ty: &str)
        ensures
            final(self).view() == set_var(old(self).view(), name@, ty@),
    {
        let n = self.frames.len();
        if n > 0 {
            let mut last = self.frames.pop().unwrap();
            last.push((name.to_string(), ty.to_string()));
            self.frames.push(last);
            proof {
                let f = old(self).frames@[n - 1];
                assert(frame_view(last) =~= frame_view(f).push((name@, ty@)));
                assert(self.view() =~= set_var(old(self).view(), name@, ty@));
            }
        } else {
            assert(self.view() =~= set_var(old(self).view(), name@, ty@));
        }
    }

    pub fn get_var_type(&self, name: &str) -> (r: Option<String>)
        ensures
            r matches Some(t) ==> lookup(self.view(), name@) == Some(t@),
            r is None ==> lookup(self.view(), name@) is None,
    {
        let mut i = self.frames.len();
        assert(self.view().take(i as int) =~= self.view());
        while i > 0
            invariant
                i <= self.frames@.len(),
                lookup(self.view(), name@) == lookup(self.view().take(i as int), name@),
            decreases i,
        {
            let frame = &self.frames[i - 1];
            let ghost fv = frame_view(*frame);
            assert(self.view().take(i as int).last() == fv);
            assert(self.view().take(i as int).drop_last() == self.view().take(i - 1));
            let mut j = frame.len();
            assert(fv.take(j as int) =~= fv);
            while j > 0
                invariant
                    j <= frame@.len(),
                    frame_lookup(fv, name@) == frame_lookup(fv.take(j as int), name@),
                    fv == frame_view(*frame),
                    0 < i <= self.frames@.len(),
                    self.view().take(i as int).last() == fv,
                    self.view().take(i as int).len() > 0,
                    lookup(self.view(), name@) == lookup(self.view().take(i as int), name@),
                decreases j,
            {
                assert(fv.take(j as int).last() == entry_view(frame@[j - 1]));
                assert(fv.take(j as int).drop_last() == fv.take(j - 1));
                if str_eq(frame[j - 1].0.as_str(), name) {
                    let t = frame[j - 1].1.clone();
                    assert(frame_lookup(fv.take(j as int), name@) == Some(t@));
                    assert(lookup(self.view().take(i as int), name@) == Some(t@));
                    return Some(t);
                }
                j = j - 1;
            }
            assert(fv.take(0).len() == 0);
            i = i - 1;
        }
        None
    }
}

} // verus!
