//! The chained environment: scope frames held in an arena.
//!
//! A frame is one lexical scope's name-to-value bindings plus a link to
//! its enclosing frame. Frames are created per block, per function call
//! and per closure capture, and are shared by every closure that
//! captured them, so they live in one arena ([`Environment`]) and are
//! addressed by index; a parent link is an index too, always pointing
//! at an older frame. Frame `0` is the single global frame.
//!
//! Lookups come in two addressing modes, mirroring what the resolver
//! computes: a static hop count (`distance`) that walks exactly that
//! many parent links, or no distance at all, which always addresses the
//! global frame.

use crate::expr::{FunKind, FunM, LiteralValue, ValueM};
use vstd::prelude::*;

verus! {

/// The mathematical model of one frame: its parent link and its
/// bindings as a map from name to value model.
#[verifier::ext_equal]
pub struct FrameM {
    pub parent: Option<int>,
    pub bindings: Map<Seq<char>, ValueM>,
}

/// The bindings of a frame as a map, from parallel name/value vectors;
/// later entries win, though well-formed frames have unique names.
pub open spec fn frame_map(names: Seq<String>, vals: Seq<LiteralValue>) -> Map<Seq<char>, ValueM>
    decreases names.len(),
{
    if names.len() == 0 || names.len() != vals.len() {
        Map::empty()
    } else {
        frame_map(names.drop_last(), vals.drop_last()).insert(names.last()@, vals.last()@)
    }
}

/// One scope frame: a parent link and parallel name/value vectors.
pub struct Frame {
    pub parent: Option<usize>,
    pub names: Vec<String>,
    pub values: Vec<LiteralValue>,
}

impl View for Frame {
    type V = FrameM;

    open spec fn view(&self) -> FrameM {
        FrameM {
            parent: match self.parent {
                Option::Some(p) => Option::Some(p as int),
                Option::None => Option::None,
            },
            bindings: frame_map(self.names@, self.values@),
        }
    }
}

impl Frame {
    /// Well-formed: parallel vectors of one length, names unique.
    pub open spec fn wf(&self) -> bool {
        &&& self.names@.len() == self.values@.len()
        &&& forall|i: int, j: int|
            0 <= i < j < self.names@.len() ==> self.names@[i]@ != self.names@[j]@
    }
}

proof fn lemma_frame_map_found(names: Seq<String>, vals: Seq<LiteralValue>, i: int)
    requires
        names.len() == vals.len(),
        0 <= i < names.len(),
        forall|a: int, b: int| 0 <= a < b < names.len() ==> names[a]@ != names[b]@,
    ensures
        frame_map(names, vals).contains_key(names[i]@),
        frame_map(names, vals)[names[i]@] == vals[i]@,
    decreases names.len(),
{
    if i == names.len() - 1 {
    } else {
        lemma_frame_map_found(names.drop_last(), vals.drop_last(), i);
    }
}

proof fn lemma_frame_map_missing(names: Seq<String>, vals: Seq<LiteralValue>, key: Seq<char>)
    requires
        names.len() == vals.len(),
        forall|a: int| 0 <= a < names.len() ==> names[a]@ != key,
    ensures
        !frame_map(names, vals).contains_key(key),
    decreases names.len(),
{
    if names.len() > 0 {
        lemma_frame_map_missing(names.drop_last(), vals.drop_last(), key);
    }
}

proof fn lemma_frame_map_update(
    names: Seq<String>,
    vals: Seq<LiteralValue>,
    i: int,
    v: LiteralValue,
)
    requires
        names.len() == vals.len(),
        0 <= i < names.len(),
        forall|a: int, b: int| 0 <= a < b < names.len() ==> names[a]@ != names[b]@,
    ensures
        frame_map(names, vals.update(i, v)) == frame_map(names, vals).insert(names[i]@, v@),
    decreases names.len(),
{
    let upd = vals.update(i, v);
    assert(upd.len() == names.len());
    if i == names.len() - 1 {
        assert(upd.drop_last() =~= vals.drop_last());
        assert(frame_map(names, upd) =~= frame_map(names, vals).insert(names[i]@, v@));
    } else {
        assert(upd.drop_last() =~= vals.drop_last().update(i, v));
        lemma_frame_map_update(names.drop_last(), vals.drop_last(), i, v);
        assert(names[i]@ != names.last()@);
        assert(frame_map(names, upd) =~= frame_map(names, vals).insert(names[i]@, v@));
    }
}

impl Frame {
    /// The index of `name` in this frame, if bound here.
    fn find(&self, name: &String) -> (r: Option<usize>)
        requires
            self.wf(),
        ensures
            match r {
                Option::Some(i) => i < self.names@.len() && self.names@[i as int]@ == name@,
                Option::None => forall|a: int| 0 <= a < self.names@.len() ==> self.names@[a]@
                    != name@,
            },
    {
        let mut i: usize = 0;
        while i < self.names.len()
            invariant
                i <= self.names@.len(),
                forall|a: int| 0 <= a < i ==> self.names@[a]@ != name@,
            decreases self.names@.len() - i,
        {
            if self.names[i] == *name {
                return Option::Some(i);
            }
            i = i + 1;
        }
        Option::None
    }

    /// Inserts or overwrites a binding in this frame alone; reports
    /// whether the name was already bound here.
    fn set_local(&mut self, name: String, value: LiteralValue) -> (existed: bool)
        requires
            old(self).wf(),
        ensures
            final(self).wf(),
            final(self).parent == old(self).parent,
            final(self)@ == (FrameM {
                parent: old(self)@.parent,
                bindings: old(self)@.bindings.insert(name@, value@),
            }),
            existed == old(self)@.bindings.contains_key(name@),
    {
        let found = self.find(&name);
        match found {
            Option::Some(i) => {
                proof {
                    lemma_frame_map_found(self.names@, self.values@, i as int);
                    lemma_frame_map_update(self.names@, self.values@, i as int, value);
                }
                self.values[i] = value;
                proof {
                    assert(self@ =~= (FrameM {
                        parent: old(self)@.parent,
                        bindings: old(self)@.bindings.insert(name@, value@),
                    }));
                }
                true
            },
            Option::None => {
                proof {
                    lemma_frame_map_missing(self.names@, self.values@, name@);
                }
                let ghost old_names = self.names@;
                let ghost old_vals = self.values@;
                self.names.push(name);
                self.values.push(value);
                proof {
                    assert(self.names@.drop_last() =~= old_names);
                    assert(self.values@.drop_last() =~= old_vals);
                    assert(self@ =~= (FrameM {
                        parent: old(self)@.parent,
                        bindings: old(self)@.bindings.insert(name@, value@),
                    }));
                }
                false
            },
        }
    }
}

/// The value bound to the built-in `clock` native in the global frame.
pub open spec fn clock_callable() -> ValueM {
    ValueM::Callable { name: "clock"@, arity: 0, fun: FunM::Clock }
}

/// The result of a lookup: the value found, a miss at the addressed
/// frame (an undeclared-variable condition for the caller), or a hop
/// count that walks past the root, which callers treat as a fatal
/// resolver/interpreter desynchronization, never a user error.
pub enum LookupResult {
    Found(LiteralValue),
    Missing,
    BadDistance,
}

/// The model of a [`LookupResult`].
pub enum LookupM {
    Found(ValueM),
    Missing,
    BadDistance,
}

impl View for LookupResult {
    type V = LookupM;

    open spec fn view(&self) -> LookupM {
        match self {
            LookupResult::Found(v) => LookupM::Found(v@),
            LookupResult::Missing => LookupM::Missing,
            LookupResult::BadDistance => LookupM::BadDistance,
        }
    }
}

/// Hops exactly `d` parent links up from `cur`, if the chain is long
/// enough.
pub open spec fn hop_spec(fs: Seq<FrameM>, cur: int, d: nat) -> Option<int>
    decreases d,
{
    if !(0 <= cur < fs.len()) {
        Option::None
    } else if d == 0 {
        Option::Some(cur)
    } else {
        match fs[cur].parent {
            Option::None => Option::None,
            Option::Some(p) => hop_spec(fs, p, (d - 1) as nat),
        }
    }
}

/// The frame a lookup with the given distance addresses, seen from
/// `cur`: the global frame when the distance is absent, else exactly
/// `d` hops up.
pub open spec fn addr_spec(fs: Seq<FrameM>, cur: int, dist: Option<usize>) -> Option<int> {
    match dist {
        Option::None => Option::Some(0int),
        Option::Some(d) => hop_spec(fs, cur, d as nat),
    }
}

/// What a lookup of `key` from `cur` with the given distance returns.
pub open spec fn get_spec(
    fs: Seq<FrameM>,
    cur: int,
    key: Seq<char>,
    dist: Option<usize>,
) -> LookupM {
    match addr_spec(fs, cur, dist) {
        Option::None => LookupM::BadDistance,
        Option::Some(f) => if fs[f].bindings.contains_key(key) {
            LookupM::Found(fs[f].bindings[key])
        } else {
            LookupM::Missing
        },
    }
}

/// The arena of scope frames; frame `0` is the global frame, born with
/// the built-in natives.
pub struct Environment {
    pub frames: Vec<Frame>,
}

impl View for Environment {
    type V = Seq<FrameM>;

    open spec fn view(&self) -> Seq<FrameM> {
        self.frames@.map_values(|f: Frame| f@)
    }
}

impl Environment {
    /// Well-formed: at least the global frame, which alone has no
    /// parent; every other frame's parent is an older frame; every
    /// frame is itself well-formed.
    pub open spec fn wf(&self) -> bool {
        &&& self.frames@.len() >= 1
        &&& self.frames@[0].parent is None
        &&& forall|i: int|
            1 <= i < self.frames@.len() ==> ((#[trigger] self.frames@[i]).parent matches Option::Some(
                p,
            ) && p < i)
        &&& forall|i: int| 0 <= i < self.frames@.len() ==> (#[trigger] self.frames@[i]).wf()
    }

    /// The number of frames in the arena.
    pub open spec fn len(&self) -> nat {
        self.frames@.len()
    }

    /// A fresh arena holding only the global frame, pre-populated with
    /// the built-in `clock` native.
    pub fn new() -> (env: Environment)
        ensures
            env.wf(),
            env@ =~= seq![
                FrameM {
                    parent: Option::None,
                    bindings: Map::<Seq<char>, ValueM>::empty().insert("clock"@, clock_callable()),
                },
            ],
    {
        let name = "clock".to_owned();
        let clock = LiteralValue::Callable { name: "clock".to_owned(), arity: 0, fun: FunKind::Clock };
        let frame = Frame { parent: Option::None, names: vec![name], values: vec![clock] };
        proof {
            reveal_with_fuel(frame_map, 2);
            assert(frame.names@.drop_last() =~= Seq::<String>::empty());
            assert(frame.values@.drop_last() =~= Seq::<LiteralValue>::empty());
            assert(frame@.bindings =~= Map::<Seq<char>, ValueM>::empty().insert(
                "clock"@,
                clock_callable(),
            ));
        }
        let env = Environment { frames: vec![frame] };
        proof {
            assert(env@ =~= seq![frame@]);
        }
        env
    }

    /// Appends a fresh, empty frame whose parent is `parent` and hands
    /// back its handle.
    pub fn push_frame(&mut self, parent: usize) -> (h: usize)
        requires
            old(self).wf(),
            parent < old(self).len(),
        ensures
            final(self).wf(),
            h == old(self)@.len(),
            final(self)@ =~= old(self)@.push(
                FrameM { parent: Option::Some(parent as int), bindings: Map::empty() },
            ),
    {
        let h = self.frames.len();
        let frame = Frame { parent: Option::Some(parent), names: Vec::new(), values: Vec::new() };
        self.frames.push(frame);
        proof {
            assert(frame@.bindings =~= Map::<Seq<char>, ValueM>::empty());
            assert(self@ =~= old(self)@.push(
                FrameM { parent: Option::Some(parent as int), bindings: Map::empty() },
            ));
        }
        h
    }

    /// Inserts or overwrites a binding in frame `frame` alone; nothing
    /// else changes, so in particular a definition in an inner frame
    /// never touches an outer one.
    pub fn define(&mut self, frame: usize, name: String, value: LiteralValue)
        requires
            old(self).wf(),
            frame < old(self).len(),
        ensures
            final(self).wf(),
            final(self).len() == old(self).len(),
            final(self)@ =~= old(self)@.update(
                frame as int,
                FrameM {
                    parent: old(self)@[frame as int].parent,
                    bindings: old(self)@[frame as int].bindings.insert(name@, value@),
                },
            ),
    {
        proof {
            assert(self@[frame as int] == self.frames@[frame as int]@);
        }
        self.frames[frame].set_local(name, value);
        proof {
            assert(self@ =~= old(self)@.update(
                frame as int,
                FrameM {
                    parent: old(self)@[frame as int].parent,
                    bindings: old(self)@[frame as int].bindings.insert(name@, value@),
                },
            ));
        }
    }

    /// Walks exactly `distance` parent links up from `frame`.
    fn hop(&self, frame: usize, distance: usize) -> (r: Option<usize>)
        requires
            self.wf(),
            frame < self.len(),
        ensures
            match r {
                Option::Some(f) => hop_spec(self@, frame as int, distance as nat) == Option::Some(
                    f as int,
                ) && f < self.len(),
                Option::None => hop_spec(self@, frame as int, distance as nat) is None,
            },
    {
        let mut cur = frame;
        let mut d = distance;
        while d > 0
            invariant
                self.wf(),
                cur < self.len(),
                hop_spec(self@, frame as int, distance as nat) == hop_spec(
                    self@,
                    cur as int,
                    d as nat,
                ),
            decreases d,
        {
            proof {
                assert(self@[cur as int] == self.frames@[cur as int]@);
            }
            match self.frames[cur].parent {
                Option::None => {
                    return Option::None;
                },
                Option::Some(p) => {
                    cur = p;
                },
            }
            d = d - 1;
        }
        Option::Some(cur)
    }

    /// Looks `name` up. With a distance, reads exactly the frame that
    /// many hops up from `frame`; with none, reads the global frame,
    /// whatever the current nesting. A miss at the addressed frame is
    /// `Missing`; a distance that walks past the root is
    /// `BadDistance`.
    pub fn get(&self, frame: usize, name: &String, distance: Option<usize>) -> (r: LookupResult)
        requires
            self.wf(),
            frame < self.len(),
        ensures
            r@ == get_spec(self@, frame as int, name@, distance),
    {
        let f = match distance {
            Option::None => 0usize,
            Option::Some(d) => {
                match self.hop(frame, d) {
                    Option::Some(f) => f,
                    Option::None => {
                        return LookupResult::BadDistance;
                    },
                }
            },
        };
        proof {
            assert(self@[f as int] == self.frames@[f as int]@);
        }
        let fr = &self.frames[f];
        match fr.find(name) {
            Option::Some(i) => {
                proof {
                    lemma_frame_map_found(fr.names@, fr.values@, i as int);
                }
                LookupResult::Found(fr.values[i].clone())
            },
            Option::None => {
                proof {
                    lemma_frame_map_missing(fr.names@, fr.values@, name@);
                }
                LookupResult::Missing
            },
        }
    }

    /// Writes `value` over the binding of `name` in the addressed
    /// frame — the same addressing as [`Environment::get`] — and
    /// reports whether the name was already bound in exactly that
    /// frame. `None` stands for a distance that walks past the root;
    /// nothing changes then.
    pub fn assign(
        &mut self,
        frame: usize,
        name: &String,
        value: LiteralValue,
        distance: Option<usize>,
    ) -> (r: Option<bool>)
        requires
            old(self).wf(),
            frame < old(self).len(),
        ensures
            final(self).wf(),
            final(self).len() == old(self).len(),
            match addr_spec(old(self)@, frame as int, distance) {
                Option::None => r is None && final(self)@ == old(self)@,
                Option::Some(f) => {
                    &&& r == Option::Some(old(self)@[f].bindings.contains_key(name@))
                    &&& final(self)@ =~= old(self)@.update(
                        f,
                        FrameM {
                            parent: old(self)@[f].parent,
                            bindings: old(self)@[f].bindings.insert(name@, value@),
                        },
                    )
                },
            },
    {
        let f = match distance {
            Option::None => 0usize,
            Option::Some(d) => {
                match self.hop(frame, d) {
                    Option::Some(f) => f,
                    Option::None => {
                        return Option::None;
                    },
                }
            },
        };
        proof {
            assert(self@[f as int] == self.frames@[f as int]@);
        }
        let existed = self.frames[f].set_local(name.clone(), value);
        proof {
            assert(self@ =~= old(self)@.update(
                f as int,
                FrameM {
                    parent: old(self)@[f as int].parent,
                    bindings: old(self)@[f as int].bindings.insert(name@, value@),
                },
            ));
        }
        Option::Some(existed)
    }
}


/// Law: global fallback. A lookup with no recorded distance always
/// reads the single global frame, so the frame it resolves against —
/// and hence the binding it finds — is the same from every use site
/// and every call depth.
pub proof fn lemma_global_fallback(fs: Seq<FrameM>, cur1: int, cur2: int, key: Seq<char>)
    ensures
        get_spec(fs, cur1, key, Option::None) == get_spec(fs, cur2, key, Option::None),
{
}

} // verus!
