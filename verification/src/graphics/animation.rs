//! Animation clips and named sets of them.

use crate::fixed::minus;
use crate::fixed::over;
use crate::fixed::plus;
use crate::fixed::ONE;
use crate::graphics::image::pictures;
use crate::graphics::image::Image;
use crate::graphics::image::Picture;
use crate::graphics::names::lemma_precedes_irreflexive;
use crate::graphics::names::lemma_precedes_transitive;
use crate::graphics::names::name_precedes;
use crate::graphics::names::standing;
use crate::graphics::names::Standing;
use vstd::prelude::*;
use vstd::utf8::encode_utf8;

verus! {

/// Why a clip could not be made.
#[derive(Debug, Copy, Clone, PartialEq, Eq, Structural)]
pub enum AnimationError {
    /// A clip needs at least one frame.
    NoFrames,
}

/// What an [`Animation`] holds.
pub struct Clip {
    /// The frames in playing order.
    pub frames: Seq<Picture>,
    /// The cursor: which frame is current.
    pub index: int,
    /// Whether the clip plays.
    pub active: bool,
    /// Whether it plays backward.
    pub reverse: bool,
    /// How long a frame lasts, in seconds.
    pub step: i64,
    /// How long the last round of the free-running driver took.
    pub delta: i64,
    /// The frame rate that the last round of the free-running driver reached.
    pub fps: i64,
}

impl Clip {
    /// A new clip of the given frames: at its first frame, not active,
    /// playing forward, sixty frames to the second.
    pub open spec fn fresh(frames: Seq<Picture>) -> Clip {
        Clip {
            frames,
            index: 0,
            active: false,
            reverse: false,
            step: over(ONE, 60_000_000),
            delta: 0,
            fps: 0,
        }
    }

    /// A clip has a frame, and its cursor points at one.
    pub open spec fn well_formed(self) -> bool {
        0 <= self.index < self.frames.len()
    }

    /// The cursor one frame on, from the last frame back to the first.
    pub open spec fn following(self) -> int {
        if self.index == self.frames.len() - 1 {
            0
        } else {
            self.index + 1
        }
    }

    /// The cursor one frame back, from the first frame on to the last.
    pub open spec fn preceding(self) -> int {
        if self.index == 0 {
            self.frames.len() - 1
        } else {
            self.index - 1
        }
    }

    /// The cursor after one step of playback: a clip that is not active, or
    /// has a single frame, stays; else the cursor moves one frame in the
    /// playing direction.
    pub open spec fn advanced(self) -> int {
        if !self.active || self.frames.len() < 2 {
            self.index
        } else if self.reverse {
            self.preceding()
        } else {
            self.following()
        }
    }

    /// The cursor after `count` steps of playback.
    pub open spec fn advanced_by(self, count: nat) -> int
        decreases count,
    {
        if count == 0 {
            self.index
        } else {
            (Clip { index: self.advanced_by((count - 1) as nat), ..self }).advanced()
        }
    }

    /// How long the free-running driver sleeps in a round that has taken
    /// `elapsed` so far: what is left of the frame's duration.
    pub open spec fn pause(self, elapsed: i64) -> i64 {
        if self.step > elapsed {
            minus(self.step, elapsed)
        } else {
            0
        }
    }
}

/// Where the cursor of an active clip of more than one frame stands after
/// `count` steps of playback, for no more steps than the clip has frames:
/// `count` frames on, or back, around the ends.
pub proof fn lemma_advanced_by(clip: Clip, count: nat)
    requires
        clip.well_formed(),
        clip.active,
        clip.frames.len() >= 2,
        count <= clip.frames.len(),
    ensures
        !clip.reverse ==> clip.advanced_by(count) == if clip.index + count < clip.frames.len() {
            clip.index + count
        } else {
            clip.index + count - clip.frames.len()
        },
        clip.reverse ==> clip.advanced_by(count) == if clip.index - count >= 0 {
            clip.index - count
        } else {
            clip.index - count + clip.frames.len()
        },
    decreases count,
{
    if count > 0 {
        lemma_advanced_by(clip, (count - 1) as nat);
    }
}

/// A clip that does not move stays for any number of steps.
pub proof fn lemma_still_clip_stays(clip: Clip, count: nat)
    requires
        !clip.active || clip.frames.len() < 2,
    ensures
        clip.advanced_by(count) == clip.index,
    decreases count,
{
    if count > 0 {
        lemma_still_clip_stays(clip, (count - 1) as nat);
    }
}

/// Playback is cyclic: as many steps as a clip has frames bring the cursor
/// back to where it was, in either direction, and a step of a clip with one
/// frame changes nothing.
pub proof fn lemma_playback_is_cyclic(clip: Clip)
    requires
        clip.well_formed(),
    ensures
        clip.advanced_by(clip.frames.len()) == clip.index,
        clip.frames.len() == 1 ==> clip.advanced() == clip.index,
{
    let n = clip.frames.len();
    if !clip.active || n < 2 {
        lemma_still_clip_stays(clip, n);
    } else {
        lemma_advanced_by(clip, n);
    }
}

/// An ordered list of frames with a playback cursor.
#[derive(Debug)]
pub struct Animation {
    frames: Vec<Image>,
    index: usize,
    active: bool,
    reverse: bool,
    step: i64,
    delta: i64,
    fps: i64,
}

impl View for Animation {
    type V = Clip;

    closed spec fn view(&self) -> Clip {
        Clip {
            frames: pictures(self.frames@),
            index: self.index as int,
            active: self.active,
            reverse: self.reverse,
            step: self.step,
            delta: self.delta,
            fps: self.fps,
        }
    }
}

impl Clone for Animation {
    fn clone(&self) -> (copy: Self)
        ensures
            copy@ == self@,
    {
        proof {
            use_type_invariant(self);
        }
        let mut frames: Vec<Image> = Vec::new();
        let mut i: usize = 0;
        while i < self.frames.len()
            invariant
                i <= self.frames.len(),
                frames.len() == i,
                forall|j: int| 0 <= j < i ==> (#[trigger] frames[j])@ == self.frames[j]@,
            decreases self.frames.len() - i,
        {
            frames.push(self.frames[i].clone());
            i += 1;
        }
        proof {
            assert(pictures(frames@) =~= pictures(self.frames@));
        }
        Animation {
            frames,
            index: self.index,
            active: self.active,
            reverse: self.reverse,
            step: self.step,
            delta: self.delta,
            fps: self.fps,
        }
    }
}

impl Animation {
    #[verifier::type_invariant]
    spec fn pointed(self) -> bool {
        self.index < self.frames.len()
    }

    /// A clip of the given frames: at its first frame, not active, playing
    /// forward, sixty frames to the second.
    pub fn new(frames: Vec<Image>) -> (made: Result<Animation, AnimationError>)
        ensures
            frames.len() == 0 ==> made == Err::<Animation, AnimationError>(
                AnimationError::NoFrames,
            ),
            frames.len() > 0 ==> made is Ok && made->Ok_0@ == Clip::fresh(pictures(frames@)),
    {
        if frames.len() < 1 {
            return Err(AnimationError::NoFrames);
        }
        Ok(Animation::of(frames))
    }

    /// The fresh clip of a list of frames that is known to hold one.
    pub(crate) fn of(frames: Vec<Image>) -> (made: Animation)
        requires
            frames.len() > 0,
        ensures
            made@ == Clip::fresh(pictures(frames@)),
    {
        Animation {
            frames,
            index: 0,
            active: false,
            reverse: false,
            step: over(ONE, 60_000_000),
            delta: 0,
            fps: 0,
        }
    }

    /// Which frame is current.
    pub fn index(&self) -> (i: usize)
        ensures
            i == self@.index,
            self@.well_formed(),
    {
        proof {
            use_type_invariant(self);
        }
        self.index
    }

    pub fn active(&self) -> (b: bool)
        ensures
            b == self@.active,
    {
        self.active
    }

    pub fn fps(&self) -> (f: i64)
        ensures
            f == self@.fps,
    {
        self.fps
    }

    /// How many frames the clip has.
    pub fn length(&self) -> (n: usize)
        ensures
            n == self@.frames.len(),
            self@.well_formed(),
    {
        proof {
            use_type_invariant(self);
        }
        self.frames.len()
    }

    /// Moves the cursor to frame `index`. An index that the clip does not
    /// have is ignored.
    pub fn set_index(&mut self, index: usize)
        ensures
            index < old(self)@.frames.len() ==> final(self)@ == (Clip {
                index: index as int,
                ..old(self)@
            }),
            index >= old(self)@.frames.len() ==> final(self)@ == old(self)@,
    {
        proof {
            use_type_invariant(&*self);
        }
        if index < self.frames.len() {
            self.index = index;
        }
    }

    pub fn set_active(&mut self, active: bool)
        ensures
            final(self)@ == (Clip { active, ..old(self)@ }),
    {
        proof {
            use_type_invariant(&*self);
        }
        self.active = active;
    }

    pub fn set_reverse(&mut self, reverse: bool)
        ensures
            final(self)@ == (Clip { reverse, ..old(self)@ }),
    {
        proof {
            use_type_invariant(&*self);
        }
        self.reverse = reverse;
    }

    /// Sets how long a frame lasts to one second divided by `fps`.
    pub fn set_fps(&mut self, fps: i64)
        ensures
            final(self)@ == (Clip { step: over(ONE, fps), ..old(self)@ }),
    {
        proof {
            use_type_invariant(&*self);
        }
        self.step = over(ONE, fps);
    }

    /// Replaces the frames and moves the cursor to the first. An empty list
    /// is refused and leaves the clip as it was.
    pub fn set_frames(&mut self, frames: Vec<Image>) -> (done: Result<(), AnimationError>)
        ensures
            frames.len() == 0 ==> done == Err::<(), AnimationError>(AnimationError::NoFrames)
                && final(self)@ == old(self)@,
            frames.len() > 0 ==> done is Ok && final(self)@ == (Clip {
                frames: pictures(frames@),
                index: 0,
                ..old(self)@
            }),
    {
        proof {
            use_type_invariant(&*self);
        }
        if frames.len() < 1 {
            return Err(AnimationError::NoFrames);
        }
        self.index = 0;
        self.frames = frames;
        Ok(())
    }

    /// Back to the first frame, not active, playing forward.
    pub fn reset(&mut self)
        ensures
            final(self)@ == (Clip {
                index: 0,
                active: false,
                reverse: false,
                delta: 0,
                fps: 0,
                ..old(self)@
            }),
    {
        proof {
            use_type_invariant(&*self);
        }
        self.index = 0;
        self.active = false;
        self.reverse = false;
        self.delta = 0;
        self.fps = 0;
    }

    /// The current frame.
    pub fn frame(&self) -> (image: &Image)
        ensures
            self@.well_formed(),
            image@ == self@.frames[self@.index],
    {
        proof {
            use_type_invariant(self);
        }
        &self.frames[self.index]
    }

    /// The current frame, to change it in place.
    pub fn frame_mut(&mut self) -> (image: &mut Image)
        ensures
            old(self)@.well_formed(),
            image@ == old(self)@.frames[old(self)@.index],
            final(self)@ == (Clip {
                frames: old(self)@.frames.update(old(self)@.index, final(image)@),
                ..old(self)@
            }),
    {
        proof {
            use_type_invariant(&*self);
        }
        let i: usize = self.index;
        proof {
            let frames = self.frames@;
            assert forall|image: Image| #[trigger]
                pictures(frames.update(i as int, image)) == pictures(frames).update(
                    i as int,
                    image@,
                ) by {
                assert(pictures(frames.update(i as int, image)) =~= pictures(frames).update(
                    i as int,
                    image@,
                ));
            }
        }
        &mut self.frames[i]
    }

    /// One frame on, from the last frame back to the first.
    pub fn next(&mut self)
        ensures
            old(self)@.well_formed(),
            final(self)@ == (Clip { index: old(self)@.following(), ..old(self)@ }),
    {
        proof {
            use_type_invariant(&*self);
        }
        if self.index == self.frames.len() - 1 {
            self.index = 0;
        } else {
            self.index += 1;
        }
    }

    /// One frame back, from the first frame on to the last.
    pub fn previous(&mut self)
        ensures
            old(self)@.well_formed(),
            final(self)@ == (Clip { index: old(self)@.preceding(), ..old(self)@ }),
    {
        proof {
            use_type_invariant(&*self);
        }
        if self.index == 0 {
            self.index = self.frames.len() - 1;
        } else {
            self.index -= 1;
        }
    }

    /// One step of playback, see [`Clip::advanced`].
    pub fn consecutive(&mut self)
        ensures
            old(self)@.well_formed(),
            final(self)@ == (Clip { index: old(self)@.advanced(), ..old(self)@ }),
    {
        proof {
            use_type_invariant(&*self);
        }
        if !self.active || self.frames.len() < 2 {
            return ;
        }
        if self.reverse {
            self.previous();
        } else {
            self.next();
        }
    }

    /// Lets the clip play.
    pub fn start(&mut self)
        ensures
            final(self)@ == (Clip { active: true, ..old(self)@ }),
    {
        proof {
            use_type_invariant(&*self);
        }
        self.active = true;
    }

    /// Stops the clip where it is.
    pub fn stop(&mut self)
        ensures
            final(self)@ == (Clip { active: false, delta: 0, fps: 0, ..old(self)@ }),
    {
        proof {
            use_type_invariant(&*self);
        }
        self.active = false;
        self.delta = 0;
        self.fps = 0;
    }

    /// One round of a free-running driver that shows each frame for the
    /// clip's own duration. `elapsed` is the time since the last round ended.
    /// The result is how long the driver has to sleep before it calls again.
    /// The round notes its whole length and the frame rate that this makes,
    /// and plays one step.
    pub fn cycle(&mut self, elapsed: i64) -> (pause: i64)
        ensures
            old(self)@.well_formed(),
            pause == old(self)@.pause(elapsed),
            final(self)@ == (Clip {
                index: old(self)@.advanced(),
                delta: plus(pause, elapsed),
                fps: over(ONE, plus(pause, elapsed)),
                ..old(self)@
            }),
    {
        proof {
            use_type_invariant(&*self);
        }
        let pause: i64 = if self.step > elapsed {
            minus(self.step, elapsed)
        } else {
            0
        };
        self.delta = plus(pause, elapsed);
        self.fps = over(ONE, self.delta);
        self.consecutive();
        pause
    }
}

} // verus!

verus! {

/// What an [`Animations`] holds: the clips by name, and the name that is
/// selected. The selected name need not be the name of a clip.
pub struct Album {
    pub selected: Seq<char>,
    pub clips: Map<Seq<char>, Clip>,
}

impl Album {
    /// Whether the selected name is the name of a clip.
    pub open spec fn ready(self) -> bool {
        self.clips.contains_key(self.selected)
    }

    /// The selected clip.
    pub open spec fn current(self) -> Clip {
        self.clips[self.selected]
    }

    /// The selected clip after one drawn frame: it plays, and its cursor has
    /// moved one step.
    pub open spec fn played(self) -> Clip {
        let playing = Clip { active: true, ..self.current() };
        Clip { index: playing.advanced(), ..playing }
    }

    /// The album after one drawn frame at `(x, y)`: the selected clip has
    /// played one step, and the frame it shows now has moved to `(x, y)`.
    pub open spec fn shown(self, x: i64, y: i64) -> Album {
        let clip = self.played();
        Album {
            clips: self.clips.insert(
                self.selected,
                Clip {
                    frames: clip.frames.update(clip.index, clip.frames[clip.index].moved(x, y)),
                    ..clip
                },
            ),
            ..self
        }
    }
}

/// Whether `names` rise strictly in the order of names.
spec fn sorted(names: Seq<String>) -> bool {
    forall|i: int, j: int|
        0 <= i < j < names.len() ==> name_precedes((#[trigger] names[i])@, (#[trigger] names[j])@)
}

/// Where `name` stands in `names`.
spec fn slot(names: Seq<String>, name: Seq<char>) -> int {
    choose|i: int| 0 <= i < names.len() && names[i]@ == name
}

/// Whether `name` is one of `names`.
spec fn listed(names: Seq<String>, name: Seq<char>) -> bool {
    exists|i: int| 0 <= i < names.len() && names[i]@ == name
}

/// The clips by name, where clip `i` has name `i`.
spec fn filed(names: Seq<String>, clips: Seq<Animation>) -> Map<Seq<char>, Clip> {
    Map::new(|k: Seq<char>| listed(names, k), |k: Seq<char>| clips[slot(names, k)]@)
}

/// In a sorted list each name stands in one place.
proof fn lemma_slot(names: Seq<String>, i: int)
    requires
        sorted(names),
        0 <= i < names.len(),
    ensures
        listed(names, names[i]@),
        slot(names, names[i]@) == i,
{
    let j = slot(names, names[i]@);
    lemma_precedes_irreflexive(encode_utf8(names[i]@));
    if j < i {
        assert(name_precedes(names[j]@, names[i]@));
    } else if i < j {
        assert(name_precedes(names[i]@, names[j]@));
    }
}

/// Filing a clip under a new name, at the place that keeps the order.
proof fn lemma_filed_insert(
    names: Seq<String>,
    clips: Seq<Animation>,
    p: int,
    name: String,
    clip: Animation,
)
    requires
        sorted(names),
        names.len() == clips.len(),
        0 <= p <= names.len(),
        forall|i: int| 0 <= i < p ==> name_precedes(#[trigger] names[i]@, name@),
        forall|i: int| p <= i < names.len() ==> name_precedes(name@, #[trigger] names[i]@),
    ensures
        sorted(names.insert(p, name)),
        filed(names.insert(p, name), clips.insert(p, clip)) == filed(names, clips).insert(
            name@,
            clip@,
        ),
{
    let after = names.insert(p, name);
    let moved = clips.insert(p, clip);
    assert forall|i: int, j: int| 0 <= i < j < after.len() implies name_precedes(
        (#[trigger] after[i])@,
        (#[trigger] after[j])@,
    ) by {
        let a = if i < p {
            i
        } else {
            i - 1
        };
        let b = if j < p {
            j
        } else {
            j - 1
        };
        if i != p && j != p {
            assert(name_precedes(names[a]@, names[b]@));
        }
    }
    assert forall|k: Seq<char>| listed(after, k) <==> (listed(names, k) || k == name@) by {
        if listed(after, k) {
            let i = slot(after, k);
            if i < p {
                assert(names[i]@ == k);
            } else if i > p {
                assert(names[i - 1]@ == k);
            }
        }
        if listed(names, k) {
            let i = slot(names, k);
            if i < p {
                assert(after[i]@ == k);
            } else {
                assert(after[i + 1]@ == k);
            }
        }
        if k == name@ {
            assert(after[p]@ == k);
        }
    }
    assert forall|k: Seq<char>| listed(after, k) implies #[trigger] filed(after, moved)[k]
        == filed(names, clips).insert(name@, clip@)[k] by {
        let i = slot(after, k);
        if i < p {
            lemma_slot(names, i);
        } else if i > p {
            lemma_slot(names, i - 1);
        } else {
            lemma_slot(after, p);
        }
        lemma_slot(after, i);
        if k == name@ {
            lemma_slot(after, p);
        }
    }
    assert(filed(after, moved) =~= filed(names, clips).insert(name@, clip@));
}

/// Changing the clip in place `p` files the new clip under the name there.
proof fn lemma_filed_replace(names: Seq<String>, clips: Seq<Animation>, p: int, clip: Animation)
    requires
        sorted(names),
        names.len() == clips.len(),
        0 <= p < names.len(),
    ensures
        filed(names, clips.update(p, clip)) == filed(names, clips).insert(names[p]@, clip@),
{
    let moved = clips.update(p, clip);
    lemma_slot(names, p);
    assert forall|k: Seq<char>| listed(names, k) implies #[trigger] filed(names, moved)[k]
        == filed(names, clips).insert(names[p]@, clip@)[k] by {
        let i = slot(names, k);
        lemma_slot(names, i);
    }
    assert(filed(names, moved) =~= filed(names, clips).insert(names[p]@, clip@));
}

/// Taking place `p` out takes its name out.
proof fn lemma_filed_remove(names: Seq<String>, clips: Seq<Animation>, p: int)
    requires
        sorted(names),
        names.len() == clips.len(),
        0 <= p < names.len(),
    ensures
        sorted(names.remove(p)),
        filed(names.remove(p), clips.remove(p)) == filed(names, clips).remove(names[p]@),
{
    let after = names.remove(p);
    let moved = clips.remove(p);
    let gone = names[p]@;
    assert forall|i: int, j: int| 0 <= i < j < after.len() implies name_precedes(
        (#[trigger] after[i])@,
        (#[trigger] after[j])@,
    ) by {
        let a = if i < p {
            i
        } else {
            i + 1
        };
        let b = if j < p {
            j
        } else {
            j + 1
        };
        assert(name_precedes(names[a]@, names[b]@));
    }
    assert forall|k: Seq<char>| listed(after, k) <==> (listed(names, k) && k != gone) by {
        if listed(after, k) {
            let i = slot(after, k);
            let a = if i < p {
                i
            } else {
                i + 1
            };
            assert(names[a]@ == k);
            lemma_slot(names, a);
            lemma_slot(names, p);
        }
        if listed(names, k) && k != gone {
            let i = slot(names, k);
            if i < p {
                assert(after[i]@ == k);
            } else {
                assert(after[i - 1]@ == k);
            }
        }
    }
    assert forall|k: Seq<char>| listed(after, k) implies #[trigger] filed(after, moved)[k]
        == filed(names, clips).remove(gone)[k] by {
        let i = slot(after, k);
        lemma_slot(after, i);
        if i < p {
            lemma_slot(names, i);
        } else {
            lemma_slot(names, i + 1);
        }
    }
    assert(filed(after, moved) =~= filed(names, clips).remove(gone));
}

/// A named set of clips, one of which is selected by name.
#[derive(Debug)]
pub struct Animations {
    name: String,
    names: Vec<String>,
    clips: Vec<Animation>,
}

impl View for Animations {
    type V = Album;

    closed spec fn view(&self) -> Album {
        Album { selected: self.name@, clips: filed(self.names@, self.clips@) }
    }
}

impl Default for Animations {
    /// The empty set.
    fn default() -> (set: Self)
        ensures
            set@ == (Album { selected: Seq::empty(), clips: Map::empty() }),
    {
        Animations::new()
    }
}

impl Animations {
    #[verifier::type_invariant]
    spec fn in_order(self) -> bool {
        sorted(self.names@) && self.names.len() == self.clips.len()
    }

    /// An empty set with the empty name selected.
    pub fn new() -> (set: Self)
        ensures
            set@ == (Album { selected: Seq::empty(), clips: Map::empty() }),
    {
        let set = Self { name: String::new(), names: Vec::new(), clips: Vec::new() };
        proof {
            assert(filed(set.names@, set.clips@) =~= Map::empty());
        }
        set
    }

    /// Files `animation` under `name`, in place of a clip of that name.
    pub fn add(&mut self, name: &str, animation: Animation)
        ensures
            final(self)@ == (Album {
                clips: old(self)@.clips.insert(name@, animation@),
                ..old(self)@
            }),
    {
        let at: (usize, bool) = self.locate(name);
        let mut whole = Animations::new();
        core::mem::swap(self, &mut whole);
        let Animations { name: selected, mut names, mut clips } = whole;
        if at.1 {
            proof {
                lemma_filed_replace(names@, clips@, at.0 as int, animation);
            }
            clips[at.0] = animation;
        } else {
            let key: String = name.to_owned();
            proof {
                lemma_filed_insert(names@, clips@, at.0 as int, key, animation);
            }
            names.insert(at.0, key);
            clips.insert(at.0, animation);
        }
        *self = Animations { name: selected, names, clips };
    }

    /// Takes the clip named `name` out, if there is one.
    pub fn remove(&mut self, name: &str)
        ensures
            final(self)@ == (Album { clips: old(self)@.clips.remove(name@), ..old(self)@ }),
    {
        let at: (usize, bool) = self.locate(name);
        if at.1 {
            let mut whole = Animations::new();
            core::mem::swap(self, &mut whole);
            let Animations { name: selected, mut names, mut clips } = whole;
            proof {
                lemma_filed_remove(names@, clips@, at.0 as int);
            }
            names.remove(at.0);
            clips.remove(at.0);
            *self = Animations { name: selected, names, clips };
        } else {
            proof {
                assert(filed(self.names@, self.clips@).remove(name@) =~= filed(
                    self.names@,
                    self.clips@,
                ));
            }
        }
    }

    /// Selects the clip named `name`. The name is kept whether or not a clip
    /// has it.
    pub fn set(&mut self, name: &str)
        ensures
            final(self)@ == (Album { selected: name@, ..old(self)@ }),
    {
        proof {
            use_type_invariant(&*self);
        }
        self.name = name.to_owned();
    }

    /// The selected name.
    pub fn name(&self) -> (name: &str)
        ensures
            name@ == self@.selected,
    {
        self.name.as_str()
    }

    /// The selected clip, if the selected name is the name of one.
    pub fn get(&self) -> (found: Option<&Animation>)
        ensures
            match found {
                Some(clip) => self@.ready() && clip@ == self@.current(),
                None => !self@.ready(),
            },
    {
        let at: (usize, bool) = self.locate(self.name.as_str());
        if at.1 {
            proof {
                lemma_slot(self.names@, at.0 as int);
            }
            Some(&self.clips[at.0])
        } else {
            None
        }
    }

    /// The selected clip, to change it in place, if the selected name is the
    /// name of one.
    pub fn get_mut(&mut self) -> (found: Option<&mut Animation>)
        ensures
            match found {
                Some(clip) => old(self)@.ready() && clip@ == old(self)@.current() && final(self)@
                    == (Album {
                    clips: old(self)@.clips.insert(old(self)@.selected, final(clip)@),
                    ..old(self)@
                }),
                None => !old(self)@.ready() && final(self)@ == old(self)@,
            },
    {
        let at: (usize, bool) = self.locate(self.name.as_str());
        if at.1 {
            proof {
                lemma_slot(self.names@, at.0 as int);
                lemma_changed_in_place(self.names@, self.clips@, at.0 as int);
            }
            Some(&mut self.clips[at.0])
        } else {
            None
        }
    }

    /// The clip named `name`, if there is one.
    pub fn get_by(&self, name: &str) -> (found: Option<&Animation>)
        ensures
            match found {
                Some(clip) => self@.clips.contains_key(name@) && clip@ == self@.clips[name@],
                None => !self@.clips.contains_key(name@),
            },
    {
        let at: (usize, bool) = self.locate(name);
        if at.1 {
            proof {
                lemma_slot(self.names@, at.0 as int);
            }
            Some(&self.clips[at.0])
        } else {
            None
        }
    }

    /// The clip named `name`, to change it in place, if there is one.
    pub fn get_mut_by(&mut self, name: &str) -> (found: Option<&mut Animation>)
        ensures
            match found {
                Some(clip) => old(self)@.clips.contains_key(name@) && clip@ == old(self)@.clips[name@]
                    && final(self)@ == (Album {
                    clips: old(self)@.clips.insert(name@, final(clip)@),
                    ..old(self)@
                }),
                None => !old(self)@.clips.contains_key(name@) && final(self)@ == old(self)@,
            },
    {
        let at: (usize, bool) = self.locate(name);
        if at.1 {
            proof {
                lemma_slot(self.names@, at.0 as int);
                lemma_changed_in_place(self.names@, self.clips@, at.0 as int);
            }
            Some(&mut self.clips[at.0])
        } else {
            None
        }
    }

    /// The names of the clips, in the order of names.
    pub fn get_names(&self) -> (names: Vec<&String>)
        ensures
            forall|i: int| 0 <= i < names.len() ==> self@.clips.contains_key(#[trigger] names[i]@),
            forall|k: Seq<char>|
                self@.clips.contains_key(k) ==> exists|i: int|
                    0 <= i < names.len() && #[trigger] names[i]@ == k,
            forall|i: int, j: int|
                0 <= i < j < names.len() ==> name_precedes(
                    (#[trigger] names[i])@,
                    (#[trigger] names[j])@,
                ),
    {
        proof {
            use_type_invariant(self);
        }
        let mut names: Vec<&String> = Vec::new();
        let mut i: usize = 0;
        while i < self.names.len()
            invariant
                i <= self.names.len(),
                names.len() == i,
                forall|j: int| 0 <= j < i ==> *(#[trigger] names[j]) == self.names[j],
            decreases self.names.len() - i,
        {
            names.push(&self.names[i]);
            i += 1;
        }
        proof {
            assert forall|k: Seq<char>| self@.clips.contains_key(k) implies exists|i: int|
                0 <= i < names.len() && #[trigger] names[i]@ == k by {
                let i = slot(self.names@, k);
                assert(names[i]@ == k);
            }
            assert forall|i: int| 0 <= i < names.len() implies self@.clips.contains_key(
                #[trigger] names[i]@,
            ) by {
                lemma_slot(self.names@, i);
            }
        }
        names
    }

    /// Plays the selected clip one step and moves the frame that it shows now
    /// to `(x, y)`: the clip is made active, its cursor moves one frame in the
    /// playing direction if it has more than one, and the frame under the
    /// cursor is placed and returned. The selected name has to be the name of
    /// a clip.
    pub fn consecutive_frame(&mut self, x: i64, y: i64) -> (frame: &Image)
        requires
            old(self)@.ready(),
        ensures
            final(self)@ == old(self)@.shown(x, y),
            frame@ == final(self)@.current().frames[final(self)@.current().index],
    {
        let at: (usize, bool) = self.locate(self.name.as_str());
        proof {
            lemma_slot(self.names@, at.0 as int);
            lemma_changed_in_place(self.names@, self.clips@, at.0 as int);
        }
        {
            let clip: &mut Animation = &mut self.clips[at.0];
            clip.set_active(true);
            clip.consecutive();
            let frame: &mut Image = clip.frame_mut();
            frame.set_x_y(x, y);
        }
        proof {
            use_type_invariant(&*self);
            lemma_slot(self.names@, at.0 as int);
        }
        self.clips[at.0].frame()
    }

    /// Whether the selected name is the name of a clip.
    pub fn is_ready(&self) -> (b: bool)
        ensures
            b == self@.ready(),
    {
        self.locate(self.name.as_str()).1
    }

    /// Finds where `name` stands, or would stand, among the names.
    fn locate(&self, name: &str) -> (at: (usize, bool))
        ensures
            sorted(self.names@),
            self.names.len() == self.clips.len(),
            at.0 <= self.names.len(),
            forall|i: int| 0 <= i < at.0 ==> name_precedes(#[trigger] self.names[i]@, name@),
            at.1 <==> listed(self.names@, name@),
            at.1 ==> at.0 < self.names.len() && self.names[at.0 as int]@ == name@,
            !at.1 ==> forall|i: int|
                at.0 <= i < self.names.len() ==> name_precedes(name@, #[trigger] self.names[i]@),
    {
        proof {
            use_type_invariant(self);
        }
        let mut p: usize = 0;
        let mut found: bool = false;
        while p < self.names.len()
            invariant_except_break
                !found,
            invariant
                sorted(self.names@),
                p <= self.names.len(),
                forall|i: int| 0 <= i < p ==> name_precedes(#[trigger] self.names[i]@, name@),
            ensures
                p <= self.names.len(),
                forall|i: int| 0 <= i < p ==> name_precedes(#[trigger] self.names[i]@, name@),
                found ==> p < self.names.len() && self.names[p as int]@ == name@,
                !found && p < self.names.len() ==> name_precedes(name@, self.names[p as int]@),
            decreases self.names.len() - p,
        {
            match standing(self.names[p].as_str(), name) {
                Standing::Before => {
                    p += 1;
                },
                Standing::Same => {
                    found = true;
                    break ;
                },
                Standing::After => {
                    break ;
                },
            }
        }
        proof {
            let names = self.names@;
            lemma_precedes_irreflexive(encode_utf8(name@));
            assert forall|i: int| p <= i < names.len() && !found implies name_precedes(
                name@,
                #[trigger] names[i]@,
            ) by {
                if i > p {
                    assert(name_precedes(names[p as int]@, names[i]@));
                    lemma_precedes_transitive(
                        encode_utf8(name@),
                        encode_utf8(names[p as int]@),
                        encode_utf8(names[i]@),
                    );
                }
            }
            if !found && listed(names, name@) {
                let i = slot(names, name@);
                assert(name_precedes(names[i]@, name@) || name_precedes(name@, names[i]@));
            }
        }
        (p, found)
    }
}

/// Whatever the clip in place `p` is changed to, it stays under its name.
proof fn lemma_changed_in_place(names: Seq<String>, clips: Seq<Animation>, p: int)
    requires
        sorted(names),
        names.len() == clips.len(),
        0 <= p < names.len(),
    ensures
        forall|clip: Animation| #[trigger]
            filed(names, clips.update(p, clip)) == filed(names, clips).insert(names[p]@, clip@),
{
    assert forall|clip: Animation| #[trigger]
        filed(names, clips.update(p, clip)) == filed(names, clips).insert(names[p]@, clip@) by {
        lemma_filed_replace(names, clips, p, clip);
    }
}

} // verus!
