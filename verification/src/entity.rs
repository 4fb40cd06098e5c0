//! One animated character: its catalogue of animations, what plays on its one
//! track, where it stands, and the batch it paints.

use vstd::prelude::*;
use crate::mesh::MeshData;
use crate::mesh::MeshView;
use crate::mesh::Placement;
use crate::mesh::slots_wf;
use crate::mesh::SlotPose;
use crate::text::same_text;

verus! {

/// Scale of a character that has just been loaded: one half.
pub const DEFAULT_SCALE: u32 = 0x8000;

/// What plays on a character's track: an animation of its catalogue, by its
/// place there, and whether it starts over at its end.
#[derive(Clone, Copy, Debug, PartialEq, Eq)]
pub struct Track {
    pub animation: usize,
    pub looping: bool,
}

/// Whether the catalogue `names` holds `name`, letter for letter.
pub open spec fn has_animation(names: Seq<Seq<char>>, name: Seq<char>) -> bool {
    exists|k: int| 0 <= k < names.len() && #[trigger] names[k] == name
}

/// Whether `k` is the first place in `names` that holds `name`.
pub open spec fn is_first_match(names: Seq<Seq<char>>, name: Seq<char>, k: int) -> bool {
    &&& 0 <= k < names.len()
    &&& names[k] == name
    &&& forall|j: int| 0 <= j < k ==> #[trigger] names[j] != name
}

/// The first place in `names` that holds `name`, where there is one.
pub open spec fn first_match(names: Seq<Seq<char>>, name: Seq<char>) -> int {
    choose|k: int| is_first_match(names, name, k)
}

/// There is one first match and no other.
pub proof fn lemma_first_match_unique(names: Seq<Seq<char>>, name: Seq<char>, k: int)
    requires
        is_first_match(names, name, k),
    ensures
        has_animation(names, name),
        first_match(names, name) == k,
{
    let c = first_match(names, name);
    assert(is_first_match(names, name, c));
    if c < k {
        assert(names[c] != name);
    } else if k < c {
        assert(names[k] != name);
    }
}

/// The mathematical content of a character.
pub ghost struct EntityView {
    /// The names of its animations, in the order of their declaration.
    pub animations: Seq<Seq<char>>,
    /// What plays.
    pub track: Option<Track>,
    /// Where it stands.
    pub place: Placement,
    /// The texture it is painted with.
    pub texture: u64,
}

impl EntityView {
    /// Validity: the catalogue can be counted by the machine, and what plays
    /// is in it.
    pub open spec fn wf(self) -> bool {
        &&& self.animations.len() <= usize::MAX
        &&& self.track is Some ==> self.track->0.animation < self.animations.len()
    }

    /// A character as it comes out of loading: the first animation plays in
    /// a loop, where there is any; it stands at the origin at half size.
    pub open spec fn loaded(animations: Seq<Seq<char>>, texture: u64) -> EntityView {
        EntityView {
            animations,
            track: if animations.len() > 0 {
                Some(Track { animation: 0, looping: true })
            } else {
                None
            },
            place: Placement { x: 0, y: 0, scale: DEFAULT_SCALE },
            texture,
        }
    }

    /// The character after a request to play `name`: where the catalogue
    /// holds it, it replaces what played, at once; where not, nothing
    /// changes.
    pub open spec fn set_animation(self, name: Seq<char>, looping: bool) -> EntityView {
        if has_animation(self.animations, name) {
            EntityView {
                track: Some(
                    Track { animation: first_match(self.animations, name) as usize, looping },
                ),
                ..self
            }
        } else {
            self
        }
    }

    /// The character moved to `(x, y)`.
    pub open spec fn moved_to(self, x: i32, y: i32) -> EntityView {
        EntityView { place: Placement { x, y, scale: self.place.scale }, ..self }
    }

    /// The name of what plays.
    pub open spec fn playing(self) -> Option<Seq<char>> {
        match self.track {
            Some(track) => Some(self.animations[track.animation as int]),
            None => None,
        }
    }

    /// The batch that the character paints for the posed slots `slots`.
    pub open spec fn mesh(self, slots: Seq<SlotPose>) -> MeshView {
        MeshView::empty(self.texture).draw(slots, self.place)
    }
}

/// A request to play an animation that the catalogue holds succeeds and makes
/// it the one that plays, with the loop flag asked for; a request for one
/// that it does not hold fails and leaves what played.
pub proof fn lemma_set_animation(entity: EntityView, name: Seq<char>, looping: bool)
    requires
        entity.wf(),
    ensures
        entity.set_animation(name, looping).wf(),
        entity.set_animation(name, looping).animations == entity.animations,
        has_animation(entity.animations, name) ==> entity.set_animation(name, looping).playing()
            == Some(name) && entity.set_animation(name, looping).track->0.looping == looping,
        !has_animation(entity.animations, name) ==> entity.set_animation(name, looping) == entity,
{
    if has_animation(entity.animations, name) {
        lemma_first_match_exists(entity.animations, name);
    }
}

/// A catalogue that holds a name holds it at a first place.
pub proof fn lemma_first_match_exists(names: Seq<Seq<char>>, name: Seq<char>)
    requires
        has_animation(names, name),
    ensures
        is_first_match(names, name, first_match(names, name)),
{
    let k = choose|k: int| 0 <= k < names.len() && #[trigger] names[k] == name;
    lemma_first_match_below(names, name, k);
}

proof fn lemma_first_match_below(names: Seq<Seq<char>>, name: Seq<char>, k: int)
    requires
        0 <= k < names.len(),
        names[k] == name,
    ensures
        exists|f: int| is_first_match(names, name, f),
    decreases k,
{
    if exists|j: int| 0 <= j < k && #[trigger] names[j] == name {
        let j = choose|j: int| 0 <= j < k && #[trigger] names[j] == name;
        lemma_first_match_below(names, name, j);
    } else {
        assert(is_first_match(names, name, k));
    }
}

/// One animated character.
#[derive(Debug, PartialEq, Eq)]
pub struct SpineObject {
    animations: Vec<String>,
    track: Option<Track>,
    place: Placement,
    texture: u64,
}

impl View for SpineObject {
    type V = EntityView;

    closed spec fn view(&self) -> EntityView {
        EntityView {
            animations: self.animations.deep_view(),
            track: self.track,
            place: self.place,
            texture: self.texture,
        }
    }
}

impl SpineObject {
    #[verifier::type_invariant]
    closed spec fn inv(self) -> bool {
        self@.wf()
    }

    /// A character as it comes out of loading, with the animations declared
    /// for it and the texture it is painted with.
    pub fn new(animations: Vec<String>, texture: u64) -> (entity: SpineObject)
        ensures
            entity@ == EntityView::loaded(animations.deep_view(), texture),
            entity@.wf(),
    {
        let track = if animations.len() > 0 {
            Some(Track { animation: 0, looping: true })
        } else {
            None
        };
        SpineObject {
            animations,
            track,
            place: Placement { x: 0, y: 0, scale: DEFAULT_SCALE },
            texture,
        }
    }

    /// Plays the animation called `anim_name`, compared letter for letter,
    /// in place of what played. Returns whether the catalogue holds it; where
    /// it does not, nothing changes.
    pub fn set_animation_by_name(&mut self, anim_name: &str, loop_anim: bool) -> (found: bool)
        ensures
            found == has_animation(old(self)@.animations, anim_name@),
            final(self)@ == old(self)@.set_animation(anim_name@, loop_anim),
            final(self)@.wf(),
            found ==> final(self)@.playing() == Some(anim_name@),
    {
        proof {
            use_type_invariant(&*self);
        }
        let ghost names = self.animations.deep_view();
        let mut i: usize = 0;
        while i < self.animations.len()
            invariant
                i <= self.animations.len(),
                names == self.animations.deep_view(),
                *self == *old(self),
                forall|j: int| 0 <= j < i ==> #[trigger] names[j] != anim_name@,
            decreases self.animations.len() - i,
        {
            if same_text(self.animations[i].as_str(), anim_name) {
                proof {
                    assert(names[i as int] == anim_name@);
                    lemma_first_match_unique(names, anim_name@, i as int);
                }
                self.track = Some(Track { animation: i, looping: loop_anim });
                return true;
            }
            proof {
                assert(names[i as int] == self.animations@[i as int]@);
            }
            i = i + 1;
        }
        false
    }

    /// The batch for the posed slots `slots`, which come in draw order,
    /// back to front: each adds its region or mesh behind those before it.
    pub fn generate_mesh(&self, slots: &Vec<SlotPose>) -> (mesh: MeshData)
        ensures
            mesh@ == self@.mesh(slots@),
            mesh@.wf(),
            slots_wf(slots@),
    {
        let mut mesh = MeshData::with_texture(self.texture);
        mesh.draw(slots, self.place);
        mesh
    }

    /// Moves the character to `(x, y)`, in 16.16 fixed point.
    pub fn set_position(&mut self, x: i32, y: i32)
        ensures
            final(self)@ == old(self)@.moved_to(x, y),
    {
        proof {
            use_type_invariant(&*self);
        }
        self.place = Placement { x, y, scale: self.place.scale };
    }

    /// Sets the character's scale, in 16.16 fixed point.
    pub fn set_scale(&mut self, scale: u32)
        ensures
            final(self)@ == (EntityView {
                place: Placement { x: old(self)@.place.x, y: old(self)@.place.y, scale },
                ..old(self)@
            }),
    {
        proof {
            use_type_invariant(&*self);
        }
        self.place = Placement { x: self.place.x, y: self.place.y, scale };
    }

    /// Where the character stands, and at what scale.
    pub fn placement(&self) -> (place: Placement)
        ensures
            place == self@.place,
    {
        self.place
    }

    /// What plays, if anything.
    pub fn track(&self) -> (track: Option<Track>)
        ensures
            track == self@.track,
            self@.wf(),
    {
        proof {
            use_type_invariant(self);
        }
        self.track
    }

    /// The names of the character's animations, in the order of their
    /// declaration.
    pub fn animation_names(&self) -> (names: &Vec<String>)
        ensures
            names.deep_view() == self@.animations,
    {
        &self.animations
    }

    /// The texture that the character is painted with.
    pub fn texture(&self) -> (id: u64)
        ensures
            id == self@.texture,
    {
        self.texture
    }
}

} // verus!
