//! What travels on the command bus, and what the stage asks of the world in
//! answer.

use vstd::prelude::*;
use crate::entity::EntityView;
use crate::entity::SpineObject;

verus! {

/// A message on the command bus. The console and the background loaders
/// send them; the stage alone receives them.
#[derive(Debug, PartialEq, Eq)]
pub enum Command {
    /// Show a line of dialogue.
    Dialogue { name: String, affiliation: String, content: String },
    /// Load a character into a slot.
    RequestLoad { slot_idx: usize, path: String },
    /// A character has been loaded for a slot, with the names of its
    /// animations.
    LoadSuccess(usize, Box<SpineObject>, Vec<String>),
    /// Load a background picture.
    LoadBackground(String),
    /// Play the music in a file.
    PlayBgm(String),
    /// The bytes of a music file have been read.
    BgmReady(Vec<u8>),
    /// Stop the music.
    StopBgm,
    /// Play an animation on the character in a slot.
    SetAnimation { slot_idx: usize, anim_name: String, loop_anim: bool },
    /// Write a line to the console.
    Log(String),
}

/// The mathematical content of a command.
pub ghost enum CommandView {
    Dialogue { name: Seq<char>, affiliation: Seq<char>, content: Seq<char> },
    RequestLoad { slot_idx: usize, path: Seq<char> },
    LoadSuccess { slot_idx: usize, entity: EntityView, animation_names: Seq<Seq<char>> },
    LoadBackground { path: Seq<char> },
    PlayBgm { path: Seq<char> },
    BgmReady { data: Seq<u8> },
    StopBgm,
    SetAnimation { slot_idx: usize, anim_name: Seq<char>, loop_anim: bool },
    Log { message: Seq<char> },
}

impl View for Command {
    type V = CommandView;

    open spec fn view(&self) -> CommandView {
        match *self {
            Command::Dialogue { name, affiliation, content } => CommandView::Dialogue {
                name: name@,
                affiliation: affiliation@,
                content: content@,
            },
            Command::RequestLoad { slot_idx, path } => CommandView::RequestLoad {
                slot_idx,
                path: path@,
            },
            Command::LoadSuccess(slot_idx, entity, names) => CommandView::LoadSuccess {
                slot_idx,
                entity: entity@,
                animation_names: names.deep_view(),
            },
            Command::LoadBackground(path) => CommandView::LoadBackground { path: path@ },
            Command::PlayBgm(path) => CommandView::PlayBgm { path: path@ },
            Command::BgmReady(data) => CommandView::BgmReady { data: data@ },
            Command::StopBgm => CommandView::StopBgm,
            Command::SetAnimation { slot_idx, anim_name, loop_anim } => CommandView::SetAnimation {
                slot_idx,
                anim_name: anim_name@,
                loop_anim,
            },
            Command::Log(message) => CommandView::Log { message: message@ },
        }
    }
}

/// What the stage asks of the world after a command: work that only the
/// program around the stage can do.
#[derive(Debug, PartialEq, Eq)]
pub enum Effect {
    /// Nothing.
    Nothing,
    /// Load the character at `path` in the background and report the
    /// outcome for `slot_idx`.
    SpawnLoad { slot_idx: usize, path: String },
    /// The character that came with the command now stands in `slot_idx`;
    /// whatever stood there is released.
    InstallEntity { slot_idx: usize },
    /// Start the animation at place `animation` of the catalogue on the
    /// character in `slot_idx`, replacing what plays.
    ApplyAnimation { slot_idx: usize, animation: usize, loop_anim: bool },
    /// Load the picture at `path` and report the outcome.
    LoadBackground { path: String },
    /// Read the file at `path` in the background and report the outcome.
    SpawnAudioRead { path: String },
    /// Decode `data` and play it in place of what plays.
    PlayAudio { data: Vec<u8> },
    /// Stop what plays.
    StopAudio,
}

/// The mathematical content of an effect.
pub ghost enum EffectView {
    Nothing,
    SpawnLoad { slot_idx: usize, path: Seq<char> },
    InstallEntity { slot_idx: usize },
    ApplyAnimation { slot_idx: usize, animation: usize, loop_anim: bool },
    LoadBackground { path: Seq<char> },
    SpawnAudioRead { path: Seq<char> },
    PlayAudio { data: Seq<u8> },
    StopAudio,
}

impl View for Effect {
    type V = EffectView;

    open spec fn view(&self) -> EffectView {
        match *self {
            Effect::Nothing => EffectView::Nothing,
            Effect::SpawnLoad { slot_idx, path } => EffectView::SpawnLoad { slot_idx, path: path@ },
            Effect::InstallEntity { slot_idx } => EffectView::InstallEntity { slot_idx },
            Effect::ApplyAnimation { slot_idx, animation, loop_anim } => EffectView::ApplyAnimation {
                slot_idx,
                animation,
                loop_anim,
            },
            Effect::LoadBackground { path } => EffectView::LoadBackground { path: path@ },
            Effect::SpawnAudioRead { path } => EffectView::SpawnAudioRead { path: path@ },
            Effect::PlayAudio { data } => EffectView::PlayAudio { data: data@ },
            Effect::StopAudio => EffectView::StopAudio,
        }
    }
}

} // verus!
