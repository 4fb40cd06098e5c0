//! The stage: everything the presenter shows and the rules by which commands
//! change it. The program around the stage drains the command bus, hands the
//! commands over, performs the effects that come back, and feeds their
//! outcomes to the bus as new commands.

use vstd::prelude::*;
use crate::command::Command;
use crate::command::CommandView;
use crate::command::Effect;
use crate::command::EffectView;
use crate::console::bar;
use crate::console::keyword_talk;
use crate::console::lemma_talk_line;
use crate::console::lemma_tight_input;
use crate::console::parse_line;
use crate::console::Parsed;
use crate::console::ParsedView;
use crate::console::read_line;
use crate::console::space;
use crate::dialogue::DialogueState;
use crate::dialogue::DialogueView;
use crate::dialogue::REVEAL_INTERVAL_MICROS;
use crate::entity::EntityView;
use crate::entity::first_match;
use crate::entity::has_animation;
use crate::entity::lemma_set_animation;
use crate::entity::SpineObject;
use crate::text::chars_of;
use crate::text::decimal;
use crate::text::decimal_spec;
use crate::text::is_whitespace_spec;
use crate::text::string_of;
use crate::text::trim;
use crate::text::trim_spec;

verus! {

/// Number of character slots on the stage.
pub const SLOT_COUNT: usize = 5;

/// Screen position of the character in slot 0, in whole pixels.
pub const FIRST_SLOT_X: i32 = 200;

/// Distance between two neighbouring slots, in whole pixels.
pub const SLOT_SPACING: i32 = 220;

/// Height at which every character stands, in whole pixels.
pub const SLOT_Y: i32 = 720;

// ---------------------------------------------------------------------------
// Console lines
// ---------------------------------------------------------------------------

/// The line that announces a load.
pub open spec fn loading_message(slot_idx: usize) -> Seq<char> {
    "Loading slot "@ + decimal_spec(slot_idx as nat) + "..."@
}

/// The line that confirms a load, with the number of animations.
pub open spec fn loaded_message(slot_idx: usize, animations: nat) -> Seq<char> {
    "Slot "@ + decimal_spec(slot_idx as nat) + " Loaded. Anims: "@ + decimal_spec(animations)
}

/// The line that confirms a switch of animation.
pub open spec fn switched_message(slot_idx: usize, name: Seq<char>) -> Seq<char> {
    "Slot "@ + decimal_spec(slot_idx as nat) + " -> "@ + name
}

/// The line that reports an unknown animation.
pub open spec fn missing_message(name: Seq<char>) -> Seq<char> {
    "Anim not found: "@ + name
}

/// The line that reports a failed load.
pub open spec fn load_failed_message(path: Seq<char>) -> Seq<char> {
    "Load failed: "@ + path
}

/// The line that confirms a new background.
pub open spec fn background_message() -> Seq<char> {
    "BG Loaded."@
}

/// The line that reports a music file that could not be read.
pub open spec fn audio_failed_message() -> Seq<char> {
    "Audio read failed."@
}

/// The line that repeats what was entered.
pub open spec fn echo_message(line: Seq<char>) -> Seq<char> {
    "> "@ + line
}

/// The line that lists the commands.
pub open spec fn help_message() -> Seq<char> {
    "Commands: LOAD, ANIM, BGM, BG, TALK"@
}

/// The line that confirms that music plays.
pub open spec fn playing_message() -> Seq<char> {
    "Playing BGM."@
}

fn number(n: usize) -> (s: String)
    ensures
        s@ == decimal_spec(n as nat),
{
    string_of(&decimal(n))
}

fn make_loading_message(slot_idx: usize) -> (line: String)
    ensures
        line@ == loading_message(slot_idx),
{
    let mut line = String::from_str("Loading slot ");
    line.append(number(slot_idx).as_str());
    line.append("...");
    line
}

fn make_loaded_message(slot_idx: usize, animations: usize) -> (line: String)
    ensures
        line@ == loaded_message(slot_idx, animations as nat),
{
    let mut line = String::from_str("Slot ");
    line.append(number(slot_idx).as_str());
    line.append(" Loaded. Anims: ");
    line.append(number(animations).as_str());
    line
}

fn make_switched_message(slot_idx: usize, name: &str) -> (line: String)
    ensures
        line@ == switched_message(slot_idx, name@),
{
    let mut line = String::from_str("Slot ");
    line.append(number(slot_idx).as_str());
    line.append(" -> ");
    line.append(name);
    line
}

fn make_missing_message(name: &str) -> (line: String)
    ensures
        line@ == missing_message(name@),
{
    let mut line = String::from_str("Anim not found: ");
    line.append(name);
    line
}

fn make_load_failed_message(path: &str) -> (line: String)
    ensures
        line@ == load_failed_message(path@),
{
    let mut line = String::from_str("Load failed: ");
    line.append(path);
    line
}

// ---------------------------------------------------------------------------
// The model
// ---------------------------------------------------------------------------

/// Horizontal position of slot `slot_idx`, in 16.16 fixed point.
pub open spec fn slot_x(slot_idx: usize) -> i32 {
    ((FIRST_SLOT_X + slot_idx * SLOT_SPACING) * 0x1_0000) as i32
}

/// Height of every slot, in 16.16 fixed point.
pub open spec fn slot_y() -> i32 {
    (SLOT_Y * 0x1_0000) as i32
}

/// The mathematical content of the stage.
pub ghost struct StageView {
    /// Who speaks.
    pub speaker: Seq<char>,
    /// What the speaker belongs to.
    pub affiliation: Seq<char>,
    /// The typewriter.
    pub dialogue: DialogueView,
    /// The character slots.
    pub slots: Seq<Option<EntityView>>,
    /// The texture of the background picture, once one is loaded.
    pub background: Option<u64>,
    /// Whether an audio device was found at start.
    pub audio_available: bool,
    /// Whether the console is open.
    pub console_open: bool,
    /// What has been typed into the console.
    pub console_input: Seq<char>,
    /// The lines of the console, oldest first.
    pub logs: Seq<Seq<char>>,
}

impl StageView {
    /// Validity: there are `SLOT_COUNT` slots, and the typewriter and every
    /// character are valid.
    pub open spec fn wf(self) -> bool {
        &&& self.slots.len() == SLOT_COUNT
        &&& self.dialogue.wf()
        &&& forall|i: int|
            0 <= i < self.slots.len() && (#[trigger] self.slots[i]) is Some ==> self.slots[i]->0.wf()
    }

    /// The stage with one more console line.
    pub open spec fn logged(self, line: Seq<char>) -> StageView {
        StageView { logs: self.logs.push(line), ..self }
    }

    /// Whether a character stands in slot `slot_idx`.
    pub open spec fn occupied(self, slot_idx: int) -> bool {
        0 <= slot_idx < self.slots.len() && self.slots[slot_idx] is Some
    }

    /// Whether any character stands on the stage.
    pub open spec fn any_character(self) -> bool {
        exists|i: int| #[trigger] self.occupied(i)
    }

    /// The stage after one command, and what it asks of the world.
    pub open spec fn apply(self, command: CommandView) -> (StageView, EffectView) {
        match command {
            CommandView::Dialogue { name, affiliation, content } => (
                StageView {
                    speaker: name,
                    affiliation,
                    dialogue: self.dialogue.set_text(content),
                    ..self
                },
                EffectView::Nothing,
            ),
            CommandView::Log { message } => (self.logged(message), EffectView::Nothing),
            CommandView::RequestLoad { slot_idx, path } => (
                self.logged(loading_message(slot_idx)),
                EffectView::SpawnLoad { slot_idx, path },
            ),
            CommandView::LoadSuccess { slot_idx, entity, animation_names } => {
                if slot_idx < self.slots.len() {
                    (
                        StageView {
                            slots: self.slots.update(
                                slot_idx as int,
                                Some(entity.moved_to(slot_x(slot_idx), slot_y())),
                            ),
                            ..self
                        }.logged(loaded_message(slot_idx, animation_names.len())),
                        EffectView::InstallEntity { slot_idx },
                    )
                } else {
                    (self, EffectView::Nothing)
                }
            },
            CommandView::SetAnimation { slot_idx, anim_name, loop_anim } => {
                if self.occupied(slot_idx as int) {
                    let entity = self.slots[slot_idx as int]->0;
                    if has_animation(entity.animations, anim_name) {
                        (
                            StageView {
                                slots: self.slots.update(
                                    slot_idx as int,
                                    Some(entity.set_animation(anim_name, loop_anim)),
                                ),
                                ..self
                            }.logged(switched_message(slot_idx, anim_name)),
                            EffectView::ApplyAnimation {
                                slot_idx,
                                animation: first_match(entity.animations, anim_name) as usize,
                                loop_anim,
                            },
                        )
                    } else {
                        (self.logged(missing_message(anim_name)), EffectView::Nothing)
                    }
                } else {
                    (self, EffectView::Nothing)
                }
            },
            CommandView::LoadBackground { path } => (self, EffectView::LoadBackground { path }),
            CommandView::PlayBgm { path } => (self, EffectView::SpawnAudioRead { path }),
            CommandView::BgmReady { data } => {
                if self.audio_available {
                    (self.logged(playing_message()), EffectView::PlayAudio { data })
                } else {
                    (self, EffectView::Nothing)
                }
            },
            CommandView::StopBgm => {
                if self.audio_available {
                    (self, EffectView::StopAudio)
                } else {
                    (self, EffectView::Nothing)
                }
            },
        }
    }

    /// The stage after the commands `commands`, taken first to last.
    pub open spec fn apply_all(self, commands: Seq<CommandView>) -> StageView
        decreases commands.len(),
    {
        if commands.len() == 0 {
            self
        } else {
            self.apply_all(commands.drop_last()).apply(commands.last()).0
        }
    }

    /// What the commands `commands` ask of the world, one effect for each
    /// command, in their order.
    pub open spec fn effects_of(self, commands: Seq<CommandView>) -> Seq<EffectView>
        decreases commands.len(),
    {
        if commands.len() == 0 {
            Seq::empty()
        } else {
            self.effects_of(commands.drop_last()).push(
                self.apply_all(commands.drop_last()).apply(commands.last()).1,
            )
        }
    }

    /// The stage after the outcome of a background load: the picture's
    /// texture and a confirmation, or the old picture and a report.
    pub open spec fn background_done(self, path: Seq<char>, texture: Option<u64>) -> StageView {
        match texture {
            Some(id) => StageView { background: Some(id), ..self }.logged(background_message()),
            None => self.logged(load_failed_message(path)),
        }
    }

    /// The stage after the console line has been entered, and the command
    /// that the line sends, if any. A blank line changes nothing. Any other
    /// line is echoed and the input is emptied; a call for help is answered
    /// on the console.
    pub open spec fn submit(self) -> (StageView, Option<CommandView>) {
        let line = trim_spec(self.console_input);
        let echoed = StageView { console_input: Seq::empty(), ..self.logged(echo_message(line)) };
        match parse_line(line) {
            ParsedView::Blank => (self, None),
            ParsedView::Help => (echoed.logged(help_message()), None),
            ParsedView::Send(command) => (echoed, Some(command)),
            ParsedView::Dropped => (echoed, None),
        }
    }

    /// The stage after a click on the dialogue: the whole text is shown.
    pub open spec fn clicked(self) -> StageView {
        StageView { dialogue: self.dialogue.skip_to_end(), ..self }
    }

    /// The stage after one frame: the queued commands, then `dt` microseconds
    /// on the typewriter.
    pub open spec fn frame(self, commands: Seq<CommandView>, dt: nat) -> StageView {
        let drained = self.apply_all(commands);
        StageView { dialogue: drained.dialogue.tick(dt), ..drained }
    }
}

/// The first stage: the system greets, nothing is shown of the greeting yet,
/// the slots are empty, the console is shut and holds one line.
pub open spec fn opening(audio_available: bool) -> StageView {
    StageView {
        speaker: "System"@,
        affiliation: "AEFR"@,
        dialogue: DialogueView {
            target: "AEFR v0.8 Scheduler Online.\nReady for orders."@,
            visible: 0,
            timer: 0,
            interval: REVEAL_INTERVAL_MICROS as nat,
        },
        slots: Seq::new(SLOT_COUNT as nat, |i: int| None),
        background: None,
        audio_available,
        console_open: false,
        console_input: Seq::empty(),
        logs: seq!["Scheduler ready."@],
    }
}

// ---------------------------------------------------------------------------
// The stage
// ---------------------------------------------------------------------------

/// The views of the characters in the slots.
pub open spec fn slot_views(characters: Seq<Option<SpineObject>>) -> Seq<Option<EntityView>> {
    Seq::new(
        characters.len(),
        |i: int|
            match characters[i] {
                Some(entity) => Some(entity@),
                None => None,
            },
    )
}

/// The stage.
#[derive(Debug)]
pub struct Stage {
    current_name: String,
    current_affiliation: String,
    dialogue: DialogueState,
    characters: [Option<SpineObject>; SLOT_COUNT],
    background: Option<u64>,
    audio_available: bool,
    console_open: bool,
    console_input: String,
    console_logs: Vec<String>,
}

impl View for Stage {
    type V = StageView;

    closed spec fn view(&self) -> StageView {
        StageView {
            speaker: self.current_name@,
            affiliation: self.current_affiliation@,
            dialogue: self.dialogue@,
            slots: slot_views(self.characters@),
            background: self.background,
            audio_available: self.audio_available,
            console_open: self.console_open,
            console_input: self.console_input@,
            logs: self.console_logs.deep_view(),
        }
    }
}

/// What a frame asks of the world.
#[derive(Debug, PartialEq, Eq)]
pub struct Frame {
    /// One effect for each command of the frame, in their order.
    pub effects: Vec<Effect>,
    /// Whether the picture has to be painted again soon: a character stands
    /// on the stage, or the typewriter brought a character to light.
    pub repaint: bool,
}

/// The views of a vector of effects.
pub open spec fn effect_views(effects: Seq<Effect>) -> Seq<EffectView> {
    effects.map_values(|e: Effect| e@)
}

/// The views of a vector of commands.
pub open spec fn command_views(commands: Seq<Command>) -> Seq<CommandView> {
    commands.map_values(|c: Command| c@)
}

impl Stage {
    /// The first stage. `audio_available` says whether an audio device was
    /// found; without one the stage runs silent.
    pub fn new(audio_available: bool) -> (stage: Stage)
        ensures
            stage@ == opening(audio_available),
            stage@.wf(),
    {
        let mut console_logs: Vec<String> = Vec::new();
        console_logs.push(String::from_str("Scheduler ready."));
        let stage = Stage {
            current_name: String::from_str("System"),
            current_affiliation: String::from_str("AEFR"),
            dialogue: DialogueState::new("AEFR v0.8 Scheduler Online.\nReady for orders."),
            characters: [None, None, None, None, None],
            background: None,
            audio_available,
            console_open: false,
            console_input: String::new(),
            console_logs,
        };
        proof {
            assert(stage@.slots =~= opening(audio_available).slots);
            assert(stage@.logs =~= opening(audio_available).logs);
        }
        stage
    }

    fn log(&mut self, line: String)
        ensures
            final(self)@ == old(self)@.logged(line@),
    {
        self.console_logs.push(line);
        proof {
            assert(self.console_logs.deep_view() =~= old(self).console_logs.deep_view().push(line@));
        }
    }

    /// Applies one command and says what it asks of the world.
    pub fn handle_command(&mut self, command: Command) -> (effect: Effect)
        ensures
            final(self)@ == old(self)@.apply(command@).0,
            effect@ == old(self)@.apply(command@).1,
    {
        match command {
            Command::Dialogue { name, affiliation, content } => {
                self.current_name = name;
                self.current_affiliation = affiliation;
                self.dialogue.set_text(content.as_str());
                Effect::Nothing
            },
            Command::Log(message) => {
                self.log(message);
                Effect::Nothing
            },
            Command::RequestLoad { slot_idx, path } => {
                self.log(make_loading_message(slot_idx));
                Effect::SpawnLoad { slot_idx, path }
            },
            Command::LoadSuccess(slot_idx, entity, animation_names) => {
                if slot_idx < SLOT_COUNT {
                    let mut loaded: SpineObject = *entity;
                    let x: i32 = (FIRST_SLOT_X + (slot_idx as i32) * SLOT_SPACING) * 0x1_0000;
                    let y: i32 = SLOT_Y * 0x1_0000;
                    loaded.set_position(x, y);
                    self.characters[slot_idx] = Some(loaded);
                    proof {
                        assert(slot_views(self.characters@) =~= slot_views(old(self).characters@).update(
                            slot_idx as int,
                            Some(loaded@),
                        ));
                        assert(animation_names.deep_view().len() == animation_names.len());
                    }
                    self.log(make_loaded_message(slot_idx, animation_names.len()));
                    Effect::InstallEntity { slot_idx }
                } else {
                    Effect::Nothing
                }
            },
            Command::SetAnimation { slot_idx, anim_name, loop_anim } => {
                if slot_idx >= SLOT_COUNT {
                    return Effect::Nothing;
                }
                let outcome: Option<Option<usize>> = match &mut self.characters[slot_idx] {
                    Some(entity) => {
                        if entity.set_animation_by_name(anim_name.as_str(), loop_anim) {
                            match entity.track() {
                                Some(track) => Some(Some(track.animation)),
                                None => Some(None),
                            }
                        } else {
                            Some(None)
                        }
                    },
                    None => None,
                };
                proof {
                    if old(self)@.occupied(slot_idx as int) {
                        let before = old(self)@.slots[slot_idx as int]->0;
                        assert(slot_views(self.characters@) =~= slot_views(old(self).characters@).update(
                            slot_idx as int,
                            Some(before.set_animation(anim_name@, loop_anim)),
                        ));
                        if !has_animation(before.animations, anim_name@) {
                            assert(slot_views(self.characters@) =~= slot_views(old(self).characters@));
                        }
                    } else {
                        assert(slot_views(self.characters@) =~= slot_views(old(self).characters@));
                    }
                }
                match outcome {
                    Some(Some(animation)) => {
                        self.log(make_switched_message(slot_idx, anim_name.as_str()));
                        Effect::ApplyAnimation { slot_idx, animation, loop_anim }
                    },
                    Some(None) => {
                        self.log(make_missing_message(anim_name.as_str()));
                        Effect::Nothing
                    },
                    None => Effect::Nothing,
                }
            },
            Command::LoadBackground(path) => Effect::LoadBackground { path },
            Command::PlayBgm(path) => Effect::SpawnAudioRead { path },
            Command::BgmReady(data) => {
                if self.audio_available {
                    self.log(String::from_str("Playing BGM."));
                    Effect::PlayAudio { data }
                } else {
                    Effect::Nothing
                }
            },
            Command::StopBgm => {
                if self.audio_available {
                    Effect::StopAudio
                } else {
                    Effect::Nothing
                }
            },
        }
    }

    /// Applies the commands that were queued, first to last, and says what
    /// each asks of the world.
    pub fn handle_async_events(&mut self, commands: Vec<Command>) -> (effects: Vec<Effect>)
        ensures
            final(self)@ == old(self)@.apply_all(command_views(commands@)),
            effect_views(effects@) == old(self)@.effects_of(command_views(commands@)),
    {
        let ghost queued = commands@;
        let mut effects: Vec<Effect> = Vec::new();
        proof {
            assert(queued.take(0) =~= Seq::<Command>::empty());
            assert(command_views(queued.take(0)) =~= Seq::<CommandView>::empty());
            assert(effect_views(effects@) =~= Seq::<EffectView>::empty());
        }
        for command in queue: commands
            invariant
                queue.seq() == queued,
                self@ == old(self)@.apply_all(command_views(queued.take(queue.index()))),
                effect_views(effects@) == old(self)@.effects_of(
                    command_views(queued.take(queue.index())),
                ),
        {
            proof {
                let k = queue.index();
                assert(queued.take(k + 1).drop_last() =~= queued.take(k));
                assert(command_views(queued.take(k + 1)).drop_last() =~= command_views(
                    queued.take(k),
                ));
                assert(command_views(queued.take(k + 1)).last() == command@);
            }
            let effect = self.handle_command(command);
            proof {
                assert(effect_views(effects@.push(effect)) =~= effect_views(effects@).push(effect@));
            }
            effects.push(effect);
        }
        proof {
            assert(queued.take(queued.len() as int) =~= queued);
        }
        effects
    }

    /// One frame: the queued commands, then `dt_micros` microseconds on the
    /// typewriter.
    pub fn update(&mut self, commands: Vec<Command>, dt_micros: u64) -> (frame: Frame)
        ensures
            final(self)@ == old(self)@.frame(command_views(commands@), dt_micros as nat),
            effect_views(frame.effects@) == old(self)@.effects_of(command_views(commands@)),
            frame.repaint == (final(self)@.any_character() || final(self)@.dialogue.visible > old(
                self,
            )@.apply_all(command_views(commands@)).dialogue.visible),
    {
        let effects = self.handle_async_events(commands);
        let revealed = self.dialogue.tick(dt_micros);
        let repaint = revealed > 0 || self.any_character();
        Frame { effects, repaint }
    }

    /// Whether any character stands on the stage.
    pub fn any_character(&self) -> (any: bool)
        ensures
            any == self@.any_character(),
    {
        let mut i: usize = 0;
        while i < SLOT_COUNT
            invariant
                i <= SLOT_COUNT,
                forall|k: int| 0 <= k < i ==> !self@.occupied(k),
            decreases SLOT_COUNT - i,
        {
            if self.characters[i].is_some() {
                assert(self@.occupied(i as int));
                return true;
            }
            i = i + 1;
        }
        false
    }

    /// Takes in the outcome of loading the background picture at `path`:
    /// the picture's texture, or nothing where loading failed.
    pub fn finish_background(&mut self, path: &str, texture: Option<u64>)
        ensures
            final(self)@ == old(self)@.background_done(path@, texture),
    {
        match texture {
            Some(id) => {
                self.background = Some(id);
                self.log(String::from_str("BG Loaded."));
            },
            None => {
                self.log(make_load_failed_message(path));
            },
        }
    }

    /// Enters the console line. Returns the command that the line sends, if
    /// any, for the caller to put on the bus.
    pub fn parse_and_send_command(&mut self) -> (sent: Option<Command>)
        ensures
            final(self)@ == old(self)@.submit().0,
            match sent {
                Some(command) => old(self)@.submit().1 == Some(command@),
                None => old(self)@.submit().1 is None,
            },
    {
        let line = trim(&chars_of(self.console_input.as_str()));
        let parsed = read_line(&line);
        if let Parsed::Blank = parsed {
            return None;
        }
        let mut echo = String::from_str("> ");
        echo.append(string_of(&line).as_str());
        self.log(echo);
        self.console_input = String::new();
        match parsed {
            Parsed::Send(command) => Some(command),
            Parsed::Help => {
                self.log(String::from_str("Commands: LOAD, ANIM, BGM, BG, TALK"));
                None
            },
            _ => None,
        }
    }

    /// A click on the dialogue: the whole text is shown at once.
    pub fn click_dialogue(&mut self)
        ensures
            final(self)@ == old(self)@.clicked(),
    {
        self.dialogue.skip_to_end();
    }

    /// Opens the console if it is shut, and shuts it if it is open.
    pub fn toggle_console(&mut self)
        ensures
            final(self)@ == (StageView { console_open: !old(self)@.console_open, ..old(self)@ }),
    {
        self.console_open = !self.console_open;
    }

    /// Replaces what has been typed into the console.
    pub fn set_console_input(&mut self, input: &str)
        ensures
            final(self)@ == (StageView { console_input: input@, ..old(self)@ }),
    {
        self.console_input = String::from_str(input);
    }

    /// Who speaks.
    pub fn current_name(&self) -> (name: &String)
        ensures
            name@ == self@.speaker,
    {
        &self.current_name
    }

    /// What the speaker belongs to.
    pub fn current_affiliation(&self) -> (affiliation: &String)
        ensures
            affiliation@ == self@.affiliation,
    {
        &self.current_affiliation
    }

    /// The typewriter.
    pub fn dialogue(&self) -> (dialogue: &DialogueState)
        ensures
            dialogue@ == self@.dialogue,
    {
        &self.dialogue
    }

    /// The part of the dialogue that is shown.
    pub fn visible_text(&self) -> (shown: String)
        ensures
            shown@ == self@.dialogue.visible_text(),
    {
        self.dialogue.visible_text()
    }

    /// The character in slot `slot_idx`, if the stage has such a slot and
    /// one stands there.
    pub fn character(&self, slot_idx: usize) -> (found: Option<&SpineObject>)
        ensures
            match found {
                Some(entity) => self@.occupied(slot_idx as int) && self@.slots[slot_idx as int]
                    == Some(entity@),
                None => !self@.occupied(slot_idx as int),
            },
    {
        if slot_idx < SLOT_COUNT {
            match &self.characters[slot_idx] {
                Some(entity) => Some(entity),
                None => None,
            }
        } else {
            None
        }
    }

    /// The texture of the background picture, once one is loaded.
    pub fn background(&self) -> (texture: Option<u64>)
        ensures
            texture == self@.background,
    {
        self.background
    }

    /// Whether an audio device was found at start.
    pub fn audio_available(&self) -> (available: bool)
        ensures
            available == self@.audio_available,
    {
        self.audio_available
    }

    /// Whether the console is open.
    pub fn console_open(&self) -> (open: bool)
        ensures
            open == self@.console_open,
    {
        self.console_open
    }

    /// What has been typed into the console.
    pub fn console_input(&self) -> (input: &String)
        ensures
            input@ == self@.console_input,
    {
        &self.console_input
    }

    /// The lines of the console, oldest first.
    pub fn console_logs(&self) -> (lines: &Vec<String>)
        ensures
            lines.deep_view() == self@.logs,
    {
        &self.console_logs
    }
}

// ---------------------------------------------------------------------------
// Outcomes of background work
// ---------------------------------------------------------------------------

/// The command that reports the outcome of loading the character at `path`
/// for slot `slot_idx`: the character with the names of its animations, or a
/// console line where loading failed.
pub fn load_outcome(slot_idx: usize, path: &str, loaded: Option<(SpineObject, Vec<String>)>) -> (command:
    Command)
    ensures
        command@ == match loaded {
            Some((entity, names)) => CommandView::LoadSuccess {
                slot_idx,
                entity: entity@,
                animation_names: names.deep_view(),
            },
            None => CommandView::Log { message: load_failed_message(path@) },
        },
{
    match loaded {
        Some((entity, names)) => Command::LoadSuccess(slot_idx, Box::new(entity), names),
        None => Command::Log(make_load_failed_message(path)),
    }
}

/// The command that reports the outcome of reading a music file: its bytes,
/// or a console line where reading failed.
pub fn audio_outcome(read: Option<Vec<u8>>) -> (command: Command)
    ensures
        command@ == match read {
            Some(data) => CommandView::BgmReady { data: data@ },
            None => CommandView::Log { message: audio_failed_message() },
        },
{
    match read {
        Some(data) => Command::BgmReady(data),
        None => Command::Log(String::from_str("Audio read failed.")),
    }
}

// ---------------------------------------------------------------------------
// Laws of the stage
// ---------------------------------------------------------------------------

/// Whether the character that a command brings is valid.
pub open spec fn command_wf(command: CommandView) -> bool {
    match command {
        CommandView::LoadSuccess { slot_idx, entity, animation_names } => entity.wf(),
        _ => true,
    }
}

/// Every command leaves a valid stage valid, keeps the number of slots, and
/// takes no line off the console.
pub proof fn lemma_apply_preserves(stage: StageView, command: CommandView)
    requires
        stage.wf(),
        command_wf(command),
    ensures
        stage.apply(command).0.wf(),
        stage.logs.is_prefix_of(stage.apply(command).0.logs),
        stage.apply(command).0.audio_available == stage.audio_available,
        stage.apply(command).0.background == stage.background,
        stage.apply(command).0.console_input == stage.console_input,
{
    let after = stage.apply(command).0;
    match command {
        CommandView::SetAnimation { slot_idx, anim_name, loop_anim } => {
            if stage.occupied(slot_idx as int) {
                lemma_set_animation(stage.slots[slot_idx as int]->0, anim_name, loop_anim);
            }
        },
        _ => {},
    }
    assert forall|i: int| 0 <= i < after.slots.len() && (#[trigger] after.slots[i]) is Some implies after.slots[i]->0.wf() by {
        if stage.slots[i] is Some {
            assert(stage.slots[i]->0.wf());
        }
    }
}

/// A line of dialogue replaces speaker, affiliation and text, hides all of
/// the new text, and asks nothing of the world.
pub proof fn lemma_dialogue_resets(
    stage: StageView,
    name: Seq<char>,
    affiliation: Seq<char>,
    content: Seq<char>,
)
    ensures
        ({
            let (after, effect) = stage.apply(CommandView::Dialogue { name, affiliation, content });
            &&& after.speaker == name
            &&& after.affiliation == affiliation
            &&& after.dialogue.target == content
            &&& after.dialogue.visible == 0
            &&& after.dialogue.visible_text() == Seq::<char>::empty()
            &&& after.slots == stage.slots
            &&& after.logs == stage.logs
            &&& effect == EffectView::Nothing
        }),
{
    let after = stage.apply(CommandView::Dialogue { name, affiliation, content }).0;
    assert(after.dialogue.visible_text() =~= Seq::<char>::empty());
}

/// A request for an animation on a slot where no character stands, or on a
/// slot that the stage does not have, changes nothing and asks nothing.
pub proof fn lemma_animation_needs_character(
    stage: StageView,
    slot_idx: usize,
    anim_name: Seq<char>,
    loop_anim: bool,
)
    requires
        !stage.occupied(slot_idx as int),
    ensures
        stage.apply(CommandView::SetAnimation { slot_idx, anim_name, loop_anim }) == (
            stage,
            EffectView::Nothing,
        ),
{
}

/// A request for an animation that the character in the slot has makes it
/// the one that plays and is confirmed on the console; a request for one
/// that it does not have leaves the character as it is and is reported.
pub proof fn lemma_animation_switch(
    stage: StageView,
    slot_idx: usize,
    anim_name: Seq<char>,
    loop_anim: bool,
)
    requires
        stage.wf(),
        stage.occupied(slot_idx as int),
    ensures
        ({
            let entity = stage.slots[slot_idx as int]->0;
            let (after, effect) = stage.apply(
                CommandView::SetAnimation { slot_idx, anim_name, loop_anim },
            );
            if has_animation(entity.animations, anim_name) {
                &&& after.slots[slot_idx as int]->0.playing() == Some(anim_name)
                &&& after.slots[slot_idx as int]->0.track->0.looping == loop_anim
                &&& after.logs == stage.logs.push(switched_message(slot_idx, anim_name))
                &&& effect is ApplyAnimation
            } else {
                &&& after.slots == stage.slots
                &&& after.logs == stage.logs.push(missing_message(anim_name))
                &&& effect == EffectView::Nothing
            }
        }),
{
    lemma_set_animation(stage.slots[slot_idx as int]->0, anim_name, loop_anim);
}

/// A loaded character takes its slot, whatever stood there, stands at the
/// slot's place, and is confirmed on the console; one for a slot that the
/// stage does not have is dropped.
pub proof fn lemma_load_fills_slot(
    stage: StageView,
    slot_idx: usize,
    entity: EntityView,
    animation_names: Seq<Seq<char>>,
)
    requires
        stage.wf(),
    ensures
        ({
            let (after, effect) = stage.apply(
                CommandView::LoadSuccess { slot_idx, entity, animation_names },
            );
            if slot_idx < SLOT_COUNT {
                &&& after.occupied(slot_idx as int)
                &&& after.slots[slot_idx as int]->0.animations == entity.animations
                &&& after.slots[slot_idx as int]->0.track == entity.track
                &&& after.slots[slot_idx as int]->0.place.x == slot_x(slot_idx)
                &&& after.slots[slot_idx as int]->0.place.y == slot_y()
                &&& forall|i: int|
                    0 <= i < SLOT_COUNT && i != slot_idx ==> after.slots[i] == stage.slots[i]
                &&& after.logs == stage.logs.push(loaded_message(slot_idx, animation_names.len()))
                &&& effect == (EffectView::InstallEntity { slot_idx })
            } else {
                after == stage && effect == EffectView::Nothing
            }
        }),
{
}

/// Without an audio device the stage runs silent: no command makes it ask
/// for sound to be played or stopped.
pub proof fn lemma_silent_without_device(stage: StageView, command: CommandView)
    requires
        !stage.audio_available,
    ensures
        !(stage.apply(command).1 is PlayAudio),
        !(stage.apply(command).1 is StopAudio),
{
}

/// The bus may be drained in one go or in two: commands taken in over two
/// frames leave the stage, and ask of the world, what they would have in one.
pub proof fn lemma_drain_in_parts(stage: StageView, first: Seq<CommandView>, second: Seq<CommandView>)
    ensures
        stage.apply_all(first + second) == stage.apply_all(first).apply_all(second),
        stage.effects_of(first + second) == stage.effects_of(first) + stage.apply_all(
            first,
        ).effects_of(second),
    decreases second.len(),
{
    if second.len() == 0 {
        assert(first + second =~= first);
        assert(stage.effects_of(first) + Seq::<EffectView>::empty() =~= stage.effects_of(first));
    } else {
        let shorter = second.drop_last();
        lemma_drain_in_parts(stage, first, shorter);
        assert((first + second).drop_last() =~= first + shorter);
        assert((first + second).last() == second.last());
        let mid = stage.apply_all(first);
        assert(stage.effects_of(first + second) =~= stage.effects_of(first) + mid.effects_of(second));
    }
}

/// Draining keeps a valid stage valid and takes no line off the console.
pub proof fn lemma_apply_all_preserves(stage: StageView, commands: Seq<CommandView>)
    requires
        stage.wf(),
        forall|i: int| 0 <= i < commands.len() ==> command_wf(#[trigger] commands[i]),
    ensures
        stage.apply_all(commands).wf(),
        stage.logs.is_prefix_of(stage.apply_all(commands).logs),
        stage.effects_of(commands).len() == commands.len(),
    decreases commands.len(),
{
    if commands.len() > 0 {
        let shorter = commands.drop_last();
        assert forall|i: int| 0 <= i < shorter.len() implies command_wf(#[trigger] shorter[i]) by {
            assert(shorter[i] == commands[i]);
        }
        lemma_apply_all_preserves(stage, shorter);
        assert(command_wf(commands[commands.len() - 1]));
        lemma_apply_preserves(stage.apply_all(shorter), commands.last());
    }
}

/// A `TALK` line entered at the console reaches the stage: the command it
/// sends makes the stage show the new speaker and affiliation, with the new
/// text as the typewriter's target and none of it visible.
pub proof fn lemma_talk_reaches_the_stage(
    stage: StageView,
    name: Seq<char>,
    affiliation: Seq<char>,
    content: Seq<char>,
)
    requires
        !name.contains('|'),
        !affiliation.contains('|'),
        !content.contains('|'),
        content.len() > 0 ==> !is_whitespace_spec(content.last()),
        stage.console_input == keyword_talk() + space() + (name + bar() + affiliation + bar()
            + content),
    ensures
        stage.submit().1 == Some(CommandView::Dialogue { name, affiliation, content }),
        ({
            let (entered, sent) = stage.submit();
            let shown = entered.apply(sent->0).0;
            &&& entered.console_input == Seq::<char>::empty()
            &&& entered.logs == stage.logs.push(echo_message(stage.console_input))
            &&& shown.speaker == name
            &&& shown.affiliation == affiliation
            &&& shown.dialogue.target == content
            &&& shown.dialogue.visible == 0
        }),
{
    let line = stage.console_input;
    assert(line[0] == 'T');
    assert(line.last() == if content.len() > 0 {
        content.last()
    } else {
        '|'
    });
    lemma_tight_input(line);
    lemma_talk_line(name, affiliation, content);
}

} // verus!
