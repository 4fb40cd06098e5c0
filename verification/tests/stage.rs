use aefr::command::Command;
use aefr::command::Effect;
use aefr::entity::SpineObject;
use aefr::entity::Track;
use aefr::mesh::Placement;
use aefr::stage::audio_outcome;
use aefr::stage::load_outcome;
use aefr::stage::Stage;
use aefr::stage::FIRST_SLOT_X;
use aefr::stage::SLOT_COUNT;
use aefr::stage::SLOT_SPACING;
use aefr::stage::SLOT_Y;

fn names(list: &[&str]) -> Vec<String> {
    list.iter().map(|s| s.to_string()).collect()
}

fn hina() -> SpineObject {
    SpineObject::new(names(&["Start", "Idle", "Walk"]), 11)
}

fn loaded(slot_idx: usize) -> Command {
    Command::LoadSuccess(slot_idx, Box::new(hina()), names(&["Start", "Idle", "Walk"]))
}

fn enter(stage: &mut Stage, line: &str) -> Option<Command> {
    stage.set_console_input(line);
    stage.parse_and_send_command()
}

#[test]
fn opening_stage() {
    let stage = Stage::new(true);
    assert_eq!(stage.current_name(), "System");
    assert_eq!(stage.current_affiliation(), "AEFR");
    assert_eq!(stage.dialogue().target_text(), "AEFR v0.8 Scheduler Online.\nReady for orders.");
    assert_eq!(stage.dialogue().visible_count(), 0);
    assert_eq!(stage.visible_text(), "");
    assert_eq!(stage.console_logs(), &vec!["Scheduler ready.".to_string()]);
    assert_eq!(stage.console_input(), "");
    assert!(!stage.console_open());
    assert!(stage.audio_available());
    assert_eq!(stage.background(), None);
    assert!(!stage.any_character());
    assert_eq!(SLOT_COUNT, 5);
    for slot in 0..8 {
        assert!(stage.character(slot).is_none());
    }
}

#[test]
fn talk_sets_speaker_and_resets_the_typewriter() {
    let mut stage = Stage::new(true);
    stage.update(Vec::new(), 200_000);
    assert!(stage.dialogue().visible_count() > 0);
    let command = enter(&mut stage, "TALK Alice|Factionless|Hello").expect("a command");
    let effect = stage.handle_command(command);
    assert_eq!(effect, Effect::Nothing);
    assert_eq!(stage.current_name(), "Alice");
    assert_eq!(stage.current_affiliation(), "Factionless");
    assert_eq!(stage.dialogue().visible_count(), 0);
    assert_eq!(stage.dialogue().target_text(), "Hello");
    assert_eq!(stage.visible_text(), "");
}

#[test]
fn load_then_anim_end_to_end() {
    let mut stage = Stage::new(true);
    let request = enter(&mut stage, "LOAD 0 \"chars/hina\"").expect("a command");
    assert_eq!(request, Command::RequestLoad { slot_idx: 0, path: "chars/hina".to_string() });

    let frame = stage.update(vec![request], 16_000);
    assert_eq!(
        frame.effects,
        vec![Effect::SpawnLoad { slot_idx: 0, path: "chars/hina".to_string() }]
    );
    assert_eq!(stage.console_logs().last().unwrap(), "Loading slot 0...");
    assert!(stage.character(0).is_none());

    let frame = stage.update(Vec::new(), 16_000);
    assert!(frame.effects.is_empty());

    let done = load_outcome(0, "chars/hina", Some((hina(), names(&["Start", "Idle", "Walk"]))));
    let frame = stage.update(vec![done], 16_000);
    assert_eq!(frame.effects, vec![Effect::InstallEntity { slot_idx: 0 }]);
    assert!(frame.repaint);
    assert!(stage.character(0).is_some());
    let line = stage.console_logs().last().unwrap();
    assert!(line.contains("Loaded"));
    assert_eq!(line, "Slot 0 Loaded. Anims: 3");

    let anim = enter(&mut stage, "ANIM 0 Idle true").expect("a command");
    let effect = stage.handle_command(anim);
    assert_eq!(effect, Effect::ApplyAnimation { slot_idx: 0, animation: 1, loop_anim: true });
    assert_eq!(stage.console_logs().last().unwrap(), "Slot 0 -> Idle");
    assert_eq!(stage.character(0).unwrap().track(), Some(Track { animation: 1, looping: true }));
}

#[test]
fn anim_on_an_empty_slot_does_nothing() {
    let mut stage = Stage::new(true);
    let logs = stage.console_logs().clone();
    for slot_idx in [0usize, 4, 5, 100, usize::MAX] {
        let effect = stage.handle_command(Command::SetAnimation {
            slot_idx,
            anim_name: "Idle".to_string(),
            loop_anim: true,
        });
        assert_eq!(effect, Effect::Nothing);
    }
    assert_eq!(stage.console_logs(), &logs);
    assert!(!stage.any_character());
}

#[test]
fn unknown_animation_is_reported() {
    let mut stage = Stage::new(true);
    stage.handle_command(loaded(2));
    let effect = stage.handle_command(Command::SetAnimation {
        slot_idx: 2,
        anim_name: "Nonexistent".to_string(),
        loop_anim: true,
    });
    assert_eq!(effect, Effect::Nothing);
    assert_eq!(stage.console_logs().last().unwrap(), "Anim not found: Nonexistent");
    assert_eq!(stage.character(2).unwrap().track(), Some(Track { animation: 0, looping: true }));
}

#[test]
fn loaded_character_stands_at_its_slot() {
    let mut stage = Stage::new(true);
    for slot_idx in 0..5usize {
        assert_eq!(stage.handle_command(loaded(slot_idx)), Effect::InstallEntity { slot_idx });
        let place = stage.character(slot_idx).unwrap().placement();
        let x = (200 + 220 * slot_idx as i32) * 65536;
        assert_eq!(place, Placement { x, y: 720 * 65536, scale: 0x8000 });
    }
    assert_eq!((FIRST_SLOT_X, SLOT_SPACING, SLOT_Y), (200, 220, 720));
    assert_eq!(stage.character(4).unwrap().placement().x, 1080 * 65536);
    assert!(stage.any_character());
}

#[test]
fn load_for_a_slot_that_is_not_there_is_dropped() {
    let mut stage = Stage::new(true);
    let logs = stage.console_logs().clone();
    assert_eq!(stage.handle_command(loaded(5)), Effect::Nothing);
    assert_eq!(stage.handle_command(loaded(usize::MAX)), Effect::Nothing);
    assert_eq!(stage.console_logs(), &logs);
    assert!(!stage.any_character());
}

#[test]
fn later_load_replaces_the_character() {
    let mut stage = Stage::new(true);
    stage.handle_command(loaded(1));
    stage.handle_command(Command::SetAnimation {
        slot_idx: 1,
        anim_name: "Walk".to_string(),
        loop_anim: false,
    });
    let other = SpineObject::new(names(&["Only"]), 99);
    stage.handle_command(Command::LoadSuccess(1, Box::new(other), names(&["Only"])));
    let now = stage.character(1).unwrap();
    assert_eq!(now.texture(), 99);
    assert_eq!(now.animation_names(), &names(&["Only"]));
    assert_eq!(now.track(), Some(Track { animation: 0, looping: true }));
    assert_eq!(stage.console_logs().last().unwrap(), "Slot 1 Loaded. Anims: 1");
}

#[test]
fn failed_load_is_a_console_line() {
    let mut stage = Stage::new(true);
    let report = load_outcome(3, "chars/none", None);
    assert_eq!(report, Command::Log("Load failed: chars/none".to_string()));
    assert_eq!(stage.handle_command(report), Effect::Nothing);
    assert_eq!(stage.console_logs().last().unwrap(), "Load failed: chars/none");
    assert!(stage.character(3).is_none());
}

#[test]
fn request_load_is_announced_for_any_slot() {
    let mut stage = Stage::new(true);
    let effect = stage.handle_command(Command::RequestLoad { slot_idx: 17, path: "p".to_string() });
    assert_eq!(effect, Effect::SpawnLoad { slot_idx: 17, path: "p".to_string() });
    assert_eq!(stage.console_logs().last().unwrap(), "Loading slot 17...");
}

#[test]
fn music_is_read_then_played() {
    let mut stage = Stage::new(true);
    let play = enter(&mut stage, "BGM \"music/theme.ogg\"").expect("a command");
    assert_eq!(
        stage.handle_command(play),
        Effect::SpawnAudioRead { path: "music/theme.ogg".to_string() }
    );
    let ready = audio_outcome(Some(vec![1, 2, 3]));
    assert_eq!(ready, Command::BgmReady(vec![1, 2, 3]));
    assert_eq!(stage.handle_command(ready), Effect::PlayAudio { data: vec![1, 2, 3] });
    assert_eq!(stage.console_logs().last().unwrap(), "Playing BGM.");
    assert_eq!(stage.handle_command(Command::StopBgm), Effect::StopAudio);
}

#[test]
fn unreadable_music_is_a_console_line() {
    let mut stage = Stage::new(true);
    let report = audio_outcome(None);
    assert_eq!(report, Command::Log("Audio read failed.".to_string()));
    stage.handle_command(report);
    assert_eq!(stage.console_logs().last().unwrap(), "Audio read failed.");
}

#[test]
fn stop_before_late_bytes_still_plays_them() {
    let mut stage = Stage::new(true);
    let frame = stage.update(vec![Command::StopBgm, Command::BgmReady(vec![9])], 0);
    assert_eq!(frame.effects, vec![Effect::StopAudio, Effect::PlayAudio { data: vec![9] }]);
}

#[test]
fn without_a_device_the_stage_is_silent() {
    let mut stage = Stage::new(false);
    let logs = stage.console_logs().clone();
    assert_eq!(stage.handle_command(Command::BgmReady(vec![1])), Effect::Nothing);
    assert_eq!(stage.handle_command(Command::StopBgm), Effect::Nothing);
    assert_eq!(stage.console_logs(), &logs);
    assert_eq!(
        stage.handle_command(Command::PlayBgm("a".to_string())),
        Effect::SpawnAudioRead { path: "a".to_string() }
    );
}

#[test]
fn background_outcome_is_taken_in() {
    let mut stage = Stage::new(true);
    let command = enter(&mut stage, "BG bg/room.png").expect("a command");
    assert_eq!(
        stage.handle_command(command),
        Effect::LoadBackground { path: "bg/room.png".to_string() }
    );
    assert_eq!(stage.background(), None);
    stage.finish_background("bg/room.png", Some(5));
    assert_eq!(stage.background(), Some(5));
    assert_eq!(stage.console_logs().last().unwrap(), "BG Loaded.");
    stage.finish_background("bg/none.png", None);
    assert_eq!(stage.background(), Some(5));
    assert_eq!(stage.console_logs().last().unwrap(), "Load failed: bg/none.png");
}

#[test]
fn log_command_adds_a_line() {
    let mut stage = Stage::new(true);
    stage.handle_command(Command::Log("hello".to_string()));
    assert_eq!(
        stage.console_logs(),
        &vec!["Scheduler ready.".to_string(), "hello".to_string()]
    );
}

#[test]
fn commands_are_applied_in_order() {
    let mut stage = Stage::new(true);
    let effects = stage.handle_async_events(vec![
        Command::SetAnimation { slot_idx: 0, anim_name: "Idle".to_string(), loop_anim: true },
        loaded(0),
        Command::SetAnimation { slot_idx: 0, anim_name: "Idle".to_string(), loop_anim: false },
        Command::Log("done".to_string()),
    ]);
    assert_eq!(
        effects,
        vec![
            Effect::Nothing,
            Effect::InstallEntity { slot_idx: 0 },
            Effect::ApplyAnimation { slot_idx: 0, animation: 1, loop_anim: false },
            Effect::Nothing,
        ]
    );
    let tail: Vec<&str> = stage.console_logs().iter().map(|s| s.as_str()).collect();
    assert_eq!(tail, vec!["Scheduler ready.", "Slot 0 Loaded. Anims: 3", "Slot 0 -> Idle", "done"]);
    assert!(stage.handle_async_events(Vec::new()).is_empty());
}

#[test]
fn frame_drains_then_types() {
    let mut stage = Stage::new(true);
    let talk = Command::Dialogue {
        name: "A".to_string(),
        affiliation: "B".to_string(),
        content: "Hello".to_string(),
    };
    let frame = stage.update(vec![talk], 65_000);
    assert_eq!(frame.effects, vec![Effect::Nothing]);
    assert!(frame.repaint);
    assert_eq!(stage.visible_text(), "He");
    let frame = stage.update(Vec::new(), 1_000);
    assert!(!frame.repaint);
    assert_eq!(stage.visible_text(), "He");
    let frame = stage.update(Vec::new(), 1_000_000);
    assert!(frame.repaint);
    assert_eq!(stage.visible_text(), "Hello");
    let frame = stage.update(Vec::new(), 1_000_000);
    assert!(!frame.repaint);
    stage.handle_command(loaded(4));
    assert!(stage.update(Vec::new(), 0).repaint);
}

#[test]
fn click_shows_the_whole_line() {
    let mut stage = Stage::new(true);
    stage.update(Vec::new(), 40_000);
    assert_eq!(stage.visible_text(), "A");
    stage.click_dialogue();
    assert_eq!(stage.visible_text(), "AEFR v0.8 Scheduler Online.\nReady for orders.");
    assert!(!stage.dialogue().is_revealing());
}

#[test]
fn console_echoes_and_clears() {
    let mut stage = Stage::new(true);
    assert_eq!(enter(&mut stage, "  STOP  "), Some(Command::StopBgm));
    assert_eq!(stage.console_logs().last().unwrap(), "> STOP");
    assert_eq!(stage.console_input(), "");
    assert_eq!(enter(&mut stage, "nonsense here"), None);
    assert_eq!(stage.console_logs().last().unwrap(), "> nonsense here");
    assert_eq!(stage.console_input(), "");
    assert_eq!(stage.console_logs().len(), 3);
}

#[test]
fn blank_console_line_changes_nothing() {
    let mut stage = Stage::new(true);
    assert_eq!(enter(&mut stage, "   "), None);
    assert_eq!(stage.console_input(), "   ");
    assert_eq!(stage.console_logs().len(), 1);
    assert_eq!(enter(&mut stage, ""), None);
    assert_eq!(stage.console_logs().len(), 1);
}

#[test]
fn help_is_answered_on_the_console() {
    let mut stage = Stage::new(true);
    assert_eq!(enter(&mut stage, "HELP"), None);
    let lines: Vec<&str> = stage.console_logs().iter().map(|s| s.as_str()).collect();
    assert_eq!(lines, vec!["Scheduler ready.", "> HELP", "Commands: LOAD, ANIM, BGM, BG, TALK"]);
    assert_eq!(stage.console_input(), "");
}

#[test]
fn console_opens_and_shuts() {
    let mut stage = Stage::new(true);
    stage.toggle_console();
    assert!(stage.console_open());
    stage.toggle_console();
    assert!(!stage.console_open());
}
