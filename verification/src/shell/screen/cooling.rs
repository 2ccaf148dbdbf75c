//! The Cooling screen: the program, the two channels, and the curve.
//!
//! Every control here writes on its own once the edit settles, so an edit is
//! pending only for the moment between the operator letting go and the daemon
//! confirming it. What is left of the deliberate actions is the way back and
//! the two profile buttons.

use vstd::prelude::*;

use super::drag::Drag;
use super::tab::{
    COOLING_TAB_DELETE, COOLING_TAB_MODE, COOLING_TAB_PROFILE, COOLING_TAB_REVERT, COOLING_TAB_SAVE,
};
use super::write::{WriteSchedule, WriteTarget, COOLING_QUIET};
use super::{SelectField, SelectId, SelectOption};
use crate::display::DisplayPreset;
use crate::lighting::{LightingCommand, LightingProgram};
use crate::profile::{
    CoolingProgram, Profile, ValidationError, PROFILE_NAME_MAX_LEN, SAFE_PROFILE_NAME,
};
use crate::shell::{
    Command, CommandOutcome, ControlState, Note, NoteLevel, OutcomeSeverity,
};
use crate::telemetry::SafetyAlert;
use crate::text;

verus! {

/// Width of the two selects that sit in the Cooling header, in logical pixels.
pub const COOLING_SELECT_WIDTH: u32 = 228;

/// What the screen says while a write has left and nothing has confirmed it.
pub const SAVING: &'static str =
    "Saving. The hardware holds its previous program until this clears.";

/// Whether a committed program is put in the editor. `seen` is what the last
/// adoption took.
pub open spec fn adopts(
    committed: CoolingProgram,
    seen: Option<&CoolingProgram>,
    editing: bool,
) -> bool {
    !editing && !(seen matches Some(seen) && seen.means(committed))
}

/// The committed program a fresh status should put in the editor, if any.
///
/// A status repeating itself adopts nothing, so a screen the operator is
/// reading does not twitch once a second. Nothing is adopted while an edit is
/// in flight: that edit is the operator's intent, and what the daemon committed
/// is the state the intent is about to replace.
pub fn program_to_adopt(
    committed: Option<&CoolingProgram>,
    seen: Option<&CoolingProgram>,
    editing: bool,
) -> (adopted: Option<CoolingProgram>)
    ensures
        adopted == match committed {
            Some(committed) => if adopts(*committed, seen, editing) {
                Some(*committed)
            } else {
                None
            },
            None => None,
        },
{
    let committed: &CoolingProgram = committed?;
    if editing {
        return None;
    }
    if let Some(seen) = seen {
        if seen.same(committed) {
            return None;
        }
    }
    Some(committed.clone())
}

/// Put the daemon's committed program in the editor when it changes: what the
/// editor takes, if anything, remembered so that it is not taken again.
///
/// An activation is the daemon committing a program like any other, so one rule
/// covers a window that opens on a running machine and a profile the operator
/// just activated.
pub fn adopt_committed_program(
    seen: &mut Option<CoolingProgram>,
    committed: Option<&CoolingProgram>,
    editing: bool,
) -> (adopted: Option<CoolingProgram>)
    ensures
        ({
            let before = match *old(seen) {
                Some(seen) => Some(&seen),
                None => None,
            };
            match committed {
                Some(committed) => if adopts(*committed, before, editing) {
                    adopted == Some(*committed) && *final(seen) == Some(*committed)
                } else {
                    adopted is None && *final(seen) == *old(seen)
                },
                None => adopted is None && *final(seen) == *old(seen),
            }
        }),
{
    let before: Option<&CoolingProgram> = match seen {
        Some(program) => Some(&*program),
        None => None,
    };
    match program_to_adopt(committed, before, editing) {
        Some(program) => {
            *seen = Some(program.clone());
            Some(program)
        },
        None => None,
    }
}

/// A program is adopted once: while the daemon repeats it, it is not adopted
/// again. It is never adopted over an edit, and always when nothing was adopted
/// yet and nothing is being edited.
pub proof fn a_program_is_adopted_once_and_never_over_an_edit(
    committed: CoolingProgram,
    seen: Option<&CoolingProgram>,
    editing: bool,
)
    ensures
        !adopts(committed, Some(&committed), editing),
        !adopts(committed, seen, true),
        adopts(committed, None, false),
{
}

/// Whether the operator's intent is still on its way: a gesture running, a
/// write waiting out its quiet period, or a command whose outcome has not come
/// back.
pub fn is_editing(drag: Option<Drag>, schedule: &WriteSchedule, in_flight: bool) -> (editing: bool)
    ensures
        editing == ((drag matches Some(drag) && drag.edits_cooling()) || super::keyed::keeps(
            schedule@,
            WriteTarget::Cooling,
        ) || in_flight),
{
    let dragging: bool = match drag {
        Some(drag) => drag.is_cooling(),
        None => false,
    };
    dragging || schedule.is_pending(WriteTarget::Cooling) || in_flight
}

/// Note that the cooling edit changed, without sending anything.
///
/// The moves inside a drag arrive by the dozen and only the one the operator
/// stops on is worth writing, so they push the deadline out.
pub fn touch_cooling(schedule: &mut WriteSchedule, now: u64)
    requires
        now + COOLING_QUIET <= u64::MAX,
    ensures
        final(schedule)@ == super::keyed::with(
            old(schedule)@,
            WriteTarget::Cooling,
            (now + COOLING_QUIET) as u64,
        ),
{
    schedule.touch(WriteTarget::Cooling, now + COOLING_QUIET);
}

/// Why the built-in profile stays.
pub const SAFE_PROFILE_KEPT: &'static str =
    "The built-in safe profile cannot be deleted. It is what the daemon falls back to when anything else is unavailable.";

/// Why nothing can be done while no daemon answers.
pub const SERVICE_ABSENT: &'static str = "The background service is not running.";

/// Whether a profile is one an operator may delete.
pub open spec fn deletable(active: Option<&str>) -> bool {
    active matches Some(name) && name@ != SAFE_PROFILE_NAME@
}

/// Whether this is the state of the delete control: operable for a profile an
/// operator may delete, and refused with the reason otherwise.
pub open spec fn shows_deletion(state: ControlState, active: Option<&str>) -> bool {
    match active {
        None => state matches ControlState::Disabled { reason } && reason@ == SERVICE_ABSENT@,
        Some(_) => if deletable(active) {
            state is Enabled
        } else {
            state matches ControlState::Disabled { reason } && reason@ == SAFE_PROFILE_KEPT@
        },
    }
}

/// State of the delete control for the currently active profile.
///
/// `None` means no daemon answered. The built-in safe profile is refused here
/// for the same reason the daemon refuses it: it is what everything else falls
/// back to, so it has to survive every other profile.
pub fn delete_state(active: Option<&str>) -> (state: ControlState)
    ensures
        shows_deletion(state, active),
{
    match active {
        None => ControlState::disabled(SERVICE_ABSENT),
        Some(name) => {
            if text::same(name, SAFE_PROFILE_NAME) {
                ControlState::disabled(SAFE_PROFILE_KEPT)
            } else {
                ControlState::Enabled
            }
        },
    }
}

/// What one activation of the delete control does: the armed flag to keep, and
/// the command to send, if any.
///
/// The first activation only arms: deleting the configuration an operator is
/// running is not something a stray click should accomplish.
pub fn next_deletion(active: Option<&str>, armed: bool) -> (next: (bool, Option<Command>))
    ensures
        next.0 == (deletable(active) && !armed),
        next.1 is Some <==> deletable(active) && armed,
        next.1 matches Some(command) ==> command matches Command::DeleteProfile(name) && name@
            == active->0@,
{
    match active {
        None => (false, None),
        Some(name) => {
            if text::same(name, SAFE_PROFILE_NAME) {
                (false, None)
            } else if armed {
                (false, Some(Command::DeleteProfile(name.to_owned())))
            } else {
                (true, None)
            }
        },
    }
}

/// The command choosing a profile sends.
pub fn activate_profile(name: &str) -> (command: Command)
    ensures
        command matches Command::ActivateProfile(chosen) && chosen@ == name@,
{
    Command::ActivateProfile(name.to_owned())
}

/// One button.
#[derive(Debug)]
pub struct Button {
    pub id: &'static str,
    pub label: &'static str,
    pub kind: ButtonKind,
    pub state: ControlState,
    pub tab_index: isize,
}

/// How a button is dressed.
#[derive(Debug, Clone, Copy, PartialEq, Eq, Structural)]
pub enum ButtonKind {
    Plain,
    Primary,
    Danger,
}

/// Delete the active profile, in two deliberate activations.
pub fn delete_button(active: Option<&str>, armed: bool, tab_index: isize) -> (button: Button)
    ensures
        button.id@ == "cooling-delete"@,
        button.label@ == if armed {
            "Confirm deletion"@
        } else {
            "Delete profile"@
        },
        button.kind is Danger,
        shows_deletion(button.state, active),
        button.tab_index == tab_index,
{
    Button {
        id: "cooling-delete",
        label: if armed {
            "Confirm deletion"
        } else {
            "Delete profile"
        },
        kind: ButtonKind::Danger,
        state: delete_state(active),
        tab_index,
    }
}

/// The command that writes the pending cooling program, if there is something
/// to write and it is something the daemon would accept.
pub fn send_cooling(pending: bool, invalid: Option<&ValidationError>, program: CoolingProgram) -> (command:
    Option<Command>)
    ensures
        command == if pending && invalid is None {
            Some(Command::Apply(program))
        } else {
            None
        },
{
    if !pending || invalid.is_some() {
        None
    } else {
        Some(Command::Apply(program))
    }
}

/// Send the pending cooling program, remembering it as sent until its outcome
/// arrives. Where nothing is sent, what was sent before is still remembered.
pub fn send_and_remember(
    pending: bool,
    invalid: Option<&ValidationError>,
    program: CoolingProgram,
    sent: &mut Option<CoolingProgram>,
) -> (command: Option<Command>)
    ensures
        command == if pending && invalid is None {
            Some(Command::Apply(program))
        } else {
            None
        },
        *final(sent) == match command {
            Some(_) => Some(program),
            None => *old(sent),
        },
{
    let copy: CoolingProgram = program.clone();
    let command: Option<Command> = send_cooling(pending, invalid, program);
    if command.is_some() {
        *sent = Some(copy);
    }
    command
}

/// Press "Revert to hardware": what was sent is forgotten, and a write of the
/// cooling program is due once its quiet period has passed.
///
/// An edit is already on the hardware, so this is not an undo: the editor goes
/// back to what the device reports it is running.
pub fn press_revert(sent: &mut Option<CoolingProgram>, schedule: &mut WriteSchedule, now: u64)
    requires
        now + COOLING_QUIET <= u64::MAX,
    ensures
        *final(sent) is None,
        final(schedule)@ == super::keyed::with(
            old(schedule)@,
            WriteTarget::Cooling,
            (now + COOLING_QUIET) as u64,
        ),
{
    *sent = None;
    touch_cooling(schedule, now);
}

/// What one lighting channel is pending. `program` is `None` while its color is
/// mid-edit and nothing can be built from it.
#[derive(Debug, Clone, PartialEq, Eq)]
pub struct PendingChannel {
    pub channel: u8,
    pub program: Option<LightingProgram>,
}

/// The commands that put back every channel that has something to put back.
pub open spec fn commands_of(channels: Seq<PendingChannel>) -> Seq<LightingCommand>
    decreases channels.len(),
{
    if channels.len() == 0 {
        Seq::empty()
    } else {
        let before = commands_of(channels.drop_last());
        match channels.last().program {
            Some(program) => before.push(
                LightingCommand { channel: channels.last().channel, program },
            ),
            None => before,
        }
    }
}

fn stored_lighting(channels: Vec<PendingChannel>) -> (commands: Vec<LightingCommand>)
    ensures
        commands@ == commands_of(channels@),
{
    let ghost given = channels@;
    let mut left: Vec<PendingChannel> = channels;
    let mut commands: Vec<LightingCommand> = Vec::new();
    let mut done: Ghost<int> = Ghost(0);
    assert(given.take(0) =~= Seq::empty());
    assert(given.skip(0) =~= given);
    while left.len() > 0
        invariant
            0 <= done@ <= given.len(),
            left@ == given.skip(done@),
            commands@ == commands_of(given.take(done@)),
        decreases left.len(),
    {
        let next: PendingChannel = left.remove(0);
        proof {
            assert(next == given[done@]);
            assert(given.take(done@ + 1) =~= given.take(done@).push(next));
            assert(given.take(done@ + 1).drop_last() =~= given.take(done@));
            done@ = done@ + 1;
            assert(left@ =~= given.skip(done@));
        }
        if let Some(program) = next.program {
            commands.push(LightingCommand { channel: next.channel, program });
        }
    }
    assert(given.take(done@) =~= given);
    commands
}

/// The name a saved profile gets: the mode and a number, cut to what a name may
/// hold.
pub open spec fn generated_name(mode: Seq<char>, existing: nat) -> Seq<char> {
    let whole = mode + " "@ + text::decimal(existing);
    if whole.len() <= PROFILE_NAME_MAX_LEN {
        whole
    } else {
        whole.take(PROFILE_NAME_MAX_LEN as int)
    }
}

/// Store the pending state of the whole machine under a generated name.
///
/// Cooling, lighting and the panel together, because that is what reactivating
/// a profile puts back. A channel whose color is mid-edit is left out rather
/// than stored half-typed, and the panel is stored only when this machine has
/// one to write to.
pub fn save_profile(
    mode_label: &str,
    existing: usize,
    program: CoolingProgram,
    lighting: Vec<PendingChannel>,
    panel: &ControlState,
    preset: Option<DisplayPreset>,
) -> (command: Command)
    ensures
        command matches Command::SaveProfile(profile) && {
            &&& profile.name@ == generated_name(mode_label@, existing as nat)
            &&& profile.program == program
            &&& profile.device == Some(crate::kraken_base())
            &&& profile.lighting@ == commands_of(lighting@)
            &&& profile.display == if *panel is Enabled {
                preset
            } else {
                None
            }
        },
{
    let mut whole: String = mode_label.to_owned();
    whole.append(" ");
    text::push_decimal(&mut whole, existing as u64);
    let letters: Vec<char> = text::chars_of(whole.as_str());
    let name: String = if letters.len() > PROFILE_NAME_MAX_LEN {
        text::text_of(&letters, 0, PROFILE_NAME_MAX_LEN)
    } else {
        whole
    };
    assert(name@ =~= generated_name(mode_label@, existing as nat));
    Command::SaveProfile(
        Profile {
            name,
            program,
            device: Some(crate::kraken_base()),
            lighting: stored_lighting(lighting),
            display: if panel.is_enabled() {
                preset
            } else {
                None
            },
        },
    )
}

/// A generated name that fits is one the daemon accepts.
pub proof fn a_generated_name_is_accepted(mode: Seq<char>, existing: nat)
    requires
        mode.len() > 0,
        !text::is_space(mode[0]),
        mode.len() + 1 + text::decimal(existing).len() <= PROFILE_NAME_MAX_LEN,
    ensures
        crate::profile::name_valid(generated_name(mode, existing)),
{
    reveal_strlit(" ");
    let name = generated_name(mode, existing);
    let digits = text::decimal(existing);
    assert(digits.len() > 0 && digits.last() == text::digit(existing % 10));
    assert(name[0] == mode[0]);
    assert(name.last() == digits.last());
    assert(!text::is_space(name.last()));
    assert(text::trimmed_start(name) == name);
    assert(text::trimmed_end(name) == name);
}

/// How loudly an outcome has to be told, for one that has to be told at all.
pub open spec fn outcome_level(severity: OutcomeSeverity) -> Option<NoteLevel> {
    match severity {
        OutcomeSeverity::Confirmed => None,
        OutcomeSeverity::Unconfirmed => Some(NoteLevel::Critical),
        OutcomeSeverity::Refused => Some(NoteLevel::Warning),
    }
}

/// The result of the last command, as a note at the foot of the screen.
///
/// Only when something went wrong. A confirmed write already tells the operator
/// everything it has to: the readings move and the pending state clears.
pub fn outcome_note(outcome: Option<&CommandOutcome>) -> (note: Option<Note>)
    ensures
        match outcome {
            None => note is None,
            Some(outcome) => match outcome_level(outcome.severity) {
                None => note is None,
                Some(level) => note matches Some(note) && note.level == level && note.message@
                    == outcome.message@,
            },
        },
{
    let outcome: &CommandOutcome = outcome?;
    let level: NoteLevel = match outcome.severity {
        OutcomeSeverity::Confirmed => return None,
        OutcomeSeverity::Unconfirmed => NoteLevel::Critical,
        OutcomeSeverity::Refused => NoteLevel::Warning,
    };
    Some(Note::new(level, outcome.message.as_str()))
}

/// Everything the Cooling screen is drawn from.
#[derive(Debug)]
pub struct CoolingInputs<'a> {
    /// Every mode offered, by value and label.
    pub modes: Vec<SelectOption>,
    /// The value of the mode that is pending.
    pub mode: String,
    /// Every stored profile.
    pub profiles: &'a Vec<Profile>,
    /// The active profile, `None` when no daemon answered.
    pub active: Option<&'a str>,
    /// Whether anything can be written at all.
    pub write: ControlState,
    pub alerts: &'a Vec<SafetyAlert>,
    /// What is wrong with the pending program, if anything is.
    pub invalid: Option<&'a ValidationError>,
    /// Whether the hardware takes every write the pending program needs.
    pub program: ControlState,
    /// Whether the hardware is not yet on the pending program.
    pub pending: bool,
    pub outcome: Option<&'a CommandOutcome>,
    /// Whether the delete control is armed.
    pub armed: bool,
}

/// The Cooling screen around its two channel rows.
#[derive(Debug)]
pub struct CoolingView {
    pub title: &'static str,
    pub subtitle: &'static str,
    pub mode: SelectField,
    pub profile: SelectField,
    pub alerts: Vec<Note>,
    pub revert: Button,
    pub save: Button,
    pub delete: Button,
    /// The mark of a write still in flight.
    pub status: Option<&'static str>,
    pub refusal: Option<Note>,
    pub outcome: Option<Note>,
}

/// One option for each stored profile, named by itself.
pub open spec fn profile_pairs(profiles: Seq<Profile>) -> Seq<(Seq<char>, Seq<char>)> {
    profiles.map_values(|profile: Profile| (profile.name@, profile.name@))
}

fn profile_options(profiles: &Vec<Profile>) -> (options: Vec<SelectOption>)
    ensures
        super::pairs(options@) == profile_pairs(profiles@),
{
    let mut options: Vec<SelectOption> = Vec::new();
    for index in 0..profiles.len()
        invariant
            options@.len() == index,
            forall|i: int|
                0 <= i < index ==> (#[trigger] options@[i]).pair() == (
                    profiles@[i].name@,
                    profiles@[i].name@,
                ),
    {
        let name: &str = profiles[index].name.as_str();
        options.push(SelectOption::new(name, name));
    }
    assert(super::pairs(options@) =~= profile_pairs(profiles@));
    options
}

fn alert_notes(alerts: &Vec<SafetyAlert>) -> (notes: Vec<Note>)
    ensures
        notes@.len() == alerts@.len(),
        forall|i: int|
            0 <= i < notes@.len() ==> (#[trigger] notes@[i]).level is Critical
                && notes@[i].message@ == alerts@[i].message_text(),
{
    let mut notes: Vec<Note> = Vec::new();
    for index in 0..alerts.len()
        invariant
            notes@.len() == index,
            forall|i: int|
                0 <= i < index ==> (#[trigger] notes@[i]).level is Critical && notes@[i].message@
                    == alerts@[i].message_text(),
    {
        notes.push(Note::new(NoteLevel::Critical, alerts[index].message().as_str()));
    }
    notes
}

/// The Cooling screen around its two channel rows.
///
/// A program writes every channel it names, so it is refused unless all of them
/// are writable. With no Apply button to disable, the refusal is a note: a
/// screen that silently saves nothing would be worse than one that refuses out
/// loud.
pub fn cooling(inputs: CoolingInputs) -> (view: CoolingView)
    ensures
        view.title@ == "Cooling"@,
        view.subtitle@ == "Pump, fan and the onboard liquid-temperature curve."@,
        view.mode.id is CoolingMode,
        view.mode.options == inputs.modes,
        view.mode.selected == inputs.mode,
        view.mode.state == inputs.write,
        view.mode.tab_index == COOLING_TAB_MODE,
        view.profile.id is Profile,
        super::pairs(view.profile.options@) == profile_pairs(inputs.profiles@),
        view.profile.selected@ == match inputs.active {
            Some(name) => name@,
            None => SAFE_PROFILE_NAME@,
        },
        view.profile.state == inputs.write,
        view.profile.tab_index == COOLING_TAB_PROFILE,
        view.alerts@.len() == inputs.alerts@.len(),
        forall|i: int|
            0 <= i < view.alerts@.len() ==> (#[trigger] view.alerts@[i]).level is Critical
                && view.alerts@[i].message@ == inputs.alerts@[i].message_text(),
        view.revert.id@ == "cooling-revert"@ && view.revert.label@ == "Revert to hardware"@,
        view.revert.kind is Plain && view.revert.state is Enabled,
        view.revert.tab_index == COOLING_TAB_REVERT,
        view.save.id@ == "cooling-save"@ && view.save.label@ == "Save as profile"@,
        view.save.kind is Plain && view.save.state == inputs.write,
        view.save.tab_index == COOLING_TAB_SAVE,
        view.delete.id@ == "cooling-delete"@ && view.delete.kind is Danger,
        view.delete.label@ == if inputs.armed {
            "Confirm deletion"@
        } else {
            "Delete profile"@
        },
        shows_deletion(view.delete.state, inputs.active),
        view.delete.tab_index == COOLING_TAB_DELETE,
        match view.status {
            Some(words) => inputs.pending && words@ == SAVING@,
            None => !inputs.pending,
        },
        match inputs.invalid {
            Some(error) => view.refusal matches Some(note) && note.level is Warning
                && note.message@ == error.text(),
            None => match inputs.program.says() {
                Some(words) => view.refusal matches Some(note) && note.level is Warning
                    && note.message@ == words,
                None => view.refusal is None,
            },
        },
        match inputs.outcome {
            None => view.outcome is None,
            Some(outcome) => match outcome_level(outcome.severity) {
                None => view.outcome is None,
                Some(level) => view.outcome matches Some(note) && note.level == level
                    && note.message@ == outcome.message@,
            },
        },
{
    let active: &str = match inputs.active {
        Some(name) => name,
        None => SAFE_PROFILE_NAME,
    };
    let refusal: Option<Note> = match inputs.invalid {
        Some(error) => Some(Note::new(NoteLevel::Warning, error.to_text().as_str())),
        None => match inputs.program.message() {
            Some(words) => Some(Note::new(NoteLevel::Warning, words)),
            None => None,
        },
    };
    CoolingView {
        title: "Cooling",
        subtitle: "Pump, fan and the onboard liquid-temperature curve.",
        mode: SelectField {
            id: SelectId::CoolingMode,
            options: inputs.modes,
            selected: inputs.mode,
            state: inputs.write.clone(),
            tab_index: COOLING_TAB_MODE,
        },
        profile: SelectField {
            id: SelectId::Profile,
            options: profile_options(inputs.profiles),
            selected: active.to_owned(),
            state: inputs.write.clone(),
            tab_index: COOLING_TAB_PROFILE,
        },
        alerts: alert_notes(inputs.alerts),
        revert: Button {
            id: "cooling-revert",
            label: "Revert to hardware",
            kind: ButtonKind::Plain,
            state: ControlState::Enabled,
            tab_index: COOLING_TAB_REVERT,
        },
        save: Button {
            id: "cooling-save",
            label: "Save as profile",
            kind: ButtonKind::Plain,
            state: inputs.write,
            tab_index: COOLING_TAB_SAVE,
        },
        delete: delete_button(inputs.active, inputs.armed, COOLING_TAB_DELETE),
        status: if inputs.pending {
            Some(SAVING)
        } else {
            None
        },
        refusal,
        outcome: outcome_note(inputs.outcome),
    }
}

/// With nothing being edited, a committed program is adopted exactly when it is
/// another one than was adopted last.
pub proof fn another_program_is_adopted(committed: CoolingProgram, seen: CoolingProgram)
    ensures
        adopts(committed, Some(&seen), false) <==> !seen.means(committed),
{
}

/// Any profile may be deleted but the one everything falls back to, and none
/// while no daemon says which is active.
pub proof fn any_other_profile_may_be_deleted(name: &str, state: ControlState)
    ensures
        deletable(Some(name)) <==> name@ != "Onboard safe"@,
        !deletable(None),
        shows_deletion(state, Some(name)) ==> (state is Enabled <==> name@ != "Onboard safe"@),
        shows_deletion(state, None) ==> state is Disabled,
{
}

/// The channels are put back one by one, in order, each with its own program,
/// and one without a program is left out.
pub proof fn every_channel_is_put_back_with_its_program(
    channels: Seq<PendingChannel>,
    more: Seq<PendingChannel>,
    one: PendingChannel,
)
    ensures
        commands_of(channels + more) == commands_of(channels) + commands_of(more),
        commands_of(seq![one]) == match one.program {
            Some(program) => seq![LightingCommand { channel: one.channel, program }],
            None => Seq::<LightingCommand>::empty(),
        },
    decreases more.len(),
{
    assert(seq![one].drop_last() =~= Seq::<PendingChannel>::empty());
    assert(commands_of(Seq::<PendingChannel>::empty()) =~= Seq::<LightingCommand>::empty());
    assert(commands_of(seq![one]) =~= match one.program {
        Some(program) => seq![LightingCommand { channel: one.channel, program }],
        None => Seq::<LightingCommand>::empty(),
    });
    if more.len() == 0 {
        assert(channels + more =~= channels);
        assert(commands_of(channels) + commands_of(more) =~= commands_of(channels));
    } else {
        every_channel_is_put_back_with_its_program(channels, more.drop_last(), one);
        assert((channels + more).drop_last() =~= channels + more.drop_last());
        assert((channels + more).last() == more.last());
        assert(commands_of(channels + more) =~= commands_of(channels) + commands_of(more));
    }
}

/// A saved profile is named after its mode and a number, or the first
/// forty-eight characters of that.
pub proof fn a_profile_is_named_after_its_mode(mode: Seq<char>, existing: nat)
    ensures
        ({
            let whole = mode + seq![' '] + text::decimal(existing);
            let name = generated_name(mode, existing);
            &&& name.is_prefix_of(whole)
            &&& name.len() <= 48
            &&& whole.len() <= 48 ==> name == whole
            &&& whole.len() > 48 ==> name.len() == 48
        }),
{
    reveal_strlit(" ");
    assert(" "@ =~= seq![' ']);
}

/// A confirmed outcome is not told; a refused one is a warning and one nobody
/// could confirm is critical.
pub proof fn only_what_went_wrong_is_told(severity: OutcomeSeverity)
    ensures
        severity is Confirmed <==> outcome_level(severity) is None,
        severity is Refused <==> outcome_level(severity) == Some(NoteLevel::Warning),
        severity is Unconfirmed <==> outcome_level(severity) == Some(NoteLevel::Critical),
{
}

/// Every stored profile is offered under its own name, in order.
pub proof fn every_profile_is_offered_by_name(profiles: Seq<Profile>, i: int)
    requires
        0 <= i < profiles.len(),
    ensures
        profile_pairs(profiles).len() == profiles.len(),
        profile_pairs(profiles)[i] == (profiles[i].name@, profiles[i].name@),
{
}

} // verus!
