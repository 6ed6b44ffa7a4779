//! The decisions of the orchestrator: what to do when a monitor reports a
//! game, how a monitor answers its commands, and what to tell of a backup.

use crate::process_monitor;
use crate::ludusavi::{BackupRecord, BackupResult};
use crate::steam_monitor::{EventRecord, GameEvent};
use vstd::prelude::*;

verus! {

/// What a monitor is told to do.
#[derive(Debug, Clone, Copy, PartialEq, Eq, Structural)]
pub enum MonitorCommand {
    Stop,
    Pause,
    Resume,
}

/// Whether a monitor polls: not while it is paused, and never again once it
/// was stopped.
#[derive(Debug, Clone, Copy, PartialEq, Eq, Structural)]
pub struct MonitorControl {
    pub paused: bool,
    pub stopped: bool,
}

/// The control after a command: a stop is final; a pause holds until a
/// resume.
pub open spec fn after_command(control: MonitorControl, command: MonitorCommand) -> MonitorControl {
    if control.stopped {
        control
    } else {
        match command {
            MonitorCommand::Stop => MonitorControl { paused: control.paused, stopped: true },
            MonitorCommand::Pause => MonitorControl { paused: true, stopped: false },
            MonitorCommand::Resume => MonitorControl { paused: false, stopped: false },
        }
    }
}

impl MonitorControl {
    /// The control of a monitor that runs.
    pub fn new() -> (r: MonitorControl)
        ensures
            r == (MonitorControl { paused: false, stopped: false }),
    {
        MonitorControl { paused: false, stopped: false }
    }

    /// Takes a command.
    pub fn on_command(&mut self, command: MonitorCommand)
        ensures
            *final(self) == after_command(*old(self), command),
    {
        if !self.stopped {
            match command {
                MonitorCommand::Stop => {
                    self.stopped = true;
                },
                MonitorCommand::Pause => {
                    self.paused = true;
                },
                MonitorCommand::Resume => {
                    self.paused = false;
                },
            }
        }
    }

    /// Whether the monitor polls now.
    pub fn polls(&self) -> (r: bool)
        ensures
            r == (!self.paused && !self.stopped),
    {
        !self.paused && !self.stopped
    }

    /// Whether the monitor goes on.
    pub fn runs(&self) -> (r: bool)
        ensures
            r == !self.stopped,
    {
        !self.stopped
    }
}

/// What the monitor of the platform is told when a configured game starts or
/// ends: to pause while the game runs, and to resume when it has ended.
pub open spec fn command_for(event: process_monitor::EventRecord) -> MonitorCommand {
    match event {
        process_monitor::EventRecord::Started(_) => MonitorCommand::Pause,
        process_monitor::EventRecord::Ended(_) => MonitorCommand::Resume,
    }
}

/// What the monitor of the platform is told when a configured game starts or
/// ends.
pub fn steam_command(event: &process_monitor::GameEvent) -> (r: MonitorCommand)
    ensures
        r == command_for(event@),
{
    match event {
        process_monitor::GameEvent::Started(_) => MonitorCommand::Pause,
        process_monitor::GameEvent::Ended(_) => MonitorCommand::Resume,
    }
}

/// What the orchestrator does for a game of the platform.
#[derive(Debug, Clone, Copy, PartialEq, Eq, Structural)]
pub enum Action {
    /// Look for the game's file and watch it.
    StartWatching,
    /// Tell the player that the game was detected.
    NotifyDetected,
    /// Stop watching the game's file.
    StopWatching,
    /// Back up the saves of the game.
    Backup,
}

/// What is to be done on an event of the platform's monitor, in order: a
/// game that started is watched, and the player is told if notifications
/// are on; a game that ended is no longer watched, and its saves are backed
/// up.
pub open spec fn actions_on(event: EventRecord, notifications: bool) -> Seq<Action> {
    match event {
        EventRecord::Started(_) => if notifications {
            seq![Action::StartWatching, Action::NotifyDetected]
        } else {
            seq![Action::StartWatching]
        },
        EventRecord::Ended(_) => seq![Action::StopWatching, Action::Backup],
    }
}

/// What is to be done on an event of the platform's monitor.
pub fn start_monitors(event: &GameEvent, notifications: bool) -> (r: Vec<Action>)
    ensures
        r@ == actions_on(event@, notifications),
{
    let mut out: Vec<Action> = Vec::new();
    match event {
        GameEvent::Started(_) => {
            out.push(Action::StartWatching);
            if notifications {
                out.push(Action::NotifyDetected);
            }
        },
        GameEvent::Ended(_) => {
            out.push(Action::StopWatching);
            out.push(Action::Backup);
        },
    }
    out
}

/// What the player is told of a backup.
#[derive(Debug, Clone, Copy, PartialEq, Eq, Structural)]
pub enum BackupNotice {
    /// Files were backed up.
    Success,
    /// The tool does not know the game.
    GameNotFound,
    /// The backup failed.
    Failed,
    /// The tool's answer could not be read.
    Error,
}

/// What the player is told of a backup: success where it succeeded; else
/// that the game is unknown where the tool said so; else failure; an error
/// where there is no report.
pub open spec fn notice_of(report: Option<BackupRecord>) -> BackupNotice {
    match report {
        Some(r) => if r.success {
            BackupNotice::Success
        } else if r.not_found == Some(true) {
            BackupNotice::GameNotFound
        } else {
            BackupNotice::Failed
        },
        None => BackupNotice::Error,
    }
}

/// What the player is told of a backup.
pub fn handle_game_backup(report: Option<&BackupResult>) -> (r: BackupNotice)
    ensures
        r == notice_of(
            match report {
                Some(b) => Some(b@),
                None => None,
            },
        ),
{
    match report {
        Some(b) => {
            if b.success {
                BackupNotice::Success
            } else {
                let unknown = match b.not_found {
                    Some(flag) => flag,
                    None => false,
                };
                if unknown {
                    BackupNotice::GameNotFound
                } else {
                    BackupNotice::Failed
                }
            }
        },
        None => BackupNotice::Error,
    }
}

} // verus!
