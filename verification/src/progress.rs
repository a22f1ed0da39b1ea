//! What the user is told while an action or a scan is under way.

use vstd::prelude::*;
use crate::installer::{InstallationInstructions, InstallerAction, InstallerType};
use crate::text::{decimal, decimal_of, push_all, push_str, string_of};

verus! {

/// One message about an action on a title.
#[derive(Debug, Clone)]
pub struct ProgressEvent {
    pub title: String,
    pub message: String,
    /// The share of the work done, in percent: 100 at most.
    pub progress: u32,
    pub complete: bool,
    pub show_instructions: bool,
    pub instructions: Option<InstallationInstructions>,
}

/// Instructions as plain values.
pub struct InstructionsView {
    pub type_: Seq<char>,
    pub command: Seq<char>,
    pub game_title: Seq<char>,
    pub dlc_count: Option<usize>,
}

impl View for InstallationInstructions {
    type V = InstructionsView;

    open spec fn view(&self) -> InstructionsView {
        InstructionsView {
            type_: self.type_@,
            command: self.command@,
            game_title: self.game_title@,
            dlc_count: self.dlc_count,
        }
    }
}

/// A message as plain values.
pub struct ProgressView {
    pub title: Seq<char>,
    pub message: Seq<char>,
    pub progress: u32,
    pub complete: bool,
    pub show_instructions: bool,
    pub instructions: Option<InstructionsView>,
}

impl View for ProgressEvent {
    type V = ProgressView;

    open spec fn view(&self) -> ProgressView {
        ProgressView {
            title: self.title@,
            message: self.message@,
            progress: self.progress,
            complete: self.complete,
            show_instructions: self.show_instructions,
            instructions: match self.instructions {
                Some(i) => Some(i@),
                None => None,
            },
        }
    }
}

/// The points of an action at which the user is told of it.
#[derive(Debug, Clone, Copy, PartialEq, Eq, Structural)]
pub enum Stage {
    /// The action has begun.
    Started,
    /// Files are being copied or deleted.
    Working,
    /// The configuration is being written.
    Configuring,
    /// The action is complete.
    Completed,
}

/// Makes a message. A share above 100 percent counts as 100.
pub fn emit_progress(
    title: &str,
    message: &str,
    progress: u32,
    complete: bool,
    show_instructions: bool,
    instructions: Option<InstallationInstructions>,
) -> (e: ProgressEvent)
    ensures
        e.title@ == title@,
        e.message@ == message@,
        e.progress == if progress > 100 {
            100
        } else {
            progress
        },
        e.complete == complete,
        e.show_instructions == show_instructions,
        e.instructions == instructions,
{
    ProgressEvent {
        title: title.to_owned(),
        message: message.to_owned(),
        progress: if progress > 100 {
            100
        } else {
            progress
        },
        complete,
        show_instructions,
        instructions,
    }
}

/// The words for the unlocker kind.
pub open spec fn kind_name(kind: InstallerType) -> Seq<char> {
    match kind {
        InstallerType::Cream => "CreamLinux"@,
        InstallerType::Smoke => "SmokeAPI"@,
    }
}

/// The heading of the message for an action on the title `game_title`.
pub open spec fn heading(
    kind: InstallerType,
    action: InstallerAction,
    stage: Stage,
    game_title: Seq<char>,
) -> Seq<char> {
    match (action, stage) {
        (InstallerAction::Install, Stage::Completed) => "Installation Completed: "@ + game_title,
        (InstallerAction::Uninstall, Stage::Completed) => "Uninstallation Completed: "@
            + game_title,
        (InstallerAction::Install, _) => "Installing "@ + kind_name(kind) + " for "@ + game_title,
        (InstallerAction::Uninstall, _) => "Uninstalling "@ + kind_name(kind) + " from "@
            + game_title,
    }
}

/// The text of the message for a stage of an action.
pub open spec fn stage_text(kind: InstallerType, action: InstallerAction, stage: Stage) -> Seq<char> {
    match (action, stage) {
        (InstallerAction::Install, Stage::Completed) => kind_name(kind)
            + " has been installed successfully!"@,
        (InstallerAction::Uninstall, Stage::Completed) => kind_name(kind)
            + " has been removed successfully!"@,
        (InstallerAction::Uninstall, _) => "Removing "@ + kind_name(kind) + " files..."@,
        (InstallerAction::Install, Stage::Started) => match kind {
            InstallerType::Cream => "Fetching DLC list..."@,
            InstallerType::Smoke => "Installing from cache..."@,
        },
        (InstallerAction::Install, Stage::Working) => "Installing from cache..."@,
        (InstallerAction::Install, Stage::Configuring) => "Writing DLC configuration..."@,
    }
}

/// The share of the work done at a stage of an action, in percent.
pub open spec fn stage_percent(kind: InstallerType, action: InstallerAction, stage: Stage) -> u32 {
    match stage {
        Stage::Completed => 100,
        Stage::Configuring => 80,
        Stage::Working => 50,
        Stage::Started => if kind == InstallerType::Cream && action == InstallerAction::Install {
            10
        } else {
            50
        },
    }
}

/// The instructions that go with the completion of an action: how to start a
/// title once the content unlocker is installed, and none otherwise.
pub open spec fn stage_instructions(
    kind: InstallerType,
    action: InstallerAction,
    stage: Stage,
    game_title: Seq<char>,
    dlc_count: usize,
) -> Option<InstructionsView> {
    if kind == InstallerType::Cream && action == InstallerAction::Install && stage
        == Stage::Completed {
        Some(
            InstructionsView {
                type_: "cream_install"@,
                command: "sh ./cream.sh %command%"@,
                game_title,
                dlc_count: Some(dlc_count),
            },
        )
    } else {
        None
    }
}

/// The message for a stage of an action on the title `game_title`, for which
/// `dlc_count` add-ons were found.
pub open spec fn milestone_of(
    kind: InstallerType,
    action: InstallerAction,
    stage: Stage,
    game_title: Seq<char>,
    dlc_count: usize,
) -> ProgressView {
    ProgressView {
        title: heading(kind, action, stage, game_title),
        message: stage_text(kind, action, stage),
        progress: stage_percent(kind, action, stage),
        complete: stage == Stage::Completed,
        show_instructions: stage_instructions(kind, action, stage, game_title, dlc_count) is Some,
        instructions: stage_instructions(kind, action, stage, game_title, dlc_count),
    }
}

/// The message for a stage of an action on the title `game_title`.
pub fn milestone(
    kind: InstallerType,
    action: InstallerAction,
    stage: Stage,
    game_title: &str,
    dlc_count: usize,
) -> (e: ProgressEvent)
    ensures
        e@ == milestone_of(kind, action, stage, game_title@, dlc_count),
{
    let name = match kind {
        InstallerType::Cream => "CreamLinux",
        InstallerType::Smoke => "SmokeAPI",
    };
    let completed = stage == Stage::Completed;
    let mut title: Vec<char> = Vec::new();
    let mut message: Vec<char> = Vec::new();
    match action {
        InstallerAction::Install => {
            if completed {
                push_str(&mut title, "Installation Completed: ");
                push_str(&mut message, name);
                push_str(&mut message, " has been installed successfully!");
            } else {
                push_str(&mut title, "Installing ");
                push_str(&mut title, name);
                push_str(&mut title, " for ");
                match stage {
                    Stage::Started => match kind {
                        InstallerType::Cream => push_str(&mut message, "Fetching DLC list..."),
                        InstallerType::Smoke => push_str(&mut message, "Installing from cache..."),
                    },
                    Stage::Working => push_str(&mut message, "Installing from cache..."),
                    _ => push_str(&mut message, "Writing DLC configuration..."),
                }
            }
        },
        InstallerAction::Uninstall => {
            if completed {
                push_str(&mut title, "Uninstallation Completed: ");
                push_str(&mut message, name);
                push_str(&mut message, " has been removed successfully!");
            } else {
                push_str(&mut title, "Uninstalling ");
                push_str(&mut title, name);
                push_str(&mut title, " from ");
                push_str(&mut message, "Removing ");
                push_str(&mut message, name);
                push_str(&mut message, " files...");
            }
        },
    }
    push_str(&mut title, game_title);
    let cream_install = kind == InstallerType::Cream && action == InstallerAction::Install;
    let progress: u32 = match stage {
        Stage::Completed => 100,
        Stage::Configuring => 80,
        Stage::Working => 50,
        Stage::Started => if cream_install {
            10
        } else {
            50
        },
    };
    let instructions = if cream_install && completed {
        Some(
            InstallationInstructions {
                type_: "cream_install".to_owned(),
                command: "sh ./cream.sh %command%".to_owned(),
                game_title: game_title.to_owned(),
                dlc_count: Some(dlc_count),
            },
        )
    } else {
        None
    };
    let e = ProgressEvent {
        title: string_of(&title),
        message: string_of(&message),
        progress,
        complete: completed,
        show_instructions: cream_install && completed,
        instructions,
    };
    assert(e@.title =~= heading(kind, action, stage, game_title@));
    assert(e@.message =~= stage_text(kind, action, stage));
    e
}

/// The points of a scan at which the user is told of it.
#[derive(Debug, Clone, Copy, PartialEq, Eq, Structural)]
pub enum ScanStage {
    Locating,
    Finding,
    LibrariesFound(usize),
    GamesFound(usize),
    Complete(usize),
}

/// The text for a stage of a scan.
pub open spec fn scan_text(stage: ScanStage) -> Seq<char> {
    match stage {
        ScanStage::Locating => "Locating Steam libraries..."@,
        ScanStage::Finding => "Finding Steam libraries..."@,
        ScanStage::LibrariesFound(n) => "Found "@ + decimal(n as nat)
            + " Steam libraries. Starting game scan..."@,
        ScanStage::GamesFound(n) => "Found "@ + decimal(n as nat) + " games. Processing..."@,
        ScanStage::Complete(n) => "Scan complete. Found "@ + decimal(n as nat) + " games."@,
    }
}

/// The share of a scan done at a stage, in percent.
pub open spec fn scan_percent(stage: ScanStage) -> u32 {
    match stage {
        ScanStage::Locating => 10,
        ScanStage::Finding => 15,
        ScanStage::LibrariesFound(_) => 20,
        ScanStage::GamesFound(_) => 90,
        ScanStage::Complete(_) => 100,
    }
}

/// The text and the share for a stage of a scan.
pub fn emit_scan_progress(stage: ScanStage) -> (r: (String, u32))
    ensures
        r.0@ == scan_text(stage),
        r.1 == scan_percent(stage),
{
    let mut out: Vec<char> = Vec::new();
    match stage {
        ScanStage::Locating => {
            push_str(&mut out, "Locating Steam libraries...");
            (string_of(&out), 10)
        },
        ScanStage::Finding => {
            push_str(&mut out, "Finding Steam libraries...");
            (string_of(&out), 15)
        },
        ScanStage::LibrariesFound(n) => {
            push_str(&mut out, "Found ");
            push_all(&mut out, &decimal_of(n as u64));
            push_str(&mut out, " Steam libraries. Starting game scan...");
            (string_of(&out), 20)
        },
        ScanStage::GamesFound(n) => {
            push_str(&mut out, "Found ");
            push_all(&mut out, &decimal_of(n as u64));
            push_str(&mut out, " games. Processing...");
            (string_of(&out), 90)
        },
        ScanStage::Complete(n) => {
            push_str(&mut out, "Scan complete. Found ");
            push_all(&mut out, &decimal_of(n as u64));
            push_str(&mut out, " games.");
            (string_of(&out), 100)
        },
    }
}

} // verus!
