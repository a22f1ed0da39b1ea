//! The install and uninstall rules for the two unlocker kinds. Each action is
//! checked against the title's platform first and then laid out as a plan of
//! file operations; nothing in here touches the disk.

use vstd::prelude::*;
use crate::dlc::{cream_api_ini, dlc_views, write_cream_api_ini, DlcInfo, DlcView};
use crate::manifest::{
    remove_creamlinux_version, update_creamlinux_version, GameManifest, ManifestView,
};
use crate::paths::{file_name, file_name_of, join_path, joined};
use crate::plan::{
    attempted, attempted_step, plan_view, required, required_step, Effect, FileOp, Step, StepView,
};
use crate::shim::{shim_targets, target_views, targets_of, ShimTarget};
use crate::text::{chars_of, ends_with, has_suffix, str_eq, strings};

verus! {

/// The unlocker kinds: the content unlocker for native titles and the api shim
/// for titles that run through a compatibility layer.
#[derive(Debug, Clone, Copy, PartialEq, Eq, Structural)]
pub enum InstallerType {
    Cream,
    Smoke,
}

/// What to do with an unlocker.
#[derive(Debug, Clone, Copy, PartialEq, Eq, Structural)]
pub enum InstallerAction {
    Install,
    Uninstall,
}

/// Why an action did not take place or did not complete.
#[derive(Debug, Clone)]
pub enum InstallerError {
    /// Something that the action needs is not there.
    NotFound(String),
    /// An operation on the disk failed.
    IoFailure(String),
    /// A download failed.
    TransferFailure(String),
    /// Something could not be read for what it should be.
    FormatFailure(String),
    /// The action is not allowed for this title; nothing was written.
    PreconditionViolation(String),
    /// The user called the action off.
    Cancelled,
}

/// The classes of failure.
#[derive(Debug, Clone, Copy, PartialEq, Eq, Structural)]
pub enum ErrorKind {
    NotFound,
    IoFailure,
    TransferFailure,
    FormatFailure,
    PreconditionViolation,
    Cancelled,
}

impl InstallerError {
    /// The class of this failure.
    pub open spec fn class(self) -> ErrorKind {
        match self {
            InstallerError::NotFound(_) => ErrorKind::NotFound,
            InstallerError::IoFailure(_) => ErrorKind::IoFailure,
            InstallerError::TransferFailure(_) => ErrorKind::TransferFailure,
            InstallerError::FormatFailure(_) => ErrorKind::FormatFailure,
            InstallerError::PreconditionViolation(_) => ErrorKind::PreconditionViolation,
            InstallerError::Cancelled => ErrorKind::Cancelled,
        }
    }

    /// The text that came with this failure.
    pub open spec fn text(self) -> Seq<char> {
        match self {
            InstallerError::NotFound(m) => m@,
            InstallerError::IoFailure(m) => m@,
            InstallerError::TransferFailure(m) => m@,
            InstallerError::FormatFailure(m) => m@,
            InstallerError::PreconditionViolation(m) => m@,
            InstallerError::Cancelled => "Operation cancelled by user"@,
        }
    }

    /// The class of this failure.
    pub fn kind(&self) -> (k: ErrorKind)
        ensures
            k == self.class(),
    {
        match self {
            InstallerError::NotFound(_) => ErrorKind::NotFound,
            InstallerError::IoFailure(_) => ErrorKind::IoFailure,
            InstallerError::TransferFailure(_) => ErrorKind::TransferFailure,
            InstallerError::FormatFailure(_) => ErrorKind::FormatFailure,
            InstallerError::PreconditionViolation(_) => ErrorKind::PreconditionViolation,
            InstallerError::Cancelled => ErrorKind::Cancelled,
        }
    }

    /// The text that came with this failure.
    pub fn message(&self) -> (m: String)
        ensures
            m@ == self.text(),
    {
        match self {
            InstallerError::NotFound(m) => m.clone(),
            InstallerError::IoFailure(m) => m.clone(),
            InstallerError::TransferFailure(m) => m.clone(),
            InstallerError::FormatFailure(m) => m.clone(),
            InstallerError::PreconditionViolation(m) => m.clone(),
            InstallerError::Cancelled => "Operation cancelled by user".to_owned(),
        }
    }
}

/// What the user is told to do once an action is complete.
#[derive(Debug, Clone)]
pub struct InstallationInstructions {
    pub type_: String,
    pub command: String,
    pub game_title: String,
    pub dlc_count: Option<usize>,
}

/// A title as the installer sees it.
#[derive(Debug, Clone)]
pub struct Game {
    pub id: String,
    pub title: String,
    pub path: String,
    pub native: bool,
    pub api_files: Vec<String>,
    pub cream_installed: bool,
    pub smoke_installed: bool,
    pub installing: bool,
}

/// Whether the action is allowed for a title: the content unlocker is for
/// native titles only, the api shim for the others only, and it is installed
/// only where at least one binary was found for it.
pub open spec fn allowed(
    installer_type: InstallerType,
    action: InstallerAction,
    native: bool,
    binaries: nat,
) -> bool {
    match installer_type {
        InstallerType::Cream => native,
        InstallerType::Smoke => !native && (action == InstallerAction::Install ==> binaries > 0),
    }
}

/// Checks the action against the title's platform.
pub fn check_transition(installer_type: InstallerType, action: InstallerAction, game: &Game) -> (r:
    Result<(), InstallerError>)
    ensures
        r is Ok <==> allowed(installer_type, action, game.native, game.api_files@.len()),
        r matches Err(e) ==> e.class() == ErrorKind::PreconditionViolation,
{
    match installer_type {
        InstallerType::Cream => {
            if !game.native {
                let msg = match action {
                    InstallerAction::Install => "CreamLinux can only be installed on native Linux games",
                    InstallerAction::Uninstall => "CreamLinux can only be uninstalled from native Linux games",
                };
                return Err(InstallerError::PreconditionViolation(msg.to_owned()));
            }
        },
        InstallerType::Smoke => {
            if game.native {
                let msg = match action {
                    InstallerAction::Install => "SmokeAPI can only be installed on Proton/Windows games",
                    InstallerAction::Uninstall => "SmokeAPI can only be uninstalled from Proton/Windows games",
                };
                return Err(InstallerError::PreconditionViolation(msg.to_owned()));
            }
            if action == InstallerAction::Install && game.api_files.len() == 0 {
                return Err(
                    InstallerError::PreconditionViolation(
                        "No Steam API DLLs found to patch. SmokeAPI cannot be installed.".to_owned(),
                    ),
                );
            }
        },
    }
    Ok(())
}

/// Whether an action begins with asking the store for the title's add-ons: the
/// installation of the content unlocker does, and no other action.
pub fn needs_dlc_list(installer_type: InstallerType, action: InstallerAction) -> (r: bool)
    ensures
        r == (installer_type == InstallerType::Cream && action == InstallerAction::Install),
{
    installer_type == InstallerType::Cream && action == InstallerAction::Install
}

/// The operation that brings the record of the title in `dir` to `manifest`:
/// the record is written, or deleted when nothing is applied any more.
pub open spec fn manifest_effect(dir: Seq<char>, manifest: ManifestView) -> Effect {
    if manifest.is_empty() {
        Effect::RemoveManifest { dir }
    } else {
        Effect::StoreManifest { dir, manifest }
    }
}

/// The operation that brings the record of the title in `dir` to `manifest`.
pub fn manifest_op(dir: &str, manifest: GameManifest) -> (op: FileOp)
    ensures
        op@ == manifest_effect(dir@, manifest@),
{
    if manifest.is_empty() {
        FileOp::RemoveManifest { dir: dir.to_owned() }
    } else {
        FileOp::StoreManifest { dir: dir.to_owned(), manifest }
    }
}

/// The steps that copy one cached file into the title's directory: the copy,
/// and for a shell script the right to execute it.
pub open spec fn file_steps(game_path: Seq<char>, file: Seq<char>) -> Seq<StepView> {
    let dest = joined(game_path, file_name(file));
    if has_suffix(file_name(file), ".sh"@) {
        seq![
            required(Effect::Copy { from: file, to: dest }),
            required(Effect::MakeExecutable { path: dest }),
        ]
    } else {
        seq![required(Effect::Copy { from: file, to: dest })]
    }
}

/// The steps that copy the cached `files` into the title's directory, in order.
pub open spec fn copy_steps(game_path: Seq<char>, files: Seq<Seq<char>>) -> Seq<StepView>
    decreases files.len(),
{
    if files.len() == 0 {
        Seq::empty()
    } else {
        copy_steps(game_path, files.drop_last()) + file_steps(game_path, files.last())
    }
}

/// The plan that applies the content unlocker: every cached file is copied into
/// the title's directory, the configuration is written afresh for `dlcs`, and
/// last of all the record of the title takes up the cached version. Each
/// failure gives the plan up.
pub open spec fn cream_install_plan(
    game_path: Seq<char>,
    app_id: Seq<char>,
    files: Seq<Seq<char>>,
    dlcs: Seq<DlcView>,
    manifest: ManifestView,
    version: Seq<char>,
) -> Seq<StepView> {
    copy_steps(game_path, files) + seq![
        required(
            Effect::Write {
                path: joined(game_path, "cream_api.ini"@),
                contents: cream_api_ini(app_id, dlcs),
            },
        ),
        required(
            Effect::StoreManifest {
                dir: game_path,
                manifest: ManifestView { smokeapi: manifest.smokeapi, creamlinux: Some(version) },
            },
        ),
    ]
}

/// The steps that delete the four files of the content unlocker from a title,
/// whether or not each is there.
pub open spec fn cream_removals(game_path: Seq<char>) -> Seq<StepView> {
    seq![
        attempted(Effect::Remove { path: joined(game_path, "cream.sh"@) }),
        attempted(Effect::Remove { path: joined(game_path, "lib32Creamlinux.so"@) }),
        attempted(Effect::Remove { path: joined(game_path, "lib64Creamlinux.so"@) }),
        attempted(Effect::Remove { path: joined(game_path, "cream_api.ini"@) }),
    ]
}

/// The plan that takes the content unlocker away: its four files are deleted,
/// whether or not each is there, and then the record of the title drops the
/// content unlocker.
pub open spec fn cream_uninstall_plan(game_path: Seq<char>, manifest: ManifestView) -> Seq<StepView> {
    cream_removals(game_path).push(
        required(
            manifest_effect(
                game_path,
                ManifestView { smokeapi: manifest.smokeapi, creamlinux: None },
            ),
        ),
    )
}

/// What an action needs to know of the cache and of the title's record.
#[derive(Debug, Clone)]
pub struct ActionContext {
    /// The files of the cached version of the unlocker, by path.
    pub cached_files: Vec<String>,
    /// The cached version of the unlocker.
    pub cached_version: String,
    /// The record of the title as it is.
    pub manifest: GameManifest,
    /// The add-ons to enable.
    pub dlcs: Vec<DlcInfo>,
}

/// Lays out the installation of the content unlocker for `game`.
pub fn install_creamlinux(game_id: &str, game: &Game, ctx: &ActionContext) -> (r: Result<
    Vec<Step>,
    InstallerError,
>)
    ensures
        match r {
            Ok(plan) => game.native && ctx.cached_files@.len() > 0 && plan_view(plan@)
                == cream_install_plan(
                game.path@,
                game_id@,
                strings(ctx.cached_files@),
                dlc_views(ctx.dlcs@),
                ctx.manifest@,
                ctx.cached_version@,
            ),
            Err(e) => if !game.native {
                e.class() == ErrorKind::PreconditionViolation
            } else {
                e.class() == ErrorKind::NotFound && ctx.cached_files@.len() == 0
            },
        },
{
    match check_transition(InstallerType::Cream, InstallerAction::Install, game) {
        Err(e) => {
            return Err(e);
        },
        Ok(_) => {},
    }
    if ctx.cached_files.len() == 0 {
        return Err(InstallerError::NotFound("No CreamLinux files found in cache".to_owned()));
    }
    let mut plan = copy_into_game(game.path.as_str(), &ctx.cached_files);
    let ghost copied = plan_view(plan@);
    let contents = write_cream_api_ini(game_id, &ctx.dlcs);
    let ini = join_path(game.path.as_str(), "cream_api.ini");
    plan.push(required_step(FileOp::Write { path: ini, contents }));
    let manifest = update_creamlinux_version(ctx.manifest.duplicate(), ctx.cached_version.clone());
    plan.push(required_step(FileOp::StoreManifest { dir: game.path.clone(), manifest }));
    assert(plan_view(plan@) =~= cream_install_plan(
        game.path@,
        game_id@,
        strings(ctx.cached_files@),
        dlc_views(ctx.dlcs@),
        ctx.manifest@,
        ctx.cached_version@,
    ));
    Ok(plan)
}

/// The steps that copy the cached `files` into the title in `game_path`.
pub fn copy_into_game(game_path: &str, files: &Vec<String>) -> (plan: Vec<Step>)
    ensures
        plan_view(plan@) == copy_steps(game_path@, strings(files@)),
{
    let mut plan: Vec<Step> = Vec::new();
    let script = chars_of(".sh");
    let mut i: usize = 0;
    assert(plan_view(plan@) =~= copy_steps(game_path@, strings(files@).take(0)));
    while i < files.len()
        invariant
            i <= files.len(),
            script@ == ".sh"@,
            plan_view(plan@) == copy_steps(game_path@, strings(files@).take(i as int)),
        decreases files.len() - i,
    {
        let file = &files[i];
        let name = file_name_of(file.as_str());
        let dest = join_path(game_path, name.as_str());
        let ghost before = plan_view(plan@);
        let is_script = ends_with(&chars_of(name.as_str()), &script);
        plan.push(required_step(FileOp::Copy { from: file.clone(), to: dest.clone() }));
        if is_script {
            plan.push(required_step(FileOp::MakeExecutable { path: dest }));
        }
        proof {
            let done = strings(files@).take(i + 1);
            assert(done.drop_last() == strings(files@).take(i as int));
            assert(done.last() == file@);
            assert(plan_view(plan@) =~= before + file_steps(game_path@, file@));
        }
        i += 1;
    }
    assert(strings(files@).take(files.len() as int) == strings(files@));
    plan
}

/// The steps that delete the files of the content unlocker from the title in
/// `game_path`.
pub fn remove_from_game(game_path: &str) -> (plan: Vec<Step>)
    ensures
        plan_view(plan@) == cream_removals(game_path@),
{
    let mut plan: Vec<Step> = Vec::new();
    plan.push(attempted_step(FileOp::Remove { path: join_path(game_path, "cream.sh") }));
    plan.push(attempted_step(FileOp::Remove { path: join_path(game_path, "lib32Creamlinux.so") }));
    plan.push(attempted_step(FileOp::Remove { path: join_path(game_path, "lib64Creamlinux.so") }));
    plan.push(attempted_step(FileOp::Remove { path: join_path(game_path, "cream_api.ini") }));
    assert(plan_view(plan@) =~= cream_removals(game_path@));
    plan
}

/// Lays out the installation of the content unlocker for `game` with the
/// add-ons that are enabled in `selected`.
pub fn install_cream_with_dlcs(
    game_id: &str,
    game: &Game,
    ctx: &ActionContext,
    selected: &Vec<crate::dlc::DlcInfoWithState>,
) -> (r: Result<Vec<Step>, InstallerError>)
    ensures
        match r {
            Ok(plan) => game.native && ctx.cached_files@.len() > 0 && plan_view(plan@)
                == cream_install_plan(
                game.path@,
                game_id@,
                strings(ctx.cached_files@),
                crate::dlc::enabled_among(
                    crate::dlc::state_views(selected@),
                    selected@.len() as int,
                ),
                ctx.manifest@,
                ctx.cached_version@,
            ),
            Err(e) => if !game.native {
                e.class() == ErrorKind::PreconditionViolation
            } else {
                e.class() == ErrorKind::NotFound && ctx.cached_files@.len() == 0
            },
        },
{
    let chosen = ActionContext {
        cached_files: crate::text::copy_texts(&ctx.cached_files),
        cached_version: ctx.cached_version.clone(),
        manifest: ctx.manifest.duplicate(),
        dlcs: crate::dlc::enabled_dlcs(selected),
    };
    assert(strings(chosen.cached_files@).len() == strings(ctx.cached_files@).len());
    install_creamlinux(game_id, game, &chosen)
}

/// The plan that takes the content unlocker away from the title in
/// `game_path`, whatever its platform.
pub fn remove_creamlinux(game_path: &str, manifest: &GameManifest) -> (plan: Vec<Step>)
    ensures
        plan_view(plan@) == cream_uninstall_plan(game_path@, manifest@),
{
    let mut plan = remove_from_game(game_path);
    let left = remove_creamlinux_version(manifest.duplicate());
    plan.push(required_step(manifest_op(game_path, left)));
    assert(plan_view(plan@) =~= cream_uninstall_plan(game_path@, manifest@));
    plan
}

/// Lays out the removal of the content unlocker from `game`.
pub fn uninstall_creamlinux(game: &Game, manifest: &GameManifest) -> (r: Result<
    Vec<Step>,
    InstallerError,
>)
    ensures
        match r {
            Ok(plan) => game.native && plan_view(plan@) == cream_uninstall_plan(
                game.path@,
                manifest@,
            ),
            Err(e) => !game.native && e.class() == ErrorKind::PreconditionViolation,
        },
{
    match check_transition(InstallerType::Cream, InstallerAction::Uninstall, game) {
        Err(e) => Err(e),
        Ok(_) => Ok(remove_creamlinux(game.path.as_str(), manifest)),
    }
}

/// Names the binaries that the api shim is to replace in `game`.
pub fn install_smokeapi(game: &Game) -> (r: Result<Vec<ShimTarget>, InstallerError>)
    ensures
        match r {
            Ok(targets) => !game.native && game.api_files@.len() > 0 && target_views(targets@)
                == targets_of(game.path@, strings(game.api_files@)),
            Err(e) => (game.native || game.api_files@.len() == 0) && e.class()
                == ErrorKind::PreconditionViolation,
        },
{
    match check_transition(InstallerType::Smoke, InstallerAction::Install, game) {
        Err(e) => Err(e),
        Ok(_) => Ok(shim_targets(game.path.as_str(), &game.api_files)),
    }
}

/// Names the binaries whose originals are to be brought back in `game`.
pub fn uninstall_smokeapi(game: &Game) -> (r: Result<Vec<ShimTarget>, InstallerError>)
    ensures
        match r {
            Ok(targets) => !game.native && target_views(targets@) == targets_of(
                game.path@,
                strings(game.api_files@),
            ),
            Err(e) => game.native && e.class() == ErrorKind::PreconditionViolation,
        },
{
    match check_transition(InstallerType::Smoke, InstallerAction::Uninstall, game) {
        Err(e) => Err(e),
        Ok(_) => Ok(shim_targets(game.path.as_str(), &game.api_files)),
    }
}

/// The work that an action consists of.
#[derive(Debug, Clone)]
pub enum ActionPlan {
    /// Steps to carry out in order.
    Steps(Vec<Step>),
    /// Binaries to work on one by one, each with a plan of its own.
    Units(Vec<ShimTarget>),
}

/// Checks one action on one title and lays out its work. An action that the
/// title's platform does not allow is refused, and no work comes back.
pub fn process_action(
    game_id: &str,
    installer_type: InstallerType,
    action: InstallerAction,
    game: &Game,
    ctx: &ActionContext,
) -> (r: Result<ActionPlan, InstallerError>)
    ensures
        !allowed(installer_type, action, game.native, game.api_files@.len()) ==> (r matches Err(e)
            && e.class() == ErrorKind::PreconditionViolation),
        allowed(installer_type, action, game.native, game.api_files@.len()) ==> match (
            installer_type,
            action,
        ) {
            (InstallerType::Cream, InstallerAction::Install) => if ctx.cached_files@.len() == 0 {
                r matches Err(e) && e.class() == ErrorKind::NotFound
            } else {
                r matches Ok(ActionPlan::Steps(plan)) && plan_view(plan@) == cream_install_plan(
                    game.path@,
                    game_id@,
                    strings(ctx.cached_files@),
                    dlc_views(ctx.dlcs@),
                    ctx.manifest@,
                    ctx.cached_version@,
                )
            },
            (InstallerType::Cream, InstallerAction::Uninstall) => r matches Ok(
                ActionPlan::Steps(plan),
            ) && plan_view(plan@) == cream_uninstall_plan(game.path@, ctx.manifest@),
            (InstallerType::Smoke, _) => r matches Ok(ActionPlan::Units(targets)) && target_views(
                targets@,
            ) == targets_of(game.path@, strings(game.api_files@)),
        },
{
    match (installer_type, action) {
        (InstallerType::Cream, InstallerAction::Install) => {
            match install_creamlinux(game_id, game, ctx) {
                Ok(plan) => Ok(ActionPlan::Steps(plan)),
                Err(e) => Err(e),
            }
        },
        (InstallerType::Cream, InstallerAction::Uninstall) => {
            match uninstall_creamlinux(game, &ctx.manifest) {
                Ok(plan) => Ok(ActionPlan::Steps(plan)),
                Err(e) => Err(e),
            }
        },
        (InstallerType::Smoke, InstallerAction::Install) => {
            match install_smokeapi(game) {
                Ok(targets) => Ok(ActionPlan::Units(targets)),
                Err(e) => Err(e),
            }
        },
        (InstallerType::Smoke, InstallerAction::Uninstall) => {
            match uninstall_smokeapi(game) {
                Ok(targets) => Ok(ActionPlan::Units(targets)),
                Err(e) => Err(e),
            }
        },
    }
}

/// The unlocker kind that a change of platform leaves behind, by the name of
/// the conflict: the content unlocker on a title that is no longer native, or
/// the api shim on a title that has become native.
pub open spec fn conflict_kind(conflict_type: Seq<char>) -> Option<InstallerType> {
    if conflict_type == "cream-to-proton"@ {
        Some(InstallerType::Cream)
    } else if conflict_type == "smoke-to-native"@ {
        Some(InstallerType::Smoke)
    } else {
        None
    }
}

/// Lays out the removal of the unlocker that a change of platform left behind.
/// The work is that of the kind's removal; the title's platform is not asked.
pub fn resolve_platform_conflict(conflict_type: &str, game: &Game, manifest: &GameManifest) -> (r:
    Result<ActionPlan, InstallerError>)
    ensures
        match conflict_kind(conflict_type@) {
            Some(InstallerType::Cream) => r matches Ok(ActionPlan::Steps(plan)) && plan_view(plan@)
                == cream_uninstall_plan(game.path@, manifest@),
            Some(InstallerType::Smoke) => r matches Ok(ActionPlan::Units(targets)) && target_views(
                targets@,
            ) == targets_of(game.path@, strings(game.api_files@)),
            None => r matches Err(e) && e.class() == ErrorKind::FormatFailure,
        },
{
    if str_eq(conflict_type, "cream-to-proton") {
        Ok(ActionPlan::Steps(remove_creamlinux(game.path.as_str(), manifest)))
    } else if str_eq(conflict_type, "smoke-to-native") {
        Ok(ActionPlan::Units(shim_targets(game.path.as_str(), &game.api_files)))
    } else {
        Err(InstallerError::FormatFailure("Invalid conflict type".to_owned()))
    }
}

} // verus!
