//! The template orchestrator: one pipeline run per invocation.
//!
//! The pipeline is a state machine driven from outside. Each step takes the
//! current state and the event that just happened, and returns the next
//! state together with the action the surroundings should perform next:
//! fetch the template, rewrite the tree, patch the manifest or the wiring
//! fragments, or run the stack's build command. The caller performs the
//! action and feeds the outcome back in as the next event.
//!
//! Fetch failure and a missing or unparseable manifest are fatal and end
//! the run; a rewrite error, a fragment miss and a failing build command
//! are reported and the run continues, as setup is considered done once the
//! files are in place.

use vstd::prelude::*;

use crate::bytes::{contains_pat, contains_seq, copy_bytes};
use crate::config::{join_path, join_path_spec, Database, RustVariant, Stack, TemplateConfig};

verus! {

/// Stack-specific parameters of one project setup.
pub enum StackParams {
    /// A Go backend: the module name replacing the template's placeholder,
    /// and the database the wiring is patched for.
    Go { module_name: Vec<u8>, database: Database },
    /// A Rust project, either a native skeleton or the full template.
    Rust { variant: RustVariant },
    /// The frontend template, taken as fetched.
    Frontend,
}

/// Everything one pipeline run needs to know, constructed once from user
/// input and never mutated afterwards.
pub struct ProjectDescriptor {
    pub project_name: Vec<u8>,
    pub base_path: Vec<u8>,
    pub params: StackParams,
}

/// The external command a stack's setup ends with.
#[derive(Clone, Copy, Debug, PartialEq, Eq, Structural)]
pub enum BuildCommand {
    /// `cargo new <path>`: the native minimal Rust skeleton.
    CargoNew,
    /// `cargo build` in the project directory.
    CargoBuild,
    /// `go mod tidy` in the project directory.
    GoModTidy,
    /// `npm install --legacy-peer-deps` in the project directory.
    NpmInstallLegacyPeerDeps,
}

/// Why a run ended without completing.
#[derive(Clone, Copy, Debug, PartialEq, Eq, Structural)]
pub enum FailReason {
    /// The template could not be fetched; the transfer error is surfaced
    /// unchanged by the caller.
    FetchError,
    /// The manifest was missing or could not be patched.
    ManifestError,
}

/// Where a run stands.
#[derive(Clone, Copy, Debug, PartialEq, Eq, Structural)]
pub enum PipelineState {
    /// Nothing has happened yet.
    Start,
    /// A fetch action was issued.
    AwaitFetch,
    /// A tree rewrite action was issued.
    AwaitRewrite,
    /// A manifest patch action was issued.
    AwaitManifest,
    /// A fragment patch action was issued.
    AwaitFragments,
    /// The build command was issued.
    AwaitBuild,
    /// The run completed.
    Done,
    /// The run ended on a fatal error.
    Failed { reason: FailReason },
}

/// What the surroundings report back to the orchestrator.
#[derive(Clone, Copy, Debug, PartialEq, Eq, Structural)]
pub enum PipelineEvent {
    /// The run begins.
    Started,
    /// The template is on disk at the destination.
    FetchSucceeded,
    /// The transfer failed; nothing usable is on disk.
    FetchFailed,
    /// The tree rewrite ran, touching this many files.
    RewriteDone { files_changed: u64 },
    /// The tree rewrite failed; the run continues regardless.
    RewriteFailed,
    /// The manifest was patched.
    ManifestPatched,
    /// The manifest was missing or malformed: fatal.
    ManifestFailed,
    /// The fragment patches ran; each flag says whether its file was hit.
    FragmentsPatched { bootstrap_hit: bool, wiring_hit: bool },
    /// The build command exited; a failure is reported, not fatal.
    CommandExited { success: bool },
}

/// What the orchestrator asks the surroundings to perform next.
pub enum PipelineAction {
    /// Clone the repository at `url` into `dest`, a full working tree.
    Fetch { url: Vec<u8>, dest: Vec<u8> },
    /// Replace every occurrence of `pat` by `rep` in every regular file
    /// under the destination.
    RewriteTree { pat: Vec<u8>, rep: Vec<u8> },
    /// Set the manifest's package name to `name`.
    PatchManifest { name: Vec<u8> },
    /// Swap the database wiring fragments for `database`.
    PatchFragments { database: Database },
    /// Run the stack's external command in the project directory.
    RunCommand { command: BuildCommand },
}

/// A pipeline action as mathematical values.
pub enum ActionModel {
    Fetch { url: Seq<u8>, dest: Seq<u8> },
    RewriteTree { pat: Seq<u8>, rep: Seq<u8> },
    PatchManifest { name: Seq<u8> },
    PatchFragments { database: Database },
    RunCommand { command: BuildCommand },
}

impl View for PipelineAction {
    type V = ActionModel;

    open spec fn view(&self) -> ActionModel {
        match self {
            PipelineAction::Fetch { url, dest } => ActionModel::Fetch {
                url: url@,
                dest: dest@,
            },
            PipelineAction::RewriteTree { pat, rep } => ActionModel::RewriteTree {
                pat: pat@,
                rep: rep@,
            },
            PipelineAction::PatchManifest { name } => ActionModel::PatchManifest { name: name@ },
            PipelineAction::PatchFragments { database } => ActionModel::PatchFragments {
                database: *database,
            },
            PipelineAction::RunCommand { command } => ActionModel::RunCommand {
                command: *command,
            },
        }
    }
}

/// The transition table: next state and action for a state and an event.
/// An event a state does not expect leaves the state as it is, with no
/// action. `Done` and `Failed` are terminal.
pub open spec fn step_spec(
    cfg: TemplateConfig,
    desc: ProjectDescriptor,
    st: PipelineState,
    ev: PipelineEvent,
) -> (PipelineState, Option<ActionModel>) {
    let dest = join_path_spec(desc.base_path@, desc.project_name@);
    match st {
        PipelineState::Start => {
            if ev is Started {
                match desc.params {
                    StackParams::Go { .. } => (
                        PipelineState::AwaitFetch,
                        Some(ActionModel::Fetch { url: cfg.go_url@, dest }),
                    ),
                    StackParams::Rust { variant: RustVariant::Basic } => (
                        PipelineState::AwaitBuild,
                        Some(ActionModel::RunCommand { command: BuildCommand::CargoNew }),
                    ),
                    StackParams::Rust { variant: RustVariant::FullTemplate } => (
                        PipelineState::AwaitFetch,
                        Some(ActionModel::Fetch { url: cfg.rust_url@, dest }),
                    ),
                    StackParams::Frontend => (
                        PipelineState::AwaitFetch,
                        Some(ActionModel::Fetch { url: cfg.frontend_url@, dest }),
                    ),
                }
            } else {
                (st, None)
            }
        },
        PipelineState::AwaitFetch => {
            if ev is FetchSucceeded {
                match desc.params {
                    StackParams::Go { module_name, .. } => (
                        PipelineState::AwaitRewrite,
                        Some(
                            ActionModel::RewriteTree {
                                pat: cfg.placeholder_module@,
                                rep: module_name@,
                            },
                        ),
                    ),
                    StackParams::Rust { .. } => (
                        PipelineState::AwaitManifest,
                        Some(ActionModel::PatchManifest { name: desc.project_name@ }),
                    ),
                    StackParams::Frontend => (
                        PipelineState::AwaitBuild,
                        Some(
                            ActionModel::RunCommand {
                                command: BuildCommand::NpmInstallLegacyPeerDeps,
                            },
                        ),
                    ),
                }
            } else if ev is FetchFailed {
                (PipelineState::Failed { reason: FailReason::FetchError }, None)
            } else {
                (st, None)
            }
        },
        PipelineState::AwaitRewrite => {
            if (ev is RewriteDone || ev is RewriteFailed) && desc.params is Go {
                (
                    PipelineState::AwaitFragments,
                    Some(ActionModel::PatchFragments { database: desc.params->Go_database }),
                )
            } else {
                (st, None)
            }
        },
        PipelineState::AwaitManifest => {
            if ev is ManifestPatched {
                (
                    PipelineState::AwaitBuild,
                    Some(ActionModel::RunCommand { command: BuildCommand::CargoBuild }),
                )
            } else if ev is ManifestFailed {
                (PipelineState::Failed { reason: FailReason::ManifestError }, None)
            } else {
                (st, None)
            }
        },
        PipelineState::AwaitFragments => {
            if ev is FragmentsPatched {
                (
                    PipelineState::AwaitBuild,
                    Some(ActionModel::RunCommand { command: BuildCommand::GoModTidy }),
                )
            } else {
                (st, None)
            }
        },
        PipelineState::AwaitBuild => {
            if ev is CommandExited {
                (PipelineState::Done, None)
            } else {
                (st, None)
            }
        },
        PipelineState::Done => (st, None),
        PipelineState::Failed { .. } => (st, None),
    }
}

/// One step of the orchestrator.
pub fn step(
    cfg: &TemplateConfig,
    desc: &ProjectDescriptor,
    st: PipelineState,
    ev: PipelineEvent,
) -> (r: (PipelineState, Option<PipelineAction>))
    ensures
        r.0 == step_spec(*cfg, *desc, st, ev).0,
        match (r.1, step_spec(*cfg, *desc, st, ev).1) {
            (Some(a), Some(m)) => a@ == m,
            (None, None) => true,
            _ => false,
        },
{
    match st {
        PipelineState::Start => {
            if matches!(ev, PipelineEvent::Started) {
                match &desc.params {
                    StackParams::Go { .. } => (
                        PipelineState::AwaitFetch,
                        Some(
                            PipelineAction::Fetch {
                                url: copy_bytes(&cfg.go_url),
                                dest: join_path(&desc.base_path, &desc.project_name),
                            },
                        ),
                    ),
                    StackParams::Rust { variant: RustVariant::Basic } => (
                        PipelineState::AwaitBuild,
                        Some(PipelineAction::RunCommand { command: BuildCommand::CargoNew }),
                    ),
                    StackParams::Rust { variant: RustVariant::FullTemplate } => (
                        PipelineState::AwaitFetch,
                        Some(
                            PipelineAction::Fetch {
                                url: copy_bytes(&cfg.rust_url),
                                dest: join_path(&desc.base_path, &desc.project_name),
                            },
                        ),
                    ),
                    StackParams::Frontend => (
                        PipelineState::AwaitFetch,
                        Some(
                            PipelineAction::Fetch {
                                url: copy_bytes(&cfg.frontend_url),
                                dest: join_path(&desc.base_path, &desc.project_name),
                            },
                        ),
                    ),
                }
            } else {
                (st, None)
            }
        },
        PipelineState::AwaitFetch => {
            if matches!(ev, PipelineEvent::FetchSucceeded) {
                match &desc.params {
                    StackParams::Go { module_name, .. } => (
                        PipelineState::AwaitRewrite,
                        Some(
                            PipelineAction::RewriteTree {
                                pat: copy_bytes(&cfg.placeholder_module),
                                rep: copy_bytes(module_name),
                            },
                        ),
                    ),
                    StackParams::Rust { .. } => (
                        PipelineState::AwaitManifest,
                        Some(
                            PipelineAction::PatchManifest {
                                name: copy_bytes(&desc.project_name),
                            },
                        ),
                    ),
                    StackParams::Frontend => (
                        PipelineState::AwaitBuild,
                        Some(
                            PipelineAction::RunCommand {
                                command: BuildCommand::NpmInstallLegacyPeerDeps,
                            },
                        ),
                    ),
                }
            } else if matches!(ev, PipelineEvent::FetchFailed) {
                (PipelineState::Failed { reason: FailReason::FetchError }, None)
            } else {
                (st, None)
            }
        },
        PipelineState::AwaitRewrite => {
            let advancing = matches!(ev, PipelineEvent::RewriteDone { .. })
                || matches!(ev, PipelineEvent::RewriteFailed);
            if advancing {
                match &desc.params {
                    StackParams::Go { database, .. } => (
                        PipelineState::AwaitFragments,
                        Some(PipelineAction::PatchFragments { database: *database }),
                    ),
                    _ => (st, None),
                }
            } else {
                (st, None)
            }
        },
        PipelineState::AwaitManifest => {
            if matches!(ev, PipelineEvent::ManifestPatched) {
                (
                    PipelineState::AwaitBuild,
                    Some(PipelineAction::RunCommand { command: BuildCommand::CargoBuild }),
                )
            } else if matches!(ev, PipelineEvent::ManifestFailed) {
                (PipelineState::Failed { reason: FailReason::ManifestError }, None)
            } else {
                (st, None)
            }
        },
        PipelineState::AwaitFragments => {
            if matches!(ev, PipelineEvent::FragmentsPatched { .. }) {
                (
                    PipelineState::AwaitBuild,
                    Some(PipelineAction::RunCommand { command: BuildCommand::GoModTidy }),
                )
            } else {
                (st, None)
            }
        },
        PipelineState::AwaitBuild => {
            if matches!(ev, PipelineEvent::CommandExited { .. }) {
                (PipelineState::Done, None)
            } else {
                (st, None)
            }
        },
        PipelineState::Done => (st, None),
        PipelineState::Failed { .. } => (st, None),
    }
}

/// The state after a run over a whole event sequence, starting at `Start`.
pub open spec fn run_states(
    cfg: TemplateConfig,
    desc: ProjectDescriptor,
    events: Seq<PipelineEvent>,
) -> PipelineState
    decreases events.len(),
{
    if events.len() == 0 {
        PipelineState::Start
    } else {
        step_spec(cfg, desc, run_states(cfg, desc, events.drop_last()), events.last()).0
    }
}

/// Every action a run over a whole event sequence issues, in order.
pub open spec fn run_actions(
    cfg: TemplateConfig,
    desc: ProjectDescriptor,
    events: Seq<PipelineEvent>,
) -> Seq<ActionModel>
    decreases events.len(),
{
    if events.len() == 0 {
        Seq::empty()
    } else {
        run_actions(cfg, desc, events.drop_last()) + (match step_spec(
            cfg,
            desc,
            run_states(cfg, desc, events.drop_last()),
            events.last(),
        ).1 {
            Some(a) => seq![a],
            None => Seq::empty(),
        })
    }
}

/// An action that touches files of the fetched tree.
pub open spec fn is_tree_mutation(a: ActionModel) -> bool {
    a is RewriteTree || a is PatchManifest || a is PatchFragments
}

/// `Done` and `Failed` are terminal: no event moves the pipeline out of
/// them or makes it issue another action.
pub proof fn lemma_terminal_states(
    cfg: TemplateConfig,
    desc: ProjectDescriptor,
    st: PipelineState,
    ev: PipelineEvent,
)
    requires
        st is Done || st is Failed,
    ensures
        step_spec(cfg, desc, st, ev).0 == st,
        step_spec(cfg, desc, st, ev).1 is None,
{
}

/// Until the fetch has succeeded, no action that rewrites or patches the
/// fetched tree is ever issued: a failed fetch aborts the run before any
/// file-rewrite step, so the destination holds no partially patched
/// template.
pub proof fn lemma_no_mutation_without_fetch(
    cfg: TemplateConfig,
    desc: ProjectDescriptor,
    events: Seq<PipelineEvent>,
)
    requires
        forall|i: int| 0 <= i < events.len() ==> !(#[trigger] events[i] is FetchSucceeded),
    ensures
        !(run_states(cfg, desc, events) is AwaitRewrite),
        !(run_states(cfg, desc, events) is AwaitManifest),
        !(run_states(cfg, desc, events) is AwaitFragments),
        forall|i: int|
            0 <= i < run_actions(cfg, desc, events).len() ==> !is_tree_mutation(
                #[trigger] run_actions(cfg, desc, events)[i],
            ),
    decreases events.len(),
{
    if events.len() > 0 {
        let prior = events.drop_last();
        assert forall|i: int|
            0 <= i < prior.len() implies !(#[trigger] prior[i] is FetchSucceeded) by {
            assert(prior[i] == events[i]);
        }
        lemma_no_mutation_without_fetch(cfg, desc, prior);
        assert(!(events.last() is FetchSucceeded));
        let st = run_states(cfg, desc, prior);
        let stepped = step_spec(cfg, desc, st, events.last());
        assert forall|i: int|
            0 <= i < run_actions(cfg, desc, events).len() implies !is_tree_mutation(
            #[trigger] run_actions(cfg, desc, events)[i],
        ) by {
            let pa = run_actions(cfg, desc, prior);
            if i < pa.len() {
                assert(run_actions(cfg, desc, events)[i] == pa[i]);
            } else {
                assert(stepped.1 is Some);
                assert(run_actions(cfg, desc, events)[i] == stepped.1->0);
            }
        }
    }
}

/// The phase of a transfer, as shown beside the progress bar.
#[derive(Clone, Copy, Debug, PartialEq, Eq, Structural)]
pub enum FetchPhase {
    /// Nothing is known about the transfer yet.
    Preparing,
    /// Objects are arriving.
    Receiving,
    /// Every object has arrived; deltas are being resolved.
    ResolvingDeltas,
}

/// The phase to show for a transfer report. A report of zero received out
/// of zero total counts as resolving, mirroring the equality test the
/// progress sink makes.
pub fn fetch_phase(received: u64, total: u64) -> (r: FetchPhase)
    ensures
        r == (if received == total {
            FetchPhase::ResolvingDeltas
        } else if total > 0 {
            FetchPhase::Receiving
        } else {
            FetchPhase::Preparing
        }),
{
    if received == total {
        FetchPhase::ResolvingDeltas
    } else if total > 0 {
        FetchPhase::Receiving
    } else {
        FetchPhase::Preparing
    }
}

/// Transfer progress as a value from 0 to 100: the ratio of received
/// objects to the total, or 0 while the total is unknown.
pub fn progress_percent(received: u64, total: u64) -> (r: u64)
    requires
        received <= total,
    ensures
        total == 0 ==> r == 0,
        total > 0 ==> r == 100 * received as int / total as int,
        r <= 100,
{
    if total == 0 {
        0
    } else {
        let q = 100u128 * (received as u128) / (total as u128);
        proof {
            assert(100 * (received as int) / (total as int) <= 100) by (nonlinear_arith)
                requires
                    0 < total as int,
                    received as int <= total as int,
            ;
        }
        q as u64
    }
}

/// The installer's output holds this word when an older version was
/// replaced by a newer one.
pub open spec fn replacing_marker_spec() -> Seq<u8> {
    seq![82u8, 101u8, 112u8, 108u8, 97u8, 99u8, 105u8, 110u8, 103u8]
}

/// What a self-update run concluded.
#[derive(Clone, Copy, Debug, PartialEq, Eq, Structural)]
pub enum UpdateOutcome {
    /// A newer version was installed.
    Updated,
    /// The installed version was already the latest.
    AlreadyCurrent,
    /// The installer itself failed.
    CommandFailed,
}

/// Classifies a finished self-update: a failing installer is a failure; a
/// successful one updated the tool exactly when its output reports that it
/// replaced the installed version.
pub fn classify_update(success: bool, output: &Vec<u8>) -> (r: UpdateOutcome)
    ensures
        r == (if !success {
            UpdateOutcome::CommandFailed
        } else if contains_seq(output@, replacing_marker_spec()) {
            UpdateOutcome::Updated
        } else {
            UpdateOutcome::AlreadyCurrent
        }),
{
    if !success {
        return UpdateOutcome::CommandFailed;
    }
    let mut marker: Vec<u8> = Vec::new();
    marker.push(82);
    marker.push(101);
    marker.push(112);
    marker.push(108);
    marker.push(97);
    marker.push(99);
    marker.push(105);
    marker.push(110);
    marker.push(103);
    proof {
        assert(marker@ =~= replacing_marker_spec());
    }
    if contains_pat(output, &marker) {
        UpdateOutcome::Updated
    } else {
        UpdateOutcome::AlreadyCurrent
    }
}

} // verus!
