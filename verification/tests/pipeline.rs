use genesis_rs::bytes::contains_pat;
use genesis_rs::config::{Database, RustVariant, TemplateConfig};
use genesis_rs::fragment::{patch_bootstrap, patch_wiring};
use genesis_rs::manifest::ManifestDoc;
use genesis_rs::pipeline::{
    classify_update, fetch_phase, progress_percent, step, BuildCommand, FailReason, FetchPhase,
    PipelineAction, PipelineEvent, PipelineState, ProjectDescriptor, StackParams, UpdateOutcome,
};
use genesis_rs::rewrite::rewrite_bytes;

fn test_config() -> TemplateConfig {
    TemplateConfig {
        go_url: b"https://example.test/go-starter.git".to_vec(),
        rust_url: b"https://example.test/rust-starter.git".to_vec(),
        frontend_url: b"https://example.test/react-starter.git".to_vec(),
        placeholder_module: b"github.com/template/starter".to_vec(),
    }
}

#[test]
fn go_run_issues_fetch_rewrite_fragments_and_tidy_in_order() {
    let cfg = test_config();
    let desc = ProjectDescriptor {
        project_name: b"api".to_vec(),
        base_path: b"/home/dev".to_vec(),
        params: StackParams::Go {
            module_name: b"github.com/x/y".to_vec(),
            database: Database::PostgreSql,
        },
    };
    let (st, act) = step(&cfg, &desc, PipelineState::Start, PipelineEvent::Started);
    assert_eq!(st, PipelineState::AwaitFetch);
    match act {
        Some(PipelineAction::Fetch { url, dest }) => {
            assert_eq!(url, cfg.go_url);
            assert_eq!(dest, b"/home/dev/api".to_vec());
        }
        _ => panic!("expected a fetch action"),
    }
    let (st, act) = step(&cfg, &desc, st, PipelineEvent::FetchSucceeded);
    assert_eq!(st, PipelineState::AwaitRewrite);
    match act {
        Some(PipelineAction::RewriteTree { pat, rep }) => {
            assert_eq!(pat, cfg.placeholder_module);
            assert_eq!(rep, b"github.com/x/y".to_vec());
        }
        _ => panic!("expected a tree rewrite action"),
    }
    let (st, act) = step(&cfg, &desc, st, PipelineEvent::RewriteDone { files_changed: 7 });
    assert_eq!(st, PipelineState::AwaitFragments);
    match act {
        Some(PipelineAction::PatchFragments { database }) => {
            assert_eq!(database, Database::PostgreSql);
        }
        _ => panic!("expected a fragment patch action"),
    }
    let (st, act) = step(
        &cfg,
        &desc,
        st,
        PipelineEvent::FragmentsPatched { bootstrap_hit: true, wiring_hit: true },
    );
    assert_eq!(st, PipelineState::AwaitBuild);
    match act {
        Some(PipelineAction::RunCommand { command }) => {
            assert_eq!(command, BuildCommand::GoModTidy);
        }
        _ => panic!("expected the tidy command"),
    }
    let (st, act) = step(&cfg, &desc, st, PipelineEvent::CommandExited { success: true });
    assert_eq!(st, PipelineState::Done);
    assert!(act.is_none());
}

#[test]
fn go_scenario_leaves_no_placeholder_and_wires_postgres() {
    let cfg = test_config();
    let module = b"github.com/x/y".to_vec();
    let mut source_file =
        b"module github.com/template/starter\n\nrequire github.com/template/starter/pkg v1\n"
            .to_vec();
    let (rewritten, changed) = rewrite_bytes(&source_file, &cfg.placeholder_module, &module);
    assert!(changed);
    source_file = rewritten;
    assert!(!contains_pat(&source_file, &cfg.placeholder_module));
    assert!(contains_pat(&source_file, &module));

    let mongo = b"userUsecase := config.InitializeUsecasesMongo(userRepo)".to_vec();
    let postgres = b"userUsecase := config.InitializeUsecasesPostgres(userRepo)".to_vec();
    let bootstrap = b"func main() {\n\tuserUsecase := config.InitializeUsecasesMongo(userRepo)\n}\n"
        .to_vec();
    let (patched, hit) = patch_bootstrap(&bootstrap, &mongo, &postgres, Database::PostgreSql);
    assert!(hit);
    assert!(!contains_pat(&patched, &b"Mongo".to_vec()));
    assert!(contains_pat(&patched, &b"Postgres".to_vec()));

    let wiring = b"type UserUsecase struct {\n\tuserRepo mongodb.Interface\n}\n\nfunc NewUserUsecase(repo mongodb.Interface) *UserUsecase {\n\treturn &UserUsecase{userRepo: repo}\n}\n".to_vec();
    let replacement = b"type UserUsecase struct {\n\tuserRepo postgres.Interface\n}\n\nfunc NewUserUsecase(repo postgres.Interface) *UserUsecase {\n\treturn &UserUsecase{userRepo: repo}\n}".to_vec();
    let (wired, hit) = patch_wiring(
        &wiring,
        &b"type UserUsecase struct {".to_vec(),
        &b"func NewUserUsecase(".to_vec(),
        &b"}".to_vec(),
        &replacement,
    );
    assert!(hit);
    assert!(!contains_pat(&wired, &b"mongo".to_vec()));
    assert!(contains_pat(&wired, &b"postgres".to_vec()));
}

#[test]
fn rust_basic_variant_skips_fetch_and_runs_the_skeleton_command() {
    let cfg = test_config();
    let desc = ProjectDescriptor {
        project_name: b"demo".to_vec(),
        base_path: b"/tmp/ws".to_vec(),
        params: StackParams::Rust { variant: RustVariant::Basic },
    };
    let (st, act) = step(&cfg, &desc, PipelineState::Start, PipelineEvent::Started);
    assert_eq!(st, PipelineState::AwaitBuild);
    match act {
        Some(PipelineAction::RunCommand { command }) => {
            assert_eq!(command, BuildCommand::CargoNew);
        }
        _ => panic!("expected the skeleton command"),
    }
    let (st, act) = step(&cfg, &desc, st, PipelineEvent::CommandExited { success: true });
    assert_eq!(st, PipelineState::Done);
    assert!(act.is_none());
}

#[test]
fn rust_full_scenario_sets_the_manifest_name_to_demo() {
    let cfg = test_config();
    let desc = ProjectDescriptor {
        project_name: b"demo".to_vec(),
        base_path: b"/tmp/ws".to_vec(),
        params: StackParams::Rust { variant: RustVariant::FullTemplate },
    };
    let (st, act) = step(&cfg, &desc, PipelineState::Start, PipelineEvent::Started);
    assert_eq!(st, PipelineState::AwaitFetch);
    match act {
        Some(PipelineAction::Fetch { url, dest }) => {
            assert_eq!(url, cfg.rust_url);
            assert_eq!(dest, b"/tmp/ws/demo".to_vec());
        }
        _ => panic!("expected a fetch action"),
    }
    let (st, act) = step(&cfg, &desc, st, PipelineEvent::FetchSucceeded);
    assert_eq!(st, PipelineState::AwaitManifest);
    let name = match act {
        Some(PipelineAction::PatchManifest { name }) => name,
        _ => panic!("expected a manifest patch action"),
    };
    let manifest = b"[package]\nname = \"starter\"\nversion = \"0.1.0\"\n".to_vec();
    let mut doc = ManifestDoc::parse(&manifest);
    doc.set_package_name(&name).unwrap();
    assert_eq!(doc.to_bytes(), b"[package]\nname = \"demo\"\nversion = \"0.1.0\"\n".to_vec());
    let (st, act) = step(&cfg, &desc, st, PipelineEvent::ManifestPatched);
    assert_eq!(st, PipelineState::AwaitBuild);
    match act {
        Some(PipelineAction::RunCommand { command }) => {
            assert_eq!(command, BuildCommand::CargoBuild);
        }
        _ => panic!("expected the build command"),
    }
}

#[test]
fn manifest_failure_is_fatal() {
    let cfg = test_config();
    let desc = ProjectDescriptor {
        project_name: b"demo".to_vec(),
        base_path: b"/tmp/ws".to_vec(),
        params: StackParams::Rust { variant: RustVariant::FullTemplate },
    };
    let (st, act) = step(&cfg, &desc, PipelineState::AwaitManifest, PipelineEvent::ManifestFailed);
    assert_eq!(st, PipelineState::Failed { reason: FailReason::ManifestError });
    assert!(act.is_none());
}

#[test]
fn fetch_failure_aborts_before_any_rewrite_step() {
    let cfg = test_config();
    let desc = ProjectDescriptor {
        project_name: b"api".to_vec(),
        base_path: b"/home/dev".to_vec(),
        params: StackParams::Go {
            module_name: b"github.com/x/y".to_vec(),
            database: Database::MongoDb,
        },
    };
    let mut state = PipelineState::Start;
    let mut actions = Vec::new();
    for event in [
        PipelineEvent::Started,
        PipelineEvent::FetchFailed,
        PipelineEvent::RewriteDone { files_changed: 1 },
        PipelineEvent::CommandExited { success: true },
    ] {
        let (next, act) = step(&cfg, &desc, state, event);
        state = next;
        if let Some(a) = act {
            actions.push(a);
        }
    }
    assert_eq!(state, PipelineState::Failed { reason: FailReason::FetchError });
    assert_eq!(actions.len(), 1);
    match &actions[0] {
        PipelineAction::Fetch { .. } => {}
        _ => panic!("only the fetch may have been issued"),
    }
}

#[test]
fn frontend_run_fetches_then_installs() {
    let cfg = test_config();
    let desc = ProjectDescriptor {
        project_name: b"site".to_vec(),
        base_path: b"/srv".to_vec(),
        params: StackParams::Frontend,
    };
    let (st, _) = step(&cfg, &desc, PipelineState::Start, PipelineEvent::Started);
    assert_eq!(st, PipelineState::AwaitFetch);
    let (st, act) = step(&cfg, &desc, st, PipelineEvent::FetchSucceeded);
    assert_eq!(st, PipelineState::AwaitBuild);
    match act {
        Some(PipelineAction::RunCommand { command }) => {
            assert_eq!(command, BuildCommand::NpmInstallLegacyPeerDeps);
        }
        _ => panic!("expected the install command"),
    }
    let (st, act) = step(&cfg, &desc, st, PipelineEvent::CommandExited { success: false });
    assert_eq!(st, PipelineState::Done);
    assert!(act.is_none());
}

#[test]
fn progress_is_the_ratio_of_received_to_total() {
    assert_eq!(progress_percent(0, 0), 0);
    assert_eq!(progress_percent(0, 8), 0);
    assert_eq!(progress_percent(1, 3), 33);
    assert_eq!(progress_percent(50, 100), 50);
    assert_eq!(progress_percent(3, 3), 100);
    assert_eq!(progress_percent(u64::MAX, u64::MAX), 100);
}

#[test]
fn fetch_phase_follows_the_transfer_counts() {
    assert_eq!(fetch_phase(0, 0), FetchPhase::ResolvingDeltas);
    assert_eq!(fetch_phase(2, 5), FetchPhase::Receiving);
    assert_eq!(fetch_phase(5, 5), FetchPhase::ResolvingDeltas);
}

#[test]
fn update_outcome_follows_the_installer_output() {
    let replacing = b"  Replacing /usr/bin/tool v1.1.0 -> v1.2.0\n".to_vec();
    let fresh = b"  Installing tool v1.2.0\n".to_vec();
    assert_eq!(classify_update(true, &replacing), UpdateOutcome::Updated);
    assert_eq!(classify_update(true, &fresh), UpdateOutcome::AlreadyCurrent);
    assert_eq!(classify_update(false, &replacing), UpdateOutcome::CommandFailed);
}
