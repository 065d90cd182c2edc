//! Verification contexts: version selection and dispatch by back-end
//! tag.

use dualbuild::build_output::BuildArtifact;
use dualbuild::build_output::BuildOutput;
use dualbuild::build_output::Version;
use dualbuild::bytecode::BytecodeObject;
use dualbuild::context::CompilerVerificationContext;
use dualbuild::context::ProjectConfig;
use dualbuild::context::VerificationContext;
use dualbuild::context::ZkVerificationContext;
use dualbuild::errors::CoreError;

fn version(major: u64, minor: u64, patch: u64) -> Version {
    Version { major, minor, patch }
}

fn config() -> ProjectConfig {
    ProjectConfig { root: "proj".to_string() }
}

fn target_artifact() -> BuildArtifact {
    BuildArtifact {
        name: "Counter".to_string(),
        path: "src/Counter.sol".to_string(),
        build_id: "b1".to_string(),
        file_id: Some(1),
        version: version(0, 8, 20),
        bytecode: Some(BytecodeObject::Bytecode(vec![1])),
        deployed_bytecode: Some(BytecodeObject::Bytecode(vec![2])),
        missing_libraries: vec![],
        abi_functions: Some(vec!["increment".to_string(), "number".to_string()]),
        imports: vec!["src/Base.sol".to_string()],
        metadata: Some("{\"compiler\":\"zksolc\"}".to_string()),
    }
}

fn zk_context(configured: Option<Version>) -> ZkVerificationContext {
    ZkVerificationContext::new(
        "src/Counter.sol".to_string(),
        "Counter".to_string(),
        version(0, 8, 20),
        config(),
        version(1, 5, 3),
        configured,
    )
}

#[test]
fn context_uses_configured_base_compiler_when_given() {
    let ctx = zk_context(Some(version(0, 8, 24)));
    assert_eq!(ctx.compiler_version.solc, version(0, 8, 24));
    assert!(!ctx.compiler_version.is_zksync_solc);
    assert_eq!(ctx.compiler_version.zksolc, version(1, 5, 3));
}

#[test]
fn context_falls_back_to_the_surrounding_version() {
    let ctx = zk_context(None);
    assert_eq!(ctx.compiler_version.solc, version(0, 8, 20));
    assert!(ctx.compiler_version.is_zksync_solc);
}

#[test]
fn dispatch_reports_the_base_compiler_version() {
    let solc_ctx = CompilerVerificationContext::Solc(VerificationContext {
        config: config(),
        target_path: "src/Counter.sol".to_string(),
        target_name: "Counter".to_string(),
        compiler_version: version(0, 8, 19),
    });
    assert_eq!(*solc_ctx.compiler_version(), version(0, 8, 19));

    let zk_ctx = CompilerVerificationContext::ZkSolc(zk_context(None));
    assert_eq!(*zk_ctx.compiler_version(), version(0, 8, 20));
    assert_eq!(zk_ctx.target_name().as_str(), "Counter");
    assert_eq!(zk_ctx.target_path().as_str(), "src/Counter.sol");
    assert_eq!(zk_ctx.config().root, "proj");
}

#[test]
fn target_abi_comes_from_the_supplied_output() {
    let ctx = CompilerVerificationContext::ZkSolc(zk_context(None));
    let output = BuildOutput { artifacts: vec![target_artifact()], builds: vec![] };
    let abi = ctx.get_target_abi(&output).expect("artifact with an ABI");
    assert_eq!(abi, vec!["increment".to_string(), "number".to_string()]);
    let imports = ctx.get_target_imports(&output).expect("artifact present");
    assert_eq!(imports, vec!["src/Base.sol".to_string()]);
    let metadata = ctx.get_target_metadata(&output).expect("artifact with metadata");
    assert_eq!(metadata, "{\"compiler\":\"zksolc\"}");
}

#[test]
fn missing_target_artifact_is_reported() {
    let ctx = CompilerVerificationContext::ZkSolc(zk_context(None));
    let output = BuildOutput { artifacts: vec![], builds: vec![] };
    assert_eq!(
        ctx.get_target_abi(&output),
        Err(CoreError::TargetArtifactNotFound("Counter".to_string()))
    );
}

#[test]
fn artifact_without_abi_or_metadata_is_reported() {
    let ctx = CompilerVerificationContext::ZkSolc(zk_context(None));
    let mut bare = target_artifact();
    bare.abi_functions = None;
    bare.metadata = None;
    let output = BuildOutput { artifacts: vec![bare], builds: vec![] };
    assert_eq!(
        ctx.get_target_abi(&output),
        Err(CoreError::TargetAbiMissing("Counter".to_string()))
    );
    assert_eq!(
        ctx.get_target_metadata(&output),
        Err(CoreError::TargetMetadataMissing("Counter".to_string()))
    );
}
