use rindexer_core::callback_registry::EventCallbackRegistry;
use rindexer_core::fetch_logs::ProviderErrorKind;
use rindexer_core::indexing::{FailureReason, StartIndexingSettings, UnitError};
use rindexer_core::startup::{
    start_rindexer, start_rindexer_no_code, GraphQLServerDetails, GraphQLServerSettings,
    IndexingDetails, ManifestFacts, StartDetails, StartIndexingError, StartNoCodeDetails,
    StartRindexerError, StartRindexerNoCode, StartupStep,
};
use rindexer_core::supervisor::{UnitFailure, WorkUnit};
use std::path::PathBuf;

fn graphql() -> Option<GraphQLServerDetails> {
    Some(GraphQLServerDetails { settings: GraphQLServerSettings { port: Some(3001), watch: None } })
}

fn indexing() -> Option<IndexingDetails> {
    Some(IndexingDetails {
        registry: EventCallbackRegistry::new(),
        settings: StartIndexingSettings::default(),
    })
}

fn details(
    indexing_details: Option<IndexingDetails>,
    graphql_server: Option<GraphQLServerDetails>,
) -> StartDetails {
    StartDetails { manifest_path: PathBuf::from("rindexer.yaml"), indexing_details, graphql_server }
}

fn code(postgres_enabled: bool) -> ManifestFacts {
    ManifestFacts { no_code: false, postgres_enabled }
}

fn no_code(postgres_enabled: bool) -> ManifestFacts {
    ManifestFacts { no_code: true, postgres_enabled }
}

#[test]
fn project_with_code_sets_up_logger_and_postgres_before_indexing() {
    assert_eq!(
        start_rindexer(&details(indexing(), None), code(true)),
        vec![StartupStep::SetupLogger, StartupStep::SetupPostgres, StartupStep::StartIndexing]
    );
    assert_eq!(
        start_rindexer(&details(indexing(), None), code(false)),
        vec![StartupStep::SetupLogger, StartupStep::StartIndexing]
    );
    assert_eq!(
        start_rindexer(&details(indexing(), graphql()), code(true)),
        vec![
            StartupStep::SetupLogger,
            StartupStep::StartGraphqlServer,
            StartupStep::SetupPostgres,
            StartupStep::StartIndexing,
        ]
    );
}

#[test]
fn graphql_server_alone_waits_for_shutdown() {
    assert_eq!(
        start_rindexer(&details(None, graphql()), code(true)),
        vec![
            StartupStep::SetupLogger,
            StartupStep::StartGraphqlServer,
            StartupStep::WaitForShutdown,
        ]
    );
    assert_eq!(
        start_rindexer(&details(None, graphql()), no_code(true)),
        vec![StartupStep::StartGraphqlServer, StartupStep::WaitForShutdown]
    );
}

#[test]
fn no_code_project_has_its_setup_behind_it() {
    assert_eq!(
        start_rindexer(&details(indexing(), None), no_code(true)),
        vec![StartupStep::StartIndexing]
    );
    assert_eq!(
        start_rindexer(&details(indexing(), graphql()), no_code(false)),
        vec![StartupStep::StartGraphqlServer, StartupStep::StartIndexing]
    );
    assert_eq!(start_rindexer(&details(None, None), no_code(true)), vec![]);
    assert_eq!(start_rindexer(&details(None, None), code(true)), vec![StartupStep::SetupLogger]);
}

#[test]
fn no_code_details_become_start_details() {
    let mut registry = EventCallbackRegistry::new();
    registry.completed = true;
    let settings = StartIndexingSettings {
        concurrent: None,
        execute_in_event_order: true,
        execute_event_logs_in_order: true,
    };
    let start = start_rindexer_no_code(
        StartNoCodeDetails {
            manifest_path: PathBuf::from("/tmp/project/rindexer.yaml"),
            indexing_settings: Some(settings),
            graphql_server: graphql(),
        },
        registry.clone(),
    );
    assert_eq!(
        start,
        StartDetails {
            manifest_path: PathBuf::from("/tmp/project/rindexer.yaml"),
            indexing_details: Some(IndexingDetails { registry: registry.clone(), settings }),
            graphql_server: graphql(),
        }
    );
    let start = start_rindexer_no_code(
        StartNoCodeDetails {
            manifest_path: PathBuf::from("a.yaml"),
            indexing_settings: None,
            graphql_server: None,
        },
        registry,
    );
    assert_eq!(
        start,
        StartDetails {
            manifest_path: PathBuf::from("a.yaml"),
            indexing_details: None,
            graphql_server: None,
        }
    );
}

#[test]
fn start_errors_are_given_as_sentences() {
    assert_eq!(
        StartRindexerError::CouldNotReadManifest("no such file".to_string()).message(),
        "Could not read manifest: no such file"
    );
    assert_eq!(
        StartRindexerError::CouldNotStartGraphqlServer("port taken".to_string()).message(),
        "Could not start graphql error port taken"
    );
    assert_eq!(
        StartRindexerError::SetupPostgresError("refused".to_string()).message(),
        "Could not setup postgres: refused"
    );
    let failure = UnitFailure {
        unit: WorkUnit {
            event: 0,
            contract: 1,
            event_name: "Transfer".to_string(),
            network: "base".to_string(),
        },
        error: UnitError { reason: FailureReason::Provider(ProviderErrorKind::Transient), range: None },
    };
    let indexing = StartIndexingError { failures: vec![failure] };
    assert_eq!(indexing.message(), "event Transfer on network base: the provider failed");
    assert_eq!(
        StartRindexerError::CouldNotStartIndexing(indexing.clone()).message(),
        "Could not start indexing: event Transfer on network base: the provider failed"
    );
    assert_eq!(StartIndexingError { failures: vec![] }.message(), "no unit was given up");
    assert_eq!(
        StartRindexerNoCode::SetupNoCodeError("bad abi".to_string()).message(),
        "bad abi"
    );
    assert_eq!(
        StartRindexerNoCode::StartRindexerError(StartRindexerError::CouldNotStartIndexing(indexing))
            .message(),
        "Could not start indexing: event Transfer on network base: the provider failed"
    );
}
