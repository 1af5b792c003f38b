//! The start of the indexer: what is started, and in what order.

use vstd::prelude::*;
use vstd::string::StringExecFns;
use crate::callback_registry::EventCallbackRegistry;
use crate::indexing::StartIndexingSettings;
use crate::supervisor::{failure_text, UnitFailure};

verus! {

/// A path in the file system, carried through as it is.
#[verifier::external_type_specification]
#[verifier::external_body]
pub struct ExPathBuf(std::path::PathBuf);

/// What the indexing is started with.
#[derive(Debug, PartialEq, Eq)]
pub struct IndexingDetails {
    pub registry: EventCallbackRegistry,
    pub settings: StartIndexingSettings,
}

/// Settings of the GraphQL server.
#[derive(Clone, Copy, Debug, PartialEq, Eq)]
pub struct GraphQLServerSettings {
    pub port: Option<usize>,
    pub watch: Option<bool>,
}

/// What the GraphQL server is started with.
#[derive(Clone, Copy, Debug, PartialEq, Eq)]
pub struct GraphQLServerDetails {
    pub settings: GraphQLServerSettings,
}

/// What the indexer is started with.
#[derive(Debug, PartialEq, Eq)]
pub struct StartDetails {
    pub manifest_path: std::path::PathBuf,
    pub indexing_details: Option<IndexingDetails>,
    pub graphql_server: Option<GraphQLServerDetails>,
}

/// What a no-code project is started with.
#[derive(Debug, PartialEq, Eq)]
pub struct StartNoCodeDetails {
    pub manifest_path: std::path::PathBuf,
    pub indexing_settings: Option<StartIndexingSettings>,
    pub graphql_server: Option<GraphQLServerDetails>,
}

/// The indexing ended with units that were given up.
#[derive(Clone, Debug, PartialEq, Eq)]
pub struct StartIndexingError {
    pub failures: Vec<UnitFailure>,
}

/// Why the indexer did not start, or did not run to its end. Each variant but
/// the last carries the message of the error that caused it.
#[derive(Clone, Debug, PartialEq, Eq)]
pub enum StartRindexerError {
    CouldNotReadManifest(String),
    CouldNotStartGraphqlServer(String),
    SetupPostgresError(String),
    CouldNotStartIndexing(StartIndexingError),
}

/// Why a no-code project did not start, or did not run to its end.
#[derive(Clone, Debug, PartialEq, Eq)]
pub enum StartRindexerNoCode {
    StartRindexerError(StartRindexerError),
    /// The setup of the no-code project failed, with this message.
    SetupNoCodeError(String),
}

/// The error of an indexing as a sentence: the first unit that was given up.
pub open spec fn indexing_error_text(failures: Seq<UnitFailure>) -> Seq<char> {
    if failures.len() == 0 {
        "no unit was given up"@
    } else {
        failure_text(failures[0]@)
    }
}

/// The error of a start as a sentence.
pub open spec fn start_error_text(error: StartRindexerError) -> Seq<char> {
    match error {
        StartRindexerError::CouldNotReadManifest(cause) => "Could not read manifest: "@ + cause@,
        StartRindexerError::CouldNotStartGraphqlServer(cause) => "Could not start graphql error "@
            + cause@,
        StartRindexerError::SetupPostgresError(cause) => "Could not setup postgres: "@ + cause@,
        StartRindexerError::CouldNotStartIndexing(cause) => "Could not start indexing: "@
            + indexing_error_text(cause.failures@),
    }
}

impl StartIndexingError {
    /// The error as a sentence.
    pub fn message(&self) -> (r: String)
        ensures
            r@ == indexing_error_text(self.failures@),
    {
        if self.failures.len() == 0 {
            String::from_str("no unit was given up")
        } else {
            self.failures[0].message()
        }
    }
}

impl StartRindexerError {
    /// The error as a sentence.
    pub fn message(&self) -> (r: String)
        ensures
            r@ == start_error_text(*self),
    {
        match self {
            StartRindexerError::CouldNotReadManifest(cause) => {
                let mut text = String::from_str("Could not read manifest: ");
                text.append(cause.as_str());
                text
            },
            StartRindexerError::CouldNotStartGraphqlServer(cause) => {
                let mut text = String::from_str("Could not start graphql error ");
                text.append(cause.as_str());
                text
            },
            StartRindexerError::SetupPostgresError(cause) => {
                let mut text = String::from_str("Could not setup postgres: ");
                text.append(cause.as_str());
                text
            },
            StartRindexerError::CouldNotStartIndexing(cause) => {
                let mut text = String::from_str("Could not start indexing: ");
                text.append(cause.message().as_str());
                text
            },
        }
    }
}

impl StartRindexerNoCode {
    /// The error as a sentence: that of its cause.
    pub fn message(&self) -> (r: String)
        ensures
            r@ == match *self {
                StartRindexerNoCode::StartRindexerError(cause) => start_error_text(cause),
                StartRindexerNoCode::SetupNoCodeError(cause) => cause@,
            },
    {
        match self {
            StartRindexerNoCode::StartRindexerError(cause) => cause.message(),
            StartRindexerNoCode::SetupNoCodeError(cause) => cause.clone(),
        }
    }
}

/// What the manifest says of the project, as far as the start depends on it.
#[derive(Clone, Copy, Debug, PartialEq, Eq, Structural)]
pub struct ManifestFacts {
    /// The project is a no-code project.
    pub no_code: bool,
    /// The project stores its events in Postgres.
    pub postgres_enabled: bool,
}

/// One step of the start.
#[derive(Clone, Copy, Debug, PartialEq, Eq, Structural)]
pub enum StartupStep {
    SetupLogger,
    StartGraphqlServer,
    /// Wait until the process is told to stop.
    WaitForShutdown,
    SetupPostgres,
    StartIndexing,
}

/// The steps of a start, in their order.
///
/// A project with code sets the logger up. A GraphQL server is started where
/// one is asked for; without indexing the process then only waits to be
/// stopped. Indexing is started where it is asked for, after Postgres was set
/// up where the project has code and stores in Postgres: a no-code project has
/// set Postgres up before.
pub open spec fn startup_steps(manifest: ManifestFacts, graphql: bool, indexing: bool) -> Seq<
    StartupStep,
> {
    let logger = if manifest.no_code {
        Seq::<StartupStep>::empty()
    } else {
        seq![StartupStep::SetupLogger]
    };
    let server = if !graphql {
        Seq::<StartupStep>::empty()
    } else if indexing {
        seq![StartupStep::StartGraphqlServer]
    } else {
        seq![StartupStep::StartGraphqlServer, StartupStep::WaitForShutdown]
    };
    let index = if !indexing {
        Seq::<StartupStep>::empty()
    } else if !manifest.no_code && manifest.postgres_enabled {
        seq![StartupStep::SetupPostgres, StartupStep::StartIndexing]
    } else {
        seq![StartupStep::StartIndexing]
    };
    logger + server + index
}

/// The steps that start the indexer with `details`, for a project of which
/// the manifest says `manifest`.
pub fn start_rindexer(details: &StartDetails, manifest: ManifestFacts) -> (steps: Vec<StartupStep>)
    ensures
        steps@ == startup_steps(
            manifest,
            details.graphql_server is Some,
            details.indexing_details is Some,
        ),
{
    let mut steps: Vec<StartupStep> = Vec::new();
    if !manifest.no_code {
        steps.push(StartupStep::SetupLogger);
    }
    if details.graphql_server.is_some() {
        steps.push(StartupStep::StartGraphqlServer);
        if details.indexing_details.is_none() {
            steps.push(StartupStep::WaitForShutdown);
        }
    }
    if details.indexing_details.is_some() {
        if !manifest.no_code && manifest.postgres_enabled {
            steps.push(StartupStep::SetupPostgres);
        }
        steps.push(StartupStep::StartIndexing);
    }
    assert(steps@ =~= startup_steps(
        manifest,
        details.graphql_server is Some,
        details.indexing_details is Some,
    ));
    steps
}

/// What a no-code project is started with, once its setup has made the
/// registry: the indexing is started where settings for it were given.
pub fn start_rindexer_no_code(details: StartNoCodeDetails, registry: EventCallbackRegistry) -> (start:
    StartDetails)
    ensures
        start.manifest_path == details.manifest_path,
        start.graphql_server == details.graphql_server,
        match details.indexing_settings {
            Some(settings) => start.indexing_details == Some(IndexingDetails { registry, settings }),
            None => start.indexing_details is None,
        },
{
    let indexing_details = match details.indexing_settings {
        Some(settings) => Some(IndexingDetails { registry, settings }),
        None => None,
    };
    StartDetails {
        manifest_path: details.manifest_path,
        indexing_details,
        graphql_server: details.graphql_server,
    }
}

} // verus!
