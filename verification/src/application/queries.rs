//! Read-only requests: what they report of what was read.

use vstd::prelude::*;
use crate::application::dispatch::ResolvedApplyInput;
use crate::domain::actual::ActualResource;
use crate::domain::desired::{resolved_views, ResolvedDesired, ResolvedResource};
use crate::domain::effects::{
    belongs_at, by_id, lemma_absent, lemma_sorted_at, lemma_sorted_unique, sorted, EffectView,
    LinkView,
};
use crate::domain::file_copy::ContentFingerprint;
use crate::domain::file_link::LinkTarget;
use crate::domain::ids::{FullyQualifiedResourceId, ProfileId};
use crate::domain::known::{known_views, KnownResource, KnownState};
use crate::domain::paths::{same_path, ResolvedPath};
use crate::domain::plan::{Plan, PlanView};
use crate::state::operation::OperationRecord;
use crate::state::repository::StateRepositoryError;
use crate::text::{
    chars_of, copy_of, lemma_precedes_irreflexive, lemma_precedes_total, lemma_precedes_transitive,
    matches_at, precedes, text_equal, text_of,
};

verus! {

/// Why a profile could not be resolved.
#[derive(Debug, PartialEq, Eq)]
pub enum ResolverError {
    ReadProfile { message: String },
    HomeDirectoryIo { message: String },
    ProfileDiscoveryIo { not_found: bool, message: String },
    Other { message: String },
}

impl ResolverError {
    /// What the error says.
    pub open spec fn message(self) -> Seq<char> {
        match self {
            ResolverError::ReadProfile { message } => message@,
            ResolverError::HomeDirectoryIo { message } => message@,
            ResolverError::ProfileDiscoveryIo { message, .. } => message@,
            ResolverError::Other { message } => message@,
        }
    }

    /// What the error says.
    pub fn to_text(&self) -> (text: String)
        ensures
            text@ == self.message(),
    {
        match self {
            ResolverError::ReadProfile { message } => copy_of(message.as_str()),
            ResolverError::HomeDirectoryIo { message } => copy_of(message.as_str()),
            ResolverError::ProfileDiscoveryIo { message, .. } => copy_of(message.as_str()),
            ResolverError::Other { message } => copy_of(message.as_str()),
        }
    }
}

/// Why a request could not be answered.
#[derive(Debug, PartialEq, Eq)]
pub enum QueryError {
    ConfigurationRead { path: ResolvedPath, message: String },
    Configuration { message: String },
    Resolution(ResolverError),
    State(StateRepositoryError),
    Inspection { message: String },
    ConfigField(String),
}

/// What is read of the portable configuration.
#[derive(Debug, PartialEq, Eq)]
pub struct EnvironmentConfig {
    pub default_profile: Option<String>,
}

/// A store of the configuration, and where it was resolved to.
#[derive(Debug, PartialEq, Eq)]
pub struct StorePath {
    pub store_id: String,
    pub path: ResolvedPath,
}

/// What came of reading the portable configuration.
#[derive(Debug, PartialEq, Eq)]
pub enum ConfigurationText {
    Unreadable { message: String },
    Invalid { message: String },
    Parsed(EnvironmentConfig),
}

/// The configuration that was read, or why there is none.
pub open spec fn loaded(path: ResolvedPath, text: ConfigurationText) -> Result<
    EnvironmentConfig,
    QueryError,
> {
    match text {
        ConfigurationText::Unreadable { message } => Err(
            QueryError::ConfigurationRead { path, message },
        ),
        ConfigurationText::Invalid { message } => Err(QueryError::Configuration { message }),
        ConfigurationText::Parsed(configuration) => Ok(configuration),
    }
}

/// The configuration that was read, or why there is none.
pub fn load_environment(path: ResolvedPath, text: ConfigurationText) -> (outcome: Result<
    EnvironmentConfig,
    QueryError,
>)
    ensures
        outcome == loaded(path, text),
{
    match text {
        ConfigurationText::Unreadable { message } => Err(
            QueryError::ConfigurationRead { path, message },
        ),
        ConfigurationText::Invalid { message } => Err(QueryError::Configuration { message }),
        ConfigurationText::Parsed(configuration) => Ok(configuration),
    }
}

/// What the resolver found of a configuration.
#[derive(Debug)]
pub struct ConfigurationChecks {
    /// Whether every store path resolves.
    pub stores: Result<(), ResolverError>,
    /// Whether every root profile can be discovered.
    pub roots: Result<(), ResolverError>,
    /// Whether the default profile, if there is one, resolves with its sources.
    pub default_profile: Result<(), ResolverError>,
}

/// A configuration that was checked: the first check that fails, in order, is the answer. Nothing
/// is owed to a default profile that is not set.
pub open spec fn checked(configuration: EnvironmentConfig, checks: ConfigurationChecks) -> Result<
    EnvironmentConfig,
    QueryError,
> {
    match checks.stores {
        Err(error) => Err(QueryError::Resolution(error)),
        Ok(_) => match checks.roots {
            Err(error) => Err(QueryError::Resolution(error)),
            Ok(_) => match (configuration.default_profile, checks.default_profile) {
                (Some(_), Err(error)) => Err(QueryError::Resolution(error)),
                _ => Ok(configuration),
            },
        },
    }
}

/// A configuration that was checked, or the first check that fails.
pub fn validate_configuration(
    configuration: EnvironmentConfig,
    checks: ConfigurationChecks,
) -> (outcome: Result<EnvironmentConfig, QueryError>)
    ensures
        outcome == checked(configuration, checks),
{
    let ConfigurationChecks { stores, roots, default_profile } = checks;
    if let Err(error) = stores {
        return Err(QueryError::Resolution(error));
    }
    if let Err(error) = roots {
        return Err(QueryError::Resolution(error));
    }
    if configuration.default_profile.is_some() {
        if let Err(error) = default_profile {
            return Err(QueryError::Resolution(error));
        }
    }
    Ok(configuration)
}

/// The selected configuration, read and checked.
pub fn configuration(
    path: ResolvedPath,
    text: ConfigurationText,
    checks: ConfigurationChecks,
) -> (outcome: Result<EnvironmentConfig, QueryError>)
    ensures
        outcome == match loaded(path, text) {
            Ok(configuration) => checked(configuration, checks),
            Err(error) => Err(error),
        },
{
    match load_environment(path, text) {
        Ok(configuration) => validate_configuration(configuration, checks),
        Err(error) => Err(error),
    }
}

/// A complete candidate document, checked without being written.
pub fn configuration_candidate(
    parsed: Result<EnvironmentConfig, String>,
    checks: ConfigurationChecks,
) -> (outcome: Result<EnvironmentConfig, QueryError>)
    ensures
        outcome == match parsed {
            Ok(configuration) => checked(configuration, checks),
            Err(message) => Err(QueryError::Configuration { message }),
        },
{
    match parsed {
        Ok(configuration) => validate_configuration(configuration, checks),
        Err(message) => Err(QueryError::Configuration { message }),
    }
}

/// What is reported of a configuration.
#[derive(Debug, PartialEq, Eq)]
pub struct ConfigurationReport {
    pub configuration_path: ResolvedPath,
    pub default_profile: Option<String>,
    pub stores: Vec<StorePath>,
}

/// The report on a checked configuration and its resolved stores.
pub fn configuration_report(
    path: ResolvedPath,
    configuration: Result<EnvironmentConfig, QueryError>,
    stores: Result<Vec<StorePath>, ResolverError>,
) -> (outcome: Result<ConfigurationReport, QueryError>)
    ensures
        outcome == match configuration {
            Err(error) => Err(error),
            Ok(configuration) => match stores {
                Err(error) => Err(QueryError::Resolution(error)),
                Ok(stores) => Ok(
                    ConfigurationReport {
                        configuration_path: path,
                        default_profile: configuration.default_profile,
                        stores,
                    },
                ),
            },
        },
{
    match configuration {
        Err(error) => Err(error),
        Ok(configuration) => match stores {
            Err(error) => Err(QueryError::Resolution(error)),
            Ok(stores) => Ok(
                ConfigurationReport {
                    configuration_path: path,
                    default_profile: configuration.default_profile,
                    stores,
                },
            ),
        },
    }
}

/// The value of one configuration field.
#[derive(Debug, PartialEq, Eq)]
pub enum ConfigurationValue {
    DefaultProfile(Option<String>),
    StorePath(ResolvedPath),
}

/// One configuration field, and where it was read.
#[derive(Debug, PartialEq, Eq)]
pub struct ConfigurationValueReport {
    pub configuration_path: ResolvedPath,
    pub value: ConfigurationValue,
}

/// The store that a field names, if it is the path of a store.
pub open spec fn store_of_field(field: Seq<char>) -> Option<Seq<char>> {
    let prefix = "stores."@;
    let suffix = ".properties.path"@;
    if field.len() >= prefix.len() + suffix.len() && field.take(prefix.len() as int) == prefix
        && field.skip(field.len() - suffix.len()) == suffix {
        Some(field.subrange(prefix.len() as int, field.len() - suffix.len()))
    } else {
        None
    }
}

/// The store that a field names, if it is the path of a store.
pub fn field_store(field: &str) -> (store: Option<String>)
    ensures
        match store {
            Some(store) => store_of_field(field@) == Some(store@),
            None => store_of_field(field@) is None,
        },
{
    let chars = chars_of(field);
    let prefix = chars_of("stores.");
    let suffix = chars_of(".properties.path");
    proof {
        reveal_strlit("stores.");
        reveal_strlit(".properties.path");
    }
    let affixes: usize = prefix.len() + suffix.len();
    if chars.len() < affixes {
        return None;
    }
    let end: usize = chars.len() - suffix.len();
    assert(chars@.subrange(0, prefix@.len() as int) =~= field@.take(prefix@.len() as int));
    assert(chars@.subrange(end as int, end + suffix@.len()) =~= field@.skip(end as int));
    if matches_at(&chars, 0, &prefix) && matches_at(&chars, end, &suffix) {
        Some(text_of(&chars, prefix.len(), end))
    } else {
        None
    }
}

/// The path of the first store with an identity.
pub open spec fn path_of_store(stores: Seq<StorePath>, store_id: Seq<char>) -> Option<ResolvedPath>
    decreases stores.len(),
{
    if stores.len() == 0 {
        None
    } else if stores[0].store_id@ == store_id {
        Some(stores[0].path)
    } else {
        path_of_store(stores.drop_first(), store_id)
    }
}

/// The value of a field of a checked configuration.
///
/// A field is the default profile or the path of a store that the configuration has.
pub open spec fn field_value(
    configuration: EnvironmentConfig,
    stores: Result<Vec<StorePath>, ResolverError>,
    field: Seq<char>,
) -> Result<ConfigurationValue, Option<ResolverError>> {
    if field == "default_profile"@ {
        Ok(ConfigurationValue::DefaultProfile(configuration.default_profile))
    } else {
        match store_of_field(field) {
            None => Err(None),
            Some(store) => match stores {
                Err(error) => Err(Some(error)),
                Ok(stores) => match path_of_store(stores@, store) {
                    Some(path) => Ok(ConfigurationValue::StorePath(path)),
                    None => Err(None),
                },
            },
        }
    }
}

fn take_store_path(stores: Vec<StorePath>, store_id: &str) -> (path: Option<ResolvedPath>)
    ensures
        path == path_of_store(stores@, store_id@),
{
    let mut rest = stores;
    proof {
        assert(rest@ =~= stores@);
    }
    while rest.len() > 0
        invariant
            path_of_store(stores@, store_id@) == path_of_store(rest@, store_id@),
        decreases rest@.len(),
    {
        let ghost before = rest@;
        let first = rest.remove(0);
        proof {
            assert(rest@ =~= before.drop_first());
        }
        let StorePath { store_id: id, path } = first;
        if text_equal(id.as_str(), store_id) {
            return Some(path);
        }
    }
    None
}

/// One field of a configuration.
pub fn configuration_value(
    path: ResolvedPath,
    configuration: Result<EnvironmentConfig, QueryError>,
    stores: Result<Vec<StorePath>, ResolverError>,
    field: &str,
) -> (outcome: Result<ConfigurationValueReport, QueryError>)
    ensures
        match configuration {
            Err(error) => outcome == Err::<ConfigurationValueReport, QueryError>(error),
            Ok(configuration) => match field_value(configuration, stores, field@) {
                Ok(value) => outcome == Ok::<ConfigurationValueReport, QueryError>(
                    ConfigurationValueReport { configuration_path: path, value },
                ),
                Err(Some(error)) => outcome == Err::<ConfigurationValueReport, QueryError>(
                    QueryError::Resolution(error),
                ),
                Err(None) => outcome matches Err(QueryError::ConfigField(named)) && named@
                    == field@,
            },
        },
{
    let configuration = match configuration {
        Ok(configuration) => configuration,
        Err(error) => return Err(error),
    };
    if text_equal(field, "default_profile") {
        return Ok(
            ConfigurationValueReport {
                configuration_path: path,
                value: ConfigurationValue::DefaultProfile(configuration.default_profile),
            },
        );
    }
    let store = match field_store(field) {
        Some(store) => store,
        None => return Err(QueryError::ConfigField(copy_of(field))),
    };
    let stores = match stores {
        Ok(stores) => stores,
        Err(error) => return Err(QueryError::Resolution(error)),
    };
    match take_store_path(stores, store.as_str()) {
        Some(value) => Ok(
            ConfigurationValueReport {
                configuration_path: path,
                value: ConfigurationValue::StorePath(value),
            },
        ),
        None => Err(QueryError::ConfigField(copy_of(field))),
    }
}

/// What came of reading the configuration and resolving a request with it.
#[derive(Debug)]
pub enum Resolution<T> {
    /// The configuration could not be read.
    Unconfigured(QueryError),
    /// The configuration was read, and the request could not be resolved.
    Unresolved(ResolverError),
    Resolved(T),
}

impl<T> Resolution<T> {
    /// What was resolved, or why nothing was.
    pub open spec fn settled(self) -> Result<T, QueryError> {
        match self {
            Resolution::Unconfigured(error) => Err(error),
            Resolution::Unresolved(error) => Err(QueryError::Resolution(error)),
            Resolution::Resolved(value) => Ok(value),
        }
    }

    /// What was resolved, or why nothing was.
    pub fn settle(self) -> (outcome: Result<T, QueryError>)
        ensures
            outcome == self.settled(),
    {
        match self {
            Resolution::Unconfigured(error) => Err(error),
            Resolution::Unresolved(error) => Err(QueryError::Resolution(error)),
            Resolution::Resolved(value) => Ok(value),
        }
    }
}

/// The desired resources of a request with their verified sources, or why there are none.
pub fn resolve_request(resolution: Resolution<ResolvedApplyInput>) -> (outcome: Result<
    ResolvedApplyInput,
    QueryError,
>)
    ensures
        outcome == resolution.settled(),
{
    resolution.settle()
}

/// The desired resources of a request, or why there are none.
pub fn resolve_desired(resolution: Resolution<ResolvedDesired>) -> (outcome: Result<
    ResolvedDesired,
    QueryError,
>)
    ensures
        outcome == resolution.settled(),
{
    resolution.settle()
}

/// A resource as a profile declares it.
#[derive(Debug, PartialEq, Eq)]
pub struct DeclaredResource {
    pub resource_id: String,
    pub store_id: String,
    pub source_path: String,
    pub target_path: String,
}

/// A profile as it is declared.
#[derive(Debug, PartialEq, Eq)]
pub struct DeclaredProfile {
    pub id: ProfileId,
    pub includes: Vec<ProfileId>,
    pub resources: Vec<DeclaredResource>,
}

/// The profiles that are declared.
#[derive(Debug, PartialEq, Eq)]
pub struct ProfileListReport {
    pub profiles: Vec<DeclaredProfile>,
}

/// One declared profile.
#[derive(Debug, PartialEq, Eq)]
pub struct ProfileShowReport {
    pub profile: DeclaredProfile,
}

/// The declared profiles, without any access to state.
pub fn profiles(resolution: Resolution<Vec<DeclaredProfile>>) -> (outcome: Result<
    ProfileListReport,
    QueryError,
>)
    ensures
        outcome == match resolution.settled() {
            Ok(profiles) => Ok(ProfileListReport { profiles }),
            Err(error) => Err(error),
        },
{
    match resolution.settle() {
        Ok(profiles) => Ok(ProfileListReport { profiles }),
        Err(error) => Err(error),
    }
}

/// The first profile with an identity.
pub open spec fn profile_of(profiles: Seq<DeclaredProfile>, id: Seq<char>) -> Option<
    DeclaredProfile,
>
    decreases profiles.len(),
{
    if profiles.len() == 0 {
        None
    } else if profiles[0].id@ == id {
        Some(profiles[0])
    } else {
        profile_of(profiles.drop_first(), id)
    }
}

fn take_profile(profiles: Vec<DeclaredProfile>, id: &ProfileId) -> (found: Option<DeclaredProfile>)
    ensures
        found == profile_of(profiles@, id@),
{
    let mut rest = profiles;
    while rest.len() > 0
        invariant
            profile_of(profiles@, id@) == profile_of(rest@, id@),
        decreases rest@.len(),
    {
        let ghost before = rest@;
        let first = rest.remove(0);
        proof {
            assert(rest@ =~= before.drop_first());
        }
        if first.id.same(id) {
            return Some(first);
        }
    }
    None
}

/// One declared profile, if it is declared.
pub fn profile(resolution: Resolution<Vec<DeclaredProfile>>, profile_id: &ProfileId) -> (outcome:
    Result<Option<ProfileShowReport>, QueryError>)
    ensures
        outcome == match resolution.settled() {
            Ok(profiles) => Ok(
                match profile_of(profiles@, profile_id@) {
                    Some(profile) => Some(ProfileShowReport { profile }),
                    None => None,
                },
            ),
            Err(error) => Err(error),
        },
{
    match profiles(resolution) {
        Ok(report) => match take_profile(report.profiles, profile_id) {
            Some(profile) => Ok(Some(ProfileShowReport { profile })),
            None => Ok(None),
        },
        Err(error) => Err(error),
    }
}

/// The desired resources of one root profile.
#[derive(Debug)]
pub struct DesiredResourcesReport {
    pub root_profile: ProfileId,
    pub resources: Vec<ResolvedResource>,
}

fn copy_resolved(list: &Vec<ResolvedResource>) -> (copy: Vec<ResolvedResource>)
    ensures
        resolved_views(copy@) == resolved_views(list@),
{
    let mut copy: Vec<ResolvedResource> = Vec::new();
    let mut i: usize = 0;
    while i < list.len()
        invariant
            i <= list@.len(),
            copy@.len() == i,
            forall|k: int| 0 <= k < i ==> (#[trigger] copy@[k])@ == list@[k]@,
        decreases list.len() - i,
    {
        copy.push(list[i].clone());
        i += 1;
    }
    assert(resolved_views(copy@) =~= resolved_views(list@));
    copy
}

/// The desired resources, without any access to state or to a target.
pub fn desired_resources(resolution: Resolution<ResolvedDesired>) -> (outcome: Result<
    DesiredResourcesReport,
    QueryError,
>)
    ensures
        match resolution.settled() {
            Ok(desired) => outcome matches Ok(report) && report.root_profile@ == desired.profile()
                && resolved_views(report.resources@) == desired@,
            Err(error) => outcome == Err::<DesiredResourcesReport, QueryError>(error),
        },
{
    match resolve_desired(resolution) {
        Ok(desired) => Ok(
            DesiredResourcesReport {
                root_profile: desired.root_profile().clone(),
                resources: copy_resolved(desired.variants()),
            },
        ),
        Err(error) => Err(error),
    }
}

/// The state that was read.
#[derive(Debug)]
pub struct LoadedState {
    pub known: KnownState,
    pub active_operation: Option<OperationRecord>,
}

/// The recorded resources.
#[derive(Debug)]
pub struct KnownResourcesReport {
    pub resources: Vec<KnownResource>,
}

fn copy_known(list: &Vec<KnownResource>) -> (copy: Vec<KnownResource>)
    ensures
        known_views(copy@) == known_views(list@),
{
    let mut copy: Vec<KnownResource> = Vec::new();
    let mut i: usize = 0;
    while i < list.len()
        invariant
            i <= list@.len(),
            copy@.len() == i,
            forall|k: int| 0 <= k < i ==> (#[trigger] copy@[k])@ == list@[k]@,
        decreases list.len() - i,
    {
        copy.push(list[i].clone());
        i += 1;
    }
    assert(known_views(copy@) =~= known_views(list@));
    copy
}

/// The recorded resources, without any access to a declaration or to a target.
pub fn known_resources(state: Result<LoadedState, StateRepositoryError>) -> (outcome: Result<
    KnownResourcesReport,
    QueryError,
>)
    ensures
        match state {
            Ok(state) => outcome matches Ok(report) && known_views(report.resources@)
                == state.known.listing(),
            Err(error) => outcome == Err::<KnownResourcesReport, QueryError>(
                QueryError::State(error),
            ),
        },
{
    match state {
        Ok(state) => Ok(KnownResourcesReport { resources: copy_known(state.known.resources()) }),
        Err(error) => Err(QueryError::State(error)),
    }
}

/// How a desired and a recorded definition of one resource relate.
#[derive(Clone, Copy, Debug, PartialEq, Eq, Structural)]
pub enum StatusRelationship {
    DesiredOnly,
    KnownOnly,
    DefinitionChanged,
    DefinitionsMatch,
}

/// Whether two effects have the same source, the same target and the same content.
pub open spec fn same_definition(left: EffectView, right: EffectView) -> bool {
    match (left, right) {
        (EffectView::Link(a), EffectView::Link(b)) => same_path(a.source_path, b.source_path)
            && same_path(a.target_path, b.target_path) && same_path(a.link_target, b.link_target),
        (EffectView::Copy(a), EffectView::Copy(b)) => same_path(a.source_path, b.source_path)
            && same_path(a.target_path, b.target_path) && a.content_fingerprint
            == b.content_fingerprint,
        _ => false,
    }
}

/// How a desired and a recorded definition relate, without regard to what is observed.
pub open spec fn relates(desired: Option<EffectView>, known: Option<EffectView>) -> StatusRelationship {
    match (desired, known) {
        (Some(desired), Some(known)) => if same_definition(desired, known) {
            StatusRelationship::DefinitionsMatch
        } else {
            StatusRelationship::DefinitionChanged
        },
        (Some(_), None) => StatusRelationship::DesiredOnly,
        _ => StatusRelationship::KnownOnly,
    }
}

/// The effect inside an optional desired resource.
pub open spec fn desired_effect(resource: Option<ResolvedResource>) -> Option<EffectView> {
    match resource {
        Some(resource) => Some(resource@),
        None => None,
    }
}

/// The effect inside an optional recorded resource.
pub open spec fn known_effect(resource: Option<KnownResource>) -> Option<EffectView> {
    match resource {
        Some(resource) => Some(resource@),
        None => None,
    }
}

fn definitions_match(desired: &ResolvedResource, known: &KnownResource) -> (matches: bool)
    ensures
        matches == same_definition(desired@, known@),
{
    match (desired, known) {
        (ResolvedResource::FileLink(desired), KnownResource::FileLink(known)) =>
            desired.source_path().same(known.source_path()) && desired.target_path().same(
                known.target_path(),
            ) && desired.link_target().same(known.link_target()),
        (ResolvedResource::FileCopy(desired), KnownResource::FileCopy(known)) =>
            desired.source_path().same(known.source_path()) && desired.target_path().same(
                known.target_path(),
            ) && desired.source_content_fingerprint().same(known.content_fingerprint()),
        _ => false,
    }
}

/// Why nothing is known of a target.
#[derive(Debug, PartialEq, Eq)]
pub enum StatusUnavailable {
    InspectorInitialization,
    Observation { message: String },
}

/// What was observed at a target, or why nothing was.
#[derive(Debug, PartialEq, Eq)]
pub enum StatusActual {
    Available(ActualResource),
    Unavailable(StatusUnavailable),
}

/// One resource that is desired or recorded, and what was observed at its target.
#[derive(Debug)]
pub struct StatusResource {
    pub resource_id: FullyQualifiedResourceId,
    pub desired: Option<ResolvedResource>,
    pub known: Option<KnownResource>,
    pub actual: StatusActual,
}

impl StatusResource {
    /// How the desired and the recorded definition relate, without deriving an action from it.
    pub fn relationship(&self) -> (relationship: StatusRelationship)
        requires
            self.desired is Some || self.known is Some,
        ensures
            relationship == relates(desired_effect(self.desired), known_effect(self.known)),
    {
        match (&self.desired, &self.known) {
            (Some(desired), Some(known)) => if definitions_match(desired, known) {
                StatusRelationship::DefinitionsMatch
            } else {
                StatusRelationship::DefinitionChanged
            },
            (Some(_), None) => StatusRelationship::DesiredOnly,
            _ => StatusRelationship::KnownOnly,
        }
    }
}

/// What is to be seen at a target.
#[derive(Debug, PartialEq, Eq)]
pub enum ExpectedContent {
    Link(LinkTarget),
    Copy(ContentFingerprint),
}

/// One look at a target. A recorded effect is looked at as ours, and a desired one is not.
#[derive(Debug, PartialEq, Eq)]
pub struct StatusInspection {
    pub target_path: ResolvedPath,
    pub expected: ExpectedContent,
    pub recorded: bool,
}

/// One resource that is desired or recorded.
#[derive(Debug)]
pub struct StatusRow {
    pub resource_id: FullyQualifiedResourceId,
    pub desired: Option<ResolvedResource>,
    pub known: Option<KnownResource>,
}

/// One resource that is desired or recorded, as texts.
pub struct RowView {
    pub resource_id: Seq<char>,
    pub desired: Option<EffectView>,
    pub known: Option<EffectView>,
}

impl View for StatusRow {
    type V = RowView;

    open spec fn view(&self) -> RowView {
        RowView {
            resource_id: self.resource_id@,
            desired: desired_effect(self.desired),
            known: known_effect(self.known),
        }
    }
}

/// The resources of a list of rows, in order.
pub open spec fn row_views(rows: Seq<StatusRow>) -> Seq<RowView> {
    Seq::new(rows.len(), |i: int| rows[i]@)
}

/// What a map holds under a key.
pub open spec fn held(effects: Map<Seq<char>, EffectView>, id: Seq<char>) -> Option<EffectView> {
    if effects.contains_key(id) {
        Some(effects[id])
    } else {
        None
    }
}

/// Whether a row is what is desired and recorded of its resource, and it is not empty.
pub open spec fn fits_row(
    row: RowView,
    desired: Map<Seq<char>, EffectView>,
    known: Map<Seq<char>, EffectView>,
) -> bool {
    &&& row.desired == held(desired, row.resource_id)
    &&& row.known == held(known, row.resource_id)
    &&& row.desired is Some || row.known is Some
}

/// Whether rows are listed in the order of their resources, each resource once.
pub open spec fn rows_ordered(rows: Seq<RowView>) -> bool {
    forall|i: int, j: int|
        0 <= i < j < rows.len() ==> precedes(
            (#[trigger] rows[i]).resource_id,
            (#[trigger] rows[j]).resource_id,
        )
}

/// Whether some row is about a resource.
pub open spec fn has_row(rows: Seq<RowView>, id: Seq<char>) -> bool {
    exists|i: int| 0 <= i < rows.len() && (#[trigger] rows[i]).resource_id == id
}

/// Whether rows are exactly the resources that are desired or recorded, in order.
pub open spec fn lists_union(
    rows: Seq<RowView>,
    desired: Map<Seq<char>, EffectView>,
    known: Map<Seq<char>, EffectView>,
) -> bool {
    &&& rows_ordered(rows)
    &&& forall|i: int| 0 <= i < rows.len() ==> fits_row(#[trigger] rows[i], desired, known)
    &&& forall|id: Seq<char>|
        desired.contains_key(id) || known.contains_key(id) ==> #[trigger] has_row(rows, id)
}

spec fn merging(rows: Seq<RowView>, d: Seq<EffectView>, k: Seq<EffectView>, i: int, j: int) -> bool {
    &&& 0 <= i <= d.len()
    &&& 0 <= j <= k.len()
    &&& rows_ordered(rows)
    &&& forall|a: int| 0 <= a < rows.len() ==> fits_row(#[trigger] rows[a], by_id(d), by_id(k))
    &&& forall|x: int| 0 <= x < i ==> has_row(rows, (#[trigger] d[x]).resource_id())
    &&& forall|y: int| 0 <= y < j ==> has_row(rows, (#[trigger] k[y]).resource_id())
    &&& forall|a: int, x: int|
        0 <= a < rows.len() && i <= x < d.len() ==> precedes(
            (#[trigger] rows[a]).resource_id,
            (#[trigger] d[x]).resource_id(),
        )
    &&& forall|a: int, y: int|
        0 <= a < rows.len() && j <= y < k.len() ==> precedes(
            (#[trigger] rows[a]).resource_id,
            (#[trigger] k[y]).resource_id(),
        )
}

proof fn lemma_merge_absent(
    rows: Seq<RowView>,
    list: Seq<EffectView>,
    place: int,
    id: Seq<char>,
)
    requires
        sorted(list),
        0 <= place <= list.len(),
        forall|y: int| 0 <= y < place ==> has_row(rows, (#[trigger] list[y]).resource_id()),
        forall|a: int| 0 <= a < rows.len() ==> precedes((#[trigger] rows[a]).resource_id, id),
        place < list.len() ==> precedes(id, list[place].resource_id()),
    ensures
        !by_id(list).contains_key(id),
        forall|y: int| place <= y < list.len() ==> precedes(id, (#[trigger] list[y]).resource_id()),
{
    assert forall|y: int| 0 <= y < place implies precedes(
        (#[trigger] list[y]).resource_id(),
        id,
    ) by {
        assert(has_row(rows, list[y].resource_id()));
        let a = choose|a: int|
            0 <= a < rows.len() && (#[trigger] rows[a]).resource_id == list[y].resource_id();
        assert(precedes(rows[a].resource_id, id));
    }
    assert forall|y: int| place <= y < list.len() implies precedes(
        id,
        (#[trigger] list[y]).resource_id(),
    ) by {
        if y > place {
            assert(precedes(list[place].resource_id(), list[y].resource_id()));
            lemma_precedes_transitive(id, list[place].resource_id(), list[y].resource_id());
        }
    }
    assert(belongs_at(list, place, id));
    lemma_absent(list, place, id);
}

proof fn lemma_merge_step(
    rows: Seq<RowView>,
    row: RowView,
    d: Seq<EffectView>,
    k: Seq<EffectView>,
    i: int,
    j: int,
    next_i: int,
    next_j: int,
)
    requires
        sorted(d),
        sorted(k),
        merging(rows, d, k, i, j),
        fits_row(row, by_id(d), by_id(k)),
        i <= next_i <= i + 1,
        j <= next_j <= j + 1,
        next_i <= d.len(),
        next_j <= k.len(),
        next_i > i ==> row.resource_id == d[i].resource_id(),
        next_j > j ==> row.resource_id == k[j].resource_id(),
        next_i > i || next_j > j,
        forall|x: int| next_i <= x < d.len() ==> precedes(
            row.resource_id,
            (#[trigger] d[x]).resource_id(),
        ),
        forall|y: int| next_j <= y < k.len() ==> precedes(
            row.resource_id,
            (#[trigger] k[y]).resource_id(),
        ),
    ensures
        merging(rows.push(row), d, k, next_i, next_j),
{
    let longer = rows.push(row);
    assert(longer[rows.len() as int] == row);
    assert forall|id: Seq<char>| has_row(rows, id) implies #[trigger] has_row(longer, id) by {
        let a = choose|a: int| 0 <= a < rows.len() && (#[trigger] rows[a]).resource_id == id;
        assert(longer[a].resource_id == id);
    }
    assert(has_row(longer, row.resource_id)) by {
        assert(longer[rows.len() as int].resource_id == row.resource_id);
    }
    assert forall|a: int| 0 <= a < rows.len() implies precedes(
        (#[trigger] rows[a]).resource_id,
        row.resource_id,
    ) by {
        if next_i > i {
            assert(precedes(rows[a].resource_id, d[i].resource_id()));
        } else {
            assert(precedes(rows[a].resource_id, k[j].resource_id()));
        }
    }
    assert forall|a: int, b: int| 0 <= a < b < longer.len() implies precedes(
        (#[trigger] longer[a]).resource_id,
        (#[trigger] longer[b]).resource_id,
    ) by {
        assert(longer[a] == rows[a]);
        if b < rows.len() {
            assert(longer[b] == rows[b]);
        }
    }
    assert forall|a: int| 0 <= a < longer.len() implies fits_row(
        #[trigger] longer[a],
        by_id(d),
        by_id(k),
    ) by {
        if a < rows.len() {
            assert(longer[a] == rows[a]);
        }
    }
    assert forall|a: int, x: int| 0 <= a < longer.len() && next_i <= x < d.len() implies precedes(
        (#[trigger] longer[a]).resource_id,
        (#[trigger] d[x]).resource_id(),
    ) by {
        if a < rows.len() {
            assert(longer[a] == rows[a]);
        }
    }
    assert forall|a: int, y: int| 0 <= a < longer.len() && next_j <= y < k.len() implies precedes(
        (#[trigger] longer[a]).resource_id,
        (#[trigger] k[y]).resource_id(),
    ) by {
        if a < rows.len() {
            assert(longer[a] == rows[a]);
        }
    }
    assert forall|x: int| 0 <= x < next_i implies has_row(
        longer,
        (#[trigger] d[x]).resource_id(),
    ) by {
        if x < i {
            assert(has_row(rows, d[x].resource_id()));
        }
    }
    assert forall|y: int| 0 <= y < next_j implies has_row(
        longer,
        (#[trigger] k[y]).resource_id(),
    ) by {
        if y < j {
            assert(has_row(rows, k[y].resource_id()));
        }
    }
}

fn merge(desired: &Vec<ResolvedResource>, known: &Vec<KnownResource>) -> (rows: Vec<StatusRow>)
    requires
        sorted(resolved_views(desired@)),
        sorted(known_views(known@)),
    ensures
        lists_union(
            row_views(rows@),
            by_id(resolved_views(desired@)),
            by_id(known_views(known@)),
        ),
{
    let ghost d = resolved_views(desired@);
    let ghost k = known_views(known@);
    let mut rows: Vec<StatusRow> = Vec::new();
    let mut i: usize = 0;
    let mut j: usize = 0;
    while i < desired.len() || j < known.len()
        invariant
            d == resolved_views(desired@),
            k == known_views(known@),
            sorted(d),
            sorted(k),
            i <= desired@.len(),
            j <= known@.len(),
            merging(row_views(rows@), d, k, i as int, j as int),
        decreases desired.len() - i + known.len() - j,
    {
        let ghost before = row_views(rows@);
        let take_desired = if i >= desired.len() {
            false
        } else if j >= known.len() {
            true
        } else {
            !known[j].resource_id().is_before(desired[i].resource_id())
        };
        let take_known = if j >= known.len() {
            false
        } else if i >= desired.len() {
            true
        } else {
            !desired[i].resource_id().is_before(known[j].resource_id())
        };
        let ghost old_i = i as int;
        let ghost old_j = j as int;
        proof {
            if i < d.len() {
                assert(d[i as int] == desired@[i as int]@);
                lemma_sorted_at(d, i as int);
            }
            if j < k.len() {
                assert(k[j as int] == known@[j as int]@);
                lemma_sorted_at(k, j as int);
            }
            if i < d.len() && j < k.len() {
                lemma_precedes_total(d[i as int].resource_id(), k[j as int].resource_id());
                if precedes(d[i as int].resource_id(), k[j as int].resource_id()) && precedes(
                    k[j as int].resource_id(),
                    d[i as int].resource_id(),
                ) {
                    lemma_precedes_transitive(
                        d[i as int].resource_id(),
                        k[j as int].resource_id(),
                        d[i as int].resource_id(),
                    );
                    lemma_precedes_irreflexive(d[i as int].resource_id());
                }
                lemma_precedes_irreflexive(d[i as int].resource_id());
            }
            if !take_known && i < d.len() {
                lemma_merge_absent(before, k, j as int, d[i as int].resource_id());
            }
            if !take_desired && j < k.len() {
                lemma_merge_absent(before, d, i as int, k[j as int].resource_id());
            }
        }
        if take_desired && take_known {
            let row = StatusRow {
                resource_id: desired[i].resource_id().clone(),
                desired: Some(desired[i].clone()),
                known: Some(known[j].clone()),
            };
            proof {
                lemma_merge_step(before, row@, d, k, old_i, old_j, old_i + 1, old_j + 1);
            }
            rows.push(row);
            i += 1;
            j += 1;
            assert(row_views(rows@) =~= before.push(row@));
        } else if take_desired {
            let row = StatusRow {
                resource_id: desired[i].resource_id().clone(),
                desired: Some(desired[i].clone()),
                known: None,
            };
            proof {
                lemma_merge_step(before, row@, d, k, old_i, old_j, old_i + 1, old_j);
            }
            rows.push(row);
            i += 1;
            assert(row_views(rows@) =~= before.push(row@));
        } else {
            let row = StatusRow {
                resource_id: known[j].resource_id().clone(),
                desired: None,
                known: Some(known[j].clone()),
            };
            proof {
                lemma_merge_step(before, row@, d, k, old_i, old_j, old_i, old_j + 1);
            }
            rows.push(row);
            j += 1;
            assert(row_views(rows@) =~= before.push(row@));
        }
    }
    proof {
        let all = row_views(rows@);
        assert forall|id: Seq<char>| by_id(d).contains_key(id) || by_id(k).contains_key(
            id,
        ) implies #[trigger] has_row(all, id) by {
            if by_id(d).contains_key(id) {
                let x = choose|x: int| 0 <= x < d.len() && (#[trigger] d[x]).resource_id() == id;
                assert(has_row(all, d[x].resource_id()));
            } else {
                let y = choose|y: int| 0 <= y < k.len() && (#[trigger] k[y]).resource_id() == id;
                assert(has_row(all, k[y].resource_id()));
            }
        }
    }
    rows
}

/// What is desired of a status request, before anything is observed.
#[derive(Debug)]
pub enum StatusRows {
    Available { root_profile: ProfileId, rows: Vec<StatusRow> },
    Unavailable(QueryError),
}

/// A status request before anything is observed.
#[derive(Debug)]
pub struct StatusDraft {
    pub active_operation: Option<OperationRecord>,
    pub desired: StatusRows,
}

/// Whether a look is at the target of an effect, for its content.
pub open spec fn looks_for(inspection: StatusInspection, effect: EffectView, recorded: bool) -> bool {
    &&& inspection.recorded == recorded
    &&& inspection.target_path@ == effect.target_path()
    &&& match effect {
        EffectView::Link(link) => inspection.expected matches ExpectedContent::Link(target)
            && target@ == link.link_target,
        EffectView::Copy(copy) => inspection.expected matches ExpectedContent::Copy(content)
            && content@ == copy.content_fingerprint,
    }
}

fn inspection_of_known(known: &KnownResource) -> (inspection: StatusInspection)
    ensures
        looks_for(inspection, known@, true),
{
    match known {
        KnownResource::FileLink(known) => StatusInspection {
            target_path: known.target_path().clone(),
            expected: ExpectedContent::Link(known.link_target().clone()),
            recorded: true,
        },
        KnownResource::FileCopy(known) => StatusInspection {
            target_path: known.target_path().clone(),
            expected: ExpectedContent::Copy(known.content_fingerprint().clone()),
            recorded: true,
        },
    }
}

impl StatusRow {
    /// What is looked at for a row: the recorded effect, or else the desired one.
    pub open spec fn looks_at(self, inspection: StatusInspection) -> bool {
        match known_effect(self.known) {
            Some(effect) => looks_for(inspection, effect, true),
            None => looks_for(inspection, desired_effect(self.desired)->0, false),
        }
    }

    /// What is looked at for a row: nothing for a row without an effect.
    pub fn inspection(&self) -> (inspection: Option<StatusInspection>)
        ensures
            match inspection {
                Some(inspection) => (self.desired is Some || self.known is Some) && self.looks_at(
                    inspection,
                ),
                None => self.desired is None && self.known is None,
            },
    {
        match (&self.known, &self.desired) {
            (Some(known), _) => Some(inspection_of_known(known)),
            (None, Some(ResolvedResource::FileLink(desired))) => Some(
                StatusInspection {
                    target_path: desired.target_path().clone(),
                    expected: ExpectedContent::Link(desired.link_target().clone()),
                    recorded: false,
                },
            ),
            (None, Some(ResolvedResource::FileCopy(desired))) => Some(
                StatusInspection {
                    target_path: desired.target_path().clone(),
                    expected: ExpectedContent::Copy(desired.source_content_fingerprint().clone()),
                    recorded: false,
                },
            ),
            (None, None) => None,
        }
    }
}

/// What is desired and recorded, before anything is observed: a state that cannot be read comes
/// before a declaration that cannot.
pub fn status(
    state: Result<LoadedState, StateRepositoryError>,
    resolution: Resolution<ResolvedDesired>,
) -> (outcome: Result<StatusDraft, QueryError>)
    ensures
        match state {
            Err(error) => outcome == Err::<StatusDraft, QueryError>(QueryError::State(error)),
            Ok(state) => outcome matches Ok(draft) && draft.active_operation
                == state.active_operation && match resolution.settled() {
                Err(error) => draft.desired == StatusRows::Unavailable(error),
                Ok(desired) => draft.desired matches StatusRows::Available { root_profile, rows }
                    && root_profile@ == desired.profile() && lists_union(
                    row_views(rows@),
                    by_id(desired@),
                    state.known@,
                ),
            },
        },
{
    let state = match state {
        Ok(state) => state,
        Err(error) => return Err(QueryError::State(error)),
    };
    let LoadedState { known, active_operation } = state;
    let desired = match resolve_desired(resolution) {
        Ok(desired) => {
            let rows = merge(desired.variants(), known.resources());
            StatusRows::Available { root_profile: desired.root_profile().clone(), rows }
        },
        Err(error) => StatusRows::Unavailable(error),
    };
    Ok(StatusDraft { active_operation, desired })
}

/// What is desired, recorded and observed of the resources of a root profile.
#[derive(Debug)]
pub enum StatusDesired {
    Available { root_profile: ProfileId, resources: Vec<StatusResource> },
    Unavailable(QueryError),
}

/// What is desired, recorded and observed.
#[derive(Debug)]
pub struct StatusReport {
    pub active_operation: Option<OperationRecord>,
    pub desired: StatusDesired,
    pub has_unavailable_observation: bool,
    pub inspection_initialization_error: Option<String>,
}

/// What an inspector observed for each row, or why there was no inspector.
#[derive(Debug)]
pub enum Observations {
    NoInspector { message: String },
    Looks(Vec<Result<ActualResource, String>>),
}

/// What one look comes to.
pub open spec fn seen(observations: Observations, i: int) -> StatusActual {
    match observations {
        Observations::NoInspector { .. } => StatusActual::Unavailable(
            StatusUnavailable::InspectorInitialization,
        ),
        Observations::Looks(looks) => match looks@[i] {
            Ok(actual) => StatusActual::Available(actual),
            Err(message) => StatusActual::Unavailable(StatusUnavailable::Observation { message }),
        },
    }
}

/// Whether observations were made for `n` rows.
pub open spec fn looked_at_all(observations: Observations, n: nat) -> bool {
    observations matches Observations::Looks(looks) ==> looks@.len() == n
}

/// Whether a resource is a row together with what was seen for it.
pub open spec fn completes(resource: StatusResource, row: StatusRow, actual: StatusActual) -> bool {
    &&& resource.resource_id == row.resource_id
    &&& resource.desired == row.desired
    &&& resource.known == row.known
    &&& resource.actual == actual
}

/// Puts together what is desired, recorded and observed, every row with its own observation.
///
/// Nothing is observed for a declaration that is not available.
pub fn status_with_inspector(draft: StatusDraft, observations: Observations) -> (report:
    StatusReport)
    requires
        draft.desired matches StatusRows::Available { rows, .. } ==> looked_at_all(
            observations,
            rows@.len(),
        ),
    ensures
        report.active_operation == draft.active_operation,
        match draft.desired {
            StatusRows::Unavailable(error) => {
                &&& report.desired == StatusDesired::Unavailable(error)
                &&& !report.has_unavailable_observation
                &&& report.inspection_initialization_error is None
            },
            StatusRows::Available { root_profile, rows } => {
                &&& report.desired matches StatusDesired::Available {
                    root_profile: profile,
                    resources,
                } && profile == root_profile && resources@.len() == rows@.len() && (forall|i: int|
                    0 <= i < rows@.len() ==> completes(
                        #[trigger] resources@[i],
                        rows@[i],
                        seen(observations, i),
                    )) && report.has_unavailable_observation == (exists|i: int|
                    0 <= i < rows@.len() && (#[trigger] resources@[i]).actual is Unavailable)
                &&& report.inspection_initialization_error == match observations {
                    Observations::NoInspector { message } => Some(message),
                    Observations::Looks(_) => None,
                }
            },
        },
{
    let StatusDraft { active_operation, desired } = draft;
    match desired {
        StatusRows::Unavailable(error) => StatusReport {
            active_operation,
            desired: StatusDesired::Unavailable(error),
            has_unavailable_observation: false,
            inspection_initialization_error: None,
        },
        StatusRows::Available { root_profile, rows } => {
            let ghost all = rows@;
            let ghost given = observations;
            let nothing: Vec<Result<ActualResource, String>> = Vec::new();
            let (list, inspection_initialization_error) = match observations {
                Observations::NoInspector { message } => (nothing, Some(message)),
                Observations::Looks(looks) => (looks, None),
            };
            let inspected = inspection_initialization_error.is_none();
            let mut looks = list;
            let mut left = rows;
            let mut resources: Vec<StatusResource> = Vec::new();
            let mut unavailable = false;
            let ghost mut n: int = 0;
            proof {
                assert(all.skip(0) =~= all);
                if given is Looks {
                    assert(given->Looks_0@.skip(0) =~= given->Looks_0@);
                }
            }
            while left.len() > 0
                invariant
                    0 <= n <= all.len(),
                    left@ == all.skip(n),
                    resources@.len() == n,
                    match given {
                        Observations::NoInspector { .. } => !inspected,
                        Observations::Looks(whole) => inspected && whole@.len() == all.len()
                            && looks@ == whole@.skip(n),
                    },
                    forall|i: int|
                        0 <= i < n ==> completes(#[trigger] resources@[i], all[i], seen(given, i)),
                    unavailable == (exists|i: int|
                        0 <= i < n && (#[trigger] resources@[i]).actual is Unavailable),
                decreases left@.len(),
            {
                let ghost before = resources@;
                let StatusRow { resource_id, desired, known } = left.remove(0);
                let actual = if inspected {
                    match looks.remove(0) {
                        Ok(actual) => StatusActual::Available(actual),
                        Err(message) => StatusActual::Unavailable(
                            StatusUnavailable::Observation { message },
                        ),
                    }
                } else {
                    StatusActual::Unavailable(StatusUnavailable::InspectorInitialization)
                };
                let hidden = match &actual {
                    StatusActual::Unavailable(_) => true,
                    StatusActual::Available(_) => false,
                };
                if hidden {
                    unavailable = true;
                }
                resources.push(StatusResource { resource_id, desired, known, actual });
                proof {
                    n = n + 1;
                    assert(left@ =~= all.skip(n));
                    if given is Looks {
                        assert(looks@ =~= given->Looks_0@.skip(n));
                    }
                    assert(forall|i: int| 0 <= i < n - 1 ==> #[trigger] resources@[i] == before[i]);
                    assert(resources@[n - 1].actual == seen(given, n - 1));
                    if exists|i: int| 0 <= i < n - 1 && (#[trigger] before[i]).actual is Unavailable {
                        let i = choose|i: int|
                            0 <= i < n - 1 && (#[trigger] before[i]).actual is Unavailable;
                        assert(resources@[i].actual is Unavailable);
                    }
                }
            }
            StatusReport {
                active_operation,
                desired: StatusDesired::Available { root_profile, resources },
                has_unavailable_observation: unavailable,
                inspection_initialization_error,
            }
        },
    }
}

/// What was resolved of the selected profiles.
#[derive(Debug)]
pub enum Validation {
    /// One root profile, with its verified sources.
    Root(Resolution<ResolvedApplyInput>),
    /// Every root profile that was discovered, and for each of them, in order, whether it resolves
    /// with its sources.
    All { roots: Resolution<Vec<ProfileId>>, results: Vec<Result<(), ResolverError>> },
}

/// A root profile, and whether it resolves with its sources.
#[derive(Debug)]
pub struct ValidatedProfile {
    pub profile: ProfileId,
    pub result: Result<(), ResolverError>,
}

/// Which profiles are valid.
#[derive(Debug)]
pub struct ValidationReport {
    pub profiles: Vec<ValidatedProfile>,
}

/// Whether rows are root profiles with their own results, one row for each, in order.
pub open spec fn reports_roots(
    rows: Seq<ValidatedProfile>,
    roots: Seq<ProfileId>,
    results: Seq<Result<(), ResolverError>>,
) -> bool {
    &&& rows.len() == roots.len()
    &&& forall|i: int|
        0 <= i < rows.len() ==> (#[trigger] rows[i]).profile == roots[i] && rows[i].result
            == results[i]
}

fn pair_roots(roots: Vec<ProfileId>, results: Vec<Result<(), ResolverError>>) -> (rows: Vec<
    ValidatedProfile,
>)
    requires
        roots@.len() == results@.len(),
    ensures
        reports_roots(rows@, roots@, results@),
{
    let ghost all = roots@;
    let ghost outcomes = results@;
    let mut left = roots;
    let mut rest = results;
    let mut rows: Vec<ValidatedProfile> = Vec::new();
    let ghost mut n: int = 0;
    proof {
        assert(all.skip(0) =~= all);
        assert(outcomes.skip(0) =~= outcomes);
    }
    while left.len() > 0
        invariant
            0 <= n <= all.len() == outcomes.len(),
            left@ == all.skip(n),
            rest@ == outcomes.skip(n),
            rows@.len() == n,
            forall|i: int|
                0 <= i < n ==> (#[trigger] rows@[i]).profile == all[i] && rows@[i].result
                    == outcomes[i],
        decreases left@.len(),
    {
        let ghost before = rows@;
        rows.push(ValidatedProfile { profile: left.remove(0), result: rest.remove(0) });
        proof {
            n = n + 1;
            assert(left@ =~= all.skip(n));
            assert(rest@ =~= outcomes.skip(n));
            assert(forall|i: int| 0 <= i < n - 1 ==> #[trigger] rows@[i] == before[i]);
        }
    }
    rows
}

/// Which of the selected profiles are valid: a single one is, or it is an error. Of all profiles
/// each has its own result, and one that is invalid keeps no other from being reported.
pub fn validate(validation: Validation) -> (outcome: Result<ValidationReport, QueryError>)
    requires
        validation matches Validation::All { roots: Resolution::Resolved(roots), results }
            ==> results@.len() == roots@.len(),
    ensures
        match validation {
            Validation::Root(resolution) => match resolution.settled() {
                Ok(input) => outcome matches Ok(report) && report.profiles@.len() == 1
                    && report.profiles@[0].profile@ == input.desired.profile()
                    && report.profiles@[0].result is Ok,
                Err(error) => outcome == Err::<ValidationReport, QueryError>(error),
            },
            Validation::All { roots, results } => match roots.settled() {
                Ok(roots) => outcome matches Ok(report) && reports_roots(
                    report.profiles@,
                    roots@,
                    results@,
                ),
                Err(error) => outcome == Err::<ValidationReport, QueryError>(error),
            },
        },
{
    match validation {
        Validation::Root(resolution) => match resolve_request(resolution) {
            Ok(input) => {
                let mut profiles: Vec<ValidatedProfile> = Vec::new();
                profiles.push(
                    ValidatedProfile {
                        profile: input.desired.root_profile().clone(),
                        result: Ok(()),
                    },
                );
                Ok(ValidationReport { profiles })
            },
            Err(error) => Err(error),
        },
        Validation::All { roots, results } => match roots.settle() {
            Ok(roots) => Ok(ValidationReport { profiles: pair_roots(roots, results) }),
            Err(error) => Err(error),
        },
    }
}

/// A recorded resource and what was observed at its target.
#[derive(Debug, PartialEq, Eq)]
pub struct DiffResource {
    pub resource_id: FullyQualifiedResourceId,
    pub actual: ActualResource,
}

/// What was observed of the recorded resources.
#[derive(Debug)]
pub struct DiffReport {
    pub resources: Vec<DiffResource>,
    pub active_operation: Option<OperationRecord>,
}

/// The first look that failed.
pub open spec fn first_failure(looks: Seq<Result<ActualResource, String>>) -> Option<String>
    decreases looks.len(),
{
    if looks.len() == 0 {
        None
    } else {
        match looks[0] {
            Err(message) => Some(message),
            Ok(_) => first_failure(looks.drop_first()),
        }
    }
}

/// Why the recorded resources were not all observed. Nothing is observed when none is recorded.
pub open spec fn unobserved(known: Seq<EffectView>, observations: Observations) -> Option<String> {
    if known.len() == 0 {
        None
    } else {
        match observations {
            Observations::NoInspector { message } => Some(message),
            Observations::Looks(looks) => first_failure(looks@),
        }
    }
}

/// Whether a report pairs every recorded resource with its observation, in order.
pub open spec fn pairs(
    resources: Seq<DiffResource>,
    known: Seq<EffectView>,
    observations: Observations,
) -> bool {
    &&& resources.len() == known.len()
    &&& forall|i: int|
        0 <= i < known.len() ==> (#[trigger] resources[i]).resource_id@ == known[i].resource_id()
            && observations->Looks_0@[i] == Ok::<ActualResource, String>(resources[i].actual)
}

fn pair_looks(list: &Vec<KnownResource>, looks: Vec<Result<ActualResource, String>>) -> (outcome:
    Result<Vec<DiffResource>, String>)
    requires
        looks@.len() == list@.len(),
    ensures
        match outcome {
            Ok(resources) => first_failure(looks@) is None && pairs(
                resources@,
                known_views(list@),
                Observations::Looks(looks),
            ),
            Err(message) => first_failure(looks@) == Some(message),
        },
{
    let mut resources: Vec<DiffResource> = Vec::new();
    let mut rest = looks;
    let mut i: usize = 0;
    proof {
        assert(looks@.skip(0) =~= looks@);
    }
    while i < list.len()
        invariant
            i <= list@.len(),
            looks@.len() == list@.len(),
            rest@ == looks@.skip(i as int),
            first_failure(looks@) == first_failure(rest@),
            resources@.len() == i,
            forall|k: int|
                0 <= k < i ==> (#[trigger] resources@[k]).resource_id@ == known_views(
                    list@,
                )[k].resource_id() && looks@[k] == Ok::<ActualResource, String>(
                    resources@[k].actual,
                ),
        decreases list.len() - i,
    {
        let ghost before = rest@;
        let ghost so_far = resources@;
        let look = rest.remove(0);
        proof {
            assert(rest@ =~= before.drop_first());
            assert(rest@ =~= looks@.skip(i + 1));
        }
        match look {
            Ok(actual) => {
                resources.push(
                    DiffResource { resource_id: list[i].resource_id().clone(), actual },
                );
                assert(forall|k: int| 0 <= k < i ==> #[trigger] resources@[k] == so_far[k]);
            },
            Err(message) => return Err(message),
        }
        i += 1;
    }
    Ok(resources)
}

/// What is looked at for the recorded resources: the target of each, for what is on record of it, in
/// order.
pub fn known_inspections(known: &KnownState) -> (inspections: Vec<StatusInspection>)
    ensures
        inspections@.len() == known.listing().len(),
        forall|i: int|
            0 <= i < inspections@.len() ==> looks_for(
                #[trigger] inspections@[i],
                known.listing()[i],
                true,
            ),
{
    let list = known.resources();
    let mut inspections: Vec<StatusInspection> = Vec::new();
    let mut i: usize = 0;
    assert(known_views(list@).len() == list@.len());
    while i < list.len()
        invariant
            i <= list@.len(),
            inspections@.len() == i,
            known_views(list@) == known.listing(),
            forall|k: int|
                0 <= k < i ==> looks_for(#[trigger] inspections@[k], known.listing()[k], true),
        decreases list.len() - i,
    {
        let ghost before = inspections@;
        inspections.push(inspection_of_known(&list[i]));
        proof {
            assert(known.listing()[i as int] == list@[i as int]@);
            assert(forall|k: int| 0 <= k < i ==> #[trigger] inspections@[k] == before[k]);
        }
        i += 1;
    }
    inspections
}

/// What is observed of the recorded resources, without any access to a declaration.
pub fn diff(state: Result<LoadedState, StateRepositoryError>, observations: Observations) -> (outcome:
    Result<DiffReport, QueryError>)
    requires
        state matches Ok(state) ==> looked_at_all(observations, state.known.listing().len()),
    ensures
        match state {
            Err(error) => outcome == Err::<DiffReport, QueryError>(QueryError::State(error)),
            Ok(state) => match unobserved(state.known.listing(), observations) {
                Some(message) => outcome == Err::<DiffReport, QueryError>(
                    QueryError::Inspection { message },
                ),
                None => outcome matches Ok(report) && report.active_operation
                    == state.active_operation && pairs(
                    report.resources@,
                    state.known.listing(),
                    observations,
                ),
            },
        },
{
    let state = match state {
        Ok(state) => state,
        Err(error) => return Err(QueryError::State(error)),
    };
    let LoadedState { known, active_operation } = state;
    let list = known.resources();
    if list.len() == 0 {
        return Ok(DiffReport { resources: Vec::new(), active_operation });
    }
    let looks = match observations {
        Observations::NoInspector { message } => return Err(QueryError::Inspection { message }),
        Observations::Looks(looks) => looks,
    };
    match pair_looks(list, looks) {
        Ok(resources) => Ok(DiffReport { resources, active_operation }),
        Err(message) => Err(QueryError::Inspection { message }),
    }
}

/// A plan for a root profile.
#[derive(Debug)]
pub struct PlanReport {
    pub profile: ProfileId,
    pub plan: Plan,
}

/// What a read-only plan needs next. It asks for no lock, no recovery and no check of what the plan
/// would change.
#[derive(Clone, Copy, Debug, PartialEq, Eq, Structural)]
pub enum PlanningRequest {
    /// The declarations read and resolved, with their verified sources.
    Resolve,
    /// The state read.
    Load,
    /// The targets observed and a plan made of what is desired, recorded and observed.
    Plan,
    /// Nothing more.
    Finished,
}

/// The answer to a request.
#[derive(Debug)]
pub enum PlanningReply {
    Resolved { resolution: Resolution<ResolvedApplyInput> },
    Loaded { outcome: Result<LoadedState, StateRepositoryError> },
    /// What the observation says where it failed.
    Planned { outcome: Result<Plan, String> },
}

/// A read-only plan under way: what was resolved, what was read, and how it ended.
pub struct PlanningView {
    pub input: Option<ResolvedApplyInput>,
    pub state: Option<LoadedState>,
    /// The root profile with its plan, or the first thing that failed.
    pub ended: Option<Result<(Seq<char>, PlanView), QueryError>>,
}

/// A read-only plan at its start.
pub open spec fn planning_start() -> PlanningView {
    PlanningView { input: None, state: None, ended: None }
}

impl PlanningView {
    /// What is needed next: the declarations, then the state, then the plan.
    pub open spec fn request(self) -> PlanningRequest {
        if self.ended is Some {
            PlanningRequest::Finished
        } else if self.input is None {
            PlanningRequest::Resolve
        } else if self.state is None {
            PlanningRequest::Load
        } else {
            PlanningRequest::Plan
        }
    }

    /// The plan that failed.
    pub open spec fn failed(self, error: QueryError) -> PlanningView {
        PlanningView { ended: Some(Err(error)), ..self }
    }

    /// The plan after an answer. An answer to another question changes nothing.
    pub open spec fn answered(self, reply: PlanningReply) -> PlanningView {
        match (self.request(), reply) {
            (PlanningRequest::Resolve, PlanningReply::Resolved { resolution }) =>
                match resolution.settled() {
                Err(error) => self.failed(error),
                Ok(input) => PlanningView { input: Some(input), ..self },
            },
            (PlanningRequest::Load, PlanningReply::Loaded { outcome }) => match outcome {
                Err(error) => self.failed(QueryError::State(error)),
                Ok(state) => PlanningView { state: Some(state), ..self },
            },
            (PlanningRequest::Plan, PlanningReply::Planned { outcome }) => match outcome {
                Err(message) => self.failed(QueryError::Inspection { message }),
                Ok(plan) => PlanningView {
                    ended: Some(Ok((self.input->0.desired.profile(), plan@))),
                    ..self
                },
            },
            _ => self,
        }
    }

    /// What every read-only plan keeps: the state is read only after the declarations were
    /// resolved, and a plan is reported only of both.
    pub open spec fn sound(self) -> bool {
        &&& self.state is Some ==> self.input is Some
        &&& self.ended matches Some(Ok(report)) ==> {
            &&& self.state is Some
            &&& report.0 == self.input->0.desired.profile()
        }
    }
}

/// Every read-only plan keeps what it promises, whatever it is answered.
pub proof fn planning_stays_sound(planning: PlanningView, reply: PlanningReply)
    requires
        planning.sound(),
    ensures
        planning.answered(reply).sound(),
{
}

/// A declaration that cannot be resolved comes before a state that cannot be read, and that before
/// a target that cannot be observed: with three answers in turn, the first that fails decides.
pub proof fn first_failure_of_a_plan_decides(
    resolution: Resolution<ResolvedApplyInput>,
    state: Result<LoadedState, StateRepositoryError>,
    planned: Result<Plan, String>,
)
    ensures
        planning_start().answered(PlanningReply::Resolved { resolution }).answered(
            PlanningReply::Loaded { outcome: state },
        ).answered(PlanningReply::Planned { outcome: planned }).ended == Some(
            match (resolution.settled(), state, planned) {
                (Err(error), _, _) => Err(error),
                (_, Err(error), _) => Err(QueryError::State(error)),
                (_, _, Err(message)) => Err(QueryError::Inspection { message }),
                (Ok(input), Ok(_), Ok(plan)) => Ok((input.desired.profile(), plan@)),
            },
        ),
{
}

/// A read-only plan under way.
#[derive(Debug)]
pub struct PlanningSession {
    input: Option<ResolvedApplyInput>,
    state: Option<LoadedState>,
    ended: Option<Result<PlanReport, QueryError>>,
}

/// The root profile with its plan, or what failed, once there is one.
pub open spec fn planned_view(ended: Option<Result<PlanReport, QueryError>>) -> Option<
    Result<(Seq<char>, PlanView), QueryError>,
> {
    match ended {
        Some(Ok(report)) => Some(Ok((report.profile@, report.plan@))),
        Some(Err(error)) => Some(Err(error)),
        None => None,
    }
}

impl View for PlanningSession {
    type V = PlanningView;

    closed spec fn view(&self) -> PlanningView {
        PlanningView { input: self.input, state: self.state, ended: planned_view(self.ended) }
    }
}

/// Starts a plan without a lock, a recovery or a check of what it would change.
pub fn plan_request() -> (session: PlanningSession)
    ensures
        session@ == planning_start(),
{
    PlanningSession { input: None, state: None, ended: None }
}

impl PlanningSession {
    #[verifier::type_invariant]
    spec fn keeps(self) -> bool {
        self@.sound()
    }

    /// What the plan needs next.
    pub fn request(&self) -> (request: PlanningRequest)
        ensures
            request == self@.request(),
            self@.sound(),
    {
        proof {
            use_type_invariant(self);
        }
        if self.ended.is_some() {
            PlanningRequest::Finished
        } else if self.input.is_none() {
            PlanningRequest::Resolve
        } else if self.state.is_none() {
            PlanningRequest::Load
        } else {
            PlanningRequest::Plan
        }
    }

    /// Takes the answer to the last request.
    pub fn answer(self, reply: PlanningReply) -> (next: Self)
        ensures
            next@ == self@.answered(reply),
    {
        proof {
            use_type_invariant(&self);
            planning_stays_sound(self@, reply);
        }
        let request = self.request();
        let PlanningSession { input, state, ended } = self;
        match (request, reply) {
            (PlanningRequest::Resolve, PlanningReply::Resolved { resolution }) =>
                match resolve_request(resolution) {
                Err(error) => PlanningSession { input, state, ended: Some(Err(error)) },
                Ok(resolved) => PlanningSession { input: Some(resolved), state, ended },
            },
            (PlanningRequest::Load, PlanningReply::Loaded { outcome }) => match outcome {
                Err(error) => PlanningSession {
                    input,
                    state,
                    ended: Some(Err(QueryError::State(error))),
                },
                Ok(loaded) => PlanningSession { input, state: Some(loaded), ended },
            },
            (PlanningRequest::Plan, PlanningReply::Planned { outcome }) => match outcome {
                Err(message) => PlanningSession {
                    input,
                    state,
                    ended: Some(Err(QueryError::Inspection { message })),
                },
                Ok(plan) => {
                    let profile = match &input {
                        Some(input) => input.desired.root_profile().clone(),
                        None => {
                            assert(false);
                            return PlanningSession { input, state, ended };
                        },
                    };
                    PlanningSession { input, state, ended: Some(Ok(PlanReport { profile, plan })) }
                },
            },
            _ => PlanningSession { input, state, ended },
        }
    }

    /// The desired resources and their sources, once they have been resolved.
    pub fn input(&self) -> (input: Option<&ResolvedApplyInput>)
        ensures
            match input {
                Some(input) => self@.input == Some(*input),
                None => self@.input is None,
            },
    {
        match &self.input {
            Some(input) => Some(input),
            None => None,
        }
    }

    /// The state, once it has been read.
    pub fn state(&self) -> (state: Option<&LoadedState>)
        ensures
            match state {
                Some(state) => self@.state == Some(*state),
                None => self@.state is None,
            },
    {
        match &self.state {
            Some(state) => Some(state),
            None => None,
        }
    }

    /// What the plan came to, once it has ended.
    pub fn finish(self) -> (ended: Option<Result<PlanReport, QueryError>>)
        ensures
            planned_view(ended) == self@.ended,
    {
        self.ended
    }
}

spec fn marker(id: Seq<char>) -> EffectView {
    EffectView::Link(
        LinkView { resource_id: id, source_path: id, target_path: id, link_target: id },
    )
}

spec fn markers(rows: Seq<RowView>) -> Seq<EffectView> {
    Seq::new(rows.len(), |i: int| marker(rows[i].resource_id))
}

proof fn lemma_markers(rows: Seq<RowView>)
    requires
        rows_ordered(rows),
    ensures
        sorted(markers(rows)),
        forall|id: Seq<char>|
            #[trigger] by_id(markers(rows)).contains_key(id) <==> has_row(rows, id),
        forall|id: Seq<char>| #[trigger]
            by_id(markers(rows)).contains_key(id) ==> by_id(markers(rows))[id] == marker(id),
{
    let list = markers(rows);
    assert forall|id: Seq<char>| #[trigger] by_id(list).contains_key(id) <==> has_row(rows, id) by {
        if by_id(list).contains_key(id) {
            let i = choose|i: int| 0 <= i < list.len() && (#[trigger] list[i]).resource_id() == id;
            assert(rows[i].resource_id == id);
        }
        if has_row(rows, id) {
            let i = choose|i: int| 0 <= i < rows.len() && (#[trigger] rows[i]).resource_id == id;
            assert(list[i].resource_id() == id);
        }
    }
    assert forall|id: Seq<char>| #[trigger] by_id(list).contains_key(id) implies by_id(list)[id]
        == marker(id) by {
        let i = choose|i: int| 0 <= i < list.len() && (#[trigger] list[i]).resource_id() == id;
        assert(list[i] == marker(rows[i].resource_id));
    }
}

/// What a status reports is settled by what is desired and what is recorded: there is only one
/// way to list the two, whatever the order in which they were read.
pub proof fn status_lists_the_union_in_one_way(
    left: Seq<RowView>,
    right: Seq<RowView>,
    desired: Map<Seq<char>, EffectView>,
    known: Map<Seq<char>, EffectView>,
)
    requires
        lists_union(left, desired, known),
        lists_union(right, desired, known),
    ensures
        left == right,
{
    lemma_markers(left);
    lemma_markers(right);
    let a = by_id(markers(left));
    let b = by_id(markers(right));
    assert forall|id: Seq<char>| has_row(left, id) <==> #[trigger] has_row(right, id) by {
        if has_row(left, id) {
            let i = choose|i: int| 0 <= i < left.len() && (#[trigger] left[i]).resource_id == id;
            assert(fits_row(left[i], desired, known));
        }
        if has_row(right, id) {
            let i = choose|i: int| 0 <= i < right.len() && (#[trigger] right[i]).resource_id == id;
            assert(fits_row(right[i], desired, known));
            assert(has_row(left, id));
        }
    }
    assert forall|id: Seq<char>| a.contains_key(id) <==> #[trigger] b.contains_key(id) by {
        assert(has_row(left, id) <==> has_row(right, id));
    }
    assert(a =~= b);
    lemma_sorted_unique(markers(left), markers(right));
    assert(left.len() == markers(left).len() == markers(right).len() == right.len());
    assert forall|i: int| 0 <= i < left.len() implies #[trigger] left[i] == right[i] by {
        assert(markers(left)[i] == markers(right)[i]);
        assert(markers(left)[i].resource_id() == left[i].resource_id);
        assert(markers(right)[i].resource_id() == right[i].resource_id);
        assert(fits_row(left[i], desired, known));
        assert(fits_row(right[i], desired, known));
    }
    assert(left =~= right);
}

/// A configuration that was not read, or is wrong, is answered with what was said of it, and one that
/// was read is taken as it is.
pub proof fn configuration_is_taken_as_it_was_read(
    path: ResolvedPath,
    text: ConfigurationText,
    outcome: Result<EnvironmentConfig, QueryError>,
)
    requires
        call_ensures(load_environment, (path, text), outcome),
    ensures
        outcome is Ok <==> text is Parsed,
        (outcome matches Ok(configuration) ==> text == ConfigurationText::Parsed(configuration)),
        (text matches ConfigurationText::Unreadable { message } ==> (outcome matches Err(
            QueryError::ConfigurationRead { path: named, message: said },
        ) && named == path && said == message)),
        (text matches ConfigurationText::Invalid { message } ==> (outcome matches Err(
            QueryError::Configuration { message: said },
        ) && said == message)),
{
}

/// A configuration is valid exactly if its stores resolve, its roots can be discovered, and its
/// default profile, where one is set, resolves. A check that fails is answered only where every check
/// before it passed.
pub proof fn configuration_is_valid_exactly_if_every_check_passes(
    configuration: EnvironmentConfig,
    checks: ConfigurationChecks,
    outcome: Result<EnvironmentConfig, QueryError>,
)
    requires
        call_ensures(validate_configuration, (configuration, checks), outcome),
    ensures
        outcome is Ok <==> checks.stores is Ok && checks.roots is Ok && (
        configuration.default_profile is None || checks.default_profile is Ok),
        (outcome matches Ok(valid) ==> valid == configuration),
        (checks.stores matches Err(error) ==> outcome == Err::<EnvironmentConfig, QueryError>(
            QueryError::Resolution(error),
        )),
        checks.stores is Ok ==> (checks.roots matches Err(error) ==> outcome == Err::<
            EnvironmentConfig,
            QueryError,
        >(QueryError::Resolution(error))),
        checks.stores is Ok && checks.roots is Ok && configuration.default_profile is Some ==> (
        checks.default_profile matches Err(error) ==> outcome == Err::<
            EnvironmentConfig,
            QueryError,
        >(QueryError::Resolution(error))),
{
}

/// The selected configuration, and a candidate for it, are checked alike once they are read.
pub proof fn candidate_is_checked_like_the_configuration(
    path: ResolvedPath,
    configuration: EnvironmentConfig,
    message: String,
    checks: ConfigurationChecks,
    selected: Result<EnvironmentConfig, QueryError>,
    candidate: Result<EnvironmentConfig, QueryError>,
    validated: Result<EnvironmentConfig, QueryError>,
    refused: Result<EnvironmentConfig, QueryError>,
    declined: Result<EnvironmentConfig, QueryError>,
)
    requires
        call_ensures(
            self::configuration,
            (path, ConfigurationText::Parsed(configuration), checks),
            selected,
        ),
        call_ensures(configuration_candidate, (Ok(configuration), checks), candidate),
        call_ensures(validate_configuration, (configuration, checks), validated),
        call_ensures(
            self::configuration,
            (path, ConfigurationText::Invalid { message }, checks),
            refused,
        ),
        call_ensures(configuration_candidate, (Err(message), checks), declined),
    ensures
        selected == validated,
        candidate == validated,
        refused == Err::<EnvironmentConfig, QueryError>(QueryError::Configuration { message }),
        declined == Err::<EnvironmentConfig, QueryError>(QueryError::Configuration { message }),
{
}

/// A report on a configuration has its path, its default profile and its stores. A configuration that
/// is not valid comes before a store that does not resolve.
pub proof fn configuration_is_reported_whole(
    path: ResolvedPath,
    configuration: Result<EnvironmentConfig, QueryError>,
    stores: Result<Vec<StorePath>, ResolverError>,
    outcome: Result<ConfigurationReport, QueryError>,
)
    requires
        call_ensures(configuration_report, (path, configuration, stores), outcome),
    ensures
        outcome is Ok <==> configuration is Ok && stores is Ok,
        (configuration matches Err(error) ==> outcome == Err::<ConfigurationReport, QueryError>(
            error,
        )),
        configuration is Ok ==> (stores matches Err(error) ==> outcome == Err::<
            ConfigurationReport,
            QueryError,
        >(QueryError::Resolution(error))),
        (outcome matches Ok(report) ==> report.configuration_path == path && report.default_profile
            == configuration->Ok_0.default_profile && report.stores == stores->Ok_0),
{
}

/// A field names the path of a store exactly if it is written as one, around the identity of the
/// store.
pub proof fn field_names_a_store_around_its_identity(field: &str, store: Option<String>, id: Seq<char>)
    requires
        call_ensures(field_store, (field,), store),
    ensures
        (store matches Some(store) && store@ == id) <==> field@ == "stores."@ + id
            + ".properties.path"@,
{
    let prefix = "stores."@;
    let suffix = ".properties.path"@;
    let text = field@;
    if text == prefix + id + suffix {
        assert(text.take(prefix.len() as int) =~= prefix);
        assert(text.skip(text.len() - suffix.len()) =~= suffix);
        assert(text.subrange(prefix.len() as int, text.len() - suffix.len()) =~= id);
    }
    if store_of_field(text) == Some(id) {
        assert(text =~= text.take(prefix.len() as int) + text.subrange(
            prefix.len() as int,
            text.len() - suffix.len(),
        ) + text.skip(text.len() - suffix.len()));
    }
}

/// The path of a store is that of the first store with its identity, and there is none exactly if no
/// store has it.
pub proof fn path_is_that_of_the_first_store(stores: Seq<StorePath>, store_id: Seq<char>)
    ensures
        path_of_store(stores, store_id) is None <==> forall|i: int|
            0 <= i < stores.len() ==> (#[trigger] stores[i]).store_id@ != store_id,
        (path_of_store(stores, store_id) matches Some(path) ==> exists|i: int|
            0 <= i < stores.len() && (#[trigger] stores[i]).store_id@ == store_id && stores[i].path
                == path && forall|k: int|
                0 <= k < i ==> (#[trigger] stores[k]).store_id@ != store_id),
    decreases stores.len(),
{
    if stores.len() > 0 {
        if stores[0].store_id@ != store_id {
            let rest = stores.drop_first();
            path_is_that_of_the_first_store(rest, store_id);
            if path_of_store(stores, store_id) is None {
                assert forall|i: int| 0 <= i < stores.len() implies (
                #[trigger] stores[i]).store_id@ != store_id by {
                    if i > 0 {
                        assert(rest[i - 1].store_id@ != store_id);
                    }
                }
            } else {
                let path = path_of_store(stores, store_id)->0;
                let i = choose|i: int|
                    0 <= i < rest.len() && (#[trigger] rest[i]).store_id@ == store_id
                        && rest[i].path == path && forall|k: int|
                        0 <= k < i ==> (#[trigger] rest[k]).store_id@ != store_id;
                assert(stores[i + 1].store_id@ == store_id && stores[i + 1].path == path);
                assert forall|k: int| 0 <= k < i + 1 implies (#[trigger] stores[k]).store_id@
                    != store_id by {
                    if k > 0 {
                        assert(rest[k - 1].store_id@ != store_id);
                    }
                }
            }
        }
    }
}

/// A field of a configuration is its default profile, set or not, or the path of one of its stores.
/// Every other field is refused by its name, and a field of an invalid configuration by what is wrong
/// with that.
pub proof fn field_is_the_default_profile_or_a_store(
    path: ResolvedPath,
    configuration: EnvironmentConfig,
    stores: Vec<StorePath>,
    field: &str,
    store_id: Seq<char>,
    outcome: Result<ConfigurationValueReport, QueryError>,
)
    requires
        call_ensures(
            configuration_value,
            (
                path,
                Ok::<EnvironmentConfig, QueryError>(configuration),
                Ok::<Vec<StorePath>, ResolverError>(stores),
                field,
            ),
            outcome,
        ),
    ensures
        field@ == "default_profile"@ ==> (outcome matches Ok(report) && report.value
            == ConfigurationValue::DefaultProfile(configuration.default_profile)
            && report.configuration_path == path),
        field@ == "stores."@ + store_id + ".properties.path"@ ==> match outcome {
            Ok(report) => report.configuration_path == path && (report.value matches
                ConfigurationValue::StorePath(value) && exists|i: int|
                0 <= i < stores@.len() && (#[trigger] stores@[i]).store_id@ == store_id
                    && stores@[i].path == value),
            Err(error) => (error matches QueryError::ConfigField(named) && named@ == field@)
                && forall|i: int|
                0 <= i < stores@.len() ==> (#[trigger] stores@[i]).store_id@ != store_id,
        },
        field@ != "default_profile"@ && (forall|id: Seq<char>|
            field@ != #[trigger] ("stores."@ + id) + ".properties.path"@) ==> (outcome matches Err(
            QueryError::ConfigField(named),
        ) && named@ == field@),
{
    let prefix = "stores."@;
    let suffix = ".properties.path"@;
    let text = field@;
    path_is_that_of_the_first_store(stores@, store_id);
    reveal_strlit("stores.");
    reveal_strlit("default_profile");
    if text == prefix + store_id + suffix {
        assert(text[0] == 's');
        assert(text.take(prefix.len() as int) =~= prefix);
        assert(text.skip(text.len() - suffix.len()) =~= suffix);
        assert(text.subrange(prefix.len() as int, text.len() - suffix.len()) =~= store_id);
    }
    if text != "default_profile"@ && store_of_field(text) is Some {
        let id = store_of_field(text)->0;
        assert(text =~= (prefix + id) + suffix) by {
            assert(text =~= text.take(prefix.len() as int) + text.subrange(
                prefix.len() as int,
                text.len() - suffix.len(),
            ) + text.skip(text.len() - suffix.len()));
        }
    }
}

/// What was resolved is what is answered with, and nothing is resolved without a configuration.
pub proof fn resolution_is_answered_as_it_came(
    resolution: Resolution<ResolvedApplyInput>,
    outcome: Result<ResolvedApplyInput, QueryError>,
)
    requires
        call_ensures(resolve_request, (resolution,), outcome),
    ensures
        (outcome matches Ok(input) ==> resolution == Resolution::Resolved(input)),
        (resolution matches Resolution::Resolved(input) ==> outcome == Ok::<
            ResolvedApplyInput,
            QueryError,
        >(input)),
        (resolution matches Resolution::Unconfigured(error) ==> outcome == Err::<
            ResolvedApplyInput,
            QueryError,
        >(error)),
        (resolution matches Resolution::Unresolved(error) ==> outcome == Err::<
            ResolvedApplyInput,
            QueryError,
        >(QueryError::Resolution(error))),
{
}

/// What is desired is what is answered with, and nothing is desired without a configuration.
pub proof fn desired_resolution_is_answered_as_it_came(
    resolution: Resolution<ResolvedDesired>,
    outcome: Result<ResolvedDesired, QueryError>,
    report: Result<DesiredResourcesReport, QueryError>,
)
    requires
        call_ensures(resolve_desired, (resolution,), outcome),
        call_ensures(desired_resources, (resolution,), report),
    ensures
        (resolution matches Resolution::Resolved(desired) ==> outcome == Ok::<
            ResolvedDesired,
            QueryError,
        >(desired)),
        (resolution matches Resolution::Unconfigured(error) ==> outcome == Err::<
            ResolvedDesired,
            QueryError,
        >(error)),
        (resolution matches Resolution::Unresolved(error) ==> outcome == Err::<
            ResolvedDesired,
            QueryError,
        >(QueryError::Resolution(error))),
        report is Ok <==> outcome is Ok,
        (report matches Err(error) ==> outcome == Err::<ResolvedDesired, QueryError>(error)),
        (report matches Ok(report) ==> report.root_profile@ == outcome->Ok_0.profile()
            && report.resources@.len() == outcome->Ok_0@.len() && forall|i: int|
            0 <= i < report.resources@.len() ==> (#[trigger] report.resources@[i])@
                == outcome->Ok_0@[i]),
{
    if let Ok(report) = report {
        let views = resolved_views(report.resources@);
        assert forall|i: int| 0 <= i < report.resources@.len() implies (
        #[trigger] report.resources@[i])@ == outcome->Ok_0@[i] by {
            assert(views[i] == report.resources@[i]@);
        }
    }
}

/// A profile is shown exactly if it is declared, and it is the first one with its identity.
pub proof fn profile_is_shown_exactly_if_it_is_declared(
    profiles: Vec<DeclaredProfile>,
    profile_id: ProfileId,
    outcome: Result<Option<ProfileShowReport>, QueryError>,
)
    requires
        call_ensures(profile, (Resolution::Resolved(profiles), &profile_id), outcome),
    ensures
        outcome is Ok,
        outcome->Ok_0 is None <==> forall|i: int|
            0 <= i < profiles@.len() ==> (#[trigger] profiles@[i]).id@ != profile_id@,
        (outcome->Ok_0 matches Some(report) ==> exists|i: int|
            0 <= i < profiles@.len() && #[trigger] profiles@[i] == report.profile
                && report.profile.id@ == profile_id@),
{
    lemma_profile_of(profiles@, profile_id@);
}

proof fn lemma_profile_of(profiles: Seq<DeclaredProfile>, id: Seq<char>)
    ensures
        profile_of(profiles, id) is None <==> forall|i: int|
            0 <= i < profiles.len() ==> (#[trigger] profiles[i]).id@ != id,
        (profile_of(profiles, id) matches Some(found) ==> exists|i: int|
            0 <= i < profiles.len() && #[trigger] profiles[i] == found && found.id@ == id),
    decreases profiles.len(),
{
    if profiles.len() > 0 {
        if profiles[0].id@ != id {
            let rest = profiles.drop_first();
            lemma_profile_of(rest, id);
            if profile_of(profiles, id) is None {
                assert forall|i: int| 0 <= i < profiles.len() implies (#[trigger] profiles[i]).id@
                    != id by {
                    if i > 0 {
                        assert(rest[i - 1].id@ != id);
                    }
                }
            } else {
                let i = choose|i: int|
                    0 <= i < rest.len() && #[trigger] rest[i] == profile_of(profiles, id)->0;
                assert(profiles[i + 1] == rest[i]);
            }
        }
    }
}

/// What is looked at for a resource: what is on record of it, as ours, or else what is desired of it,
/// as not ours. It is looked at where the effect stands, and for the content of the effect.
pub proof fn record_is_looked_at_before_the_desire(
    row: StatusRow,
    inspection: Option<StatusInspection>,
)
    requires
        call_ensures(StatusRow::inspection, (&row,), inspection),
    ensures
        inspection is None <==> row.desired is None && row.known is None,
        (inspection matches Some(inspection) ==> (inspection.recorded <==> row.known is Some)),
        (inspection matches Some(inspection) ==> {
            let effect = if row.known is Some {
                row.known->0@
            } else {
                row.desired->0@
            };
            match effect {
                EffectView::Link(link) => inspection.target_path@ == link.target_path && (
                inspection.expected matches ExpectedContent::Link(target) && target@
                    == link.link_target),
                EffectView::Copy(copy) => inspection.target_path@ == copy.target_path && (
                inspection.expected matches ExpectedContent::Copy(content) && content@
                    == copy.content_fingerprint),
            }
        }),
{
}

/// The first look that failed decides, and none failed exactly if every look was made.
pub proof fn first_failed_look_decides(looks: Seq<Result<ActualResource, String>>)
    ensures
        first_failure(looks) is None <==> forall|i: int|
            0 <= i < looks.len() ==> (#[trigger] looks[i]) is Ok,
        (first_failure(looks) matches Some(message) ==> exists|i: int|
            0 <= i < looks.len() && #[trigger] looks[i] == Err::<ActualResource, String>(message)
                && forall|k: int| 0 <= k < i ==> (#[trigger] looks[k]) is Ok),
    decreases looks.len(),
{
    if looks.len() > 0 {
        if looks[0] is Ok {
            let rest = looks.drop_first();
            first_failed_look_decides(rest);
            if first_failure(looks) is None {
                assert forall|i: int| 0 <= i < looks.len() implies (#[trigger] looks[i]) is Ok by {
                    if i > 0 {
                        assert(rest[i - 1] is Ok);
                    }
                }
            } else {
                let message = first_failure(looks)->0;
                let i = choose|i: int|
                    0 <= i < rest.len() && #[trigger] rest[i] == Err::<ActualResource, String>(
                        message,
                    ) && forall|k: int| 0 <= k < i ==> (#[trigger] rest[k]) is Ok;
                assert(looks[i + 1] == rest[i]);
                assert forall|k: int| 0 <= k < i + 1 implies (#[trigger] looks[k]) is Ok by {
                    if k > 0 {
                        assert(rest[k - 1] is Ok);
                    }
                }
            }
        }
    }
}

/// What is reported of a target is what the look at it showed, and nothing is reported as seen
/// without a look.
pub proof fn target_is_reported_as_it_was_seen(observations: Observations, i: int)
    ensures
        (observations matches Observations::Looks(looks) ==> (seen(observations, i) matches
            StatusActual::Available(actual) ==> looks@[i] == Ok::<ActualResource, String>(actual))),
        (observations matches Observations::Looks(looks) ==> (looks@[i] is Ok <==> seen(
            observations,
            i,
        ) is Available)),
        (observations matches Observations::Looks(looks) ==> (looks@[i] matches Err(message)
            ==> seen(observations, i) == StatusActual::Unavailable(
            StatusUnavailable::Observation { message },
        ))),
        observations is NoInspector ==> seen(observations, i) == StatusActual::Unavailable(
            StatusUnavailable::InspectorInitialization,
        ),
{
}

/// A read-only plan asks first for the declarations, then for the state, then for the plan, and then
/// for nothing more.
pub proof fn planning_asks_in_order(planning: PlanningView)
    ensures
        planning.request() is Finished <==> planning.ended is Some,
        planning.request() is Resolve <==> planning.ended is None && planning.input is None,
        planning.request() is Load <==> planning.ended is None && planning.input is Some
            && planning.state is None,
        planning.request() is Plan <==> planning.ended is None && planning.input is Some
            && planning.state is Some,
{
}

/// The recorded resources are compared exactly if every one of them was looked at. Each is reported
/// with what was seen of it, in order, and nothing has to be looked at where nothing is on record.
pub proof fn record_is_compared_exactly_if_all_of_it_was_seen(
    state: LoadedState,
    observations: Observations,
    outcome: Result<DiffReport, QueryError>,
)
    requires
        looked_at_all(observations, state.known.listing().len()),
        call_ensures(diff, (Ok::<LoadedState, StateRepositoryError>(state), observations), outcome),
    ensures
        outcome is Ok <==> state.known.listing().len() == 0 || (observations matches
            Observations::Looks(looks) && forall|i: int|
            0 <= i < looks@.len() ==> (#[trigger] looks@[i]) is Ok),
        (outcome matches Ok(report) ==> report.active_operation == state.active_operation
            && report.resources@.len() == state.known.listing().len() && forall|i: int|
            0 <= i < report.resources@.len() ==> (#[trigger] report.resources@[i]).resource_id@
                == state.known.listing()[i].resource_id() && observations->Looks_0@[i] == Ok::<
                ActualResource,
                String,
            >(report.resources@[i].actual)),
        (outcome matches Err(error) ==> (error matches QueryError::Inspection { message } && (
        observations matches Observations::NoInspector { message: said } ==> said == message))),
{
    if let Observations::Looks(looks) = observations {
        first_failed_look_decides(looks@);
    }
}

/// A state that cannot be read is what every comparison with it is answered with.
pub proof fn unread_state_is_answered_as_it_came(
    error: StateRepositoryError,
    observations: Observations,
    resolution: Resolution<ResolvedDesired>,
    compared: Result<DiffReport, QueryError>,
    listed: Result<KnownResourcesReport, QueryError>,
    drafted: Result<StatusDraft, QueryError>,
)
    requires
        call_ensures(diff, (Err::<LoadedState, StateRepositoryError>(error), observations), compared),
        call_ensures(known_resources, (Err::<LoadedState, StateRepositoryError>(error),), listed),
        call_ensures(status, (Err::<LoadedState, StateRepositoryError>(error), resolution), drafted),
    ensures
        compared == Err::<DiffReport, QueryError>(QueryError::State(error)),
        listed == Err::<KnownResourcesReport, QueryError>(QueryError::State(error)),
        drafted == Err::<StatusDraft, QueryError>(QueryError::State(error)),
{
}

/// A status has exactly one row for every resource that is desired or on record, with both sides of
/// it, and keeps the operation that is open.
pub proof fn status_has_a_row_for_every_resource(
    state: LoadedState,
    desired: ResolvedDesired,
    draft: StatusDraft,
    root_profile: ProfileId,
    rows: Vec<StatusRow>,
    id: Seq<char>,
)
    requires
        call_ensures(
            status,
            (
                Ok::<LoadedState, StateRepositoryError>(state),
                Resolution::Resolved(desired),
            ),
            Ok::<StatusDraft, QueryError>(draft),
        ),
        draft.desired == (StatusRows::Available { root_profile, rows }),
    ensures
        draft.active_operation == state.active_operation,
        root_profile@ == desired.profile(),
        (exists|i: int| 0 <= i < rows@.len() && (#[trigger] rows@[i]).resource_id@ == id)
            <==> by_id(desired@).contains_key(id) || state.known@.contains_key(id),
        forall|i: int|
            0 <= i < rows@.len() ==> {
                let row = #[trigger] rows@[i];
                &&& row.desired is Some <==> by_id(desired@).contains_key(row.resource_id@)
                &&& row.desired matches Some(wanted) ==> wanted@ == by_id(
                    desired@,
                )[row.resource_id@]
                &&& row.known is Some <==> state.known@.contains_key(row.resource_id@)
                &&& row.known matches Some(recorded) ==> recorded@
                    == state.known@[row.resource_id@]
            },
        forall|i: int, j: int|
            0 <= i < j < rows@.len() ==> precedes(
                (#[trigger] rows@[i]).resource_id@,
                (#[trigger] rows@[j]).resource_id@,
            ),
{
    let views = row_views(rows@);
    assert forall|i: int| 0 <= i < rows@.len() implies fits_row(
        (#[trigger] rows@[i])@,
        by_id(desired@),
        state.known@,
    ) by {
        assert(views[i] == rows@[i]@);
        assert(fits_row(views[i], by_id(desired@), state.known@));
    }
    if by_id(desired@).contains_key(id) || state.known@.contains_key(id) {
        assert(has_row(views, id));
        let i = choose|i: int| 0 <= i < views.len() && (#[trigger] views[i]).resource_id == id;
        assert(rows@[i].resource_id@ == id);
    }
    if exists|i: int| 0 <= i < rows@.len() && (#[trigger] rows@[i]).resource_id@ == id {
        let i = choose|i: int| 0 <= i < rows@.len() && (#[trigger] rows@[i]).resource_id@ == id;
        assert(fits_row(rows@[i]@, by_id(desired@), state.known@));
    }
    assert forall|i: int, j: int| 0 <= i < j < rows@.len() implies precedes(
        (#[trigger] rows@[i]).resource_id@,
        (#[trigger] rows@[j]).resource_id@,
    ) by {
        assert(precedes(views[i].resource_id, views[j].resource_id));
    }
}

/// Every discovered profile is reported with its own result, and one root profile is reported as
/// valid exactly if it resolves.
pub proof fn every_profile_is_reported_with_its_own_result(
    roots: Vec<ProfileId>,
    results: Vec<Result<(), ResolverError>>,
    input: ResolvedApplyInput,
    error: ResolverError,
    all: Result<ValidationReport, QueryError>,
    one: Result<ValidationReport, QueryError>,
    none: Result<ValidationReport, QueryError>,
)
    requires
        roots@.len() == results@.len(),
        call_ensures(
            validate,
            (Validation::All { roots: Resolution::Resolved(roots), results },),
            all,
        ),
        call_ensures(validate, (Validation::Root(Resolution::Resolved(input)),), one),
        call_ensures(validate, (Validation::Root(Resolution::Unresolved(error)),), none),
    ensures
        all matches Ok(report) && report.profiles@.len() == roots@.len() && forall|i: int|
            0 <= i < roots@.len() ==> (#[trigger] report.profiles@[i]).profile == roots@[i]
                && report.profiles@[i].result == results@[i],
        one matches Ok(report) && report.profiles@.len() == 1 && report.profiles@[0].profile@
            == input.desired.profile() && report.profiles@[0].result is Ok,
        none == Err::<ValidationReport, QueryError>(QueryError::Resolution(error)),
{
}

/// A status keeps every row, in order, with what was seen at its target, and the operation that is
/// open. It says that something could not be seen exactly if one of its targets could not be, and why
/// there was no inspector exactly if there was none. Without a declaration nothing is seen at all.
pub proof fn status_keeps_every_row_with_what_was_seen(
    draft: StatusDraft,
    observations: Observations,
    report: StatusReport,
    i: int,
)
    requires
        (draft.desired matches StatusRows::Available { rows, .. } ==> looked_at_all(
            observations,
            rows@.len(),
        )),
        call_ensures(status_with_inspector, (draft, observations), report),
    ensures
        report.active_operation == draft.active_operation,
        (draft.desired matches StatusRows::Unavailable(error) ==> report.desired
            == StatusDesired::Unavailable(error) && !report.has_unavailable_observation
            && report.inspection_initialization_error is None),
        (draft.desired matches StatusRows::Available { root_profile, rows } ==> (report.desired
            matches StatusDesired::Available { root_profile: profile, resources } && profile
            == root_profile && resources@.len() == rows@.len() && (0 <= i < rows@.len() ==> {
            &&& resources@[i].resource_id == rows@[i].resource_id
            &&& resources@[i].desired == rows@[i].desired
            &&& resources@[i].known == rows@[i].known
            &&& match observations {
                Observations::NoInspector { .. } => resources@[i].actual
                    == StatusActual::Unavailable(StatusUnavailable::InspectorInitialization),
                Observations::Looks(looks) => match looks@[i] {
                    Ok(actual) => resources@[i].actual == StatusActual::Available(actual),
                    Err(said) => resources@[i].actual == StatusActual::Unavailable(
                        StatusUnavailable::Observation { message: said },
                    ),
                },
            }
            &&& resources@[i].actual is Unavailable ==> report.has_unavailable_observation
        }))),
        draft.desired is Available ==> (report.inspection_initialization_error is Some
            <==> observations is NoInspector),
        (observations matches Observations::Looks(looks) && (forall|k: int|
            0 <= k < looks@.len() ==> (#[trigger] looks@[k]) is Ok)) ==>
            !report.has_unavailable_observation,
{
    if let StatusRows::Available { rows, .. } = draft.desired {
        let resources = report.desired->Available_resources;
        if report.has_unavailable_observation {
            let k = choose|k: int|
                0 <= k < rows@.len() && (#[trigger] resources@[k]).actual is Unavailable;
            assert(completes(resources@[k], rows@[k], seen(observations, k)));
            if let Observations::Looks(looks) = observations {
                assert(looks@[k] is Err);
            }
        }
        if 0 <= i < rows@.len() {
            assert(completes(resources@[i], rows@[i], seen(observations, i)));
        }
    }
}

} // verus!
